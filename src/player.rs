//! The playback control decisions: a queue with a cursor, a state, and the
//! action that each command or event calls for.
//!
//! Policies: loading a queue starts playback as soon as the item is loaded;
//! `Next` past the last item and the natural end of the last item stop and
//! clear the queue (no wrap-around); `Previous` on the first item reloads it;
//! a load failure is reported and playback moves on to the next item. Each
//! load carries a generation number, and a completion or failure of any
//! load but the latest is ignored, so a stale load never undoes a newer
//! command.

use crate::item_id::ItemId;
use vstd::prelude::*;

verus! {

/// The loudness normalization that an item asks for.
#[derive(Clone, Copy, Debug, PartialEq, Eq, Structural)]
pub enum NormalizationLevel {
    /// No normalization.
    Off,
    Track,
    Album,
}

/// An item to play and its normalization.
#[derive(Clone, Copy, Debug, PartialEq, Eq, Structural)]
pub struct PlaybackItem {
    pub item_id: ItemId,
    pub norm_level: NormalizationLevel,
}

/// Where playback stands.
#[derive(Clone, Copy, Debug, PartialEq, Eq, Structural)]
pub enum PlayerState {
    Idle,
    Loading,
    Playing,
    Paused,
}

/// A command from a front-end.
#[derive(Clone, Debug)]
pub enum PlayerCommand {
    LoadQueue { items: Vec<PlaybackItem>, position: usize },
    Pause,
    Resume,
    Stop,
    Next,
    Previous,
}

/// What the control loop receives: a command, or news of a load or of the
/// output.
#[derive(Clone, Debug)]
pub enum PlayerEvent {
    Command(PlayerCommand),
    Loaded { generation: u64 },
    LoadFailed { generation: u64 },
    EndOfTrack,
}

/// What the control loop is to do next.
#[derive(Clone, Copy, Debug, PartialEq, Eq, Structural)]
pub enum PlayerAction {
    /// Nothing to do.
    Nothing,
    /// Cancel any load in flight and start loading `item`.
    Load { item: PlaybackItem, generation: u64 },
    /// Start the output on the loaded item.
    Play,
    PauseOutput,
    ResumeOutput,
    /// Cancel any load in flight and release the output's stream.
    StopOutput,
    /// Report that `item` failed to load, then start loading `next`.
    SkipFailed { item: PlaybackItem, next: PlaybackItem, generation: u64 },
    /// Report that `item` failed to load; the queue is exhausted.
    StopFailed { item: PlaybackItem },
}

/// The queue, the cursor into it, the state, and the latest load's
/// generation.
pub struct Player {
    state: PlayerState,
    queue: Vec<PlaybackItem>,
    position: usize,
    generation: u64,
}

impl Player {
    pub closed spec fn state(&self) -> PlayerState {
        self.state
    }

    pub closed spec fn queue(&self) -> Seq<PlaybackItem> {
        self.queue@
    }

    pub closed spec fn position(&self) -> nat {
        self.position as nat
    }

    pub closed spec fn generation(&self) -> u64 {
        self.generation
    }

    /// Idle exactly when the queue is empty; otherwise the cursor is on an
    /// item.
    pub open spec fn wf(&self) -> bool {
        &&& (self.state() == PlayerState::Idle <==> self.queue().len() == 0)
        &&& (self.state() != PlayerState::Idle ==> self.position() < self.queue().len())
    }

    /// An idle player with an empty queue.
    pub fn new() -> (r: Player)
        ensures
            r.wf(),
            r.state() == PlayerState::Idle,
            r.generation() == 0,
    {
        Player { state: PlayerState::Idle, queue: Vec::new(), position: 0, generation: 0 }
    }

    pub fn state_now(&self) -> (r: PlayerState)
        ensures
            r == self.state(),
    {
        self.state
    }

    /// The item under the cursor, unless idle.
    pub fn current(&self) -> (r: Option<PlaybackItem>)
        requires
            self.wf(),
        ensures
            self.state() == PlayerState::Idle ==> r is None,
            self.state() != PlayerState::Idle ==> r == Some(self.queue()[self.position() as int]),
    {
        if self.state == PlayerState::Idle {
            None
        } else {
            Some(self.queue[self.position])
        }
    }

    fn load_at(&mut self, position: usize) -> (a: PlayerAction)
        requires
            position < old(self).queue@.len(),
        ensures
            final(self).state == PlayerState::Loading,
            final(self).queue == old(self).queue,
            final(self).position == position,
            final(self).generation == old(self).generation.wrapping_add(1),
            a == (PlayerAction::Load { item: old(self).queue@[position as int], generation: final(self).generation }),
    {
        self.state = PlayerState::Loading;
        self.position = position;
        self.generation = self.generation.wrapping_add(1);
        PlayerAction::Load { item: self.queue[position], generation: self.generation }
    }

    fn stop(&mut self)
        ensures
            final(self).state == PlayerState::Idle,
            final(self).queue@.len() == 0,
            final(self).position == 0,
            final(self).generation == old(self).generation.wrapping_add(1),
    {
        self.state = PlayerState::Idle;
        self.queue = Vec::new();
        self.position = 0;
        self.generation = self.generation.wrapping_add(1);
    }

    /// Moves to the item after the cursor, or stops after the last one.
    fn advance(&mut self) -> (a: PlayerAction)
        requires
            old(self).wf(),
            old(self).state != PlayerState::Idle,
        ensures
            final(self).wf(),
            old(self).position + 1 < old(self).queue@.len() ==> final(self).state == PlayerState::Loading
                && final(self).queue == old(self).queue && final(self).position == old(self).position + 1
                && a == (PlayerAction::Load {
                item: old(self).queue@[old(self).position + 1],
                generation: final(self).generation,
            }),
            old(self).position + 1 >= old(self).queue@.len() ==> final(self).state == PlayerState::Idle
                && a == PlayerAction::StopOutput,
            final(self).generation == old(self).generation.wrapping_add(1),
    {
        let n = self.queue.len();
        if self.position + 1 < n {
            self.load_at(self.position + 1)
        } else {
            self.stop();
            PlayerAction::StopOutput
        }
    }

    /// Applies one command or event and says what to do.
    pub fn handle(&mut self, event: PlayerEvent) -> (a: PlayerAction)
        requires
            old(self).wf(),
        ensures
            final(self).wf(),
            match event {
                PlayerEvent::Command(PlayerCommand::LoadQueue { items, position }) =>
                    if position < items@.len() {
                        final(self).state() == PlayerState::Loading && final(self).queue() == items@
                            && final(self).position() == position && a == (PlayerAction::Load {
                            item: items@[position as int],
                            generation: final(self).generation(),
                        })
                    } else {
                        final(self).state() == PlayerState::Idle && a == PlayerAction::StopOutput
                    },
                PlayerEvent::Command(PlayerCommand::Pause) => if old(self).state() == PlayerState::Playing {
                    final(self).state() == PlayerState::Paused && a == PlayerAction::PauseOutput
                        && final(self).queue() == old(self).queue() && final(self).position() == old(self).position()
                } else {
                    *final(self) == *old(self) && a == PlayerAction::Nothing
                },
                PlayerEvent::Command(PlayerCommand::Resume) => if old(self).state() == PlayerState::Paused {
                    final(self).state() == PlayerState::Playing && a == PlayerAction::ResumeOutput
                        && final(self).queue() == old(self).queue() && final(self).position() == old(self).position()
                } else {
                    *final(self) == *old(self) && a == PlayerAction::Nothing
                },
                PlayerEvent::Command(PlayerCommand::Stop) => if old(self).state() == PlayerState::Idle {
                    *final(self) == *old(self) && a == PlayerAction::Nothing
                } else {
                    final(self).state() == PlayerState::Idle && a == PlayerAction::StopOutput
                },
                PlayerEvent::Command(PlayerCommand::Next) | PlayerEvent::EndOfTrack =>
                    if old(self).state() == PlayerState::Idle {
                        *final(self) == *old(self) && a == PlayerAction::Nothing
                    } else if old(self).position() + 1 < old(self).queue().len() {
                        final(self).state() == PlayerState::Loading && final(self).queue() == old(self).queue()
                            && final(self).position() == old(self).position() + 1 && a == (PlayerAction::Load {
                            item: old(self).queue()[old(self).position() + 1int],
                            generation: final(self).generation(),
                        })
                    } else {
                        final(self).state() == PlayerState::Idle && a == PlayerAction::StopOutput
                    },
                PlayerEvent::Command(PlayerCommand::Previous) => if old(self).state() == PlayerState::Idle {
                    *final(self) == *old(self) && a == PlayerAction::Nothing
                } else {
                    final(self).state() == PlayerState::Loading && final(self).queue() == old(self).queue()
                        && final(self).position() == (if old(self).position() > 0 {
                        old(self).position() - 1
                    } else {
                        0
                    }) && a == (PlayerAction::Load {
                        item: old(self).queue()[final(self).position() as int],
                        generation: final(self).generation(),
                    })
                },
                PlayerEvent::Loaded { generation } =>
                    if old(self).state() == PlayerState::Loading && generation == old(self).generation() {
                        final(self).state() == PlayerState::Playing && a == PlayerAction::Play
                            && final(self).queue() == old(self).queue() && final(self).position() == old(self).position()
                    } else {
                        *final(self) == *old(self) && a == PlayerAction::Nothing
                    },
                PlayerEvent::LoadFailed { generation } =>
                    if old(self).state() == PlayerState::Loading && generation == old(self).generation() {
                        if old(self).position() + 1 < old(self).queue().len() {
                            final(self).state() == PlayerState::Loading && final(self).queue() == old(self).queue()
                                && final(self).position() == old(self).position() + 1 && a == (PlayerAction::SkipFailed {
                                item: old(self).queue()[old(self).position() as int],
                                next: old(self).queue()[old(self).position() + 1int],
                                generation: final(self).generation(),
                            })
                        } else {
                            final(self).state() == PlayerState::Idle && a == (PlayerAction::StopFailed {
                                item: old(self).queue()[old(self).position() as int],
                            })
                        }
                    } else {
                        *final(self) == *old(self) && a == PlayerAction::Nothing
                    },
            },
    {
        match event {
            PlayerEvent::Command(PlayerCommand::LoadQueue { items, position }) => {
                self.queue = items;
                if position < self.queue.len() {
                    self.load_at(position)
                } else {
                    self.stop();
                    PlayerAction::StopOutput
                }
            },
            PlayerEvent::Command(PlayerCommand::Pause) => {
                if self.state == PlayerState::Playing {
                    self.state = PlayerState::Paused;
                    PlayerAction::PauseOutput
                } else {
                    PlayerAction::Nothing
                }
            },
            PlayerEvent::Command(PlayerCommand::Resume) => {
                if self.state == PlayerState::Paused {
                    self.state = PlayerState::Playing;
                    PlayerAction::ResumeOutput
                } else {
                    PlayerAction::Nothing
                }
            },
            PlayerEvent::Command(PlayerCommand::Stop) => {
                if self.state == PlayerState::Idle {
                    PlayerAction::Nothing
                } else {
                    self.stop();
                    PlayerAction::StopOutput
                }
            },
            PlayerEvent::Command(PlayerCommand::Next) | PlayerEvent::EndOfTrack => {
                if self.state == PlayerState::Idle {
                    PlayerAction::Nothing
                } else {
                    self.advance()
                }
            },
            PlayerEvent::Command(PlayerCommand::Previous) => {
                if self.state == PlayerState::Idle {
                    PlayerAction::Nothing
                } else {
                    let p = if self.position > 0 {
                        self.position - 1
                    } else {
                        0
                    };
                    self.load_at(p)
                }
            },
            PlayerEvent::Loaded { generation } => {
                if self.state == PlayerState::Loading && generation == self.generation {
                    self.state = PlayerState::Playing;
                    PlayerAction::Play
                } else {
                    PlayerAction::Nothing
                }
            },
            PlayerEvent::LoadFailed { generation } => {
                if self.state == PlayerState::Loading && generation == self.generation {
                    let failed = self.queue[self.position];
                    match self.advance() {
                        PlayerAction::Load { item, generation } => PlayerAction::SkipFailed {
                            item: failed,
                            next: item,
                            generation,
                        },
                        _ => PlayerAction::StopFailed { item: failed },
                    }
                } else {
                    PlayerAction::Nothing
                }
            },
        }
    }
}

/// The command that a line typed at the console stands for: `p` pause,
/// `r` resume, `s` stop, `<` previous, `>` next.
pub fn command_from_line(line: &str) -> (r: Option<PlayerCommand>)
    ensures
        line@ == "p"@ <==> r matches Some(PlayerCommand::Pause),
        line@ == "r"@ <==> r matches Some(PlayerCommand::Resume),
        line@ == "s"@ <==> r matches Some(PlayerCommand::Stop),
        line@ == "<"@ <==> r matches Some(PlayerCommand::Previous),
        line@ == ">"@ <==> r matches Some(PlayerCommand::Next),
        r matches Some(PlayerCommand::LoadQueue { .. }) ==> false,
{
    proof {
        reveal_strlit("p");
        reveal_strlit("r");
        reveal_strlit("s");
        reveal_strlit("<");
        reveal_strlit(">");
        assert("p"@ =~= seq!['p']);
        assert("r"@ =~= seq!['r']);
        assert("s"@ =~= seq!['s']);
        assert("<"@ =~= seq!['<']);
        assert(">"@ =~= seq!['>']);
    }
    if line.unicode_len() != 1 {
        return None;
    }
    let c = line.get_char(0);
    assert(line@ =~= seq![c]);
    if c == 'p' {
        Some(PlayerCommand::Pause)
    } else if c == 'r' {
        Some(PlayerCommand::Resume)
    } else if c == 's' {
        Some(PlayerCommand::Stop)
    } else if c == '<' {
        Some(PlayerCommand::Previous)
    } else if c == '>' {
        Some(PlayerCommand::Next)
    } else {
        None
    }
}

} // verus!
