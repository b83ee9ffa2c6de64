//! Global shortcuts: the commands they trigger and the key combinations
//! bound to them.

use vstd::prelude::*;

verus! {

/// The Alt modifier bit.
pub const MOD_ALT: u64 = 0x01;

/// The Control modifier bit.
pub const MOD_CONTROL: u64 = 0x08;

/// The Meta (Command, Windows) modifier bit.
pub const MOD_META: u64 = 0x40;

/// The Shift modifier bit.
pub const MOD_SHIFT: u64 = 0x200;

/// A command that a shortcut can trigger.
#[derive(Clone, Copy, Debug, PartialEq, Eq, Hash, Structural)]
pub enum Command {
    PlayPause,
    NextTrack,
    PreviousTrack,
    VolumeUp,
    VolumeDown,
    Mute,
    Shuffle,
    Repeat,
    Search,
    GoBack,
    GoHome,
    ShowLyrics,
    CloseWindow,
    Quit,
    Preferences,
}

/// The name of a command as menus show it.
pub open spec fn command_name(c: Command) -> Seq<char> {
    match c {
        Command::PlayPause => "Play / Pause"@,
        Command::NextTrack => "Next Track"@,
        Command::PreviousTrack => "Previous Track"@,
        Command::VolumeUp => "Volume Up"@,
        Command::VolumeDown => "Volume Down"@,
        Command::Mute => "Mute"@,
        Command::Shuffle => "Shuffle"@,
        Command::Repeat => "Repeat"@,
        Command::Search => "Search"@,
        Command::GoBack => "Go Back"@,
        Command::GoHome => "Go Home"@,
        Command::ShowLyrics => "Show Lyrics"@,
        Command::CloseWindow => "Close Window"@,
        Command::Quit => "Quit"@,
        Command::Preferences => "Preferences"@,
    }
}

impl Command {
    /// Every command, in menu order.
    pub fn all() -> (r: Vec<Command>)
        ensures
            r@ == seq![Command::PlayPause, Command::NextTrack, Command::PreviousTrack, Command::VolumeUp, Command::VolumeDown, Command::Mute, Command::Shuffle, Command::Repeat, Command::Search, Command::GoBack, Command::GoHome, Command::ShowLyrics, Command::CloseWindow, Command::Quit, Command::Preferences],
    {
        let mut v: Vec<Command> = Vec::new();
        v.push(Command::PlayPause);
        v.push(Command::NextTrack);
        v.push(Command::PreviousTrack);
        v.push(Command::VolumeUp);
        v.push(Command::VolumeDown);
        v.push(Command::Mute);
        v.push(Command::Shuffle);
        v.push(Command::Repeat);
        v.push(Command::Search);
        v.push(Command::GoBack);
        v.push(Command::GoHome);
        v.push(Command::ShowLyrics);
        v.push(Command::CloseWindow);
        v.push(Command::Quit);
        v.push(Command::Preferences);
        assert(v@ =~= seq![Command::PlayPause, Command::NextTrack, Command::PreviousTrack, Command::VolumeUp, Command::VolumeDown, Command::Mute, Command::Shuffle, Command::Repeat, Command::Search, Command::GoBack, Command::GoHome, Command::ShowLyrics, Command::CloseWindow, Command::Quit, Command::Preferences]);
        v
    }

    /// The name shown for the command.
    pub fn to_string(&self) -> (r: String)
        ensures
            r@ == command_name(*self),
    {
        let name: &str = match self {
            Command::PlayPause => "Play / Pause",
            Command::NextTrack => "Next Track",
            Command::PreviousTrack => "Previous Track",
            Command::VolumeUp => "Volume Up",
            Command::VolumeDown => "Volume Down",
            Command::Mute => "Mute",
            Command::Shuffle => "Shuffle",
            Command::Repeat => "Repeat",
            Command::Search => "Search",
            Command::GoBack => "Go Back",
            Command::GoHome => "Go Home",
            Command::ShowLyrics => "Show Lyrics",
            Command::CloseWindow => "Close Window",
            Command::Quit => "Quit",
            Command::Preferences => "Preferences",
        };
        name.to_owned()
    }
}

/// A key and a bit set of modifiers.
#[derive(Clone, Debug, Eq)]
pub struct KeyCombination {
    pub key: String,
    pub mods: u64,
}

impl PartialEq for KeyCombination {
    fn eq(&self, other: &KeyCombination) -> (r: bool) {
        self.key == other.key && self.mods == other.mods
    }
}

impl vstd::std_specs::cmp::PartialEqSpecImpl for KeyCombination {
    open spec fn obeys_eq_spec() -> bool {
        true
    }

    open spec fn eq_spec(&self, other: &KeyCombination) -> bool {
        self.key@ == other.key@ && self.mods == other.mods
    }
}

/// The prefix that the modifiers in `mods` add to a shortcut's name.
pub open spec fn mods_prefix(mods: u64) -> Seq<char> {
    (if mods & MOD_META != 0 { "Cmd+"@ } else { Seq::empty() }) + (if mods & MOD_CONTROL != 0 {
        "Ctrl+"@
    } else {
        Seq::empty()
    }) + (if mods & MOD_ALT != 0 { "Alt+"@ } else { Seq::empty() }) + (if mods & MOD_SHIFT != 0 {
        "Shift+"@
    } else {
        Seq::empty()
    })
}

impl KeyCombination {
    pub fn new(key: &str, mods: u64) -> (r: KeyCombination)
        ensures
            r.key@ == key@,
            r.mods == mods,
    {
        KeyCombination { key: key.to_owned(), mods }
    }

    /// The shortcut as menus show it: `Cmd+`, `Ctrl+`, `Alt+`, `Shift+` for
    /// the modifiers that are set, then the key.
    pub fn to_display_string(&self) -> (r: String)
        ensures
            r@ == mods_prefix(self.mods) + self.key@,
    {
        let mut s = String::new();
        if self.mods & MOD_META != 0 {
            s.append("Cmd+");
        }
        if self.mods & MOD_CONTROL != 0 {
            s.append("Ctrl+");
        }
        if self.mods & MOD_ALT != 0 {
            s.append("Alt+");
        }
        if self.mods & MOD_SHIFT != 0 {
            s.append("Shift+");
        }
        s.append(self.key.as_str());
        assert(s@ =~= mods_prefix(self.mods) + self.key@);
        s
    }
}

/// The combination bound last to `c` among `bindings`, if any.
pub open spec fn bound_to(bindings: Seq<(Command, KeyCombination)>, c: Command) -> Option<KeyCombination>
    decreases bindings.len(),
{
    if bindings.len() == 0 {
        None
    } else if bindings.last().0 == c {
        Some(bindings.last().1)
    } else {
        bound_to(bindings.drop_last(), c)
    }
}

/// The default shortcuts as (command, key, modifiers).
pub open spec fn default_shortcuts() -> Seq<(Command, Seq<char>, u64)> {
    seq![
        (Command::PlayPause, "Space"@, (0) as u64),
        (Command::NextTrack, "ArrowRight"@, (MOD_META) as u64),
        (Command::PreviousTrack, "ArrowLeft"@, (MOD_META) as u64),
        (Command::Search, "L"@, (MOD_META) as u64),
        (Command::GoBack, "ArrowLeft"@, (MOD_META | MOD_ALT) as u64),
        (Command::Preferences, ","@, (MOD_META) as u64),
        (Command::Quit, "Q"@, (MOD_META) as u64),
        (Command::CloseWindow, "W"@, (MOD_META) as u64),
    ]
}

/// The shortcut bound to each command.
#[derive(Clone, Debug)]
pub struct Keybinds {
    bindings: Vec<(Command, KeyCombination)>,
}

impl Keybinds {
    /// The bindings, oldest first; a later one for a command overrides an
    /// earlier one.
    pub closed spec fn entries(&self) -> Seq<(Command, KeyCombination)> {
        self.bindings@
    }

    /// The combination bound to `command`.
    pub fn get(&self, command: &Command) -> (r: Option<&KeyCombination>)
        ensures
            match r {
                Some(k) => bound_to(self.entries(), *command) == Some(*k),
                None => bound_to(self.entries(), *command) is None,
            },
    {
        let mut i: usize = self.bindings.len();
        assert(self.bindings@.take(i as int) =~= self.bindings@);
        while i > 0
            invariant
                i <= self.bindings@.len(),
                bound_to(self.bindings@, *command) == bound_to(self.bindings@.take(i as int), *command),
            decreases i,
        {
            assert(self.bindings@.take(i as int).drop_last() =~= self.bindings@.take(i - 1));
            if self.bindings[i - 1].0 == *command {
                return Some(&self.bindings[i - 1].1);
            }
            i = i - 1;
        }
        None
    }

    /// Binds `combination` to `command`, in place of any earlier binding.
    pub fn set(&mut self, command: Command, combination: KeyCombination)
        ensures
            final(self).entries() == old(self).entries().push((command, combination)),
            bound_to(final(self).entries(), command) == Some(combination),
            forall|c: Command| c != command ==> bound_to(final(self).entries(), c) == bound_to(old(self).entries(), c),
    {
        self.bindings.push((command, combination));
        assert(final(self).entries().drop_last() =~= old(self).entries());
    }
}

impl Default for Keybinds {
    fn default() -> (r: Keybinds)
        ensures
            r.entries().map_values(|e: (Command, KeyCombination)| (e.0, e.1.key@, e.1.mods)) == default_shortcuts(),
    {
        let mut b: Vec<(Command, KeyCombination)> = Vec::new();
        b.push((Command::PlayPause, KeyCombination::new("Space", 0)));
        b.push((Command::NextTrack, KeyCombination::new("ArrowRight", MOD_META)));
        b.push((Command::PreviousTrack, KeyCombination::new("ArrowLeft", MOD_META)));
        b.push((Command::Search, KeyCombination::new("L", MOD_META)));
        b.push((Command::GoBack, KeyCombination::new("ArrowLeft", MOD_META | MOD_ALT)));
        b.push((Command::Preferences, KeyCombination::new(",", MOD_META)));
        b.push((Command::Quit, KeyCombination::new("Q", MOD_META)));
        b.push((Command::CloseWindow, KeyCombination::new("W", MOD_META)));
        proof {
            reveal_strlit(",");
            reveal_strlit("ArrowLeft");
            reveal_strlit("ArrowRight");
            reveal_strlit("L");
            reveal_strlit("Q");
            reveal_strlit("Space");
            reveal_strlit("W");
        }
        let r = Keybinds { bindings: b };
        assert(r.entries().map_values(|e: (Command, KeyCombination)| (e.0, e.1.key@, e.1.mods)) =~= default_shortcuts());
        r
    }
}

} // verus!
