use psst_core::item_id::{ItemId, ItemIdType};
use psst_core::player::{
    command_from_line, NormalizationLevel, PlaybackItem, Player, PlayerAction, PlayerCommand,
    PlayerEvent, PlayerState,
};
use psst_core::presets::{built_in_preset_names, find_preset};

fn item(n: u128) -> PlaybackItem {
    PlaybackItem { item_id: ItemId::new(n, ItemIdType::Track), norm_level: NormalizationLevel::Track }
}

fn load(player: &mut Player, items: Vec<PlaybackItem>, position: usize) -> PlayerAction {
    player.handle(PlayerEvent::Command(PlayerCommand::LoadQueue { items, position }))
}

#[test]
fn load_queue_starts_playing_once_loaded() {
    let mut player = Player::new();
    let action = load(&mut player, vec![item(1), item(2)], 0);
    assert_eq!(action, PlayerAction::Load { item: item(1), generation: 1 });
    assert_eq!(player.state_now(), PlayerState::Loading);
    assert_eq!(player.handle(PlayerEvent::Loaded { generation: 1 }), PlayerAction::Play);
    assert_eq!(player.state_now(), PlayerState::Playing);
}

#[test]
fn pause_resume_and_idle_no_ops() {
    let mut player = Player::new();
    assert_eq!(player.handle(PlayerEvent::Command(PlayerCommand::Pause)), PlayerAction::Nothing);
    assert_eq!(player.handle(PlayerEvent::Command(PlayerCommand::Resume)), PlayerAction::Nothing);
    assert_eq!(player.handle(PlayerEvent::Command(PlayerCommand::Stop)), PlayerAction::Nothing);
    load(&mut player, vec![item(1)], 0);
    player.handle(PlayerEvent::Loaded { generation: 1 });
    assert_eq!(player.handle(PlayerEvent::Command(PlayerCommand::Pause)), PlayerAction::PauseOutput);
    assert_eq!(player.state_now(), PlayerState::Paused);
    assert_eq!(player.handle(PlayerEvent::Command(PlayerCommand::Pause)), PlayerAction::Nothing);
    assert_eq!(player.handle(PlayerEvent::Command(PlayerCommand::Resume)), PlayerAction::ResumeOutput);
    assert_eq!(player.handle(PlayerEvent::Command(PlayerCommand::Stop)), PlayerAction::StopOutput);
    assert_eq!(player.state_now(), PlayerState::Idle);
    assert_eq!(player.current(), None);
}

#[test]
fn next_and_previous_do_not_wrap() {
    let mut player = Player::new();
    load(&mut player, vec![item(1), item(2)], 0);
    assert_eq!(
        player.handle(PlayerEvent::Command(PlayerCommand::Previous)),
        PlayerAction::Load { item: item(1), generation: 2 }
    );
    assert_eq!(
        player.handle(PlayerEvent::Command(PlayerCommand::Next)),
        PlayerAction::Load { item: item(2), generation: 3 }
    );
    assert_eq!(player.current(), Some(item(2)));
    assert_eq!(player.handle(PlayerEvent::EndOfTrack), PlayerAction::StopOutput);
    assert_eq!(player.state_now(), PlayerState::Idle);
}

#[test]
fn stale_loads_are_ignored() {
    let mut player = Player::new();
    load(&mut player, vec![item(1), item(2)], 0);
    player.handle(PlayerEvent::Command(PlayerCommand::Next));
    assert_eq!(player.handle(PlayerEvent::Loaded { generation: 1 }), PlayerAction::Nothing);
    assert_eq!(player.handle(PlayerEvent::LoadFailed { generation: 1 }), PlayerAction::Nothing);
    assert_eq!(player.state_now(), PlayerState::Loading);
    assert_eq!(player.handle(PlayerEvent::Loaded { generation: 2 }), PlayerAction::Play);
}

#[test]
fn failed_loads_skip_then_stop() {
    let mut player = Player::new();
    load(&mut player, vec![item(1), item(2)], 0);
    assert_eq!(
        player.handle(PlayerEvent::LoadFailed { generation: 1 }),
        PlayerAction::SkipFailed { item: item(1), next: item(2), generation: 2 }
    );
    assert_eq!(
        player.handle(PlayerEvent::LoadFailed { generation: 2 }),
        PlayerAction::StopFailed { item: item(2) }
    );
    assert_eq!(player.state_now(), PlayerState::Idle);
}

#[test]
fn load_queue_out_of_range_stops() {
    let mut player = Player::new();
    assert_eq!(load(&mut player, vec![item(1)], 1), PlayerAction::StopOutput);
    assert_eq!(player.state_now(), PlayerState::Idle);
    assert_eq!(load(&mut player, vec![], 0), PlayerAction::StopOutput);
}

#[test]
fn console_commands() {
    assert!(matches!(command_from_line("p"), Some(PlayerCommand::Pause)));
    assert!(matches!(command_from_line("r"), Some(PlayerCommand::Resume)));
    assert!(matches!(command_from_line("s"), Some(PlayerCommand::Stop)));
    assert!(matches!(command_from_line("<"), Some(PlayerCommand::Previous)));
    assert!(matches!(command_from_line(">"), Some(PlayerCommand::Next)));
    assert!(command_from_line("pp").is_none());
    assert!(command_from_line("").is_none());
}

#[test]
fn preset_lookup_ignores_ascii_case() {
    assert_eq!(built_in_preset_names().len(), 8);
    assert_eq!(find_preset("bass boost"), Some(1));
    assert_eq!(find_preset("POP"), Some(7));
    assert_eq!(find_preset("Flat"), Some(0));
    assert_eq!(find_preset("Metal"), None);
}
