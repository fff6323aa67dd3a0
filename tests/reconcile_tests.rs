use better_git_status::reconcile::clears_flash;
use better_git_status::reconcile::command_for_key;
use better_git_status::reconcile::command_for_mouse;
use better_git_status::reconcile::Command;
use better_git_status::reconcile::KeyInput;
use better_git_status::reconcile::MouseInput;
use better_git_status::reconcile::RefreshTimer;
use better_git_status::reconcile::WatcherPoll;

#[test]
fn debounce_waits_for_quiet() {
    let mut t = RefreshTimer::new(true);
    assert_eq!(t.input_timeout_ms(), 100);
    assert!(!t.note_watcher(WatcherPoll::Changed, 1000));
    assert_eq!(t.input_timeout_ms(), 10);
    t.note_watcher(WatcherPoll::Changed, 1100);
    assert!(!t.take_debounced(1200));
    assert!(t.take_debounced(1250));
    assert!(!t.take_debounced(5000));
}

#[test]
fn disconnect_switches_to_polling_once() {
    let mut t = RefreshTimer::new(true);
    assert!(!t.take_poll(10_000));
    assert!(t.note_watcher(WatcherPoll::Disconnected, 5));
    assert!(!t.note_watcher(WatcherPoll::Disconnected, 6));
    assert!(t.use_polling);
    assert!(t.take_poll(2000));
    assert!(!t.take_poll(3999));
    assert!(t.take_poll(4000));
}

#[test]
fn failed_watcher_polls_from_start() {
    let t = RefreshTimer::new(false);
    assert!(t.use_polling);
}

#[test]
fn keys_map_to_commands() {
    assert_eq!(command_for_key(KeyInput::Char('y'), true, true), Command::Answer(true));
    assert_eq!(command_for_key(KeyInput::Char('n'), true, true), Command::Answer(false));
    assert_eq!(command_for_key(KeyInput::Esc, false, true), Command::Quit);
    assert_eq!(command_for_key(KeyInput::Esc, false, false), Command::ClearMultiSelect);
    assert_eq!(command_for_key(KeyInput::Up, false, true), Command::MoveHighlight(-1));
    assert_eq!(command_for_key(KeyInput::Control('z'), false, true), Command::Undo);
    assert_eq!(command_for_key(KeyInput::Char('z'), false, true), Command::Nothing);
    assert!(clears_flash(Command::Quit));
    assert!(!clears_flash(Command::Answer(true)));
}

#[test]
fn mouse_maps_to_commands() {
    assert_eq!(command_for_mouse(MouseInput::WheelDown, true, false), Command::MoveHighlight(3));
    assert_eq!(command_for_mouse(MouseInput::WheelUp, false, true), Command::ScrollDiff(-3));
    assert_eq!(command_for_mouse(MouseInput::LeftPress, false, true), Command::Nothing);
}
