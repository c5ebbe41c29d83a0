use space_pool::resolve::InactivePolicy;
use space_pool::session::{parse_index, Action, Command, CommandError, Session, Stage};
use space_pool::space::Space;

fn spaces(active: &[u32], count: u32) -> Vec<Space> {
    (1..=count)
        .map(|i| Space::new(i, 1, i == 1, false, if active.contains(&i) { vec![i] } else { vec![] }))
        .collect()
}

#[test]
fn goto_runs_reap_resolve_focus_reap_notify() {
    let mut s = Session::new(Command::Goto(3), InactivePolicy::Keep);
    assert!(matches!(s.next(), Action::QuerySpaces));
    match s.on_spaces(&spaces(&[2], 5)) {
        Action::Destroy(order) => assert_eq!(order, vec![5, 4, 3]),
        other => panic!("expected destroys, got {:?}", other),
    }
    assert_eq!(s.stage, Stage::Resolve);
    assert!(matches!(s.next(), Action::QuerySpaces));
    assert!(matches!(s.on_spaces(&spaces(&[2], 2)), Action::Create));
    assert!(matches!(s.on_spaces(&spaces(&[2], 3)), Action::Focus(3)));
    assert_eq!(s.stage, Stage::PostClean);
    assert!(matches!(s.next(), Action::QuerySpaces));
    match s.on_spaces(&spaces(&[2], 3)) {
        Action::Destroy(order) => assert_eq!(order, vec![3]),
        other => panic!("expected destroys, got {:?}", other),
    }
    assert!(matches!(s.next(), Action::Notify));
    assert!(matches!(s.next(), Action::Finish));
    assert_eq!(s.stage, Stage::Finished);
}

#[test]
fn send_moves_the_window() {
    let mut s = Session::new(Command::Send(2), InactivePolicy::Keep);
    assert!(matches!(s.on_spaces(&spaces(&[2], 2)), Action::Destroy(order) if order.is_empty()));
    assert!(matches!(s.on_spaces(&spaces(&[2], 2)), Action::MoveWindow(2)));
    assert!(matches!(s.on_spaces(&spaces(&[2], 2)), Action::Destroy(order) if order.is_empty()));
    assert!(matches!(s.next(), Action::Notify));
}

#[test]
fn clean_is_a_single_reap() {
    let mut s = Session::new(Command::Clean, InactivePolicy::Keep);
    assert!(matches!(s.on_spaces(&spaces(&[], 3)), Action::Destroy(order) if order == vec![3, 2]));
    assert_eq!(s.stage, Stage::Notify);
    assert!(matches!(s.next(), Action::Notify));
    assert!(matches!(s.next(), Action::Finish));
}

#[test]
fn session_gives_up_when_target_never_appears() {
    let mut s = Session::new(Command::Goto(4), InactivePolicy::Keep);
    assert!(matches!(s.on_spaces(&spaces(&[], 1)), Action::Destroy(_)));
    for _ in 0..11 {
        assert!(matches!(s.on_spaces(&spaces(&[], 1)), Action::Create));
    }
    assert!(matches!(s.on_spaces(&spaces(&[], 1)), Action::GiveUp));
    assert_eq!(s.stage, Stage::Failed);
    assert!(matches!(s.next(), Action::GiveUp));
}

#[test]
fn spaces_after_the_end_change_nothing() {
    let mut s = Session::new(Command::Clean, InactivePolicy::Keep);
    s.on_spaces(&spaces(&[], 1));
    assert!(matches!(s.on_spaces(&spaces(&[], 1)), Action::Notify));
    assert!(matches!(s.on_spaces(&spaces(&[], 1)), Action::Finish));
}

#[test]
fn parses_commands() {
    assert_eq!(Command::parse("clean", None), Ok(Command::Clean));
    assert_eq!(Command::parse("goto", Some("3")), Ok(Command::Goto(3)));
    assert_eq!(Command::parse("send", Some("12")), Ok(Command::Send(12)));
    assert_eq!(Command::parse("goto", None), Err(CommandError::MissingIndex));
    assert_eq!(Command::parse("send", Some("x1")), Err(CommandError::InvalidIndex));
    assert_eq!(Command::parse("jump", Some("1")), Err(CommandError::UnknownCommand));
    assert_eq!(Command::parse("Goto", Some("1")), Err(CommandError::UnknownCommand));
}

#[test]
fn parses_indices() {
    assert_eq!(parse_index("0"), Some(0));
    assert_eq!(parse_index("007"), Some(7));
    assert_eq!(parse_index("4294967295"), Some(4294967295));
    assert_eq!(parse_index("4294967296"), None);
    assert_eq!(parse_index("99999999999999999999"), None);
    assert_eq!(parse_index(""), None);
    assert_eq!(parse_index("-1"), None);
    assert_eq!(parse_index("1 "), None);
}
