use space_pool::resolve::{InactivePolicy, Resolver, Step};
use space_pool::space::Space;

fn space(index: u32, display: u32, has_focus: bool, windows: Vec<u32>) -> Space {
    Space::new(index, display, has_focus, false, windows)
}

#[test]
fn active_target_is_reused() {
    let spaces = vec![
        space(1, 1, true, vec![]),
        space(2, 1, false, vec![]),
        space(3, 1, false, vec![]),
        space(4, 1, false, vec![8]),
    ];
    let mut r = Resolver::new(4, InactivePolicy::Relocate);
    match r.step(&spaces) {
        Step::Ready(s) => {
            assert_eq!(s.index, 4);
            assert_eq!(s.windows, vec![8]);
        }
        other => panic!("expected the existing space, got {:?}", other),
    }
    assert_eq!(r.attempts, 0);
}

#[test]
fn missing_target_is_created_once_per_query() {
    let mut spaces: Vec<Space> = (1..=4).map(|i| space(i, 1, i == 1, vec![])).collect();
    let mut r = Resolver::new(6, InactivePolicy::Keep);
    let mut creates = 0;
    loop {
        match r.step(&spaces) {
            Step::Create => {
                creates += 1;
                let next = spaces.len() as u32 + 1;
                spaces.push(space(next, 1, false, vec![]));
            }
            Step::Ready(s) => {
                assert_eq!(s.index, 6);
                break;
            }
            other => panic!("unexpected step {:?}", other),
        }
    }
    assert_eq!(creates, 2);
    assert_eq!(r.attempts, 2);
}

#[test]
fn first_step_on_missing_target_is_one_create() {
    let spaces: Vec<Space> = (1..=5).map(|i| space(i, 1, i == 1, vec![])).collect();
    let mut r = Resolver::new(6, InactivePolicy::Keep);
    assert!(matches!(r.step(&spaces), Step::Create));
    assert_eq!(r.attempts, 1);
}

#[test]
fn gives_up_when_target_never_appears() {
    let spaces = vec![space(1, 1, true, vec![])];
    let mut r = Resolver::new(5, InactivePolicy::Keep);
    for _ in 0..11 {
        assert!(matches!(r.step(&spaces), Step::Create));
    }
    assert!(matches!(r.step(&spaces), Step::Exhausted));
    assert_eq!(r.attempts, 11);
}

#[test]
fn inactive_target_kept_where_it_is() {
    let spaces = vec![space(1, 1, true, vec![]), space(2, 2, false, vec![])];
    let mut r = Resolver::new(2, InactivePolicy::Keep);
    assert!(matches!(r.step(&spaces), Step::Ready(s) if s.index == 2 && s.display == 2));
}

#[test]
fn inactive_target_moved_to_focused_display() {
    let spaces = vec![space(1, 1, true, vec![]), space(2, 2, false, vec![])];
    let mut r = Resolver::new(2, InactivePolicy::Relocate);
    match r.step(&spaces) {
        Step::MoveToDisplay { space, display } => {
            assert_eq!(space, 2);
            assert_eq!(display, 1);
        }
        other => panic!("expected a move, got {:?}", other),
    }
    assert_eq!(r.attempts, 1);
    let moved = vec![space(1, 1, true, vec![]), space(2, 1, false, vec![])];
    assert!(matches!(r.step(&moved), Step::Ready(s) if s.index == 2 && s.display == 1));
}

#[test]
fn inactive_target_on_focused_display_is_ready() {
    let spaces = vec![space(1, 1, true, vec![]), space(2, 1, false, vec![])];
    let mut r = Resolver::new(2, InactivePolicy::Relocate);
    assert!(matches!(r.step(&spaces), Step::Ready(s) if s.index == 2));
    assert_eq!(r.attempts, 0);
}
