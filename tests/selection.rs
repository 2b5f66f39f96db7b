use chainload::{
    resolve, KeyEvent, PollEvent, Resolution, SelectAction, Selector, POLL_INTERVAL_US,
    SELECTION_TIMEOUT_US,
};

fn key(c: char) -> PollEvent {
    PollEvent::Key(KeyEvent::Printable(c))
}

#[test]
fn single_candidate_is_taken_without_input() {
    assert_eq!(resolve(1, &vec![]), (Resolution::Selected(0), 0));
    assert_eq!(resolve(1, &vec![PollEvent::Key(KeyEvent::Escape)]), (Resolution::Selected(0), 0));
}

#[test]
fn digit_after_ignored_keys_selects_it() {
    let events = vec![key('x'), key('0'), key('7'), PollEvent::Key(KeyEvent::OtherSpecial), key('3'), key('1')];
    assert_eq!(resolve(4, &events), (Resolution::Selected(2), 5));
}

#[test]
fn invalid_key_then_digit_two() {
    assert_eq!(resolve(2, &vec![key('x'), key('2')]), (Resolution::Selected(1), 2));
}

#[test]
fn enter_confirms_default() {
    assert_eq!(resolve(3, &vec![key('\r')]), (Resolution::Selected(0), 1));
    assert_eq!(resolve(3, &vec![key('q'), key('\n'), key('3')]), (Resolution::Selected(0), 2));
}

#[test]
fn timeout_selects_first() {
    let events = vec![PollEvent::NoKey; 600];
    assert_eq!(resolve(3, &events), (Resolution::Selected(0), 501));
    let short = vec![PollEvent::NoKey; 500];
    assert_eq!(resolve(3, &short), (Resolution::Pending, 500));
}

#[test]
fn ignored_keys_do_not_reset_timeout() {
    let mut events = vec![PollEvent::NoKey; 250];
    events.push(key('z'));
    events.extend(vec![PollEvent::NoKey; 300]);
    assert_eq!(resolve(2, &events), (Resolution::Selected(0), 502));
}

#[test]
fn escape_aborts() {
    assert_eq!(resolve(2, &vec![PollEvent::Key(KeyEvent::Escape)]), (Resolution::Aborted, 1));
    let events = vec![PollEvent::NoKey, key('9'), PollEvent::NoKey, PollEvent::Key(KeyEvent::Escape), key('1')];
    assert_eq!(resolve(3, &events), (Resolution::Aborted, 4));
}

#[test]
fn read_error_selects_default() {
    assert_eq!(resolve(5, &vec![key('y'), PollEvent::ReadError, key('4')]), (Resolution::Selected(0), 2));
}

#[test]
fn selector_steps() {
    let mut s = Selector::new(3);
    assert!(s.needs_input());
    assert!(!Selector::new(1).needs_input());
    assert_eq!(s.step(PollEvent::NoKey), SelectAction::Stall(POLL_INTERVAL_US));
    assert_eq!(s.waited_us, 10_000);
    assert_eq!(s.step(key('a')), SelectAction::Poll);
    assert_eq!(s.waited_us, 10_000);
    assert_eq!(s.step(key('4')), SelectAction::Poll);
    assert_eq!(s.step(key('3')), SelectAction::Select(2));
    let mut full = Selector { candidates: 2, waited_us: SELECTION_TIMEOUT_US };
    assert_eq!(full.step(PollEvent::NoKey), SelectAction::Select(0));
}
