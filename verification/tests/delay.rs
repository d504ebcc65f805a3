use search_panel::delay::Delay;

#[test]
fn delay_without_a_timer() {
    let mut delay = Delay::new();
    assert!(!delay.elapse(0));
    assert!(!delay.elapse(1));
}

#[test]
fn only_the_last_timer() {
    let mut delay = Delay::new();
    let numbers = [delay.start(), delay.start(), delay.start()];
    assert_eq!(numbers, [1, 2, 3]);
    assert!(!delay.elapse(1));
    assert!(!delay.elapse(2));
    assert!(delay.elapse(3));
    assert!(!delay.elapse(3));
}

#[test]
fn numbers_go_round() {
    let mut delay = Delay {
        latest: u64::MAX,
        running: true,
    };
    assert_eq!(delay.start(), 0);
    assert!(!delay.elapse(u64::MAX));
    assert!(delay.elapse(0));
}
