use deskremote::throttle::{busy_message, TextInputThrottle, ThrottleDecision};

#[test]
fn throttle_second_call_in_flight_is_busy() {
    let mut g = TextInputThrottle::new();
    assert_eq!(g.begin(1000), ThrottleDecision::Started);
    // a second caller while the first is in flight is refused at once
    assert_eq!(g.begin(1001), ThrottleDecision::Busy);
    // however late it comes
    assert_eq!(g.begin(999_999), ThrottleDecision::Busy);
}

#[test]
fn throttle_enforces_minimum_spacing() {
    let mut g = TextInputThrottle::new();
    assert_eq!(g.begin(1000), ThrottleDecision::Started);
    g.finish();
    assert_eq!(g.begin(1050), ThrottleDecision::Wait(50));
    assert_eq!(g.begin(1099), ThrottleDecision::Wait(1));
    assert_eq!(g.begin(1100), ThrottleDecision::Started);
}

#[test]
fn throttle_is_free_after_finish_and_interval() {
    let mut g = TextInputThrottle::new();
    assert_eq!(g.begin(0), ThrottleDecision::Started);
    g.finish();
    assert_eq!(g.begin(100), ThrottleDecision::Started);
    g.finish();
    assert_eq!(g.begin(100), ThrottleDecision::Wait(100));
    assert_eq!(g.begin(350), ThrottleDecision::Started);
}

#[test]
fn throttle_first_call_always_starts() {
    let mut g = TextInputThrottle::new();
    assert_eq!(g.begin(0), ThrottleDecision::Started);
    let mut g2 = TextInputThrottle::new();
    assert_eq!(g2.begin(u64::MAX), ThrottleDecision::Started);
}

#[test]
fn throttle_busy_message_text() {
    assert_eq!(
        String::from_utf8(busy_message()).unwrap(),
        "System busy, please try again"
    );
}
