use ccr::remaining_time::RemainingTime;

#[test]
fn test_remaining_time_formatting() {
    assert_eq!(RemainingTime::new(30).to_formatted_string(), "30m left");
    assert_eq!(RemainingTime::new(60).to_formatted_string(), "1h left");
    assert_eq!(RemainingTime::new(90).to_formatted_string(), "1h 30m left");
    assert_eq!(RemainingTime::new(120).to_formatted_string(), "2h left");
    assert_eq!(RemainingTime::new(135).to_formatted_string(), "2h 15m left");
}

#[test]
fn test_remaining_time_has_remaining() {
    assert!(RemainingTime::new(10).has_remaining());
    assert!(RemainingTime::new(1).has_remaining());
    assert!(!RemainingTime::new(0).has_remaining());
    assert!(!RemainingTime::new(-5).has_remaining());
}

#[test]
fn test_remaining_time_display() {
    let time = RemainingTime::new(75);
    assert_eq!(time.to_formatted_string(), "1h 15m left");
}
