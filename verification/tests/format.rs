use process_monitor::format::format_seconds;

#[test]
fn test_format_seconds_1s() {
    let result = format_seconds(1);
    assert_eq!(result, String::from("00:00:01"));
}

#[test]
fn test_format_seconds_1m() {
    let result = format_seconds(60);
    assert_eq!(result, String::from("00:01:00"));
}

#[test]
fn test_format_seconds_1h() {
    let result = format_seconds(3600);
    assert_eq!(result, String::from("01:00:00"));
}

#[test]
fn test_format_seconds_200h() {
    let result = format_seconds(720000);
    assert_eq!(result, String::from("200:00:00"));
}

#[test]
fn test_format_seconds_3h3m3s() {
    let result = format_seconds(10983);
    assert_eq!(result, String::from("03:03:03"));
}

#[test]
fn test_format_seconds_zero() {
    assert_eq!(format_seconds(0), String::from("00:00:00"));
}

#[test]
fn test_format_seconds_largest() {
    assert_eq!(format_seconds(u64::MAX), String::from("5124095576030431:00:15"));
}
