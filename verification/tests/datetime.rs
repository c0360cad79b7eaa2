use wmi::{WMIDateTime, WMIError};

#[test]
fn it_works_with_negative_offset() {
    let dt: WMIDateTime = WMIDateTime::from_str("20190113200517.500000-180").unwrap();

    assert_eq!(dt.to_rfc3339(), "2019-01-13T20:05:17.500000-03:00");
}

#[test]
fn it_works_with_positive_offset() {
    let dt: WMIDateTime = WMIDateTime::from_str("20190113200517.500000+060").unwrap();

    assert_eq!(dt.to_rfc3339(), "2019-01-13T20:05:17.500000+01:00");
}

#[test]
fn parses_fields_exactly() {
    let dt = WMIDateTime::from_str("20190113200517.500000+060").unwrap();
    assert_eq!(dt.year, 2019);
    assert_eq!(dt.month, 1);
    assert_eq!(dt.day, 13);
    assert_eq!(dt.hour, 20);
    assert_eq!(dt.minute, 5);
    assert_eq!(dt.second, 17);
    assert_eq!(dt.micros, 500000);
    assert_eq!(dt.offset_minutes, 60);
}

#[test]
fn parses_negative_offset_minutes() {
    let dt = WMIDateTime::from_str("20190113200517.500000-180").unwrap();
    assert_eq!(dt.offset_minutes, -180);
}

#[test]
fn renders_zero_offset() {
    let dt = WMIDateTime::from_str("20001231235959.000001+000").unwrap();
    assert_eq!(dt.to_rfc3339(), "2000-12-31T23:59:59.000001+00:00");
}

#[test]
fn too_short_input_is_an_error() {
    assert_eq!(
        WMIDateTime::from_str("20190113200517.500000-18"),
        Err(WMIError::TimestampParseError)
    );
    assert_eq!(WMIDateTime::from_str(""), Err(WMIError::TimestampParseError));
}

#[test]
fn too_long_input_is_an_error() {
    assert_eq!(
        WMIDateTime::from_str("20190113200517.500000-1800"),
        Err(WMIError::TimestampParseError)
    );
}

#[test]
fn non_numeric_offset_is_an_error() {
    assert_eq!(
        WMIDateTime::from_str("20190113200517.500000+0a0"),
        Err(WMIError::TimestampParseError)
    );
}

#[test]
fn missing_dot_is_an_error() {
    assert_eq!(
        WMIDateTime::from_str("20190113200517x500000+060"),
        Err(WMIError::TimestampParseError)
    );
}

#[test]
fn bad_sign_is_an_error() {
    assert_eq!(
        WMIDateTime::from_str("20190113200517.500000*060"),
        Err(WMIError::TimestampParseError)
    );
}

#[test]
fn non_numeric_datetime_is_an_error() {
    assert_eq!(
        WMIDateTime::from_str("2019011320051x.500000+060"),
        Err(WMIError::TimestampParseError)
    );
}

#[test]
fn nonexistent_dates_are_errors() {
    // month 0, month 13, day 0, February 30th
    assert_eq!(
        WMIDateTime::from_str("20190013200517.500000+060"),
        Err(WMIError::TimestampParseError)
    );
    assert_eq!(
        WMIDateTime::from_str("20191313200517.500000+060"),
        Err(WMIError::TimestampParseError)
    );
    assert_eq!(
        WMIDateTime::from_str("20190100200517.500000+060"),
        Err(WMIError::TimestampParseError)
    );
    assert_eq!(
        WMIDateTime::from_str("20190230200517.500000+060"),
        Err(WMIError::TimestampParseError)
    );
}

#[test]
fn out_of_range_time_is_an_error() {
    assert_eq!(
        WMIDateTime::from_str("20190113240517.500000+060"),
        Err(WMIError::TimestampParseError)
    );
    assert_eq!(
        WMIDateTime::from_str("20190113206017.500000+060"),
        Err(WMIError::TimestampParseError)
    );
    assert_eq!(
        WMIDateTime::from_str("20190113200560.500000+060"),
        Err(WMIError::TimestampParseError)
    );
}

#[test]
fn instant_applies_the_offset() {
    let plus = WMIDateTime::from_str("20190113200517.500000+060").unwrap();
    let minus = WMIDateTime::from_str("20190113200517.500000-180").unwrap();
    // 2019-01-13T20:05:17.5 at +01:00 is 19:05:17.5 UTC
    assert_eq!(plus.instant_micros(), 1_547_406_317_500_000);
    // the same local reading at -03:00 lies four hours later
    assert_eq!(minus.instant_micros(), 1_547_420_717_500_000);
    assert_eq!(
        minus.instant_micros() - plus.instant_micros(),
        240 * 60 * 1_000_000
    );
}

#[test]
fn epoch_instant_is_zero() {
    let dt = WMIDateTime::from_str("19700101000000.000000+000").unwrap();
    assert_eq!(dt.instant_micros(), 0);
}

#[test]
fn pre_epoch_instants_are_negative() {
    let dt = WMIDateTime::from_str("19691231230000.000000+000").unwrap();
    assert_eq!(dt.instant_micros(), -3_600_000_000);
}

#[test]
fn leap_year_february_twenty_ninth() {
    let dt = WMIDateTime::from_str("20200229000000.000000+000").unwrap();
    assert_eq!(dt.day, 29);
    assert_eq!(
        WMIDateTime::from_str("20190229000000.000000+000"),
        Err(WMIError::TimestampParseError)
    );
    // 1900 is no leap year, 2000 is
    assert_eq!(
        WMIDateTime::from_str("19000229000000.000000+000"),
        Err(WMIError::TimestampParseError)
    );
    assert!(WMIDateTime::from_str("20000229000000.000000+000").is_ok());
}
