use wmi::{
    decode_text_property, ManagedRecord, NativeRecord, Property, TaggedValue, WMIConnection,
    WMIError,
};

fn caption_record(text: &str) -> NativeRecord {
    NativeRecord {
        properties: vec![Property {
            name: String::from("Caption"),
            value: TaggedValue::Text(String::from(text)),
        }],
    }
}

fn record_with(value: TaggedValue) -> NativeRecord {
    NativeRecord {
        properties: vec![Property {
            name: String::from("Caption"),
            value,
        }],
    }
}

#[test]
fn exactly_n_records_then_none() {
    let mut con = WMIConnection::new(vec![
        caption_record("alpha"),
        caption_record("beta"),
        caption_record("gamma"),
    ]);
    let mut cursor = con.query("SELECT * FROM Win32_OperatingSystem").unwrap();
    assert_eq!(cursor.next(&mut con).unwrap().unwrap(), "alpha");
    assert_eq!(cursor.next(&mut con).unwrap().unwrap(), "beta");
    assert_eq!(cursor.next(&mut con).unwrap().unwrap(), "gamma");
    assert!(cursor.next(&mut con).is_none());
    // exhaustion is stable
    assert!(cursor.next(&mut con).is_none());
    cursor.release(&mut con);
}

#[test]
fn refcounts_balanced_after_every_next() {
    let mut con = WMIConnection::new(vec![
        caption_record("good"),
        record_with(TaggedValue::Numeric(7)),
        caption_record("also good"),
    ]);
    let mut cursor = con.query("SELECT Caption FROM Anything").unwrap();
    for _ in 0..5 {
        let _ = cursor.next(&mut con);
        assert_eq!(con.object_refs, 0);
        assert_eq!(con.buffer_refs, 0);
    }
    cursor.release(&mut con);
    assert_eq!(con.enumerator_refs, 0);
    assert_eq!(con.object_refs, 0);
    assert_eq!(con.buffer_refs, 0);
}

#[test]
fn wrong_tag_yields_unexpected_value_kind() {
    let mut con = WMIConnection::new(vec![
        record_with(TaggedValue::Numeric(42)),
        record_with(TaggedValue::Null),
        record_with(TaggedValue::Boolean(true)),
        record_with(TaggedValue::Empty),
    ]);
    let mut cursor = con.query("q").unwrap();
    for _ in 0..4 {
        let item = cursor.next(&mut con).unwrap();
        assert_eq!(item, Err(WMIError::UnexpectedValueKind));
        assert_eq!(con.object_refs, 0);
        assert_eq!(con.buffer_refs, 0);
    }
    assert!(cursor.next(&mut con).is_none());
    cursor.release(&mut con);
}

#[test]
fn decode_checks_the_tag_and_clears_the_buffer() {
    let mut con = WMIConnection::new(vec![record_with(TaggedValue::Numeric(42))]);
    let record = ManagedRecord { obj: Some(0) };
    let r = decode_text_property(&mut con, &record, "Caption");
    assert_eq!(r, Err(WMIError::UnexpectedValueKind));
    assert_eq!(con.buffer_refs, 0);
}

#[test]
fn decode_finds_the_named_property() {
    let mut con = WMIConnection::new(vec![NativeRecord {
        properties: vec![
            Property {
                name: String::from("Name"),
                value: TaggedValue::Text(String::from("os")),
            },
            Property {
                name: String::from("Caption"),
                value: TaggedValue::Text(String::from("Microsoft Windows 10 Pro")),
            },
        ],
    }]);
    let record = ManagedRecord { obj: Some(0) };
    assert_eq!(
        decode_text_property(&mut con, &record, "Caption").unwrap(),
        "Microsoft Windows 10 Pro"
    );
    assert_eq!(decode_text_property(&mut con, &record, "Name").unwrap(), "os");
    // an absent name reads back as the empty representation
    assert_eq!(
        decode_text_property(&mut con, &record, "Version"),
        Err(WMIError::UnexpectedValueKind)
    );
    assert_eq!(con.buffer_refs, 0);
}

#[test]
fn cursor_release_exactly_once() {
    let mut con = WMIConnection::new(vec![caption_record("only")]);
    let mut cursor = con.query("q").unwrap();
    assert_eq!(con.enumerator_refs, 1);
    cursor.release(&mut con);
    assert_eq!(con.enumerator_refs, 0);
    // destroying a cursor that already released must not double-release
    cursor.release(&mut con);
    assert_eq!(con.enumerator_refs, 0);
}

#[test]
fn released_cursor_reports_none() {
    let mut con = WMIConnection::new(vec![caption_record("only")]);
    let mut cursor = con.query("q").unwrap();
    cursor.release(&mut con);
    assert!(cursor.next(&mut con).is_none());
}

#[test]
fn exhausted_cursor_release_is_safe() {
    let mut con = WMIConnection::new(vec![]);
    let mut cursor = con.query("q").unwrap();
    assert!(cursor.next(&mut con).is_none());
    cursor.release(&mut con);
    cursor.release(&mut con);
    assert_eq!(con.enumerator_refs, 0);
}

#[test]
fn query_failure_yields_no_cursor() {
    let mut con = WMIConnection::new(vec![caption_record("never seen")]);
    con.exec_fails = true;
    let r = con.query("q");
    assert_eq!(con.enumerator_refs, 0);
    assert!(matches!(r, Err(WMIError::QueryExecutionError)));
}

#[test]
fn fetch_failure_is_not_swallowed_as_none() {
    let mut con = WMIConnection::new(vec![caption_record("first"), caption_record("second")]);
    con.fail_fetch_at = Some(1);
    let mut cursor = con.query("q").unwrap();
    assert_eq!(cursor.next(&mut con).unwrap().unwrap(), "first");
    let failed = cursor.next(&mut con).unwrap();
    assert_eq!(failed, Err(WMIError::FetchError));
    // the failure is terminal, not an exhaustion signal
    assert_eq!(cursor.next(&mut con).unwrap(), Err(WMIError::FetchError));
    assert_eq!(con.object_refs, 0);
    cursor.release(&mut con);
    assert_eq!(con.enumerator_refs, 0);
}

#[test]
fn collect_all_returns_every_caption_in_order() {
    let mut con = WMIConnection::new(vec![
        caption_record("one"),
        caption_record("two"),
        caption_record("three"),
    ]);
    let mut cursor = con.query("q").unwrap();
    let all = cursor.collect_all(&mut con);
    assert_eq!(all, vec!["one", "two", "three"]);
    assert_eq!(con.object_refs, 0);
    assert_eq!(con.buffer_refs, 0);
    cursor.release(&mut con);
    assert_eq!(con.enumerator_refs, 0);
}

#[test]
fn enumerator_handle_is_exposed() {
    let mut con = WMIConnection::new(vec![]);
    let cursor = con.query("q").unwrap();
    let first_handle = cursor.p();
    let cursor2 = con.query("q").unwrap();
    assert_ne!(cursor2.p(), first_handle);
}
