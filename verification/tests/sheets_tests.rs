use citoer::adapters::google_sheets::append_row;
use citoer::adapters::GroupedData;
use citoer::message::{group_messages, MediaMessage, SaveData, QUOTE_REGEX};
use citoer::storage_adapters::get_adapter;
use citoer::storage_adapters::google_sheets::{
    column_range, get_most_recent_time, latest, parse_service_account_key, get_range_row_bounds, quote_rows, storage_columns,
    SheetValues, StorageColumn, START_ROW,
};
use citoer::storage_adapters::StorageAdapterKind;
use citoer::time::UtcDateTime;

#[test]
fn column_letters() {
    assert_eq!(char::from(StorageColumn::Quote), 'A');
    assert_eq!(char::from(StorageColumn::Quotee), 'B');
    assert_eq!(char::from(StorageColumn::Receiver), 'C');
    assert_eq!(char::from(StorageColumn::Quoter), 'D');
    assert_eq!(char::from(StorageColumn::Time), 'E');
    assert_eq!(START_ROW, 2);
}

#[test]
fn column_ranges() {
    assert_eq!(column_range(&"Quotes".to_string(), StorageColumn::Quote), "Quotes!A2:A");
    assert_eq!(column_range(&"Blad 1".to_string(), StorageColumn::Time), "Blad 1!E2:E");
}

#[test]
fn row_bounds() {
    assert_eq!(get_range_row_bounds("Sheet1!A2:E10"), Some((2, 10)));
    assert_eq!(get_range_row_bounds("A2:B3"), Some((2, 3)));
    assert_eq!(get_range_row_bounds("x!y!C5:D7"), Some((5, 7)));
    assert_eq!(get_range_row_bounds("Quotes!A2:A"), None);
    assert_eq!(get_range_row_bounds("Quotes!A2"), None);
    assert_eq!(get_range_row_bounds(""), None);
}

fn col(cells: &[Option<&str>]) -> SheetValues {
    SheetValues { values: Some(vec![cells.iter().map(|c| c.map(|s| s.to_string())).collect()]) }
}

#[test]
fn quote_rows_keyed_by_quote_and_quotee() {
    let ranges = Some(vec![
        col(&[Some("a"), None, Some("b"), Some("a")]),
        col(&[Some("x"), Some("y")]),
    ]);
    let t = quote_rows(&ranges);
    assert_eq!(t.get(&"a::x".to_string()), Some(&0));
    assert_eq!(t.get(&"a::".to_string()), Some(&3));
    assert_eq!(t.get(&"b::".to_string()), Some(&2));
    let ranges = Some(vec![col(&[Some("a"), Some("b")]), col(&[Some("x"), Some("y")])]);
    let t = quote_rows(&ranges);
    assert_eq!(t.get(&"a::x".to_string()), Some(&0));
    assert_eq!(t.get(&"b::y".to_string()), Some(&1));
}

#[test]
fn quote_rows_need_two_ranges() {
    let t = quote_rows(&None);
    assert_eq!(t.get(&"a::".to_string()), None);
    let t = quote_rows(&Some(vec![col(&[Some("a")])]));
    assert_eq!(t.get(&"a::".to_string()), None);
    let t = quote_rows(&Some(vec![col(&[Some("a")]), SheetValues { values: None }]));
    assert_eq!(t.get(&"a::".to_string()), None);
}

#[test]
fn columns_line_up() {
    let t = UtcDateTime::from_parts(1431648000, 0).unwrap();
    let data = vec![
        SaveData {
            id: "1".into(),
            message: MediaMessage::Full { message: "whole".into() },
            author: "me".into(),
            time: Some(t),
        },
        SaveData {
            id: "2".into(),
            message: MediaMessage::Grouped { quote: "q".into(), quotee: "p".into(), receiver: Some("r".into()) },
            author: "you".into(),
            time: None,
        },
    ];
    let c = storage_columns(&data);
    assert_eq!(c.quotes, vec![Some("whole".to_string()), Some("q".to_string())]);
    assert_eq!(c.quotees, vec![None, Some("p".to_string())]);
    assert_eq!(c.receivers, vec![None, Some("r".to_string())]);
    assert_eq!(c.quoters, vec![Some("me".to_string()), Some("you".to_string())]);
    assert_eq!(c.times, vec![Some("2015-05-15 00:00:00 UTC".to_string()), None]);
}

#[test]
fn most_recent_time_of_rows() {
    assert!(get_most_recent_time(&None).is_none());
    let rows = vec![
        vec![Some("2015-05-15 00:00:00 UTC".to_string())],
        vec![],
        vec![None],
        vec![Some("garbage".to_string())],
        vec![Some("2016-01-01 00:00:00 UTC".to_string()), Some("x".to_string())],
        vec![Some("2015-12-31 23:59:59.5 UTC".to_string())],
    ];
    let t = get_most_recent_time(&Some(rows)).unwrap();
    assert_eq!(t.timestamp(), 1451606400);
    assert!(get_most_recent_time(&Some(vec![vec![None]])).is_none());
}

#[test]
fn appended_row() {
    let g = GroupedData { quote: "q", quoter: "me", quotee: "p", receiver: None };
    assert_eq!(append_row(&g), vec!["q", "p", "", "me"]);
    let g = GroupedData { quote: "q", quoter: "me", quotee: "p", receiver: Some("r") };
    assert_eq!(append_row(&g), vec!["q", "p", "r", "me"]);
}

#[test]
fn storage_adapter_names() {
    assert_eq!(get_adapter("google_sheets"), Ok(StorageAdapterKind::GoogleSheets));
    assert_eq!(get_adapter("excel"), Err("No adapter found".to_string()));
    assert_eq!(
        citoer::adapters::get_adapter("google_sheets"),
        Ok(citoer::adapters::StorageAdapterKind::GoogleSheets)
    );
    assert!(citoer::adapters::get_adapter("sheets").is_err());
}

#[test]
fn latest_of_instants() {
    let a = UtcDateTime::from_parts(100, 0).unwrap();
    let b = UtcDateTime::from_parts(100, 7).unwrap();
    let c = UtcDateTime::from_parts(99, 999_999_999).unwrap();
    assert!(latest(&[]).is_none());
    assert!(latest(&[None, None]).is_none());
    let l = latest(&[Some(a), None, Some(b), Some(c)]).unwrap();
    assert_eq!((l.timestamp(), l.subsec_nanos()), (100, 7));
    let l = latest(&[Some(c), Some(a)]).unwrap();
    assert_eq!((l.timestamp(), l.subsec_nanos()), (100, 0));
}

#[test]
fn unmatched_message_saved_whole_matched_split() {
    let data = vec![
        SaveData { id: "1".into(), message: MediaMessage::Full { message: "no format here".into() }, author: "a".into(), time: None },
        SaveData { id: "2".into(), message: MediaMessage::Full { message: "\"Nej\" - @Olle till @Stina".into() }, author: "b".into(), time: None },
    ];
    let grouped = group_messages(&data, QUOTE_REGEX).unwrap();
    let c = storage_columns(&grouped);
    assert_eq!(c.quotes, vec![Some("no format here".to_string()), Some("Nej".to_string())]);
    assert_eq!(c.quotees, vec![None, Some("Olle".to_string())]);
    assert_eq!(c.receivers, vec![None, Some("Stina".to_string())]);
    assert_eq!(c.quoters, vec![Some("a".to_string()), Some("b".to_string())]);
}

#[test]
fn more_rows_never_move_the_latest_time_earlier() {
    let r = |s: &str| vec![Some(s.to_string())];
    let before = vec![r("2015-05-15 00:00:00 UTC"), r("2014-01-01 00:00:00 UTC")];
    let mut after = before.clone();
    after.insert(1, vec![None]);
    after.push(r("2013-01-01 00:00:00 UTC"));
    let t1 = get_most_recent_time(&Some(before)).unwrap();
    let t2 = get_most_recent_time(&Some(after.clone())).unwrap();
    assert!(!t1.later_than(&t2));
    after.push(r("2020-02-02 00:00:00 UTC"));
    let t3 = get_most_recent_time(&Some(after)).unwrap();
    assert!(t3.later_than(&t1));
}

#[test]
fn service_account_key_text() {
    let e = parse_service_account_key("not json").unwrap_err();
    assert!(e.starts_with("Bad service account key: "), "{}", e);
    assert!(parse_service_account_key("{}").is_err());
    let ok = r#"{"private_key":"k","client_email":"a@b.c","token_uri":"https://oauth2.googleapis.com/token"}"#;
    let key = parse_service_account_key(ok).unwrap();
    assert_eq!(key.client_email, "a@b.c");
    assert_eq!(key.token_uri, "https://oauth2.googleapis.com/token");
}
