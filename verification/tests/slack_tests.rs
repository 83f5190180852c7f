use citoer::media_adapters::get_adapter;
use citoer::media_adapters::slack::{
    history_messages, history_query, history_records, id_name_map, parse_slack_ts,
    substitute_ids, SlackMessage, SlackUser,
};
use citoer::media_adapters::MediaAdapterKind;
use citoer::message::MediaMessage;
use citoer::table::KeyedTable;

fn names() -> KeyedTable<String> {
    let mut t = KeyedTable::new();
    t.insert("U1".to_string(), "alice".to_string());
    t.insert("U3".to_string(), "carol".to_string());
    t
}

#[test]
fn mentions_become_names() {
    assert_eq!(substitute_ids("Hi <@U1>!", &names()), "Hi alice!");
    assert_eq!(substitute_ids("<@U1|ally> and <@U3>", &names()), "alice and carol");
}

#[test]
fn unknown_mentions_keep_the_id() {
    assert_eq!(substitute_ids("cc <@U2|bob>", &names()), "cc U2");
}

#[test]
fn plain_text_is_unchanged() {
    assert_eq!(substitute_ids("", &names()), "");
    assert_eq!(substitute_ids("no mentions here", &names()), "no mentions here");
    assert_eq!(substitute_ids("a < b @ c", &names()), "a < b @ c");
}

#[test]
fn a_bare_gt_is_dropped() {
    assert_eq!(substitute_ids("a>b", &names()), "ab");
    assert_eq!(substitute_ids("x <@U1", &names()), "x U1");
}

#[test]
fn query_parameters() {
    let q = history_query(&"C123".to_string(), None);
    assert_eq!(q, vec![("channel".to_string(), "C123".to_string()), ("limit".to_string(), "999".to_string())]);
    let t = parse_slack_ts("1512085950.000216").unwrap();
    let q = history_query(&"C123".to_string(), Some(t));
    assert_eq!(q.len(), 3);
    assert_eq!(q[2], ("oldest".to_string(), "1512085950.000216".to_string()));
}

#[test]
fn users_map_from_response() {
    let users = vec![
        SlackUser { id: "U1".into(), name: "alice".into() },
        SlackUser { id: "U2".into(), name: "bob".into() },
        SlackUser { id: "U1".into(), name: "alicia".into() },
    ];
    let m = id_name_map(true, Some(users.clone()));
    assert_eq!(m.get(&"U1".to_string()), Some(&"alicia".to_string()));
    assert_eq!(m.get(&"U2".to_string()), Some(&"bob".to_string()));
    let m = id_name_map(false, Some(users));
    assert_eq!(m.get(&"U2".to_string()), None);
    let m = id_name_map(true, None);
    assert_eq!(m.get(&"U2".to_string()), None);
}

fn msg(kind: &str, ts: &str, user: Option<&str>, text: Option<&str>, subtype: Option<&str>) -> SlackMessage {
    SlackMessage {
        kind: kind.into(),
        ts: ts.into(),
        user: user.map(|s| s.into()),
        text: text.map(|s| s.into()),
        subtype: subtype.map(|s| s.into()),
    }
}

#[test]
fn history_errors() {
    let e = history_messages(false, None, None).unwrap_err();
    assert_eq!(e, "unknown Slack API error");
    let e = history_messages(false, Some("channel_not_found".into()), None).unwrap_err();
    assert_eq!(e, "channel_not_found");
    assert_eq!(history_messages(true, None, None).unwrap().len(), 0);
    let ms = vec![msg("message", "1.0", None, None, None)];
    assert_eq!(history_messages(true, None, Some(ms)).unwrap().len(), 1);
}

#[test]
fn records_skip_events_and_bots() {
    let ms = vec![
        msg("message", "1512085950.000216", Some("U1"), Some("\"Hej\" - <@U3>"), None),
        msg("message", "1512085951.000000", Some("U1"), Some("joined"), Some("channel_join")),
        msg("reaction", "1512085952.000000", Some("U1"), Some("x"), None),
        msg("message", "1512085953.000000", Some("U9"), None, None),
        msg("message", "bad", None, Some("from a bot"), None),
    ];
    let recs = history_records(&ms, &names());
    assert_eq!(recs.len(), 3);
    assert_eq!(recs[0].id, "1512085950.000216");
    assert_eq!(recs[0].author, "alice");
    match &recs[0].message {
        MediaMessage::Full { message } => assert_eq!(message, "\"Hej\" - carol"),
        _ => panic!(),
    }
    assert_eq!(recs[0].time.unwrap().timestamp(), 1512085950);
    assert_eq!(recs[1].author, "U9");
    match &recs[1].message {
        MediaMessage::Full { message } => assert_eq!(message, ""),
        _ => panic!(),
    }
    assert_eq!(recs[2].author, "");
    assert!(recs[2].time.is_none());
}

#[test]
fn media_adapter_names() {
    assert_eq!(get_adapter("slack"), Ok(MediaAdapterKind::Slack));
    assert_eq!(get_adapter("teams"), Err("No Adapter Found".to_string()));
}

#[test]
fn substitution_splits_at_mentions() {
    let m = names();
    let cases = [
        ("Hi a>b ", "<@U1> there"),
        ("x<", "<@U3|c> <@U2>"),
        ("", "<@U1>"),
        ("plain", ""),
        ("<@U1", "<@U3>"),
    ];
    for (a, b) in cases {
        let whole = substitute_ids(&(a.to_owned() + b), &m);
        assert_eq!(whole, substitute_ids(a, &m) + &substitute_ids(b, &m), "{:?} {:?}", a, b);
    }
}
