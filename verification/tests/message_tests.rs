use citoer::message::{
    group_messages, FailureKind, GroupError, MediaMessage, QuoteCaptures, RegexFailure, SaveData,
    QUOTE_REGEX,
};

fn full(s: &str) -> MediaMessage {
    MediaMessage::Full { message: s.to_string() }
}

fn grouped(q: &str, qe: &str, r: Option<&str>) -> (String, String, Option<String>) {
    (q.to_string(), qe.to_string(), r.map(|s| s.to_string()))
}

fn parts(m: &MediaMessage) -> Option<(String, String, Option<String>)> {
    match m {
        MediaMessage::Grouped { quote, quotee, receiver } => {
            Some((quote.clone(), quotee.clone(), receiver.clone()))
        }
        MediaMessage::Full { .. } => None,
    }
}

#[test]
fn default_format_with_receiver() {
    let g = full("\"Hej hopp\" - @Anna till @Bo").group(QUOTE_REGEX).unwrap();
    assert_eq!(parts(&g), Some(grouped("Hej hopp", "Anna", Some("Bo"))));
}

#[test]
fn default_format_without_quotes_or_at() {
    let g = full("Hej - Anna").group(QUOTE_REGEX).unwrap();
    assert_eq!(parts(&g), Some(grouped("Hej", "Anna", None)));
}

#[test]
fn default_format_curly_quote() {
    let g = full("\u{201d}Fika nu\u{201d} - @Cecilia").group(QUOTE_REGEX).unwrap();
    assert_eq!(parts(&g), Some(grouped("Fika nu", "Cecilia", None)));
}

#[test]
fn message_that_does_not_match() {
    let e = full("Hello world").group(QUOTE_REGEX).unwrap_err();
    assert!(matches!(e, GroupError::NoMatch));
    assert_eq!(e.kind(), FailureKind::InvalidData);
    assert_eq!(e.message(), "Data does not match regex; no match found");
}

#[test]
fn invalid_pattern() {
    let e = full("a - b").group("(").unwrap_err();
    assert!(matches!(e, GroupError::InvalidRegex(RegexFailure::Syntax(_))));
    assert_eq!(e.kind(), FailureKind::InvalidInput);
    assert!(e.message().starts_with("Regex is not valid: "));
    let e = MediaMessage::Grouped { quote: "q".into(), quotee: "p".into(), receiver: None }
        .group("(")
        .unwrap_err();
    assert!(matches!(e, GroupError::InvalidRegex(_)));
}

#[test]
fn already_grouped() {
    let m = MediaMessage::Grouped { quote: "q".into(), quotee: "p".into(), receiver: None };
    let e = m.group(QUOTE_REGEX).unwrap_err();
    assert!(matches!(e, GroupError::AlreadyGrouped));
    assert_eq!(e.kind(), FailureKind::InvalidInput);
    assert_eq!(e.message(), "Already ungrouped");
}

#[test]
fn pattern_without_required_groups() {
    let e = full("anything").group("(?P<text>.*)").unwrap_err();
    assert!(matches!(e, GroupError::MissingCaptures));
    assert_eq!(e.kind(), FailureKind::NotFound);
    assert_eq!(e.message(), "Missing required regex captures");
}

#[test]
fn error_texts() {
    assert_eq!(
        GroupError::InvalidRegex(RegexFailure::CompiledTooBig(10485760)).message(),
        "Regex is too big. Exceeded size limit 10485760"
    );
    assert_eq!(
        GroupError::InvalidRegex(RegexFailure::Unknown).message(),
        "Unknown error generating regex"
    );
    assert_eq!(
        GroupError::InvalidRegex(RegexFailure::Syntax("bad".into())).message(),
        "Regex is not valid: bad"
    );
}

#[test]
fn group_from_captures() {
    let m = full("x");
    let caps = QuoteCaptures { text: Some("a".into()), quotee: Some("b".into()), receiver: None };
    assert_eq!(parts(&m.group_captures(Some(caps)).unwrap()), Some(grouped("a", "b", None)));
    let caps = QuoteCaptures { text: Some("a".into()), quotee: None, receiver: Some("c".into()) };
    assert!(matches!(m.group_captures(Some(caps)), Err(GroupError::MissingCaptures)));
    assert!(matches!(m.group_captures(None), Err(GroupError::NoMatch)));
}

fn record(id: &str, text: &str) -> SaveData {
    SaveData { id: id.into(), message: full(text), author: "me".into(), time: None }
}

#[test]
fn unmatched_messages_are_kept_whole() {
    let data = vec![record("1", "\"Ja\" - @Eva"), record("2", "just chatting")];
    let out = group_messages(&data, QUOTE_REGEX).unwrap();
    assert_eq!(out.len(), 2);
    assert_eq!(parts(&out[0].message), Some(grouped("Ja", "Eva", None)));
    match &out[1].message {
        MediaMessage::Full { message } => assert_eq!(message, "just chatting"),
        _ => panic!("kept message was changed"),
    }
    assert_eq!(out[1].id, "2");
    assert_eq!(out[1].author, "me");
}

#[test]
fn invalid_pattern_stops_grouping() {
    let data = vec![record("1", "a - b")];
    assert!(matches!(group_messages(&data, "(?P<text"), Err(GroupError::InvalidRegex(_))));
    assert!(group_messages(&[], "(").is_ok());
}

#[test]
fn first_fatal_error_is_returned_after_unmatched_message() {
    let data = vec![record("1", "zzz"), record("2", "a"), record("3", "b")];
    let r = group_messages(&data, "(?P<text>a)");
    assert!(matches!(r, Err(GroupError::MissingCaptures)));
}
