//! The chat service (Slack): its messages and users, its timestamps, the
//! query that asks for new messages, and the records made from them.

use vstd::prelude::*;

use crate::message::{MediaMessage, MessageView, SaveData};
use crate::table::KeyedTable;
use crate::text::{
    all_digits, chars_of, decimal, digits_value, find_char, lemma_decimal, lemma_parse_digits, lemma_parse_signed_decimal, lemma_split_once_concat,
    lemma_zero_pad, parse_i64, parse_i64_spec, push_char, push_chars, push_signed_decimal,
    push_zero_padded, signed_decimal, slice_chars, split_once_char, split_once_chars, string_of,
    zero_pad,
};
use crate::time::{instant_from_micros, micros_instant, UtcDateTime};

verus! {

/// A message of the channel history, as the service reports it.
#[derive(Clone, Debug)]
pub struct SlackMessage {
    /// The event type (`"message"` for messages).
    pub kind: String,
    /// `"secs.microsecs"`: the service's stable unique id of the message.
    pub ts: String,
    /// Absent on bot and app messages.
    pub user: Option<String>,
    pub text: Option<String>,
    /// Present on events that are not plain user messages (joins, bots).
    pub subtype: Option<String>,
}

/// A member of the workspace.
#[derive(Clone, Debug)]
pub struct SlackUser {
    pub id: String,
    pub name: String,
}

// ---------------------------------------------------------------------------
// Timestamps
// ---------------------------------------------------------------------------

/// The microseconds since the epoch that a `ts` such as
/// `"1512085950.000216"` spells: the integers before and after the first
/// `.`, combined as `secs * 1_000_000 + micros`.
pub open spec fn slack_ts_micros(ts: Seq<char>) -> Option<int> {
    match split_once_char(ts, '.') {
        Some((a, b)) => match (parse_i64_spec(a), parse_i64_spec(b)) {
            (Some(secs), Some(micros)) => Some(secs * 1_000_000 + micros),
            _ => None,
        },
        None => None,
    }
}

/// The instant that a `ts` denotes, as (seconds, nanoseconds).
pub open spec fn slack_ts_instant(ts: Seq<char>) -> Option<(int, int)> {
    match slack_ts_micros(ts) {
        Some(m) => micros_instant(m),
        None => None,
    }
}

/// Whether `t` is the instant that `ts` denotes (`None` for none).
pub open spec fn time_of_ts(t: Option<UtcDateTime>, ts: Seq<char>) -> bool {
    match t {
        Some(t) => slack_ts_instant(ts) == Some((t.secs(), t.nanos())),
        None => slack_ts_instant(ts) is None,
    }
}

/// Reads a `ts` string (e.g. `"1512085950.000216"`) as an instant.
pub fn parse_slack_ts(ts: &str) -> (res: Option<UtcDateTime>)
    ensures
        time_of_ts(res, ts@),
{
    let cs = chars_of(ts);
    let (secs_str, micros_str) = match split_once_chars(&cs, '.') {
        Some(p) => p,
        None => {
            return None;
        },
    };
    let secs = match parse_i64(&secs_str) {
        Some(v) => v,
        None => {
            return None;
        },
    };
    let micros = match parse_i64(&micros_str) {
        Some(v) => v,
        None => {
            return None;
        },
    };
    let total: i128 = secs as i128 * 1_000_000 + micros as i128;
    if total < i64::MIN as i128 || total > i64::MAX as i128 {
        assert(micros_instant(total as int) is None);
        return None;
    }
    instant_from_micros(total as i64)
}

/// How the service spells an instant in a `ts`: the whole seconds, a `.`,
/// and the microseconds in six digits.
pub open spec fn slack_ts_text(secs: int, nanos: int) -> Seq<char> {
    signed_decimal(secs) + seq!['.'] + zero_pad(decimal((nanos / 1000) as nat), 6)
}

/// The `oldest` parameter for the instant `t`, spelled like a `ts`
/// (`format!("{}.{:06}", t.timestamp(), t.timestamp_subsec_micros())`).
pub fn ts_of(t: &UtcDateTime) -> (res: String)
    ensures
        res@ == slack_ts_text(t.secs(), t.nanos()),
{
    let mut s = String::new();
    push_signed_decimal(&mut s, t.timestamp());
    push_char(&mut s, '.');
    push_zero_padded(&mut s, t.subsec_micros() as u64, 6);
    assert(s@ =~= slack_ts_text(t.secs(), t.nanos()));
    s
}

/// The query parameters that ask for the channel's history: the channel,
/// the largest page the service allows (999), and, when a message was
/// saved before, `oldest` set to its time. The service returns only
/// messages strictly later than `oldest`, so the last saved message is not
/// fetched again.
pub fn history_query(channel_id: &String, last_message_time: Option<UtcDateTime>) -> (res: Vec<(String, String)>)
    ensures
        res@.len() == if last_message_time is Some { 3int } else { 2int },
        res@[0].0@ == "channel"@,
        res@[0].1@ == channel_id@,
        res@[1].0@ == "limit"@,
        res@[1].1@ == "999"@,
        last_message_time matches Some(t) ==> res@[2].0@ == "oldest"@ && res@[2].1@
            == slack_ts_text(t.secs(), t.nanos()),
{
    let mut query: Vec<(String, String)> = Vec::new();
    query.push((String::from_str("channel"), channel_id.clone()));
    query.push((String::from_str("limit"), String::from_str("999")));
    if let Some(dt) = last_message_time {
        query.push((String::from_str("oldest"), ts_of(&dt)));
    }
    query
}


/// The shape of a spelled `ts`: the signed decimal seconds (which hold no
/// `.`), one `.`, then exactly six ASCII digits whose value is the
/// microseconds, so that read as a fraction of a second they name the
/// instant.
pub proof fn lemma_ts_text_shape(secs: int, nanos: int)
    requires
        i64::MIN <= secs <= i64::MAX,
        0 <= nanos < 1_000_000_000,
    ensures
        ({
            let t = slack_ts_text(secs, nanos);
            let k = t.len() - 7;
            &&& k >= 1
            &&& parse_i64_spec(t.take(k)) == Some(secs)
            &&& find_char(t.take(k), '.') is None
            &&& t[k] == '.'
            &&& t.skip(k + 1).len() == 6
            &&& all_digits(t.skip(k + 1))
            &&& digits_value(t.skip(k + 1)) == nanos / 1000
        }),
{
    let micros: nat = (nanos / 1000) as nat;
    let a = signed_decimal(secs);
    let b = zero_pad(decimal(micros), 6);
    lemma_parse_signed_decimal(secs);
    lemma_decimal(micros);
    crate::text::lemma_decimal_len6(micros);
    lemma_zero_pad(micros, 6);
    assert(b.len() == 6);
    if secs < 0 {
        lemma_decimal((-secs) as nat);
    } else {
        lemma_decimal(secs as nat);
    }
    let t = slack_ts_text(secs, nanos);
    assert(t =~= a + seq!['.'] + b);
    let k = t.len() - 7;
    assert(k == a.len());
    assert(t.take(k) =~= a);
    assert(t.skip(k + 1) =~= b);
}

/// A `ts` spelled from an instant reads back as that instant, cut to whole
/// microseconds: the `oldest` parameter of a query names exactly the
/// instant that was saved. (A leap second, 1e9 nanoseconds or more, reads
/// back as the next second instead.)
pub proof fn lemma_ts_round_trip(t: UtcDateTime)
    requires
        crate::time::valid_instant(t.secs(), t.nanos()),
        t.nanos() < 1_000_000_000,
    ensures
        slack_ts_instant(slack_ts_text(t.secs(), t.nanos())) == Some(
            (t.secs(), t.nanos() / 1000 * 1000),
        ),
{
    let secs = t.secs();
    let micros: nat = (t.nanos() / 1000) as nat;
    let a = signed_decimal(secs);
    let b = zero_pad(decimal(micros), 6);
    lemma_parse_signed_decimal(secs);
    lemma_split_once_concat(a, '.', b);
    assert(slack_ts_text(secs, t.nanos()) =~= a + seq!['.'] + b);
    lemma_zero_pad(micros, 6);
    lemma_parse_digits(b);
    let total = secs * 1_000_000 + micros;
    assert(slack_ts_micros(slack_ts_text(secs, t.nanos())) == Some(total));
    assert(total / 1_000_000 == secs && total % 1_000_000 == micros) by (nonlinear_arith)
        requires
            total == secs * 1_000_000 + micros,
            0 <= micros < 1_000_000,
    ;
}


// ---------------------------------------------------------------------------
// Mentions
// ---------------------------------------------------------------------------

/// Whether `<@` starts at position `i` of `s`.
pub open spec fn mention_at(s: Seq<char>, i: int) -> bool {
    0 <= i && i + 1 < s.len() && s[i] == '<' && s[i + 1] == '@'
}

/// The first position at or after `i` where `<@` starts.
pub open spec fn find_mention_from(s: Seq<char>, i: int) -> Option<int>
    decreases s.len() - i,
{
    if i < 0 || i + 1 >= s.len() {
        None
    } else if mention_at(s, i) {
        Some(i)
    } else {
        find_mention_from(s, i + 1)
    }
}

pub proof fn lemma_find_mention_bounds(s: Seq<char>, i: int)
    ensures
        find_mention_from(s, i) matches Some(j) ==> i <= j && j + 2 <= s.len() && mention_at(s, j),
        find_mention_from(s, i) is None ==> forall|j: int|
            0 <= i <= j && j + 1 < s.len() ==> !mention_at(s, j),
    decreases s.len() - i,
{
    if i < 0 || i + 1 >= s.len() {
    } else if mention_at(s, i) {
    } else {
        lemma_find_mention_bounds(s, i + 1);
    }
}

/// The name that `names` holds for `id`, or `id` itself.
pub open spec fn resolve_id(id: Seq<char>, names: Map<Seq<char>, String>) -> Seq<char> {
    if names.contains_key(id) {
        names[id]@
    } else {
        id
    }
}

/// One piece of a message between `<@`s: when it holds a `>`, what comes
/// before it is a mention (`ID` or `ID|fallback`), which becomes the
/// user's name, and the `>` is dropped; otherwise the piece stays as it is.
pub open spec fn substitute_section(sec: Seq<char>, names: Map<Seq<char>, String>) -> Seq<char> {
    match split_once_char(sec, '>') {
        None => sec,
        Some((identifier, rest)) => {
            let id = match split_once_char(identifier, '|') {
                Some((id, _fallback)) => id,
                None => identifier,
            };
            resolve_id(id, names) + rest
        },
    }
}

/// The message from position `i` on, split at each `<@`, each piece
/// substituted, and the pieces joined.
pub open spec fn substitute_from(s: Seq<char>, i: int, names: Map<Seq<char>, String>) -> Seq<char>
    decreases s.len() - i,
{
    if i < 0 || i > s.len() {
        Seq::empty()
    } else {
        match find_mention_from(s, i) {
            None => substitute_section(s.subrange(i, s.len() as int), names),
            Some(j) => {
                proof {
                    lemma_find_mention_bounds(s, i);
                }
                substitute_section(s.subrange(i, j), names) + substitute_from(s, j + 2, names)
            },
        }
    }
}

/// The message `s` with every mention replaced by the user's name.
pub open spec fn substitute_spec(s: Seq<char>, names: Map<Seq<char>, String>) -> Seq<char> {
    substitute_from(s, 0, names)
}

fn find_mention(s: &[char], from: usize) -> (res: Option<usize>)
    requires
        from <= s@.len(),
    ensures
        match res {
            Some(j) => find_mention_from(s@, from as int) == Some(j as int),
            None => find_mention_from(s@, from as int) is None,
        },
{
    let n = s.len();
    let mut i = from;
    while i < n
        invariant
            n == s@.len(),
            from <= i <= n,
            find_mention_from(s@, from as int) == find_mention_from(s@, i as int),
        decreases n - i,
    {
        if i + 1 < n && s[i] == '<' && s[i + 1] == '@' {
            return Some(i);
        }
        i = i + 1;
    }
    None
}

fn push_section(out: &mut String, sec: &[char], id_name_map: &KeyedTable<String>)
    ensures
        final(out)@ == old(out)@ + substitute_section(sec@, id_name_map@),
{
    match split_once_chars(sec, '>') {
        None => push_chars(out, sec),
        Some((identifier, rest)) => {
            let id = match split_once_chars(&identifier, '|') {
                Some((id, _fallback)) => id,
                None => identifier,
            };
            let key = string_of(&id);
            match id_name_map.get(&key) {
                Some(username) => {
                    let name = chars_of(username.as_str());
                    push_chars(out, &name);
                },
                None => push_chars(out, &id),
            }
            push_chars(out, &rest);
            assert(final(out)@ =~= old(out)@ + substitute_section(sec@, id_name_map@));
        },
    }
}

/// Replaces each user mention `<@ID>` (or `<@ID|fallback>`) in `input`
/// with the user's name from `id_name_map`, or with the bare `ID` when the
/// map does not know it.
pub fn substitute_ids(input: &str, id_name_map: &KeyedTable<String>) -> (res: String)
    ensures
        res@ == substitute_spec(input@, id_name_map@),
{
    let cs = chars_of(input);
    let n = cs.len();
    let mut out = String::new();
    let mut pos: usize = 0;
    loop
        invariant
            n == cs@.len(),
            pos <= n,
            cs@ == input@,
            out@ + substitute_from(cs@, pos as int, id_name_map@) == substitute_spec(
                input@,
                id_name_map@,
            ),
        decreases n - pos,
    {
        match find_mention(&cs, pos) {
            None => {
                let sec = slice_chars(&cs, pos, n);
                let ghost before = out@;
                push_section(&mut out, &sec, id_name_map);
                assert(out@ == before + substitute_from(cs@, pos as int, id_name_map@));
                assert(out@ + substitute_from(cs@, n as int, id_name_map@) =~= out@) by {
                    reveal_with_fuel(substitute_from, 2);
                    assert(cs@.subrange(n as int, n as int) =~= Seq::<char>::empty());
                    assert(split_once_char(Seq::<char>::empty(), '>') is None);
                };
                return out;
            },
            Some(j) => {
                proof {
                    lemma_find_mention_bounds(cs@, pos as int);
                }
                let sec = slice_chars(&cs, pos, j);
                let ghost before = out@;
                push_section(&mut out, &sec, id_name_map);
                assert(before + substitute_from(cs@, pos as int, id_name_map@) =~= out@
                    + substitute_from(cs@, j + 2, id_name_map@));
                pos = j + 2;
            },
        }
    }
}


proof fn lemma_no_mention_from(s: Seq<char>, i: int)
    requires
        0 <= i,
        forall|j: int| i <= j < s.len() ==> s[j] != '<',
    ensures
        find_mention_from(s, i) is None,
    decreases s.len() - i,
{
    if i + 1 < s.len() {
        lemma_no_mention_from(s, i + 1);
    }
}

proof fn lemma_no_char_split(s: Seq<char>, c: char)
    requires
        forall|j: int| 0 <= j < s.len() ==> s[j] != c,
    ensures
        split_once_char(s, c) is None,
{
    crate::text::lemma_find_char_from_bounds(s, c, 0);
}

/// Text without mentions and without `>` comes out unchanged.
pub proof fn lemma_substitute_plain_text(s: Seq<char>, names: Map<Seq<char>, String>)
    requires
        forall|j: int| 0 <= j < s.len() ==> s[j] != '<' && s[j] != '>',
    ensures
        substitute_spec(s, names) == s,
{
    lemma_no_mention_from(s, 0);
    assert(s.subrange(0, s.len() as int) =~= s);
    lemma_no_char_split(s, '>');
}

/// A lone mention `<@ID>` becomes the user's name, or the bare `ID` when
/// `names` does not know it.
pub proof fn lemma_substitute_mention(id: Seq<char>, names: Map<Seq<char>, String>)
    requires
        forall|j: int| 0 <= j < id.len() ==> id[j] != '<' && id[j] != '>' && id[j] != '|',
    ensures
        substitute_spec(seq!['<', '@'] + id + seq!['>'], names) == resolve_id(id, names),
{
    let s = seq!['<', '@'] + id + seq!['>'];
    assert(mention_at(s, 0));
    let tail = s.subrange(2, s.len() as int);
    assert(tail =~= id + seq!['>']);
    assert forall|j: int| 2 <= j < s.len() implies s[j] != '<' by {
        if j < s.len() - 1 {
            assert(s[j] == id[j - 2]);
        }
    }
    lemma_no_mention_from(s, 2);
    assert(s.subrange(0, 0) =~= Seq::<char>::empty());
    lemma_no_char_split(Seq::<char>::empty(), '>');
    crate::text::lemma_find_char_from_bounds(id, '>', 0);
    crate::text::lemma_split_once_concat(id, '>', Seq::<char>::empty());
    assert(id + seq!['>'] + Seq::<char>::empty() =~= tail);
    lemma_no_char_split(id, '|');
    assert(resolve_id(id, names) + Seq::<char>::empty() =~= resolve_id(id, names));
    assert(substitute_from(s, 0, names) == substitute_section(s.subrange(0, 0), names)
        + substitute_from(s, 2, names));
    assert(Seq::<char>::empty() + resolve_id(id, names) =~= resolve_id(id, names));
}


/// A mention followed by plain text: `<@ID>` and then text `t` that holds
/// no `<` and no `>` becomes the user's name (the bare `ID` when `names`
/// does not know it) followed by all of `t`, unchanged, whatever its length.
pub proof fn lemma_mention_then_text(id: Seq<char>, t: Seq<char>, names: Map<Seq<char>, String>)
    requires
        forall|j: int| 0 <= j < id.len() ==> id[j] != '<' && id[j] != '>' && id[j] != '|',
        forall|j: int| 0 <= j < t.len() ==> t[j] != '<' && t[j] != '>',
    ensures
        substitute_spec(seq!['<', '@'] + id + seq!['>'] + t, names) == (if names.contains_key(id) {
            names[id]@
        } else {
            id
        }) + t,
{
    let s = seq!['<', '@'] + id + seq!['>'] + t;
    assert(mention_at(s, 0));
    let tail = s.subrange(2, s.len() as int);
    assert(tail =~= id + seq!['>'] + t);
    assert forall|j: int| 2 <= j < s.len() implies s[j] != '<' by {
        if j < id.len() + 2 {
            assert(s[j] == id[j - 2]);
        } else if j > id.len() + 2 {
            assert(s[j] == t[j - id.len() - 3]);
        }
    }
    lemma_no_mention_from(s, 2);
    assert(s.subrange(0, 0) =~= Seq::<char>::empty());
    lemma_no_char_split(Seq::<char>::empty(), '>');
    crate::text::lemma_find_char_from_bounds(id, '>', 0);
    crate::text::lemma_split_once_concat(id, '>', t);
    lemma_no_char_split(id, '|');
    assert(substitute_from(s, 0, names) == substitute_section(s.subrange(0, 0), names)
        + substitute_from(s, 2, names));
    assert(Seq::<char>::empty() + (resolve_id(id, names) + t) =~= resolve_id(id, names) + t);
}


// ---------------------------------------------------------------------------
// Responses
// ---------------------------------------------------------------------------

/// The map from user id to user name that a list of members gives; a later
/// member with the same id replaces an earlier one.
pub open spec fn users_map(users: Seq<SlackUser>) -> Map<Seq<char>, String>
    decreases users.len(),
{
    if users.len() == 0 {
        Map::empty()
    } else {
        users_map(users.drop_last()).insert(users.last().id@, users.last().name)
    }
}

/// The id-to-name map from the answer to the users list request: empty
/// when the service reports failure (`ok` false), else the members' map.
pub fn id_name_map(ok: bool, members: Option<Vec<SlackUser>>) -> (res: KeyedTable<String>)
    ensures
        res@ == if ok {
            match members {
                Some(m) => users_map(m@),
                None => Map::empty(),
            }
        } else {
            Map::empty()
        },
{
    let mut table: KeyedTable<String> = KeyedTable::new();
    if !ok {
        return table;
    }
    let users = match members {
        Some(m) => m,
        None => Vec::new(),
    };
    let n = users.len();
    let mut i: usize = 0;
    while i < n
        invariant
            n == users@.len(),
            i <= n,
            table@ == users_map(users@.take(i as int)),
        decreases n - i,
    {
        assert(users@.take(i + 1).drop_last() =~= users@.take(i as int));
        table.insert(users[i].id.clone(), users[i].name.clone());
        i = i + 1;
    }
    assert(users@.take(n as int) =~= users@);
    table
}

/// The messages from the answer to the history request, or the reported
/// error (`"unknown Slack API error"` when none is given) when the service
/// reports failure.
pub fn history_messages(ok: bool, error: Option<String>, messages: Option<Vec<SlackMessage>>) -> (res: Result<Vec<SlackMessage>, String>)
    ensures
        match res {
            Ok(v) => ok && v@ == match messages {
                Some(m) => m@,
                None => Seq::empty(),
            },
            Err(e) => !ok && e@ == match error {
                Some(msg) => msg@,
                None => "unknown Slack API error"@,
            },
        },
{
    if !ok {
        return Err(
            match error {
                Some(msg) => msg,
                None => String::from_str("unknown Slack API error"),
            },
        );
    }
    match messages {
        Some(m) => Ok(m),
        None => Ok(Vec::new()),
    }
}

/// Whether a history entry is a message that a user wrote: its type is
/// `message` and it has no subtype (joins, leaves, bot and app messages
/// have one).
pub open spec fn is_user_message(m: SlackMessage) -> bool {
    m.kind@ == "message"@ && m.subtype is None
}

/// The messages that users wrote, in order.
pub open spec fn user_messages(ms: Seq<SlackMessage>) -> Seq<SlackMessage> {
    ms.filter(|m: SlackMessage| is_user_message(m))
}

/// Who wrote a message: the user's name, the bare user id when the name
/// is not known, or nothing when the message has no user.
pub open spec fn author_of(user: Option<String>, names: Map<Seq<char>, String>) -> Seq<char> {
    match user {
        Some(id) => resolve_id(id@, names),
        None => Seq::empty(),
    }
}

/// Whether `d` is the record made from the message `m`: its id is the
/// message's `ts`, its message is the full text with mentions replaced by
/// names, its author the writer's name and its time the `ts` read as an
/// instant.
pub open spec fn record_of(d: SaveData, m: SlackMessage, names: Map<Seq<char>, String>) -> bool {
    &&& d.id@ == m.ts@
    &&& d.message@ == MessageView::Full {
        message: substitute_spec(
            match m.text {
                Some(t) => t@,
                None => Seq::empty(),
            },
            names,
        ),
    }
    &&& d.author@ == author_of(m.user, names)
    &&& time_of_ts(d.time, m.ts@)
}

/// Only messages that users wrote make records: every entry kept has type
/// `message` and no subtype at all, so an entry with any subtype (a bot or
/// app message, a join, a leave, ...) makes none; and every entry of type
/// `message` without a subtype is kept.
pub proof fn lemma_records_only_user_messages(ms: Seq<SlackMessage>)
    ensures
        forall|i: int|
            0 <= i < user_messages(ms).len() ==> (#[trigger] user_messages(ms)[i]).kind@
                == "message"@ && user_messages(ms)[i].subtype is None,
        forall|i: int|
            0 <= i < ms.len() && (#[trigger] ms[i]).subtype is Some ==> !user_messages(
                ms,
            ).contains(ms[i]),
        forall|i: int|
            0 <= i < ms.len() && (#[trigger] ms[i]).kind@ == "message"@ && ms[i].subtype is None
                ==> user_messages(ms).contains(ms[i]),
{
    let pred = |m: SlackMessage| is_user_message(m);
    assert forall|i: int|
        0 <= i < user_messages(ms).len() implies (#[trigger] user_messages(ms)[i]).kind@
        == "message"@ && user_messages(ms)[i].subtype is None by {
        ms.lemma_filter_pred(pred, i);
    }
    assert forall|i: int|
        0 <= i < ms.len() && (#[trigger] ms[i]).subtype is Some implies !user_messages(
            ms,
        ).contains(ms[i]) by {
        if user_messages(ms).contains(ms[i]) {
            let k = choose|k: int| 0 <= k < user_messages(ms).len() && user_messages(ms)[k] == ms[i];
            ms.lemma_filter_pred(pred, k);
        }
    }
    assert forall|i: int|
        0 <= i < ms.len() && (#[trigger] ms[i]).kind@ == "message"@ && ms[i].subtype is None
            implies user_messages(ms).contains(ms[i]) by {
        ms.lemma_filter_contains(pred, i);
    }
}

fn is_user_message_exec(m: &SlackMessage) -> (res: bool)
    ensures
        res == is_user_message(*m),
{
    m.kind == String::from_str("message") && m.subtype.is_none()
}

/// The records to save from a channel history: one for each message that
/// a user wrote, in order; system events and bot messages are skipped.
pub fn history_records(messages: &[SlackMessage], id_name_map: &KeyedTable<String>) -> (res: Vec<SaveData>)
    ensures
        res@.len() == user_messages(messages@).len(),
        forall|i: int|
            0 <= i < res@.len() ==> record_of(
                #[trigger] res@[i],
                user_messages(messages@)[i],
                id_name_map@,
            ),
{
    broadcast use vstd::seq_lib::group_seq_properties;

    let ghost pred = |m: SlackMessage| is_user_message(m);
    let mut out: Vec<SaveData> = Vec::new();
    let n = messages.len();
    let mut i: usize = 0;
    assert(messages@.take(0) =~= Seq::<SlackMessage>::empty());
    while i < n
        invariant
            n == messages@.len(),
            i <= n,
            pred == (|m: SlackMessage| is_user_message(m)),
            out@.len() == messages@.take(i as int).filter(pred).len(),
            forall|k: int|
                0 <= k < out@.len() ==> record_of(
                    #[trigger] out@[k],
                    messages@.take(i as int).filter(pred)[k],
                    id_name_map@,
                ),
        decreases n - i,
    {
        let m = &messages[i];
        assert(messages@.take(i + 1) =~= messages@.take(i as int).push(*m));
        proof {
            messages@.take(i as int).lemma_filter_push(*m, pred);
        }
        let ghost prev = messages@.take(i as int).filter(pred);
        if is_user_message_exec(m) {
            let time = parse_slack_ts(m.ts.as_str());
            let author = match &m.user {
                Some(id) => match id_name_map.get(id) {
                    Some(name) => name.clone(),
                    None => id.clone(),
                },
                None => String::new(),
            };
            let text = match &m.text {
                Some(t) => t.clone(),
                None => String::new(),
            };
            let cleartext = substitute_ids(text.as_str(), id_name_map);
            out.push(
                SaveData {
                    id: m.ts.clone(),
                    message: MediaMessage::Full { message: cleartext },
                    author,
                    time,
                },
            );
            assert(messages@.take(i + 1).filter(pred) == prev.push(*m));
        } else {
            assert(messages@.take(i + 1).filter(pred) == prev);
        }
        i = i + 1;
    }
    assert(messages@.take(n as int) =~= messages@);
    out
}


proof fn lemma_find_mention_shift(a: Seq<char>, b: Seq<char>, k: int)
    requires
        0 <= k <= b.len(),
    ensures
        find_mention_from(a + b, a.len() + k) == match find_mention_from(b, k) {
            Some(j) => Some(a.len() + j),
            None => None::<int>,
        },
    decreases b.len() - k,
{
    let s = a + b;
    if k + 1 < b.len() {
        assert(s[a.len() + k] == b[k]);
        assert(s[a.len() + k + 1] == b[k + 1]);
        if !mention_at(b, k) {
            lemma_find_mention_shift(a, b, k + 1);
        }
    }
}

proof fn lemma_substitute_shift(a: Seq<char>, b: Seq<char>, k: int, names: Map<Seq<char>, String>)
    requires
        0 <= k <= b.len(),
    ensures
        substitute_from(a + b, a.len() + k, names) == substitute_from(b, k, names),
    decreases b.len() - k,
{
    let s = a + b;
    lemma_find_mention_shift(a, b, k);
    lemma_find_mention_bounds(b, k);
    match find_mention_from(b, k) {
        None => {
            assert(s.subrange(a.len() + k, s.len() as int) =~= b.subrange(k, b.len() as int));
        },
        Some(j) => {
            assert(s.subrange(a.len() + k, a.len() + j) =~= b.subrange(k, j));
            lemma_substitute_shift(a, b, j + 2, names);
        },
    }
}

proof fn lemma_find_mention_prefix(a: Seq<char>, b: Seq<char>, i: int)
    requires
        0 <= i <= a.len(),
        b.len() >= 2,
        b[0] == '<',
        b[1] == '@',
    ensures
        find_mention_from(a + b, i) == match find_mention_from(a, i) {
            Some(j) => Some(j),
            None => Some(a.len() as int),
        },
    decreases a.len() - i,
{
    let s = a + b;
    if i == a.len() {
        assert(mention_at(s, i));
    } else {
        assert(s[i] == a[i]);
        if i + 1 < a.len() {
            assert(s[i + 1] == a[i + 1]);
        } else {
            assert(s[i + 1] == '<');
        }
        if !mention_at(s, i) {
            lemma_find_mention_prefix(a, b, i + 1);
        }
    }
}

proof fn lemma_substitute_prefix(a: Seq<char>, b: Seq<char>, i: int, names: Map<Seq<char>, String>)
    requires
        0 <= i <= a.len(),
        b.len() >= 2,
        b[0] == '<',
        b[1] == '@',
    ensures
        substitute_from(a + b, i, names) == substitute_from(a, i, names) + substitute_from(
            b,
            2,
            names,
        ),
    decreases a.len() - i,
{
    let s = a + b;
    lemma_find_mention_prefix(a, b, i);
    lemma_find_mention_bounds(a, i);
    match find_mention_from(a, i) {
        None => {
            assert(s.subrange(i, a.len() as int) =~= a.subrange(i, a.len() as int));
            lemma_substitute_shift(a, b, 2, names);
        },
        Some(j) => {
            assert(s.subrange(i, j) =~= a.subrange(i, j));
            lemma_substitute_prefix(a, b, j + 2, names);
            assert(substitute_section(a.subrange(i, j), names) + (substitute_from(a, j + 2, names)
                + substitute_from(b, 2, names)) =~= substitute_section(a.subrange(i, j), names)
                + substitute_from(a, j + 2, names) + substitute_from(b, 2, names));
        },
    }
}

/// Substitution works piece by piece: for text `b` that is empty or starts
/// with a mention, substituting `a` followed by `b` gives the substitution
/// of `a` followed by that of `b`.
pub proof fn lemma_substitute_concat(a: Seq<char>, b: Seq<char>, names: Map<Seq<char>, String>)
    requires
        b.len() == 0 || (b.len() >= 2 && b[0] == '<' && b[1] == '@'),
    ensures
        substitute_spec(a + b, names) == substitute_spec(a, names) + substitute_spec(b, names),
{
    if b.len() == 0 {
        assert(a + b =~= a);
        assert(find_mention_from(b, 0) is None);
        assert(b.subrange(0, 0) =~= b);
        lemma_no_char_split(b, '>');
        assert(substitute_spec(a, names) + substitute_spec(b, names) =~= substitute_spec(a, names));
    } else {
        lemma_substitute_prefix(a, b, 0, names);
        assert(mention_at(b, 0));
        assert(b.subrange(0, 0) =~= Seq::<char>::empty());
        lemma_no_char_split(Seq::<char>::empty(), '>');
        assert(substitute_spec(b, names) =~= substitute_from(b, 2, names));
    }
}

} // verus!
