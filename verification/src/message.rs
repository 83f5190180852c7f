//! Chat messages, the records saved for them, and the grouping of a
//! message's text into quote, quotee and receiver by a regular expression.

use regex::Regex;
use vstd::prelude::*;

use crate::text::{decimal, push_decimal};
use crate::time::UtcDateTime;

verus! {

/// The default quote format (Swedish): `"[quote]" - @[quotee] till @[receiver]`,
/// where the quotation marks, the `@` and the `till @[receiver]` part are
/// optional.
pub const QUOTE_REGEX: &'static str = "(?P<quote1>[\"\\\"\u{201d}])?(?P<text>.*?)(?P<quote2>[\"\\\"\u{201d}])?\\s*-\\s*@?(?P<quotee>.*?)(?P<till>\\s+till\\s+@(?P<receiver>.*))?$";

/// The characters of an optional string.
pub open spec fn opt_chars(o: Option<String>) -> Option<Seq<char>> {
    match o {
        Some(s) => Some(s@),
        None => None,
    }
}

/// A message as the chat service delivered it, or after grouping.
#[derive(Clone, Debug)]
pub enum MediaMessage {
    Full { message: String },
    Grouped { quote: String, quotee: String, receiver: Option<String> },
}

/// The abstract content of a [`MediaMessage`].
pub ghost enum MessageView {
    Full { message: Seq<char> },
    Grouped { quote: Seq<char>, quotee: Seq<char>, receiver: Option<Seq<char>> },
}

impl View for MediaMessage {
    type V = MessageView;

    open spec fn view(&self) -> MessageView {
        match self {
            MediaMessage::Full { message } => MessageView::Full { message: message@ },
            MediaMessage::Grouped { quote, quotee, receiver } => MessageView::Grouped {
                quote: quote@,
                quotee: quotee@,
                receiver: opt_chars(*receiver),
            },
        }
    }
}

/// One record to save: the message, who posted it and when.
#[derive(Clone, Debug)]
pub struct SaveData {
    pub id: String,
    pub message: MediaMessage,
    pub author: String,
    pub time: Option<UtcDateTime>,
}

// ---------------------------------------------------------------------------
// Regular expressions
// ---------------------------------------------------------------------------

#[verifier::external_type_specification]
#[verifier::external_body]
pub struct ExRegex(Regex);

/// Whether `Regex::captures` finds a match of `pattern` in `text`.
pub uninterp spec fn regex_finds(pattern: Seq<char>, text: Seq<char>) -> bool;

/// The text that the group named `group` matched in the first match of
/// `pattern` in `text` (`Captures::name`), if it took part in the match.
pub uninterp spec fn regex_named_group(pattern: Seq<char>, text: Seq<char>, group: Seq<char>) -> Option<Seq<char>>;

/// Why a pattern was refused, as `regex::Error` tells it.
#[derive(Clone, Debug)]
pub enum RegexFailure {
    /// A syntax error, with the crate's description of it.
    Syntax(String),
    /// The compiled program exceeded this size limit.
    CompiledTooBig(usize),
    /// Any other failure.
    Unknown,
}

/// The abstract content of a [`RegexFailure`].
pub ghost enum RegexFailureView {
    Syntax(Seq<char>),
    CompiledTooBig(nat),
    Unknown,
}

impl View for RegexFailure {
    type V = RegexFailureView;

    open spec fn view(&self) -> RegexFailureView {
        match self {
            RegexFailure::Syntax(s) => RegexFailureView::Syntax(s@),
            RegexFailure::CompiledTooBig(n) => RegexFailureView::CompiledTooBig(*n as nat),
            RegexFailure::Unknown => RegexFailureView::Unknown,
        }
    }
}

/// What `regex::Regex::new` answers for `pattern`: `None` when it accepts
/// it, else why it refuses it.
pub uninterp spec fn regex_new_outcome(pattern: Seq<char>) -> Option<RegexFailureView>;

/// Whether `regex::Regex::new` accepts `pattern`.
pub open spec fn regex_compiles(pattern: Seq<char>) -> bool {
    regex_new_outcome(pattern) is None
}

/// Why `regex::Regex::new` refuses `pattern`, when it does.
pub open spec fn regex_refusal(pattern: Seq<char>) -> RegexFailureView {
    regex_new_outcome(pattern)->0
}

/// Compiles `pattern`.
///
/// Trusted: calls `regex::Regex::new`, whose result depends on the pattern
/// alone; its error variants are carried over one for one.
#[verifier::external_body]
fn compile_regex(pattern: &str) -> (res: Result<Regex, RegexFailure>)
    ensures
        match res {
            Ok(_) => regex_new_outcome(pattern@) is None,
            Err(e) => regex_new_outcome(pattern@) == Some(e@),
        },
{
    match Regex::new(pattern) {
        Ok(re) => Ok(re),
        Err(regex::Error::Syntax(s)) => Err(RegexFailure::Syntax(s)),
        Err(regex::Error::CompiledTooBig(n)) => Err(RegexFailure::CompiledTooBig(n)),
        Err(_) => Err(RegexFailure::Unknown),
    }
}

/// A compiled pattern together with its source. Only [`QuotePattern::new`]
/// builds one, so `compiled` is always `Regex::new(source)`.
pub struct QuotePattern {
    source: String,
    compiled: Regex,
}

impl View for QuotePattern {
    type V = Seq<char>;

    /// The pattern's source text.
    closed spec fn view(&self) -> Seq<char> {
        self.source@
    }
}

impl QuotePattern {
    /// Compiles `pattern`.
    pub fn new(pattern: &str) -> (res: Result<QuotePattern, RegexFailure>)
        ensures
            match res {
                Ok(p) => regex_compiles(pattern@) && p@ == pattern@,
                Err(e) => !regex_compiles(pattern@) && e@ == regex_refusal(pattern@),
            },
    {
        match compile_regex(pattern) {
            Ok(compiled) => Ok(QuotePattern { source: String::from_str(pattern), compiled }),
            Err(e) => Err(e),
        }
    }

    /// The text that group `group` matched in the first match in `text`:
    /// `None` when nothing matches, `Some(None)` when the group took no part.
    pub fn capture(&self, text: &str, group: &str) -> (res: Option<Option<String>>)
        ensures
            res is Some <==> regex_finds(self@, text@),
            res matches Some(g) ==> opt_chars(g) == regex_named_group(self@, text@, group@),
    {
        captured_group(self, text, group)
    }
}

/// The group `group` of the first match of `p` in `text`.
///
/// Trusted: calls `Regex::captures` on `p.compiled` (built from `p.source`),
/// then `Captures::name` and `Match::as_str`; both results depend on the
/// pattern and the text alone.
#[verifier::external_body]
fn captured_group(p: &QuotePattern, text: &str, group: &str) -> (res: Option<Option<String>>)
    ensures
        res is Some <==> regex_finds(p@, text@),
        res matches Some(g) ==> opt_chars(g) == regex_named_group(p@, text@, group@),
{
    p.compiled.captures(text).map(|c| c.name(group).map(|m| m.as_str().to_string()))
}

// ---------------------------------------------------------------------------
// Grouping
// ---------------------------------------------------------------------------

/// What a match yielded for the groups `text`, `quotee` and `receiver`.
#[derive(Clone, Debug)]
pub struct QuoteCaptures {
    pub text: Option<String>,
    pub quotee: Option<String>,
    pub receiver: Option<String>,
}

/// Why a message could not be grouped.
#[derive(Clone, Debug)]
pub enum GroupError {
    /// The pattern does not compile.
    InvalidRegex(RegexFailure),
    /// The message is grouped already.
    AlreadyGrouped,
    /// The pattern does not match the message.
    NoMatch,
    /// The match lacks the `text` or the `quotee` group.
    MissingCaptures,
}

/// The kind of an error, as `std::io::ErrorKind` names it.
#[derive(Clone, Copy, Debug, PartialEq, Eq, Structural)]
pub enum FailureKind {
    InvalidInput,
    InvalidData,
    NotFound,
}

/// The outcome of grouping, abstractly.
pub ghost enum GroupOutcome {
    Grouped(MessageView),
    InvalidRegex(RegexFailureView),
    AlreadyGrouped,
    NoMatch,
    MissingCaptures,
}

/// The abstract outcome of a grouping result.
pub open spec fn outcome_of(r: Result<MediaMessage, GroupError>) -> GroupOutcome {
    match r {
        Ok(m) => GroupOutcome::Grouped(m@),
        Err(GroupError::InvalidRegex(f)) => GroupOutcome::InvalidRegex(f@),
        Err(GroupError::AlreadyGrouped) => GroupOutcome::AlreadyGrouped,
        Err(GroupError::NoMatch) => GroupOutcome::NoMatch,
        Err(GroupError::MissingCaptures) => GroupOutcome::MissingCaptures,
    }
}

/// The groups `text`, `quotee`, `receiver` of a match, abstractly.
pub type CapturesView = (Option<Seq<char>>, Option<Seq<char>>, Option<Seq<char>>);

/// The abstract content of optional captures.
pub open spec fn captures_view(c: Option<QuoteCaptures>) -> Option<CapturesView> {
    match c {
        Some(q) => Some((opt_chars(q.text), opt_chars(q.quotee), opt_chars(q.receiver))),
        None => None,
    }
}

/// What the message `msg` becomes given what the match yielded.
pub open spec fn grouping(msg: MessageView, caps: Option<CapturesView>) -> GroupOutcome {
    match msg {
        MessageView::Grouped { .. } => GroupOutcome::AlreadyGrouped,
        MessageView::Full { .. } => match caps {
            None => GroupOutcome::NoMatch,
            Some((Some(quote), Some(quotee), receiver)) => GroupOutcome::Grouped(
                MessageView::Grouped { quote, quotee, receiver },
            ),
            Some(_) => GroupOutcome::MissingCaptures,
        },
    }
}

/// What matching `pattern` against `text` yields for the three groups.
pub open spec fn quote_captures(pattern: Seq<char>, text: Seq<char>) -> Option<CapturesView> {
    if regex_finds(pattern, text) {
        Some(
            (
                regex_named_group(pattern, text, "text"@),
                regex_named_group(pattern, text, "quotee"@),
                regex_named_group(pattern, text, "receiver"@),
            ),
        )
    } else {
        None
    }
}

/// What grouping `msg` with `pattern` gives.
pub open spec fn group_outcome(msg: MessageView, pattern: Seq<char>) -> GroupOutcome {
    if !regex_compiles(pattern) {
        GroupOutcome::InvalidRegex(regex_refusal(pattern))
    } else {
        match msg {
            MessageView::Full { message } => grouping(msg, quote_captures(pattern, message)),
            MessageView::Grouped { .. } => GroupOutcome::AlreadyGrouped,
        }
    }
}

pub(crate) fn clone_opt(o: &Option<String>) -> (res: Option<String>)
    ensures
        opt_chars(res) == opt_chars(*o),
{
    match o {
        Some(s) => Some(s.clone()),
        None => None,
    }
}

impl MediaMessage {
    /// Groups the message given what the match yielded for its text.
    pub fn group_captures(&self, caps: Option<QuoteCaptures>) -> (res: Result<MediaMessage, GroupError>)
        ensures
            outcome_of(res) == grouping(self@, captures_view(caps)),
    {
        match self {
            MediaMessage::Grouped { .. } => Err(GroupError::AlreadyGrouped),
            MediaMessage::Full { .. } => match caps {
                None => Err(GroupError::NoMatch),
                Some(c) => match (c.text, c.quotee) {
                    (Some(quote), Some(quotee)) => Ok(
                        MediaMessage::Grouped { quote, quotee, receiver: c.receiver },
                    ),
                    _ => Err(GroupError::MissingCaptures),
                },
            },
        }
    }

    /// Splits a full message into quote, quotee and receiver with the
    /// pattern `regex`, whose groups `text`, `quotee` and (optionally)
    /// `receiver` give the three parts.
    pub fn group(&self, regex: &str) -> (res: Result<MediaMessage, GroupError>)
        ensures
            outcome_of(res) == group_outcome(self@, regex@),
    {
        let pattern = match QuotePattern::new(regex) {
            Ok(p) => p,
            Err(e) => {
                return Err(GroupError::InvalidRegex(e));
            },
        };
        match self {
            MediaMessage::Grouped { .. } => Err(GroupError::AlreadyGrouped),
            MediaMessage::Full { message } => {
                let text = pattern.capture(message.as_str(), "text");
                let caps = match text {
                    None => None,
                    Some(t) => {
                        let quotee = pattern.capture(message.as_str(), "quotee");
                        let receiver = pattern.capture(message.as_str(), "receiver");
                        match (quotee, receiver) {
                            (Some(q), Some(r)) => Some(QuoteCaptures { text: t, quotee: q, receiver: r }),
                            _ => None,
                        }
                    },
                };
                let res = self.group_captures(caps);
                proof {
                    reveal_strlit("text");
                    reveal_strlit("quotee");
                    reveal_strlit("receiver");
                }
                res
            },
        }
    }
}


/// The text of a refused pattern's error.
pub open spec fn regex_failure_text(f: RegexFailure) -> Seq<char> {
    match f {
        RegexFailure::Syntax(s) => "Regex is not valid: "@ + s@,
        RegexFailure::CompiledTooBig(n) => "Regex is too big. Exceeded size limit "@ + decimal(
            n as nat,
        ),
        RegexFailure::Unknown => "Unknown error generating regex"@,
    }
}

/// The text of a grouping error.
pub open spec fn group_error_text(e: GroupError) -> Seq<char> {
    match e {
        GroupError::InvalidRegex(f) => regex_failure_text(f),
        GroupError::AlreadyGrouped => "Already ungrouped"@,
        GroupError::NoMatch => "Data does not match regex; no match found"@,
        GroupError::MissingCaptures => "Missing required regex captures"@,
    }
}

impl GroupError {
    /// The kind of the error: a bad pattern or a grouped message is invalid
    /// input, a message that does not match is invalid data, and missing
    /// groups are not found.
    pub fn kind(&self) -> (res: FailureKind)
        ensures
            res == match self {
                GroupError::InvalidRegex(_) | GroupError::AlreadyGrouped => FailureKind::InvalidInput,
                GroupError::NoMatch => FailureKind::InvalidData,
                GroupError::MissingCaptures => FailureKind::NotFound,
            },
    {
        match self {
            GroupError::InvalidRegex(_) | GroupError::AlreadyGrouped => FailureKind::InvalidInput,
            GroupError::NoMatch => FailureKind::InvalidData,
            GroupError::MissingCaptures => FailureKind::NotFound,
        }
    }

    /// The error's message.
    pub fn message(&self) -> (res: String)
        ensures
            res@ == group_error_text(*self),
    {
        match self {
            GroupError::InvalidRegex(RegexFailure::Syntax(s)) => {
                let mut m = String::from_str("Regex is not valid: ");
                m.append(s.as_str());
                m
            },
            GroupError::InvalidRegex(RegexFailure::CompiledTooBig(n)) => {
                let mut m = String::from_str("Regex is too big. Exceeded size limit ");
                push_decimal(&mut m, *n as u64);
                m
            },
            GroupError::InvalidRegex(RegexFailure::Unknown) => String::from_str(
                "Unknown error generating regex",
            ),
            GroupError::AlreadyGrouped => String::from_str("Already ungrouped"),
            GroupError::NoMatch => String::from_str("Data does not match regex; no match found"),
            GroupError::MissingCaptures => String::from_str("Missing required regex captures"),
        }
    }
}

/// Whether grouping with this outcome stops the run: every failure but a
/// message that does not match, which is saved whole instead.
pub open spec fn is_fatal(o: GroupOutcome) -> bool {
    !(o is Grouped || o is NoMatch)
}

/// The message that a record carries after grouping with this outcome.
pub open spec fn regrouped(msg: MessageView, o: GroupOutcome) -> MessageView {
    match o {
        GroupOutcome::Grouped(m) => m,
        _ => msg,
    }
}

/// Groups the message of every record with `regex`. A message that the
/// pattern does not match is kept whole, so that its entire text is saved
/// as the quote; any other failure is returned, the first one met.
pub fn group_messages(data: &[SaveData], regex: &str) -> (res: Result<Vec<SaveData>, GroupError>)
    ensures
        res is Ok <==> forall|i: int|
            0 <= i < data@.len() ==> !is_fatal(#[trigger] group_outcome(data@[i].message@, regex@)),
        res matches Ok(v) ==> {
            &&& v@.len() == data@.len()
            &&& forall|i: int|
                0 <= i < data@.len() ==> {
                    &&& (#[trigger] v@[i]).message@ == regrouped(
                        data@[i].message@,
                        group_outcome(data@[i].message@, regex@),
                    )
                    &&& v@[i].id@ == data@[i].id@
                    &&& v@[i].author@ == data@[i].author@
                    &&& v@[i].time == data@[i].time
                }
        },
        res matches Err(e) ==> exists|i: int|
            0 <= i < data@.len() && outcome_of(Err(e)) == #[trigger] group_outcome(
                data@[i].message@,
                regex@,
            ) && is_fatal(group_outcome(data@[i].message@, regex@)) && forall|j: int|
                0 <= j < i ==> !is_fatal(#[trigger] group_outcome(data@[j].message@, regex@)),
{
    let mut out: Vec<SaveData> = Vec::new();
    let n = data.len();
    let mut i: usize = 0;
    while i < n
        invariant
            n == data@.len(),
            i <= n,
            out@.len() == i,
            forall|k: int| 0 <= k < i ==> !is_fatal(#[trigger] group_outcome(data@[k].message@, regex@)),
            forall|k: int|
                0 <= k < i ==> {
                    &&& (#[trigger] out@[k]).message@ == regrouped(
                        data@[k].message@,
                        group_outcome(data@[k].message@, regex@),
                    )
                    &&& out@[k].id@ == data@[k].id@
                    &&& out@[k].author@ == data@[k].author@
                    &&& out@[k].time == data@[k].time
                },
        decreases n - i,
    {
        let d = &data[i];
        let message = match d.message.group(regex) {
            Ok(m) => m,
            Err(GroupError::NoMatch) => d.message.clone_message(),
            Err(e) => {
                return Err(e);
            },
        };
        out.push(SaveData { id: d.id.clone(), message, author: d.author.clone(), time: d.time });
        i = i + 1;
    }
    Ok(out)
}

impl MediaMessage {
    /// A copy of the message.
    pub fn clone_message(&self) -> (res: MediaMessage)
        ensures
            res@ == self@,
    {
        match self {
            MediaMessage::Full { message } => MediaMessage::Full { message: message.clone() },
            MediaMessage::Grouped { quote, quotee, receiver } => MediaMessage::Grouped {
                quote: quote.clone(),
                quotee: quotee.clone(),
                receiver: clone_opt(receiver),
            },
        }
    }
}

} // verus!
