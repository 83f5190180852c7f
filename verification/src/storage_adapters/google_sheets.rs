//! The spreadsheet (Google Sheets): its columns, the ranges read from it,
//! and what is read from and written to them.

use vstd::prelude::*;

use crate::message::{
    clone_opt, group_outcome, is_fatal, opt_chars, regex_compiles, regex_finds, regex_named_group,
    regrouped, MediaMessage, MessageView, SaveData,
};
use crate::table::KeyedTable;
use crate::text::{
    chars_of, decimal, last_piece, last_piece_chars, parse_usize, parse_usize_spec, push_char,
    push_decimal, split_once_char, split_once_chars,
};
use crate::time::{chrono_utc_display, chrono_utc_parse, UtcDateTime};

verus! {

/// The columns of the sheet, one per field of a record.
#[derive(Clone, Copy, Debug, PartialEq, Eq, Structural)]
pub enum StorageColumn {
    Quote,
    Quotee,
    Receiver,
    Quoter,
    Time,
}

/// The letter of a column: A to E in the order quote, quotee, receiver,
/// quoter, time.
pub open spec fn column_letter(c: StorageColumn) -> char {
    match c {
        StorageColumn::Quote => 'A',
        StorageColumn::Quotee => 'B',
        StorageColumn::Receiver => 'C',
        StorageColumn::Quoter => 'D',
        StorageColumn::Time => 'E',
    }
}

impl From<StorageColumn> for char {
    fn from(value: StorageColumn) -> (res: char) {
        match value {
            StorageColumn::Quote => 'A',
            StorageColumn::Quotee => 'B',
            StorageColumn::Receiver => 'C',
            StorageColumn::Quoter => 'D',
            StorageColumn::Time => 'E',
        }
    }
}

impl vstd::std_specs::convert::FromSpecImpl<StorageColumn> for char {
    open spec fn obeys_from_spec() -> bool {
        true
    }

    open spec fn from_spec(v: StorageColumn) -> char {
        column_letter(v)
    }
}

/// The first row that holds data; row 1 holds the headings.
pub const START_ROW: u16 = 2;

/// The range of a whole column below the headings: `{sheet}!{L}2:{L}`.
pub open spec fn column_range_spec(sheet_name: Seq<char>, column: StorageColumn) -> Seq<char> {
    let l = column_letter(column);
    sheet_name + seq!['!', l] + decimal(START_ROW as nat) + seq![':', l]
}

/// The range of each column is the sheet's name, `!`, the column's own
/// letter (quote A, quotee B, receiver C, quoter D, time E, the letter that
/// `char::from` gives), the first data row 2, `:` and the same letter.
pub proof fn lemma_column_ranges(sheet_name: Seq<char>, column: StorageColumn)
    ensures
        column_range_spec(sheet_name, column) == sheet_name + seq![
            '!',
            <char as vstd::std_specs::convert::FromSpec<StorageColumn>>::from_spec(column),
            '2',
            ':',
            <char as vstd::std_specs::convert::FromSpec<StorageColumn>>::from_spec(column),
        ],
        column_range_spec(sheet_name, StorageColumn::Quote) == sheet_name + seq!['!', 'A', '2', ':', 'A'],
        column_range_spec(sheet_name, StorageColumn::Quotee) == sheet_name + seq!['!', 'B', '2', ':', 'B'],
        column_range_spec(sheet_name, StorageColumn::Receiver) == sheet_name + seq!['!', 'C', '2', ':', 'C'],
        column_range_spec(sheet_name, StorageColumn::Quoter) == sheet_name + seq!['!', 'D', '2', ':', 'D'],
        column_range_spec(sheet_name, StorageColumn::Time) == sheet_name + seq!['!', 'E', '2', ':', 'E'],
{
    assert(decimal(2) =~= seq!['2']);
    assert forall|c: StorageColumn| #[trigger] column_range_spec(sheet_name, c) =~= sheet_name + seq![
        '!',
        column_letter(c),
        '2',
        ':',
        column_letter(c),
    ] by {}
}

/// The range of a whole column below the headings, as the API spells it.
pub fn column_range(sheet_name: &String, column: StorageColumn) -> (res: String)
    ensures
        res@ == column_range_spec(sheet_name@, column),
{
    let letter = char::from(column);
    let mut s = sheet_name.clone();
    push_char(&mut s, '!');
    push_char(&mut s, letter);
    push_decimal(&mut s, START_ROW as u64);
    push_char(&mut s, ':');
    push_char(&mut s, letter);
    assert(s@ =~= column_range_spec(sheet_name@, column));
    s
}

// ---------------------------------------------------------------------------
// Credentials
// ---------------------------------------------------------------------------

#[verifier::external_type_specification]
#[verifier::external_body]
pub struct ExServiceAccountKey(yup_oauth2::ServiceAccountKey);

/// What `yup_oauth2::parse_service_account_key` answers for the JSON text
/// `credentials`: `None` when it reads a key from it, else the text of its
/// error (`Bad service account key: ...`).
pub uninterp spec fn service_account_key_outcome(credentials: Seq<char>) -> Option<Seq<char>>;

/// Whether `credentials` is a service-account key that the OAuth crate
/// accepts.
pub open spec fn service_account_key_accepted(credentials: Seq<char>) -> bool {
    service_account_key_outcome(credentials) is None
}

/// Reads a service-account key from its JSON text.
///
/// Trusted: calls `yup_oauth2::parse_service_account_key`, which decodes
/// the text with `serde_json::from_slice` and so depends on the text alone;
/// its `io::Error` is carried over as its message.
#[verifier::external_body]
fn key_from_json(credentials: &str) -> (res: Result<
    yup_oauth2::ServiceAccountKey,
    String,
>)
    ensures
        match res {
            Ok(_) => service_account_key_outcome(credentials@) is None,
            Err(msg) => service_account_key_outcome(credentials@) == Some(msg@),
        },
{
    yup_oauth2::parse_service_account_key(credentials).map_err(|e| e.to_string())
}

/// The service-account key that the credentials text holds, or the reason
/// it holds none.
pub fn parse_service_account_key(credentials: &str) -> (res: Result<
    yup_oauth2::ServiceAccountKey,
    String,
>)
    ensures
        res is Ok <==> service_account_key_accepted(credentials@),
        res matches Err(msg) ==> service_account_key_outcome(credentials@) == Some(msg@),
{
    key_from_json(credentials)
}

// ---------------------------------------------------------------------------
// Row bounds of a range
// ---------------------------------------------------------------------------

/// Whether `char::is_alphabetic` holds of `c` (the Unicode Alphabetic
/// property).
pub uninterp spec fn char_alphabetic(c: char) -> bool;

/// Whether `c` is alphabetic.
///
/// Trusted: calls `char::is_alphabetic`, whose result depends on `c` alone;
/// the property itself is only named.
#[verifier::external_body]
fn is_alphabetic(c: char) -> (res: bool)
    ensures
        res == char_alphabetic(c),
{
    c.is_alphabetic()
}

/// `s` without its leading alphabetic characters
/// (`trim_start_matches(char::is_alphabetic)`).
pub open spec fn trim_alphabetic(s: Seq<char>) -> Seq<char>
    decreases s.len(),
{
    if s.len() > 0 && char_alphabetic(s[0]) {
        trim_alphabetic(s.drop_first())
    } else {
        s
    }
}

fn trim_alphabetic_chars(s: &[char]) -> (res: Vec<char>)
    ensures
        res@ == trim_alphabetic(s@),
{
    let n = s.len();
    let mut i: usize = 0;
    assert(s@.skip(0) =~= s@);
    while i < n && is_alphabetic(s[i])
        invariant
            n == s@.len(),
            i <= n,
            trim_alphabetic(s@) == trim_alphabetic(s@.skip(i as int)),
        decreases n - i,
    {
        assert(s@.skip(i as int).drop_first() =~= s@.skip(i + 1));
        i = i + 1;
    }
    let r = crate::text::slice_chars(s, i, n);
    assert(r@ =~= s@.skip(i as int));
    r
}

/// The first and last row of an A1 range such as `Sheet!A2:E10`: the
/// part after the last `!`, split at the first `:`, each side without its
/// column letters, read as numbers.
pub open spec fn range_row_bounds(range: Seq<char>) -> Option<(nat, nat)> {
    match split_once_char(last_piece(range, '!'), ':') {
        None => None,
        Some((start, end)) => match (
            parse_usize_spec(trim_alphabetic(start)),
            parse_usize_spec(trim_alphabetic(end)),
        ) {
            (Some(a), Some(b)) => Some((a, b)),
            _ => None,
        },
    }
}

/// The first and last row of an A1 range.
pub fn get_range_row_bounds(range: &str) -> (res: Option<(usize, usize)>)
    ensures
        match res {
            Some((a, b)) => range_row_bounds(range@) == Some((a as nat, b as nat)),
            None => range_row_bounds(range@) is None,
        },
{
    let cs = chars_of(range);
    let range = last_piece_chars(&cs, '!');
    let (start, end) = match split_once_chars(&range, ':') {
        Some(p) => p,
        None => {
            return None;
        },
    };
    let start_row = match parse_usize(&trim_alphabetic_chars(&start)) {
        Some(v) => v,
        None => {
            return None;
        },
    };
    let end_row = match parse_usize(&trim_alphabetic_chars(&end)) {
        Some(v) => v,
        None => {
            return None;
        },
    };
    Some((start_row, end_row))
}


// ---------------------------------------------------------------------------
// Rows already in the sheet
// ---------------------------------------------------------------------------

/// The cells of one range as the API returns them: rows (or columns, with
/// a column-major request) of cells, each cell the text of a string value
/// or `None` for any other value.
#[derive(Clone, Debug)]
pub struct SheetValues {
    pub values: Option<Vec<Vec<Option<String>>>>,
}

/// The first row (or column) of a range's cells, if there is one.
pub open spec fn first_line(r: SheetValues) -> Option<Seq<Option<String>>> {
    match r.values {
        Some(v) => if v@.len() > 0 {
            Some(v@[0]@)
        } else {
            None
        },
        None => None,
    }
}

/// The key under which a quote row is known: the quote, `::`, and the
/// quotee (empty when there is none).
pub open spec fn quote_row_key(quote: Seq<char>, quotee: Option<Seq<char>>) -> Seq<char> {
    quote + "::"@ + match quotee {
        Some(q) => q,
        None => Seq::empty(),
    }
}

/// The quotee cell that goes with row `i`: a missing cell counts as none.
pub open spec fn quotee_at(quotees: Seq<Option<String>>, i: int) -> Option<Seq<char>> {
    if i < quotees.len() {
        opt_chars(quotees[i])
    } else {
        None
    }
}

/// The map from quote key to row offset over the first `n` quote cells:
/// cells that are not text are skipped, and a later row with the same key
/// replaces an earlier one.
pub open spec fn quote_rows_map(quotes: Seq<Option<String>>, quotees: Seq<Option<String>>, n: nat) -> Map<Seq<char>, usize>
    decreases n,
{
    if n == 0 {
        Map::empty()
    } else {
        let prev = quote_rows_map(quotes, quotees, (n - 1) as nat);
        let i = n - 1;
        match quotes[i] {
            Some(q) => prev.insert(quote_row_key(q@, quotee_at(quotees, i)), i as usize),
            None => prev,
        }
    }
}

/// The key that row `i` is known by (`quote::quotee`, the quotee empty when
/// its cell is missing or not text), when its quote cell is text.
pub open spec fn row_key(quotes: Seq<Option<String>>, quotees: Seq<Option<String>>, i: int) -> Option<
    Seq<char>,
> {
    match quotes[i] {
        Some(q) => Some(
            q@ + "::"@ + if 0 <= i < quotees.len() && quotees[i] is Some {
                quotees[i]->0@
            } else {
                Seq::<char>::empty()
            },
        ),
        None => None,
    }
}

/// Over the first `n` rows, a key is in the table exactly when some row
/// with a text quote has it, and it maps to the last such row: a later row
/// with the same key replaces an earlier one.
pub proof fn lemma_quote_rows_last_wins(
    quotes: Seq<Option<String>>,
    quotees: Seq<Option<String>>,
    n: nat,
)
    requires
        n <= quotes.len(),
        quotes.len() <= usize::MAX,
    ensures
        forall|k: Seq<char>|
            #[trigger] quote_rows_map(quotes, quotees, n).contains_key(k) <==> exists|i: int|
                0 <= i < n && #[trigger] row_key(quotes, quotees, i) == Some(k),
        forall|k: Seq<char>|
            #[trigger] quote_rows_map(quotes, quotees, n).contains_key(k) ==> {
                let i = quote_rows_map(quotes, quotees, n)[k] as int;
                &&& 0 <= i < n
                &&& row_key(quotes, quotees, i) == Some(k)
                &&& forall|j: int| i < j < n ==> #[trigger] row_key(quotes, quotees, j) != Some(k)
            },
    decreases n,
{
    if n > 0 {
        let m = (n - 1) as nat;
        lemma_quote_rows_last_wins(quotes, quotees, m);
        let i = m as int;
        match quotes[i] {
            Some(q) => {
                assert(quote_row_key(q@, quotee_at(quotees, i)) =~= row_key(quotes, quotees, i)->0);
            },
            None => {},
        }
        assert forall|k: Seq<char>|
            #[trigger] quote_rows_map(quotes, quotees, n).contains_key(k) <==> exists|j: int|
                0 <= j < n && #[trigger] row_key(quotes, quotees, j) == Some(k) by {
            if quote_rows_map(quotes, quotees, n).contains_key(k) {
                if row_key(quotes, quotees, i) != Some(k) {
                    let j = choose|j: int|
                        0 <= j < m && #[trigger] row_key(quotes, quotees, j) == Some(k);
                    assert(row_key(quotes, quotees, j) == Some(k));
                }
            }
            if exists|j: int| 0 <= j < n && #[trigger] row_key(quotes, quotees, j) == Some(k) {
                let j = choose|j: int| 0 <= j < n && #[trigger] row_key(quotes, quotees, j) == Some(k);
                if j < m {
                    assert(quote_rows_map(quotes, quotees, m).contains_key(k));
                }
            }
        }
        assert forall|k: Seq<char>|
            #[trigger] quote_rows_map(quotes, quotees, n).contains_key(k) implies {
                let r = quote_rows_map(quotes, quotees, n)[k] as int;
                &&& 0 <= r < n
                &&& row_key(quotes, quotees, r) == Some(k)
                &&& forall|j: int| r < j < n ==> #[trigger] row_key(quotes, quotees, j) != Some(k)
            } by {
            if row_key(quotes, quotees, i) == Some(k) {
                assert(quote_rows_map(quotes, quotees, n)[k] == i as usize);
            } else {
                assert(quote_rows_map(quotes, quotees, m).contains_key(k));
                assert(quote_rows_map(quotes, quotees, n)[k] == quote_rows_map(quotes, quotees, m)[k]);
            }
        }
    }
}

/// The rows already saved, from the answer to a column-major request of
/// the quote and the quotee columns: empty unless there are exactly two
/// ranges, each with a first column.
pub open spec fn quote_rows_spec(value_ranges: Option<Seq<SheetValues>>) -> Map<Seq<char>, usize> {
    match value_ranges {
        Some(rs) => if rs.len() == 2 {
            match (first_line(rs[0]), first_line(rs[1])) {
                (Some(quotes), Some(quotees)) => quote_rows_map(quotes, quotees, quotes.len()),
                _ => Map::empty(),
            }
        } else {
            Map::empty()
        },
        None => Map::empty(),
    }
}

fn first_line_exec(r: &SheetValues) -> (res: Option<Vec<Option<String>>>)
    ensures
        match res {
            Some(v) => first_line(*r) == Some(v@),
            None => first_line(*r) is None,
        },
{
    match &r.values {
        Some(v) => if v.len() > 0 {
            Some(v[0].clone())
        } else {
            None
        },
        None => None,
    }
}

/// The rows already saved, keyed by quote and quotee, each with its offset
/// below the first data row. The quotes decide: a row with a quote but no
/// quotee still counts.
pub fn quote_rows(value_ranges: &Option<Vec<SheetValues>>) -> (res: KeyedTable<usize>)
    ensures
        res@ == quote_rows_spec(
            match value_ranges {
                Some(v) => Some(v@),
                None => None,
            },
        ),
{
    let mut table: KeyedTable<usize> = KeyedTable::new();
    let ranges = match value_ranges {
        Some(r) => r,
        None => {
            return table;
        },
    };
    if ranges.len() != 2 {
        return table;
    }
    let (quotes, quotees) = match (first_line_exec(&ranges[0]), first_line_exec(&ranges[1])) {
        (Some(q), Some(qe)) => (q, qe),
        _ => {
            return table;
        },
    };
    let n = quotes.len();
    let mut i: usize = 0;
    while i < n
        invariant
            n == quotes@.len(),
            i <= n,
            table@ == quote_rows_map(quotes@, quotees@, i as nat),
        decreases n - i,
    {
        match &quotes[i] {
            Some(quote) => {
                let quotee = if i < quotees.len() {
                    clone_opt(&quotees[i])
                } else {
                    None
                };
                let mut key = quote.clone();
                key.append("::");
                match &quotee {
                    Some(q) => key.append(q.as_str()),
                    None => {},
                }
                proof {
                    reveal_strlit("::");
                }
                assert(key@ =~= quote_row_key(quote@, quotee_at(quotees@, i as int)));
                table.insert(key, i);
            },
            None => {},
        }
        i = i + 1;
    }
    table
}

// ---------------------------------------------------------------------------
// Columns to write
// ---------------------------------------------------------------------------

/// The cells to write, one column per field; `None` is an empty cell.
#[derive(Clone, Debug)]
pub struct StorageColumns {
    pub quotes: Vec<Option<String>>,
    pub quotees: Vec<Option<String>>,
    pub receivers: Vec<Option<String>>,
    pub quoters: Vec<Option<String>>,
    pub times: Vec<Option<String>>,
}

/// The quote, quotee and receiver cells of a message: a full message goes
/// whole into the quote cell and leaves the other two empty.
pub open spec fn message_cells(m: MessageView) -> (Option<Seq<char>>, Option<Seq<char>>, Option<
    Seq<char>,
>) {
    match m {
        MessageView::Full { message } => (Some(message), None, None),
        MessageView::Grouped { quote, quotee, receiver } => (Some(quote), Some(quotee), receiver),
    }
}

/// The time cell of a record: the instant as chrono displays it, or empty.
pub open spec fn time_cell(t: Option<UtcDateTime>) -> Option<Seq<char>> {
    match t {
        Some(t) => Some(chrono_utc_display(t.secs(), t.nanos())),
        None => None,
    }
}

/// Whether row `i` of the columns holds the record `d`.
pub open spec fn row_holds(c: StorageColumns, i: int, d: SaveData) -> bool {
    let (quote, quotee, receiver) = message_cells(d.message@);
    &&& opt_chars(c.quotes@[i]) == quote
    &&& opt_chars(c.quotees@[i]) == quotee
    &&& opt_chars(c.receivers@[i]) == receiver
    &&& opt_chars(c.quoters@[i]) == Some(d.author@)
    &&& opt_chars(c.times@[i]) == time_cell(d.time)
}

/// Whether all five columns have `n` cells.
pub open spec fn columns_aligned(c: StorageColumns, n: nat) -> bool {
    &&& c.quotes@.len() == n
    &&& c.quotees@.len() == n
    &&& c.receivers@.len() == n
    &&& c.quoters@.len() == n
    &&& c.times@.len() == n
}

/// The columns to write for `data`: row `i` of every column holds record
/// `i`, with an empty cell wherever a field is missing, so that no cell
/// moves into the row of another record.
pub fn storage_columns(data: &[SaveData]) -> (res: StorageColumns)
    ensures
        columns_aligned(res, data@.len()),
        forall|i: int| 0 <= i < data@.len() ==> row_holds(res, i, #[trigger] data@[i]),
{
    let mut c = StorageColumns {
        quotes: Vec::new(),
        quotees: Vec::new(),
        receivers: Vec::new(),
        quoters: Vec::new(),
        times: Vec::new(),
    };
    let n = data.len();
    let mut i: usize = 0;
    while i < n
        invariant
            n == data@.len(),
            i <= n,
            columns_aligned(c, i as nat),
            forall|k: int| 0 <= k < i ==> row_holds(c, k, #[trigger] data@[k]),
        decreases n - i,
    {
        let d = &data[i];
        match &d.message {
            MediaMessage::Full { message } => {
                c.quotes.push(Some(message.clone()));
                c.quotees.push(None);
                c.receivers.push(None);
            },
            MediaMessage::Grouped { quote, quotee, receiver } => {
                c.quotes.push(Some(quote.clone()));
                c.quotees.push(Some(quotee.clone()));
                c.receivers.push(clone_opt(receiver));
            },
        }
        c.quoters.push(Some(d.author.clone()));
        c.times.push(
            match &d.time {
                Some(t) => Some(t.to_display_string()),
                None => None,
            },
        );
        assert(row_holds(c, i as int, data@[i as int]));
        i = i + 1;
    }
    c
}

// ---------------------------------------------------------------------------
// The latest saved time
// ---------------------------------------------------------------------------

/// The instant in the first cell of a row, if it holds one.
pub open spec fn row_time(row: Seq<Option<String>>) -> Option<(int, int)> {
    if row.len() > 0 {
        match row[0] {
            Some(s) => chrono_utc_parse(s@),
            None => None,
        }
    } else {
        None
    }
}

/// Whether the instant `a` comes after `b`.
pub open spec fn later_pair(a: (int, int), b: (int, int)) -> bool {
    a.0 > b.0 || (a.0 == b.0 && a.1 > b.1)
}

/// The latest of the instants present in `ts`.
pub open spec fn latest_of(ts: Seq<Option<(int, int)>>) -> Option<(int, int)>
    decreases ts.len(),
{
    if ts.len() == 0 {
        None
    } else {
        let prev = latest_of(ts.drop_last());
        match ts.last() {
            None => prev,
            Some(cur) => match prev {
                None => Some(cur),
                Some(p) => if later_pair(p, cur) {
                    Some(p)
                } else {
                    Some(cur)
                },
            },
        }
    }
}

/// The instant of an optional instant, abstractly.
pub open spec fn opt_instant(t: Option<UtcDateTime>) -> Option<(int, int)> {
    match t {
        Some(t) => Some((t.secs(), t.nanos())),
        None => None,
    }
}

/// The latest of the given instants, if any is present.
pub fn latest(times: &[Option<UtcDateTime>]) -> (res: Option<UtcDateTime>)
    ensures
        opt_instant(res) == latest_of(times@.map_values(|t: Option<UtcDateTime>| opt_instant(t))),
{
    let ghost tv = times@.map_values(|t: Option<UtcDateTime>| opt_instant(t));
    let n = times.len();
    let mut best: Option<UtcDateTime> = None;
    let mut i: usize = 0;
    assert(tv.take(0) =~= Seq::<Option<(int, int)>>::empty());
    while i < n
        invariant
            n == times@.len(),
            tv == times@.map_values(|t: Option<UtcDateTime>| opt_instant(t)),
            i <= n,
            opt_instant(best) == latest_of(tv.take(i as int)),
        decreases n - i,
    {
        assert(tv.take(i + 1).drop_last() =~= tv.take(i as int));
        match times[i] {
            Some(c) => {
                best = match best {
                    None => Some(c),
                    Some(b) => if b.later_than(&c) {
                        Some(b)
                    } else {
                        Some(c)
                    },
                };
            },
            None => {},
        }
        i = i + 1;
    }
    assert(tv.take(n as int) =~= tv);
    best
}

/// The instants of the rows' first cells.
pub open spec fn rows_times(values: Seq<Vec<Option<String>>>) -> Seq<Option<(int, int)>> {
    values.map_values(|r: Vec<Option<String>>| row_time(r@))
}

/// The latest instant saved in the time column: of every row whose first
/// cell reads as an instant, the latest; `None` when there is none.
pub fn get_most_recent_time(values: &Option<Vec<Vec<Option<String>>>>) -> (res: Option<UtcDateTime>)
    ensures
        opt_instant(res) == match values {
            Some(v) => latest_of(rows_times(v@)),
            None => None,
        },
{
    let rows = match values {
        Some(v) => v,
        None => {
            return None;
        },
    };
    let n = rows.len();
    let mut times: Vec<Option<UtcDateTime>> = Vec::new();
    let mut i: usize = 0;
    while i < n
        invariant
            n == rows@.len(),
            i <= n,
            times@.len() == i,
            forall|k: int|
                0 <= k < i ==> opt_instant(#[trigger] times@[k]) == row_time(rows@[k]@),
        decreases n - i,
    {
        let row = &rows[i];
        let cur = if row.len() > 0 {
            match &row[0] {
                Some(s) => UtcDateTime::parse(s.as_str()),
                None => None,
            }
        } else {
            None
        };
        times.push(cur);
        i = i + 1;
    }
    assert(times@.map_values(|t: Option<UtcDateTime>| opt_instant(t)) =~= rows_times(rows@));
    latest(&times)
}

/// The latest time is one of the given times, and none of them is later.
pub proof fn lemma_latest_is_max(ts: Seq<Option<(int, int)>>)
    ensures
        latest_of(ts) matches Some(t) ==> exists|i: int| 0 <= i < ts.len() && #[trigger] ts[i] == Some(t),
        forall|i: int|
            0 <= i < ts.len() && (#[trigger] ts[i]) is Some ==> (latest_of(ts) is Some
                && !later_pair(ts[i]->0, latest_of(ts)->0)),
    decreases ts.len(),
{
    if ts.len() > 0 {
        let init = ts.drop_last();
        lemma_latest_is_max(init);
        assert forall|i: int| 0 <= i < init.len() implies #[trigger] init[i] == ts[i] by {}
        assert forall|i: int|
            0 <= i < ts.len() && (#[trigger] ts[i]) is Some implies (latest_of(ts) is Some
                && !later_pair(ts[i]->0, latest_of(ts)->0)) by {
            if i < init.len() {
                assert(init[i] == ts[i]);
            }
        }
        if let Some(t) = latest_of(ts) {
            if ts.last() != Some(t) {
                let i = choose|i: int| 0 <= i < init.len() && #[trigger] init[i] == Some(t);
                assert(ts[i] == Some(t));
            }
        }
    }
}


/// What a chat message is saved as after grouping with a pattern that
/// compiles: when the pattern does not match, the entire message is the
/// quote and the quotee and receiver cells stay empty; when it matches
/// with both groups `text` and `quotee`, those fill the quote and quotee
/// cells and the group `receiver`, if it took part, fills the receiver.
pub proof fn lemma_saved_cells(message: Seq<char>, pattern: Seq<char>)
    requires
        regex_compiles(pattern),
    ensures
        !regex_finds(pattern, message) ==> !is_fatal(
            group_outcome(MessageView::Full { message }, pattern),
        ) && message_cells(
            regrouped(
                MessageView::Full { message },
                group_outcome(MessageView::Full { message }, pattern),
            ),
        ) == (Some(message), None::<Seq<char>>, None::<Seq<char>>),
        regex_finds(pattern, message) && regex_named_group(pattern, message, "text"@) is Some
            && regex_named_group(pattern, message, "quotee"@) is Some ==> message_cells(
            regrouped(
                MessageView::Full { message },
                group_outcome(MessageView::Full { message }, pattern),
            ),
        ) == (
            regex_named_group(pattern, message, "text"@),
            regex_named_group(pattern, message, "quotee"@),
            regex_named_group(pattern, message, "receiver"@),
        ),
{
}


/// Adding rows to the time column never moves the most recent time
/// earlier: when every row of one state of the sheet is also a row of
/// another, the latest time of the first is no later than that of the
/// second (and a time in the first means a time in the second).
pub proof fn lemma_most_recent_time_monotone(
    rows1: Seq<Vec<Option<String>>>,
    rows2: Seq<Vec<Option<String>>>,
)
    requires
        forall|i: int|
            0 <= i < rows1.len() ==> exists|j: int|
                0 <= j < rows2.len() && (#[trigger] rows2[j])@ == (#[trigger] rows1[i])@,
    ensures
        match (latest_of(rows_times(rows1)), latest_of(rows_times(rows2))) {
            (Some(a), Some(b)) => !later_pair(a, b),
            (Some(_), None) => false,
            _ => true,
        },
{
    let ts1 = rows_times(rows1);
    let ts2 = rows_times(rows2);
    lemma_latest_is_max(ts1);
    lemma_latest_is_max(ts2);
    if let Some(t1) = latest_of(ts1) {
        let i = choose|i: int| 0 <= i < ts1.len() && #[trigger] ts1[i] == Some(t1);
        assert(ts1[i] == row_time(rows1[i]@));
        let j = choose|j: int| 0 <= j < rows2.len() && (#[trigger] rows2[j])@ == rows1[i]@;
        assert(ts2[j] == row_time(rows2[j]@));
        assert(ts2[j] == Some(t1));
    }
}

} // verus!
