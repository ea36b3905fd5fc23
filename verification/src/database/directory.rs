//! The identity directory: people, groups and organizations, imported from
//! CSV files and linked to Drive items by email address.
use vstd::prelude::*;

use crate::database::sql::{
    SqlParam,
    SqlValue,
};
use crate::database::{
    Database,
    DatabaseError,
    Rejection,
    SentStatement,
    send,
    send_batch,
    send_count,
    send_query,
    sent_after,
    statement_is,
    integer_or_zero,
    query_rows,
    run,
    run_batch,
    text_at,
    text_or_empty,
};
use crate::text::{
    char_is_ascii_alphanumeric,
    char_is_ascii_digit,
    chars_of,
    is_ascii_alphanumeric,
    is_ascii_digit,
    lower_seq,
    push_chars,
    push_str,
    slice_range,
    string_from,
    string_of,
    trim,
    trim_chars,
    trim_str,
};

verus! {

#[derive(Debug, Clone, Default)]
pub struct ImportSummary {
    pub rows_seen: u64,
    pub rows_created: u64,
    pub rows_updated: u64,
    pub rows_rejected: u64,
}

#[derive(Debug, Clone)]
pub struct DirectorySummary {
    pub principals: u64,
    pub organizations: u64,
    pub groups: u64,
    pub former_or_departing: u64,
    pub sources: u64,
}

#[derive(Debug, Clone)]
pub struct PrincipalRow {
    pub id: i64,
    pub display_name: String,
    pub primary_email: String,
    pub principal_type: String,
    pub status: String,
    pub departure_date: String,
    pub organizations: String,
    pub members: u64,
    pub owned_items: u64,
    pub permitted_items: u64,
}

#[derive(Debug, Clone)]
pub struct OrganizationRow {
    pub name: String,
    pub primary_domain: String,
    pub status: String,
    pub members: u64,
}

#[derive(Debug, Clone)]
pub struct RemoteAccountRow {
    pub remote_name: String,
    pub account_email: String,
    pub display_name: String,
    pub last_verified_at: String,
}

#[derive(Debug, Clone)]
pub struct PrincipalAssociationRow {
    pub remote_name: String,
    pub item_id: String,
    pub name: String,
    pub relative_path: String,
    pub relationship: String,
    pub role: String,
    pub owner_email: String,
    pub is_deleted: bool,
}

// ---------------------------------------------------------------------------
// CSV
// ---------------------------------------------------------------------------

/// The reader's state: finished rows, the row being read, the field being
/// read, and whether it is inside quotes.
pub type CsvState = (Seq<Seq<Seq<char>>>, Seq<Seq<char>>, Seq<char>, bool);

/// One step of the reader at position `i`; returns the new state and the
/// next position. A doubled quote inside quotes is a literal quote, and a
/// `\r` before `\n` outside quotes is dropped.
pub open spec fn csv_step(t: Seq<char>, i: int, st: CsvState) -> (CsvState, int) {
    let (rows, row, field, quoted) = st;
    let c = t[i];
    let next_is = |d: char| i + 1 < t.len() && t[i + 1] == d;
    if c == '"' && quoted && next_is('"') {
        ((rows, row, field.push('"'), quoted), i + 2)
    } else if c == '"' {
        ((rows, row, field, !quoted), i + 1)
    } else if c == ',' && !quoted {
        ((rows, row.push(field), seq![], quoted), i + 1)
    } else if c == '\n' && !quoted {
        ((rows.push(row.push(field)), seq![], seq![], quoted), i + 1)
    } else if c == '\r' && !quoted && next_is('\n') {
        ((rows, row, field, quoted), i + 1)
    } else {
        ((rows, row, field.push(c), quoted), i + 1)
    }
}

pub open spec fn csv_run(t: Seq<char>, i: int, st: CsvState) -> CsvState
    decreases t.len() - i,
{
    if i < 0 || i >= t.len() {
        st
    } else {
        let (next, j) = csv_step(t, i, st);
        csv_run(t, j, next)
    }
}

/// The rows of a CSV text, or `None` when a quoted field is left open.
pub open spec fn csv_rows(t: Seq<char>) -> Option<Seq<Seq<Seq<char>>>> {
    let (rows, row, field, quoted) = csv_run(t, 0, (seq![], seq![], seq![], false));
    if quoted {
        None
    } else if field.len() > 0 || row.len() > 0 {
        Some(rows.push(row.push(field)))
    } else {
        Some(rows)
    }
}

pub open spec fn row_view(row: Seq<Vec<char>>) -> Seq<Seq<char>> {
    row.map_values(|f: Vec<char>| f@)
}

pub open spec fn rows_view(rows: Seq<Vec<Vec<char>>>) -> Seq<Seq<Seq<char>>> {
    rows.map_values(|r: Vec<Vec<char>>| row_view(r@))
}

pub open spec fn string_rows_view(rows: Seq<Vec<String>>) -> Seq<Seq<Seq<char>>> {
    rows.map_values(|r: Vec<String>| r@.map_values(|f: String| f@))
}

/// Why a CSV file could not be read.
#[derive(Debug, Clone, Copy, PartialEq, Eq, Structural)]
pub enum CsvError {
    UnterminatedQuote,
}

impl CsvError {
    pub fn message(&self) -> (result: &'static str)
        ensures
            result@ == "Directory CSV contains an unterminated quoted field"@,
    {
        "Directory CSV contains an unterminated quoted field"
    }
}

fn to_strings(rows: Vec<Vec<Vec<char>>>) -> (result: Vec<Vec<String>>)
    ensures
        string_rows_view(result@) == rows_view(rows@),
{
    let mut out: Vec<Vec<String>> = Vec::new();
    let mut i: usize = 0;
    while i < rows.len()
        invariant
            i <= rows@.len(),
            string_rows_view(out@) == rows_view(rows@.subrange(0, i as int)),
        decreases rows@.len() - i,
    {
        let row = &rows[i];
        let mut fields: Vec<String> = Vec::new();
        let mut k: usize = 0;
        while k < row.len()
            invariant
                k <= row@.len(),
                fields@.map_values(|f: String| f@) == row_view(row@.subrange(0, k as int)),
            decreases row@.len() - k,
        {
            let f = string_of(row[k].as_slice());
            assert(f@ == row@[k as int]@);
            let ghost before = fields@;
            fields.push(f);
            assert(fields@ == before.push(f));
            assert(fields@.map_values(|f: String| f@) =~= before.map_values(|f: String| f@).push(f@));
            assert(row_view(row@.subrange(0, k + 1)) =~= row_view(row@.subrange(0, k as int)).push(row@[k as int]@));
            k = k + 1;
        }
        assert(row@.subrange(0, row@.len() as int) =~= row@);
        assert(fields@.map_values(|f: String| f@) == row_view(rows@[i as int]@));
        let ghost before = out@;
        out.push(fields);
        assert(out@ == before.push(fields));
        assert(string_rows_view(out@) =~= string_rows_view(before).push(fields@.map_values(|f: String| f@)));
        assert(rows_view(rows@.subrange(0, i + 1)) =~= rows_view(rows@.subrange(0, i as int)).push(row_view(rows@[i as int]@)));
        i = i + 1;
    }
    assert(rows@.subrange(0, rows@.len() as int) =~= rows@);
    out
}

/// Reads CSV text into rows of fields: commas separate fields, newlines end
/// rows (`\r\n` too), and double quotes enclose fields that may hold commas,
/// newlines and doubled quotes.
pub fn parse_csv(text: &str) -> (result: Result<Vec<Vec<String>>, CsvError>)
    ensures
        match csv_rows(text@) {
            Some(rows) => result matches Ok(r) && string_rows_view(r@) == rows,
            None => result is Err,
        },
{
    let t = chars_of(text);
    let mut rows: Vec<Vec<Vec<char>>> = Vec::new();
    let mut row: Vec<Vec<char>> = Vec::new();
    let mut field: Vec<char> = Vec::new();
    let mut quoted = false;
    let mut i: usize = 0;
    let ghost start: CsvState = (seq![], seq![], seq![], false);
    assert(rows_view(rows@) =~= seq![]);
    assert(row_view(row@) =~= seq![]);
    while i < t.len()
        invariant
            i <= t@.len(),
            t@ == text@,
            csv_run(t@, 0, start) == csv_run(
                t@,
                i as int,
                (rows_view(rows@), row_view(row@), field@, quoted),
            ),
        decreases t@.len() - i,
    {
        let ghost st: CsvState = (rows_view(rows@), row_view(row@), field@, quoted);
        let c = t[i];
        let next_quote = i + 1 < t.len() && t[i + 1] == '"';
        let next_newline = i + 1 < t.len() && t[i + 1] == '\n';
        if c == '"' && quoted && next_quote {
            field.push('"');
            i = i + 2;
        } else if c == '"' {
            quoted = !quoted;
            i = i + 1;
        } else if c == ',' && !quoted {
            let mut done: Vec<char> = Vec::new();
            std::mem::swap(&mut done, &mut field);
            row.push(done);
            assert(row_view(row@) =~= st.1.push(st.2));
            i = i + 1;
        } else if c == '\n' && !quoted {
            let mut done: Vec<char> = Vec::new();
            std::mem::swap(&mut done, &mut field);
            row.push(done);
            assert(row_view(row@) =~= st.1.push(st.2));
            let mut finished: Vec<Vec<char>> = Vec::new();
            std::mem::swap(&mut finished, &mut row);
            rows.push(finished);
            assert(rows_view(rows@) =~= st.0.push(st.1.push(st.2)));
            assert(row_view(row@) =~= seq![]);
            i = i + 1;
        } else if c == '\r' && !quoted && next_newline {
            i = i + 1;
        } else {
            field.push(c);
            i = i + 1;
        }
    }
    if quoted {
        return Err(CsvError::UnterminatedQuote);
    }
    if field.len() > 0 || row.len() > 0 {
        let ghost st: CsvState = (rows_view(rows@), row_view(row@), field@, quoted);
        row.push(field);
        assert(row_view(row@) =~= st.1.push(st.2));
        rows.push(row);
        assert(rows_view(rows@) =~= st.0.push(st.1.push(st.2)));
    }
    Ok(to_strings(rows))
}

// ---------------------------------------------------------------------------
// Normalizing headers and values
// ---------------------------------------------------------------------------

/// `s` without leading and trailing `c`.
pub open spec fn strip_both(s: Seq<char>, c: char) -> Seq<char> {
    crate::text::strip_trailing(crate::rclone::download::strip_leading(s, c), c)
}

/// A value as a key: trimmed, lower-cased, anything but ASCII letters and
/// digits turned into `_`, and surrounding `_` removed.
pub open spec fn normalized(value: Seq<char>) -> Seq<char> {
    strip_both(
        lower_seq(trim(value)).map_values(|c: char| if is_ascii_alphanumeric(c) { c } else { '_' }),
        '_',
    )
}

/// A header as a key: like a value, after removing any byte-order marks.
pub open spec fn normalized_header(value: Seq<char>) -> Seq<char> {
    normalized(crate::rclone::download::strip_leading(value, '\u{feff}'))
}

pub fn normalize_value(value: &str) -> (result: String)
    ensures
        result@ == normalized(value@),
{
    let t = trim_str(value);
    let lower = crate::text::to_ascii_lower(t.as_slice());
    let mut mapped: Vec<char> = Vec::new();
    let mut i: usize = 0;
    while i < lower.len()
        invariant
            i <= lower@.len(),
            mapped@ == lower@.subrange(0, i as int).map_values(
                |c: char| if is_ascii_alphanumeric(c) { c } else { '_' },
            ),
        decreases lower@.len() - i,
    {
        let c = lower[i];
        mapped.push(if char_is_ascii_alphanumeric(c) { c } else { '_' });
        i = i + 1;
        assert(mapped@ =~= lower@.subrange(0, i as int).map_values(
            |c: char| if is_ascii_alphanumeric(c) { c } else { '_' },
        ));
    }
    assert(lower@.subrange(0, lower@.len() as int) =~= lower@);
    let left = crate::rclone::download::strip_leading_char(mapped.as_slice(), '_');
    let both = crate::text::strip_trailing_char(left.as_slice(), '_');
    string_of(both.as_slice())
}

pub fn normalize_header(value: &str) -> (result: String)
    ensures
        result@ == normalized_header(value@),
{
    let c = chars_of(value);
    let stripped = crate::rclone::download::strip_leading_char(c.as_slice(), '\u{feff}');
    normalize_value(string_of(stripped.as_slice()).as_str())
}

/// The position of the first header that is one of `names`.
pub open spec fn header_position(headers: Seq<Seq<char>>, names: Seq<Seq<char>>, i: int) -> bool {
    0 <= i < headers.len() && names.contains(headers[i]) && forall|j: int|
        0 <= j < i ==> !names.contains(#[trigger] headers[j])
}

pub fn header_index(headers: &[String], names: &[&str]) -> (result: Option<usize>)
    ensures
        match result {
            Some(i) => header_position(
                headers@.map_values(|h: String| h@),
                names@.map_values(|n: &str| n@),
                i as int,
            ),
            None => forall|j: int|
                0 <= j < headers@.len() ==> !names@.map_values(|n: &str| n@).contains(
                    #[trigger] headers@[j]@,
                ),
        },
{
    let ghost hs = headers@.map_values(|h: String| h@);
    let ghost ns = names@.map_values(|n: &str| n@);
    let mut i: usize = 0;
    while i < headers.len()
        invariant
            i <= headers@.len(),
            hs == headers@.map_values(|h: String| h@),
            ns == names@.map_values(|n: &str| n@),
            forall|j: int| 0 <= j < i ==> !ns.contains(#[trigger] headers@[j]@),
        decreases headers@.len() - i,
    {
        let h = chars_of(headers[i].as_str());
        let mut k: usize = 0;
        let mut found = false;
        while k < names.len()
            invariant
                k <= names@.len(),
                ns == names@.map_values(|n: &str| n@),
                h@ == headers@[i as int]@,
                found ==> ns.contains(h@),
                !found ==> forall|q: int| 0 <= q < k ==> ns[q] != h@,
            decreases names@.len() - k,
        {
            if !found && crate::text::equals_str(h.as_slice(), names[k]) {
                found = true;
                assert(ns[k as int] == h@);
            }
            k = k + 1;
        }
        if found {
            assert(hs[i as int] == headers@[i as int]@);
            assert forall|j: int| 0 <= j < i implies !ns.contains(#[trigger] hs[j]) by {
                assert(hs[j] == headers@[j]@);
            }
            return Some(i);
        }
        i = i + 1;
    }
    None
}

/// The field at `index`, or empty text past the row's end.
pub fn cell(row: &[String], index: usize) -> (result: &str)
    ensures
        index < row@.len() ==> result@ == row@[index as int]@,
        index >= row@.len() ==> result@.len() == 0,
{
    if index < row.len() {
        row[index].as_str()
    } else {
        proof {
            reveal_strlit("");
        }
        ""
    }
}

/// An address with a non-empty part before its first `@` and a domain that
/// has a dot, not at either end.
pub open spec fn valid_email_text(email: Seq<char>) -> bool {
    email.contains('@') && {
        let at = choose|i: int| crate::text::first_index_of(email, '@', i);
        let local = email.subrange(0, at);
        let domain = email.subrange(at + 1, email.len() as int);
        local.len() > 0 && domain.contains('.') && domain[0] != '.' && domain.last() != '.'
    }
}

/// Validity depends on the part before the `@` only through its being
/// empty: any non-empty local part without an `@`, followed by a domain
/// with a dot not at either end, is valid, whatever characters (dots among
/// them) it holds; with an empty local part the address is never valid.
pub proof fn law_email_validity_ignores_the_local_part(local: Seq<char>, domain: Seq<char>)
    requires
        !local.contains('@'),
    ensures
        local.len() > 0 ==> (valid_email_text(local + seq!['@'] + domain) <==> (domain.contains('.')
            && domain[0] != '.' && domain.last() != '.')),
        local.len() == 0 ==> !valid_email_text(local + seq!['@'] + domain),
{
    let email = local + seq!['@'] + domain;
    let at = local.len() as int;
    assert(email[at] == '@');
    assert(email.contains('@'));
    assert forall|j: int| 0 <= j < at implies email[j] != '@' by {
        assert(email[j] == local[j]);
    }
    assert(crate::text::first_index_of(email, '@', at));
    let c = choose|i: int| crate::text::first_index_of(email, '@', i);
    assert(c == at) by {
        if c > at {
            assert(email[at] == '@');
        }
    }
    assert(email.subrange(0, at) =~= local);
    assert(email.subrange(at + 1, email.len() as int) =~= domain);
}

pub fn valid_email(email: &str) -> (result: bool)
    ensures
        result == valid_email_text(email@),
{
    let e = chars_of(email);
    let at = match crate::text::find_char(e.as_slice(), '@') {
        Some(a) => a,
        None => return false,
    };
    proof {
        let c = choose|i: int| crate::text::first_index_of(e@, '@', i);
        assert(e@.contains('@')) by {
            assert(e@[at as int] == '@');
        }
        assert(c == at as int) by {
            if c < at {
                assert(e@[c] != '@');
            }
            if c > at {
                assert(e@[at as int] == '@');
            }
        }
    }
    assert(at < e.len());
    let domain = slice_range(e.as_slice(), at + 1, e.len());
    let has_dot = crate::text::contains_char(domain.as_slice(), '.');
    at > 0 && has_dot && domain[0] != '.' && domain[domain.len() - 1] != '.'
}

// ---------------------------------------------------------------------------
// Departure-date filters
// ---------------------------------------------------------------------------

/// How a departure date is compared: not at all, `>`, `>=`, `<`, `<=`, `=`.
pub open spec fn date_text(v: Seq<char>) -> bool {
    v.len() == 10 && v[4] == '-' && v[7] == '-' && forall|i: int|
        0 <= i < 10 && i != 4 && i != 7 ==> is_ascii_digit(#[trigger] v[i])
}

/// The comparison code and date a filter asks for, before validation.
pub open spec fn date_filter_parts(filter: Seq<char>) -> (int, Seq<char>) {
    let f = trim(filter);
    if crate::text::starts_with(f, seq!['>', '=']) {
        (2, trim(f.subrange(2, f.len() as int)))
    } else if crate::text::starts_with(f, seq!['<', '=']) {
        (4, trim(f.subrange(2, f.len() as int)))
    } else if f.len() > 0 && f[0] == '>' {
        (1, trim(f.subrange(1, f.len() as int)))
    } else if f.len() > 0 && f[0] == '<' {
        (3, trim(f.subrange(1, f.len() as int)))
    } else if f.len() > 0 && f[0] == '=' {
        (5, trim(f.subrange(1, f.len() as int)))
    } else {
        (5, f)
    }
}

/// A rejected departure-date filter, holding it trimmed.
#[derive(Debug, Clone)]
pub struct DateFilterError {
    pub filter: String,
}

impl DateFilterError {
    pub fn message(&self) -> (result: String)
        ensures
            result@ == "Invalid departure-date filter '"@ + self.filter@ + "'. Try <2026-12-31."@,
    {
        let mut text: Vec<char> = Vec::new();
        push_str(&mut text, "Invalid departure-date filter '");
        push_str(&mut text, self.filter.as_str());
        push_str(&mut text, "'. Try <2026-12-31.");
        string_of(text.as_slice())
    }
}

/// Reads a departure-date filter such as `<2026-12-31`: an optional
/// comparison (`>`, `>=`, `<`, `<=`, `=`; `=` when absent) and a
/// `YYYY-MM-DD` date. A blank filter compares nothing (code 0).
pub fn parse_date_filter(filter: &str) -> (result: Result<(i64, String), DateFilterError>)
    ensures
        trim(filter@).len() == 0 ==> (result matches Ok((code, v)) && code == 0 && v@.len() == 0),
        trim(filter@).len() > 0 ==> {
            let (code, value) = date_filter_parts(filter@);
            if date_text(value) {
                result matches Ok((c, v)) && c == code && v@ == value
            } else {
                result matches Err(e) && e.filter@ == trim(filter@)
            }
        },
{
    let f = trim_str(filter);
    if f.len() == 0 {
        return Ok((0, String::new()));
    }
    let two_ge = f.len() >= 2 && f[0] == '>' && f[1] == '=';
    let two_le = f.len() >= 2 && f[0] == '<' && f[1] == '=';
    proof {
        if f@.len() >= 2 {
            assert(f@.subrange(0, 2) =~= seq![f@[0], f@[1]]);
        }
        if crate::text::starts_with(f@, seq!['>', '=']) {
            assert(f@.subrange(0, 2)[0] == '>' && f@.subrange(0, 2)[1] == '=');
        }
        if crate::text::starts_with(f@, seq!['<', '=']) {
            assert(f@.subrange(0, 2)[0] == '<' && f@.subrange(0, 2)[1] == '=');
        }
    }
    let (code, skip): (i64, usize) = if two_ge {
        (2, 2)
    } else if two_le {
        (4, 2)
    } else if f[0] == '>' {
        (1, 1)
    } else if f[0] == '<' {
        (3, 1)
    } else if f[0] == '=' {
        (5, 1)
    } else {
        (5, 0)
    };
    let rest = slice_range(f.as_slice(), skip, f.len());
    let value = if skip == 0 { rest } else { trim_chars(rest.as_slice()) };
    proof {
        if skip == 0 {
            assert(rest@ =~= f@);
        }
        assert(value@ == date_filter_parts(filter@).1);
    }
    let mut valid = value.len() == 10 && value[4] == '-' && value[7] == '-';
    if valid {
        let mut i: usize = 0;
        while i < 10
            invariant
                i <= 10,
                value@.len() == 10,
                valid ==> forall|q: int| 0 <= q < i && q != 4 && q != 7 ==> is_ascii_digit(#[trigger] value@[q]),
                !valid ==> exists|q: int| 0 <= q < 10 && q != 4 && q != 7 && !is_ascii_digit(#[trigger] value@[q]),
            decreases 10 - i,
        {
            if i != 4 && i != 7 && valid && !char_is_ascii_digit(value[i]) {
                valid = false;
                assert(!is_ascii_digit(value@[i as int]));
            }
            i = i + 1;
        }
    }
    if !valid {
        return Err(DateFilterError { filter: string_of(f.as_slice()) });
    }
    Ok((code, string_of(value.as_slice())))
}

// ---------------------------------------------------------------------------
// Queries
// ---------------------------------------------------------------------------

fn count_at(row: &Vec<SqlValue>, i: usize) -> (result: u64)
    requires
        i < row.len(),
{
    integer_or_zero(row, i) as u64
}

/// Counts of people, organizations, groups, former or departing people and
/// enabled directory sources.
pub fn summary(database: &Database) -> (result: Result<DirectorySummary, DatabaseError>)
    ensures
        result matches Err(e) ==> e is Storage,
{
    let connection = database.connect()?;
    let none: Vec<SqlParam> = Vec::new();
    let (columns, rows) = query_rows(
        &connection,
        "SELECT
            (SELECT COUNT(*) FROM principals),
            (SELECT COUNT(*) FROM organizations),
            (SELECT COUNT(*) FROM principals WHERE principal_type = 'google_group'),
            (SELECT COUNT(*) FROM principals WHERE status IN ('former', 'departing')),
            (SELECT COUNT(*) FROM directory_sources WHERE enabled = 1)",
        none.as_slice(),
    )?;
    if rows.len() == 0 || columns < 5 {
        return Ok(
            DirectorySummary { principals: 0, organizations: 0, groups: 0, former_or_departing: 0, sources: 0 },
        );
    }
    let row = &rows[0];
    Ok(
        DirectorySummary {
            principals: count_at(row, 0),
            organizations: count_at(row, 1),
            groups: count_at(row, 2),
            former_or_departing: count_at(row, 3),
            sources: count_at(row, 4),
        },
    )
}

pub fn list_principals(database: &Database) -> (result: Result<Vec<PrincipalRow>, DatabaseError>)
    ensures
        result matches Err(e) ==> e is Storage,
{
    proof {
        reveal_strlit("");
    }
    list_principals_filtered(database, "", "", "", "", "", "")
}

fn text_param(s: &str) -> (result: SqlParam) {
    let t = trim_str(s);
    SqlParam::Text(string_of(t.as_slice()))
}

/// People matching every non-blank filter (substring, ignoring case), the
/// departure date compared as the date filter says; sorted by name, then
/// email.
pub fn list_principals_filtered(
    database: &Database,
    name_filter: &str,
    email_filter: &str,
    type_filter: &str,
    status_filter: &str,
    departure_filter: &str,
    organization_filter: &str,
) -> (result: Result<Vec<PrincipalRow>, DatabaseError>)
    ensures
        trim(departure_filter@).len() > 0 && !date_text(date_filter_parts(departure_filter@).1) ==> (result matches Err(
            DatabaseError::Rejected(crate::database::Rejection::InvalidFilter(m)),
        ) && m@ == "Invalid departure-date filter '"@ + trim(departure_filter@) + "'. Try <2026-12-31."@),
        (trim(departure_filter@).len() == 0 || date_text(date_filter_parts(departure_filter@).1)) ==> (result matches Err(e)
            ==> e is Storage),
{
    let (comparison, date) = match parse_date_filter(departure_filter) {
        Ok(parts) => parts,
        Err(e) => return Err(DatabaseError::Rejected(crate::database::Rejection::InvalidFilter(e.message()))),
    };
    let connection = database.connect()?;
    let params = vec![
        text_param(name_filter),
        text_param(email_filter),
        text_param(type_filter),
        text_param(status_filter),
        SqlParam::Integer(comparison),
        SqlParam::Text(date),
        text_param(organization_filter),
    ];
    let (columns, rows) = query_rows(
        &connection,
        "WITH identity_emails AS (
            SELECT id AS principal_id, lower(primary_email) AS email
            FROM principals WHERE COALESCE(primary_email, '') <> ''
            UNION
            SELECT principal_id, lower(email) FROM principal_emails
         ),
         owned AS (
            SELECT ie.principal_id, COUNT(*) AS item_count
            FROM identity_emails ie
            JOIN drive_items di ON lower(di.owner_email) = ie.email AND di.is_deleted = 0
            GROUP BY ie.principal_id
         ),
         permitted AS (
            SELECT ie.principal_id,
                   COUNT(DISTINCT dp.remote_name || char(31) || dp.item_id) AS item_count
            FROM identity_emails ie
            JOIN drive_permissions dp ON lower(dp.email_address) = ie.email
            JOIN drive_items di ON di.remote_name = dp.remote_name
                               AND di.item_id = dp.item_id AND di.is_deleted = 0
            GROUP BY ie.principal_id
         ),
         memberships AS (
            SELECT parent_principal_id AS principal_id, COUNT(*) AS member_count
            FROM principal_memberships WHERE status = 'active'
            GROUP BY parent_principal_id
         ),
         principal_organizations AS (
            SELECT om.principal_id, group_concat(o.name, ', ') AS names
            FROM organization_memberships om
            JOIN organizations o ON o.id = om.organization_id
            GROUP BY om.principal_id
         )
         SELECT p.id, COALESCE(p.display_name, ''), COALESCE(p.primary_email, ''),
                p.principal_type, p.status, COALESCE(p.departure_date, ''),
                COALESCE(po.names, ''), COALESCE(m.member_count, 0),
                COALESCE(owned.item_count, 0), COALESCE(permitted.item_count, 0)
         FROM principals p
         LEFT JOIN principal_organizations po ON po.principal_id = p.id
         LEFT JOIN memberships m ON m.principal_id = p.id
         LEFT JOIN owned ON owned.principal_id = p.id
         LEFT JOIN permitted ON permitted.principal_id = p.id
         WHERE (?1 = '' OR instr(lower(COALESCE(p.display_name, '')), lower(?1)) > 0)
           AND (?2 = '' OR instr(lower(COALESCE(p.primary_email, '')), lower(?2)) > 0
                OR EXISTS (
                    SELECT 1 FROM principal_emails pe
                    WHERE pe.principal_id = p.id
                      AND instr(lower(pe.email), lower(?2)) > 0
                ))
           AND (?3 = '' OR instr(lower(p.principal_type), lower(?3)) > 0)
           AND (?4 = '' OR instr(lower(p.status), lower(?4)) > 0)
           AND (?5 = 0 OR
                (?5 = 1 AND COALESCE(p.departure_date, '') > ?6) OR
                (?5 = 2 AND COALESCE(p.departure_date, '') >= ?6) OR
                (?5 = 3 AND COALESCE(p.departure_date, '') < ?6) OR
                (?5 = 4 AND COALESCE(p.departure_date, '') <= ?6) OR
                (?5 = 5 AND COALESCE(p.departure_date, '') = ?6))
           AND (?7 = '' OR instr(lower(COALESCE(po.names, '')), lower(?7)) > 0)
         ORDER BY p.display_name COLLATE NOCASE, p.primary_email COLLATE NOCASE",
        params.as_slice(),
    )?;
    let mut out: Vec<PrincipalRow> = Vec::new();
    if columns < 10 {
        return Ok(out);
    }
    let mut i: usize = 0;
    while i < rows.len()
        invariant
            i <= rows@.len(),
            columns >= 10,
            forall|k: int| 0 <= k < rows@.len() ==> #[trigger] rows@[k].len() == columns,
        decreases rows@.len() - i,
    {
        let row = &rows[i];
        out.push(
            PrincipalRow {
                id: integer_or_zero(row, 0),
                display_name: text_or_empty(row, 1),
                primary_email: text_or_empty(row, 2),
                principal_type: text_or_empty(row, 3),
                status: text_or_empty(row, 4),
                departure_date: text_or_empty(row, 5),
                organizations: text_or_empty(row, 6),
                members: count_at(row, 7),
                owned_items: count_at(row, 8),
                permitted_items: count_at(row, 9),
            },
        );
        i = i + 1;
    }
    Ok(out)
}

/// The listed person with this id, if any.
pub fn get_principal(database: &Database, principal_id: i64) -> (result: Result<
    Option<PrincipalRow>,
    DatabaseError,
>)
    ensures
        result matches Ok(Some(p)) ==> p.id == principal_id,
{
    let mut all = list_principals(database)?;
    let mut i: usize = 0;
    while i < all.len()
        invariant
            i <= all@.len(),
        decreases all@.len() - i,
    {
        if all[i].id == principal_id {
            let found = all.remove(i);
            return Ok(Some(found));
        }
        i = i + 1;
    }
    Ok(None)
}

pub const ASSOCIATIONS_SQL: &'static str = "SELECT remote_name, item_id, name, relative_path, relationship, role,
                COALESCE(owner_email, ''), is_deleted
         FROM (
            SELECT di.remote_name, di.item_id, di.name, di.relative_path,
                   'Owner' AS relationship, 'owner' AS role, di.owner_email, di.is_deleted
            FROM drive_items di
            WHERE lower(COALESCE(di.owner_email, '')) IN (
                SELECT lower(primary_email) FROM principals WHERE id = ?1
                UNION SELECT lower(email) FROM principal_emails WHERE principal_id = ?1
            )
            UNION ALL
            SELECT di.remote_name, di.item_id, di.name, di.relative_path,
                   'Permission' AS relationship, COALESCE(dp.role, ''),
                   di.owner_email, di.is_deleted
            FROM drive_permissions dp
            JOIN drive_items di ON di.remote_name = dp.remote_name AND di.item_id = dp.item_id
            WHERE lower(COALESCE(dp.email_address, '')) IN (
                SELECT lower(primary_email) FROM principals WHERE id = ?1
                UNION SELECT lower(email) FROM principal_emails WHERE principal_id = ?1
            )
         )
         ORDER BY is_deleted, relationship, name COLLATE NOCASE, remote_name";

/// The text of a cell, or empty text.
pub open spec fn cell_text_or_empty(cell: crate::database::sql::SqlValue) -> Seq<char> {
    match crate::database::cell_text(cell) {
        Some(t) => t,
        None => Seq::empty(),
    }
}

/// The association a row of the associations query reads as.
pub open spec fn association_read(a: PrincipalAssociationRow, row: Seq<crate::database::sql::SqlValue>) -> bool {
    &&& a.remote_name@ == cell_text_or_empty(row[0])
    &&& a.item_id@ == cell_text_or_empty(row[1])
    &&& a.name@ == cell_text_or_empty(row[2])
    &&& a.relative_path@ == cell_text_or_empty(row[3])
    &&& a.relationship@ == cell_text_or_empty(row[4])
    &&& a.role@ == cell_text_or_empty(row[5])
    &&& a.owner_email@ == cell_text_or_empty(row[6])
    &&& a.is_deleted == (match crate::database::cell_integer(row[7]) {
        Some(v) => v,
        None => 0,
    } != 0)
}

/// The associations the answer to the associations query gives: one per
/// row, in order (none when it has fewer than eight columns).
pub fn associations_from_answer(columns: usize, rows: &Vec<Vec<crate::database::sql::SqlValue>>) -> (out: Vec<
    PrincipalAssociationRow,
>)
    requires
        forall|k: int| 0 <= k < rows@.len() ==> #[trigger] rows@[k].len() == columns,
    ensures
        columns < 8 ==> out@.len() == 0,
        columns >= 8 ==> out@.len() == rows@.len() && forall|k: int|
            0 <= k < rows@.len() ==> association_read(#[trigger] out@[k], rows@[k]@),
{
    let mut out: Vec<PrincipalAssociationRow> = Vec::new();
    if columns < 8 {
        return out;
    }
    let mut i: usize = 0;
    while i < rows.len()
        invariant
            i <= rows@.len(),
            columns >= 8,
            forall|k: int| 0 <= k < rows@.len() ==> #[trigger] rows@[k].len() == columns,
            out@.len() == i,
            forall|k: int| 0 <= k < i ==> association_read(#[trigger] out@[k], rows@[k]@),
        decreases rows@.len() - i,
    {
        let row = &rows[i];
        out.push(
            PrincipalAssociationRow {
                remote_name: text_or_empty(row, 0),
                item_id: text_or_empty(row, 1),
                name: text_or_empty(row, 2),
                relative_path: text_or_empty(row, 3),
                relationship: text_or_empty(row, 4),
                role: text_or_empty(row, 5),
                owner_email: text_or_empty(row, 6),
                is_deleted: integer_or_zero(row, 7) != 0,
            },
        );
        i = i + 1;
    }
    out
}

/// The Drive items a person owns or is permitted on (through any of their
/// addresses): the associations query for `principal_id` is sent, and
/// `associations_from_answer` reads its answer.
pub fn list_principal_associations(database: &mut Database, principal_id: i64) -> (result: Result<
    Vec<PrincipalAssociationRow>,
    DatabaseError,
>)
    ensures
        result matches Err(e) ==> e is Storage,
        result is Ok ==> final(database).sent() == old(database).sent().push(
            (ASSOCIATIONS_SQL@, seq![SqlParam::Integer(principal_id)]),
        ),
{
    let connection = database.connect()?;
    let params = vec![SqlParam::Integer(principal_id)];
    assert(params@ =~= seq![SqlParam::Integer(principal_id)]);
    let (columns, rows) = send_query(database, &connection, ASSOCIATIONS_SQL, params.as_slice())?;
    Ok(associations_from_answer(columns, &rows))
}

pub const ORGANIZATIONS_SQL: &'static str = "SELECT o.name, COALESCE(o.primary_domain, ''), o.status,
                COUNT(om.principal_id)
         FROM organizations o
         LEFT JOIN organization_memberships om ON om.organization_id = o.id
         GROUP BY o.id
         ORDER BY o.name COLLATE NOCASE";

/// Organizations with their member counts, by name.
pub fn list_organizations(database: &mut Database) -> (result: Result<Vec<OrganizationRow>, DatabaseError>)
    ensures
        result is Ok ==> sent_after(old(database).sent(), final(database).sent(), 1) && statement_is(final(database).sent().last(), ORGANIZATIONS_SQL@, 0),
        result matches Err(e) ==> e is Storage,
{
    let connection = database.connect()?;
    let none: Vec<SqlParam> = Vec::new();
    let (columns, rows) = send_query(database, &connection, ORGANIZATIONS_SQL, none.as_slice(),
    )?;
    let mut out: Vec<OrganizationRow> = Vec::new();
    if columns < 4 {
        return Ok(out);
    }
    let mut i: usize = 0;
    while i < rows.len()
        invariant
            i <= rows@.len(),
            columns >= 4,
            forall|k: int| 0 <= k < rows@.len() ==> #[trigger] rows@[k].len() == columns,
        decreases rows@.len() - i,
    {
        let row = &rows[i];
        out.push(
            OrganizationRow {
                name: text_or_empty(row, 0),
                primary_domain: text_or_empty(row, 1),
                status: text_or_empty(row, 2),
                members: count_at(row, 3),
            },
        );
        i = i + 1;
    }
    Ok(out)
}

pub const REMOTE_ACCOUNTS_SQL: &'static str = "SELECT remote_name, COALESCE(account_email, ''), COALESCE(display_name, ''),
                last_verified_at
         FROM remote_accounts ORDER BY remote_name COLLATE NOCASE";

/// The Google accounts behind the Rclone remotes, by remote name.
pub fn list_remote_accounts(database: &mut Database) -> (result: Result<Vec<RemoteAccountRow>, DatabaseError>)
    ensures
        result is Ok ==> sent_after(old(database).sent(), final(database).sent(), 1) && statement_is(final(database).sent().last(), REMOTE_ACCOUNTS_SQL@, 0),
        result matches Err(e) ==> e is Storage,
{
    let connection = database.connect()?;
    let none: Vec<SqlParam> = Vec::new();
    let (columns, rows) = send_query(database, &connection, REMOTE_ACCOUNTS_SQL, none.as_slice(),
    )?;
    let mut out: Vec<RemoteAccountRow> = Vec::new();
    if columns < 4 {
        return Ok(out);
    }
    let mut i: usize = 0;
    while i < rows.len()
        invariant
            i <= rows@.len(),
            columns >= 4,
            forall|k: int| 0 <= k < rows@.len() ==> #[trigger] rows@[k].len() == columns,
        decreases rows@.len() - i,
    {
        let row = &rows[i];
        out.push(
            RemoteAccountRow {
                remote_name: text_or_empty(row, 0),
                account_email: text_or_empty(row, 1),
                display_name: text_or_empty(row, 2),
                last_verified_at: text_or_empty(row, 3),
            },
        );
        i = i + 1;
    }
    Ok(out)
}

pub const ACCOUNT_EMAIL_SQL: &'static str = "SELECT account_email FROM remote_accounts
         WHERE remote_name = ?1 AND COALESCE(account_email, '') <> ''";

/// The address the answer to the account query gives: the text of the
/// first cell of its first row, if any.
pub fn account_email_from_answer(columns: usize, rows: &Vec<Vec<crate::database::sql::SqlValue>>) -> (result: Option<String>)
    requires
        forall|k: int| 0 <= k < rows@.len() ==> #[trigger] rows@[k].len() == columns,
    ensures
        rows@.len() == 0 || columns < 1 ==> result is None,
        !(rows@.len() == 0 || columns < 1) ==> match crate::database::cell_text(rows@[0]@[0]) {
            Some(t) => result matches Some(r) && r@ == t,
            None => result is None,
        },
{
    if rows.len() == 0 || columns < 1 {
        return None;
    }
    text_at(&rows[0], 0)
}

/// The Google account recorded for a remote: the account query for
/// `remote_name` is sent, and `account_email_from_answer` reads its answer.
pub fn remote_account_email(database: &mut Database, remote_name: &str) -> (result: Result<
    Option<String>,
    DatabaseError,
>)
    ensures
        result matches Err(e) ==> e is Storage,
        result is Ok ==> sent_after(old(database).sent(), final(database).sent(), 1) && statement_is(
            final(database).sent().last(),
            ACCOUNT_EMAIL_SQL@,
            1,
        ) && crate::database::inventory::text_param(final(database).sent().last().1[0], remote_name@),
{
    let connection = database.connect()?;
    let params = vec![SqlParam::Text(string_from(remote_name))];
    let (columns, rows) = send_query(database, &connection, ACCOUNT_EMAIL_SQL, params.as_slice())?;
    Ok(account_email_from_answer(columns, &rows))
}

fn optional_text(value: Option<&str>) -> (result: SqlParam)
    ensures
        optional_text_param(result, match value {
            Some(v) => Some(v@),
            None => None,
        }),
{
    match value {
        Some(v) => SqlParam::Text(string_from(v)),
        None => SqlParam::Null,
    }
}

pub const REMOTE_ACCOUNT_SQL: &'static str = "INSERT INTO remote_accounts (
            remote_name, account_email, display_name, account_id, raw_json
         ) VALUES (?1, ?2, ?3, ?4, ?5)
         ON CONFLICT(remote_name) DO UPDATE SET
            account_email = excluded.account_email,
            display_name = excluded.display_name,
            account_id = excluded.account_id,
            raw_json = excluded.raw_json,
            last_verified_at = CURRENT_TIMESTAMP";

/// The text an optional argument binds, if any.
pub open spec fn optional_view(value: Option<&str>) -> Option<Seq<char>> {
    match value {
        Some(v) => Some(v@),
        None => None,
    }
}

/// Records (or refreshes) the account behind a remote.
pub fn save_remote_account(
    database: &mut Database,
    remote_name: &str,
    account_email: Option<&str>,
    display_name: Option<&str>,
    account_id: Option<&str>,
    raw_json: &str,
) -> (result: Result<(), DatabaseError>)
    ensures
        result matches Err(e) ==> e is Storage,
        result is Ok ==> sent_after(old(database).sent(), final(database).sent(), 1) && ({
            let st = final(database).sent().last();
            &&& statement_is(st, REMOTE_ACCOUNT_SQL@, 5)
            &&& crate::database::inventory::text_param(st.1[0], remote_name@)
            &&& optional_text_param(st.1[1], optional_view(account_email))
            &&& optional_text_param(st.1[2], optional_view(display_name))
            &&& optional_text_param(st.1[3], optional_view(account_id))
            &&& crate::database::inventory::text_param(st.1[4], raw_json@)
        }),
{
    let connection = database.connect()?;
    let params = vec![
        SqlParam::Text(string_from(remote_name)),
        optional_text(account_email),
        optional_text(display_name),
        optional_text(account_id),
        SqlParam::Text(string_from(raw_json)),
    ];
    send(database, &connection, REMOTE_ACCOUNT_SQL, params.as_slice())?;
    Ok(())
}


// ---------------------------------------------------------------------------
// Import
// ---------------------------------------------------------------------------

/// Why a directory CSV was refused as a whole.
#[derive(Debug, Clone, Copy, PartialEq, Eq, Structural)]
pub enum ImportError {
    Csv(CsvError),
    Empty,
    NoEmailColumn,
}

impl ImportError {
    pub fn message(&self) -> (result: &'static str)
        ensures
            result@ == match *self {
                ImportError::Csv(_) => "Directory CSV contains an unterminated quoted field"@,
                ImportError::Empty => "Directory CSV is empty"@,
                ImportError::NoEmailColumn => "Directory CSV requires an email column"@,
            },
    {
        match self {
            ImportError::Csv(e) => e.message(),
            ImportError::Empty => "Directory CSV is empty",
            ImportError::NoEmailColumn => "Directory CSV requires an email column",
        }
    }
}

/// One person to create or update.
#[derive(Debug, Clone)]
pub struct PlannedPerson {
    pub email: String,
    pub display_name: String,
    pub principal_type: String,
    pub status: String,
    pub departure_date: Option<String>,
    pub notes: Option<String>,
    pub organization: Option<String>,
}

/// What an import will do: the people to write, and how many data rows
/// were seen and rejected.
#[derive(Debug, Clone)]
pub struct ImportPlan {
    pub people: Vec<PlannedPerson>,
    pub rows_seen: u64,
    pub rows_rejected: u64,
}

/// The column indexes an import reads.
#[derive(Debug, Clone, Copy)]
pub struct ImportColumns {
    pub email: usize,
    pub name: Option<usize>,
    pub kind: Option<usize>,
    pub status: Option<usize>,
    pub departure: Option<usize>,
    pub organization: Option<usize>,
    pub notes: Option<usize>,
}

/// A row whose every field is blank is skipped.
pub open spec fn blank_row(row: Seq<String>) -> bool {
    forall|i: int| 0 <= i < row.len() ==> trim(#[trigger] row[i]@).len() == 0
}

fn is_blank_row(row: &Vec<String>) -> (result: bool)
    ensures
        result == blank_row(row@),
{
    let mut i: usize = 0;
    while i < row.len()
        invariant
            i <= row@.len(),
            forall|k: int| 0 <= k < i ==> trim(#[trigger] row@[k]@).len() == 0,
        decreases row@.len() - i,
    {
        if trim_str(row[i].as_str()).len() > 0 {
            return false;
        }
        i = i + 1;
    }
    true
}

/// The field at `i` as text, or empty text past the row's end.
pub open spec fn field_text(row: Seq<String>, i: int) -> Seq<char> {
    if 0 <= i < row.len() {
        row[i]@
    } else {
        Seq::empty()
    }
}

/// The trimmed field a column names, when there is one and it is not blank.
pub open spec fn trimmed_field_text(row: Seq<String>, index: Option<usize>) -> Option<Seq<char>> {
    match index {
        Some(i) => if crate::text::trim(field_text(row, i as int)).len() > 0 {
            Some(crate::text::trim(field_text(row, i as int)))
        } else {
            None
        },
        None => None,
    }
}

fn trimmed_cell(row: &Vec<String>, index: Option<usize>) -> (result: Option<String>)
    ensures
        match trimmed_field_text(row@, index) {
            Some(t) => result matches Some(s) && s@ == t,
            None => result is None,
        },
{
    match index {
        Some(i) => {
            let c = cell(row.as_slice(), i);
            assert(c@ =~= field_text(row@, i as int));
            let t = trim_str(c);
            if t.len() > 0 {
                Some(string_of(t.as_slice()))
            } else {
                None
            }
        },
        None => None,
    }
}

/// A column's trimmed value, normalized, or `default` when blank.
pub open spec fn normalized_or(value: Option<Seq<char>>, default: Seq<char>) -> Seq<char> {
    match value {
        Some(t) => normalized(t),
        None => default,
    }
}

fn normalized_cell(row: &Vec<String>, index: Option<usize>, default: &str) -> (result: String)
    ensures
        result@ == normalized_or(trimmed_field_text(row@, index), default@),
{
    match trimmed_cell(row, index) {
        Some(v) => normalize_value(v.as_str()),
        None => string_from(default),
    }
}

/// What `header_index` finds of `names` among the headers (as text).
pub open spec fn column_found_in(hs: Seq<Seq<char>>, names: Seq<Seq<char>>, found: Option<usize>) -> bool {
    match found {
        Some(i) => header_position(hs, names, i as int),
        None => forall|j: int| 0 <= j < hs.len() ==> !names.contains(#[trigger] hs[j]),
    }
}

/// What `header_index` finds of `names` among the headers.
pub open spec fn column_found(headers: Seq<String>, names: Seq<Seq<char>>, found: Option<usize>) -> bool {
    column_found_in(headers.map_values(|h: String| h@), names, found)
}

/// The import's columns among headers given as text: each the first
/// header with one of its names; the email column is required.
pub open spec fn columns_in(hs: Seq<Seq<char>>, c: ImportColumns) -> bool {
    &&& column_found_in(hs, email_header_names(), Some(c.email))
    &&& column_found_in(hs, seq!["name"@, "display_name"@], c.name)
    &&& column_found_in(hs, seq!["type"@, "category"@, "principal_type"@], c.kind)
    &&& column_found_in(hs, seq!["status"@, "employment_status"@], c.status)
    &&& column_found_in(hs, seq!["departure_date"@, "end_date"@], c.departure)
    &&& column_found_in(hs, seq!["organization"@, "department"@], c.organization)
    &&& column_found_in(hs, seq!["notes"@, "note"@], c.notes)
}

/// The import's columns: each the first header with one of its names; the
/// email column is required.
pub open spec fn columns_of(headers: Seq<String>, c: ImportColumns) -> bool {
    columns_in(headers.map_values(|h: String| h@), c)
}

fn column(headers: &Vec<String>, names: Vec<&str>) -> (found: Option<usize>)
    ensures
        column_found(headers@, names@.map_values(|n: &str| n@), found),
{
    let found = header_index(headers.as_slice(), names.as_slice());
    proof {
        let hs = headers@.map_values(|h: String| h@);
        if found is None {
            assert forall|j: int| 0 <= j < hs.len() implies !names@.map_values(|n: &str| n@).contains(
                #[trigger] hs[j],
            ) by {
                assert(hs[j] == headers@[j]@);
            }
        }
    }
    found
}

fn find_columns(headers: &Vec<String>) -> (result: Option<ImportColumns>)
    ensures
        match result {
            Some(c) => columns_of(headers@, c),
            None => column_found(headers@, email_header_names(), None),
        },
{
    let emails = vec!["email", "primary_email", "email_address"];
    let names = vec!["name", "display_name"];
    let kinds = vec!["type", "category", "principal_type"];
    let statuses = vec!["status", "employment_status"];
    let departures = vec!["departure_date", "end_date"];
    let organizations = vec!["organization", "department"];
    let notes = vec!["notes", "note"];
    assert(emails@.map_values(|n: &str| n@) =~= seq!["email"@, "primary_email"@, "email_address"@]);
    assert(names@.map_values(|n: &str| n@) =~= seq!["name"@, "display_name"@]);
    assert(kinds@.map_values(|n: &str| n@) =~= seq!["type"@, "category"@, "principal_type"@]);
    assert(statuses@.map_values(|n: &str| n@) =~= seq!["status"@, "employment_status"@]);
    assert(departures@.map_values(|n: &str| n@) =~= seq!["departure_date"@, "end_date"@]);
    assert(organizations@.map_values(|n: &str| n@) =~= seq!["organization"@, "department"@]);
    assert(notes@.map_values(|n: &str| n@) =~= seq!["notes"@, "note"@]);
    let email = match column(headers, emails) {
        Some(e) => e,
        None => return None,
    };
    Some(
        ImportColumns {
            email,
            name: column(headers, names),
            kind: column(headers, kinds),
            status: column(headers, statuses),
            departure: column(headers, departures),
            organization: column(headers, organizations),
            notes: column(headers, notes),
        },
    )
}

/// The field at `i` of a row, or empty text past its end.
pub open spec fn field_of(row: Seq<Seq<char>>, i: int) -> Seq<char> {
    if 0 <= i < row.len() {
        row[i]
    } else {
        Seq::empty()
    }
}

/// A row whose every field is blank once trimmed.
pub open spec fn blank_fields(row: Seq<Seq<char>>) -> bool {
    forall|i: int| 0 <= i < row.len() ==> crate::text::trim(#[trigger] row[i]).len() == 0
}

/// The address a row gives in the email column: trimmed, lower-cased.
pub open spec fn row_address(row: Seq<Seq<char>>, email_column: int) -> Seq<char> {
    crate::text::lower_seq(crate::text::trim(field_of(row, email_column)))
}

/// How many data rows (after the header, before `upto`) are not blank.
pub open spec fn rows_seen(rows: Seq<Seq<Seq<char>>>, upto: int) -> nat
    decreases upto,
{
    if upto <= 1 {
        0
    } else {
        rows_seen(rows, upto - 1) + if blank_fields(rows[upto - 1]) { 0nat } else { 1nat }
    }
}

/// How many of those rows give an address that is not valid.
pub open spec fn rows_rejected(rows: Seq<Seq<Seq<char>>>, email_column: int, upto: int) -> nat
    decreases upto,
{
    if upto <= 1 {
        0
    } else {
        rows_rejected(rows, email_column, upto - 1) + if !blank_fields(rows[upto - 1]) && !valid_email_text(
            row_address(rows[upto - 1], email_column),
        ) {
            1nat
        } else {
            0nat
        }
    }
}

/// The counts an import of these rows reports: every non-blank data row is
/// seen, and it is rejected exactly when its address (in the first column
/// whose normalized header is an email name) is not valid.
pub open spec fn import_counts(rows: Seq<Seq<Seq<char>>>, seen: u64, rejected: u64) -> bool {
    exists|email_column: int|
        header_position(rows[0].map_values(|h: Seq<char>| normalized_header(h)), email_header_names(), email_column)
            && seen == rows_seen(rows, rows.len() as int) && rejected == #[trigger] rows_rejected(
            rows,
            email_column,
            rows.len() as int,
        )
}

proof fn lemma_blank_view(row: Seq<String>)
    ensures
        blank_row(row) == blank_fields(row.map_values(|f: String| f@)),
{
    let v = row.map_values(|f: String| f@);
    if blank_row(row) {
        assert forall|i: int| 0 <= i < v.len() implies crate::text::trim(#[trigger] v[i]).len() == 0 by {
            assert(v[i] == row[i]@);
        }
    }
    if blank_fields(v) {
        assert forall|i: int| 0 <= i < row.len() implies crate::text::trim(#[trigger] row[i]@).len() == 0 by {
            assert(v[i] == row[i]@);
        }
    }
}

/// A column's trimmed value in a row given as text, when it is not blank.
pub open spec fn cell_value(row: Seq<Seq<char>>, index: Option<usize>) -> Option<Seq<char>> {
    match index {
        Some(i) => if crate::text::trim(field_of(row, i as int)).len() > 0 {
            Some(crate::text::trim(field_of(row, i as int)))
        } else {
            None
        },
        None => None,
    }
}

/// An optional text by its view.
pub open spec fn opt_string(value: Option<String>) -> Option<Seq<char>> {
    match value {
        Some(s) => Some(s@),
        None => None,
    }
}

/// The person a row plans: its lower-cased address, its trimmed name (or
/// none), its type and status normalized (or "person" and "unknown" when
/// blank), and its departure date, notes and organization as trimmed (or
/// absent when blank).
pub open spec fn person_from(p: PlannedPerson, row: Seq<Seq<char>>, c: ImportColumns) -> bool {
    &&& p.email@ == row_address(row, c.email as int)
    &&& p.display_name@ == match cell_value(row, c.name) {
        Some(t) => t,
        None => Seq::empty(),
    }
    &&& p.principal_type@ == normalized_or(cell_value(row, c.kind), "person"@)
    &&& p.status@ == normalized_or(cell_value(row, c.status), "unknown"@)
    &&& opt_string(p.departure_date) == cell_value(row, c.departure)
    &&& opt_string(p.notes) == cell_value(row, c.notes)
    &&& opt_string(p.organization) == cell_value(row, c.organization)
}

/// The data rows (before `upto`) that are not blank and give a valid
/// address, in order.
pub open spec fn kept_rows(rows: Seq<Seq<Seq<char>>>, email_column: int, upto: int) -> Seq<int>
    decreases upto,
{
    if upto <= 1 {
        seq![]
    } else {
        kept_rows(rows, email_column, upto - 1) + if !blank_fields(rows[upto - 1]) && valid_email_text(
            row_address(rows[upto - 1], email_column),
        ) {
            seq![upto - 1]
        } else {
            seq![]
        }
    }
}

/// One planned person per kept row (before `upto`), in order.
pub open spec fn people_planned(people: Seq<PlannedPerson>, rows: Seq<Seq<Seq<char>>>, c: ImportColumns, upto: int) -> bool {
    let kept = kept_rows(rows, c.email as int, upto);
    &&& people.len() == kept.len()
    &&& forall|k: int| 0 <= k < people.len() ==> person_from(#[trigger] people[k], rows[kept[k]], c)
}

/// A header row, each header normalized.
pub open spec fn header_names(first: Seq<Seq<char>>) -> Seq<Seq<char>> {
    first.map_values(|h: Seq<char>| normalized_header(h))
}

/// The plan of an import of these rows: its columns read from the
/// normalized header row, its counts, and one person per kept row.
pub open spec fn import_plan_of(rows: Seq<Seq<Seq<char>>>, plan: ImportPlan) -> bool {
    exists|c: ImportColumns|
        #[trigger] columns_in(header_names(rows[0]), c) && plan.rows_seen
            == rows_seen(rows, rows.len() as int) && plan.rows_rejected == rows_rejected(
            rows,
            c.email as int,
            rows.len() as int,
        ) && people_planned(plan.people@, rows, c, rows.len() as int)
}

proof fn lemma_cell_value(row: Seq<String>, index: Option<usize>)
    ensures
        trimmed_field_text(row, index) == cell_value(row.map_values(|f: String| f@), index),
{
    match index {
        Some(i) => {
            assert(field_text(row, i as int) == field_of(row.map_values(|f: String| f@), i as int));
        },
        None => {},
    }
}

/// Plans an import from CSV text: the first row names the columns (an
/// email column is required); every later non-blank row is seen, and is
/// kept when its lower-cased address is valid.
pub fn plan_import(text: &str) -> (result: Result<ImportPlan, ImportError>)
    ensures
        csv_rows(text@) is None ==> result == Err::<ImportPlan, ImportError>(
            ImportError::Csv(CsvError::UnterminatedQuote),
        ),
        (csv_rows(text@) matches Some(rows) && rows.len() == 0) ==> result
            == Err::<ImportPlan, ImportError>(ImportError::Empty),
        (csv_rows(text@) matches Some(rows) && rows.len() > 0 && !has_email_header(rows[0])) ==> result
            == Err::<ImportPlan, ImportError>(ImportError::NoEmailColumn),
        result matches Ok(plan) ==> (plan.people@.len() + plan.rows_rejected == plan.rows_seen
            && emails_valid(plan.people@)),
        result matches Ok(plan) ==> (csv_rows(text@) matches Some(rows) && import_counts(
            rows,
            plan.rows_seen,
            plan.rows_rejected,
        )),
        result matches Ok(plan) ==> (csv_rows(text@) matches Some(rows) && import_plan_of(rows, plan)),
        result is Err ==> plan_import_fails(text@),
{
    let rows = match parse_csv(text) {
        Ok(r) => r,
        Err(e) => return Err(ImportError::Csv(e)),
    };
    if rows.len() == 0 {
        assert(string_rows_view(rows@).len() == 0);
        return Err(ImportError::Empty);
    }
    let ghost first = string_rows_view(rows@)[0];
    assert(first == rows@[0]@.map_values(|f: String| f@));
    let mut headers: Vec<String> = Vec::new();
    let mut h: usize = 0;
    while h < rows[0].len()
        invariant
            h <= rows@[0]@.len(),
            rows@.len() > 0,
            headers@.len() == h,
            forall|q: int| 0 <= q < h ==> #[trigger] headers@[q]@ == normalized_header(rows@[0]@[q]@),
        decreases rows@[0]@.len() - h,
    {
        headers.push(normalize_header(rows[0][h].as_str()));
        h = h + 1;
    }
    let columns = match find_columns(&headers) {
        Some(c) => {
            proof {
                let e = c.email as int;
                assert(headers@.map_values(|x: String| x@)[e] == headers@[e]@);
                assert(first[e] == rows@[0]@[e]@);
                assert(email_header_names().contains(normalized_header(first[e])));
                assert(has_email_header(first));
            }
            c
        },
        None => {
            proof {
                assert forall|j: int| 0 <= j < first.len() implies !email_header_names().contains(
                    #[trigger] normalized_header(first[j]),
                ) by {
                    assert(first[j] == rows@[0]@[j]@);
                    assert(headers@.map_values(|x: String| x@)[j] == headers@[j]@);
                }
            }
            return Err(ImportError::NoEmailColumn);
        },
    };
    let mut people: Vec<PlannedPerson> = Vec::new();
    let mut seen: u64 = 0;
    let ghost view = string_rows_view(rows@);
    let ghost col = columns.email as int;
    proof {
        assert(headers@.map_values(|x: String| x@) =~= first.map_values(|h: Seq<char>| normalized_header(h)));
        assert(header_position(first.map_values(|h: Seq<char>| normalized_header(h)), email_header_names(), col));
        assert(columns_in(header_names(first), columns));
    }
    let mut rejected: u64 = 0;
    let mut i: usize = 1;
    while i < rows.len()
        invariant
            1 <= i <= rows@.len(),
            view == string_rows_view(rows@),
            seen == rows_seen(view, i as int),
            rejected == rows_rejected(view, col, i as int),
            col == columns.email as int,
            people@.len() + rejected == seen,
            seen <= i,
            emails_valid(people@),
            people_planned(people@, view, columns, i as int),
        decreases rows@.len() - i,
    {
        let row = &rows[i];
        proof {
            lemma_blank_view(row@);
            assert(view[i as int] == row@.map_values(|f: String| f@));
        }
        if is_blank_row(row) {
            i = i + 1;
            continue;
        }
        seen = seen + 1;
        let c = cell(row.as_slice(), columns.email);
        assert(c@ == field_of(view[i as int], col));
        let raw = trim_str(c);
        let lower = crate::text::to_ascii_lower(raw.as_slice());
        let email = string_of(lower.as_slice());
        assert(email@ == row_address(view[i as int], col));
        if !valid_email(email.as_str()) {
            rejected = rejected + 1;
            i = i + 1;
            continue;
        }
        proof {
            lemma_cell_value(row@, columns.name);
            lemma_cell_value(row@, columns.kind);
            lemma_cell_value(row@, columns.status);
            lemma_cell_value(row@, columns.departure);
            lemma_cell_value(row@, columns.notes);
            lemma_cell_value(row@, columns.organization);
        }
        let display_name = match trimmed_cell(row, columns.name) {
            Some(v) => v,
            None => String::new(),
        };
        let principal_type = normalized_cell(row, columns.kind, "person");
        let status = normalized_cell(row, columns.status, "unknown");
        let departure_date = trimmed_cell(row, columns.departure);
        let notes = trimmed_cell(row, columns.notes);
        let organization = trimmed_cell(row, columns.organization);
        let person = PlannedPerson {
            email,
            display_name,
            principal_type,
            status,
            departure_date,
            notes,
            organization,
        };
        assert(valid_email_text(person.email@));
        assert(person_from(person, view[i as int], columns));
        let ghost before = people@;
        let ghost kept_before = kept_rows(view, col, i as int);
        assert(kept_rows(view, col, i + 1) == kept_before.push(i as int));
        people.push(person);
        assert forall|k: int| 0 <= k < people@.len() implies person_from(
            #[trigger] people@[k],
            view[kept_rows(view, col, i + 1)[k]],
            columns,
        ) by {
            if k < before.len() {
                assert(people@[k] == before[k]);
                assert(kept_rows(view, col, i + 1)[k] == kept_before[k]);
            } else {
                assert(people@[k] == person);
            }
        }
        assert forall|k: int| 0 <= k < people@.len() implies valid_email_text(
            #[trigger] people@[k].email@,
        ) by {
            if k < before.len() {
                assert(people@[k] == before[k]);
            } else {
                assert(people@[k] == person);
            }
        }
        i = i + 1;
    }
    Ok(ImportPlan { people, rows_seen: seen, rows_rejected: rejected })
}

/// Every planned address is a valid one.
pub open spec fn emails_valid(people: Seq<PlannedPerson>) -> bool {
    forall|i: int| 0 <= i < people.len() ==> valid_email_text(#[trigger] people[i].email@)
}

fn single_id(connection: &rusqlite::Connection, sql: &str, params: &[SqlParam]) -> (result: Result<
    i64,
    DatabaseError,
>)
    ensures
        result matches Err(e) ==> e is Storage,
{
    crate::database::query_count(connection, sql, params)
}

/// Imports people from a directory CSV file named `filename`, recording the
/// import run and returning what it did. Each kept row creates or updates
/// the person with that address and their organization membership.
/// `std::str::from_utf8`: the text the bytes encode, when they are valid
/// UTF-8.
#[verifier::external_body]
fn utf8_text(bytes: &[u8]) -> (result: Option<String>)
    ensures
        result is Some <==> vstd::utf8::valid_utf8(bytes@),
        result matches Some(t) ==> t@ == vstd::utf8::decode_utf8(bytes@),
{
    std::str::from_utf8(bytes).ok().map(|text| text.to_string())
}

/// Why an import of these bytes is refused before anything is written:
/// they are not UTF-8, or their text cannot be planned.
pub open spec fn import_refused(data: Seq<u8>) -> bool {
    !vstd::utf8::valid_utf8(data) || plan_import_fails(vstd::utf8::decode_utf8(data))
}

pub const SOURCE_UPSERT_SQL: &'static str = "INSERT INTO directory_sources (name, source_type, enabled)
         VALUES (?1, 'csv_upload', 1)
         ON CONFLICT(name) DO UPDATE SET updated_at = CURRENT_TIMESTAMP";

pub const SOURCE_ID_SQL: &'static str = "SELECT id FROM directory_sources WHERE name = ?1";

pub const IMPORT_RUN_SQL: &'static str = "INSERT INTO directory_import_runs (source_id) VALUES (?1)";

pub const PERSON_EXISTS_SQL: &'static str = "SELECT EXISTS(SELECT 1 FROM principals WHERE lower(primary_email) = lower(?1))";

pub const PERSON_UPSERT_SQL: &'static str = "INSERT INTO principals (
                principal_type, primary_email, display_name, status, departure_date, notes, source
             ) VALUES (?1, ?2, NULLIF(?3, ''), ?4, ?5, ?6, ?7)
             ON CONFLICT(primary_email) DO UPDATE SET
                principal_type = excluded.principal_type,
                display_name = COALESCE(excluded.display_name, principals.display_name),
                status = excluded.status,
                departure_date = excluded.departure_date,
                notes = COALESCE(excluded.notes, principals.notes),
                source = excluded.source,
                updated_at = CURRENT_TIMESTAMP";

pub const PERSON_ID_SQL: &'static str = "SELECT id FROM principals WHERE lower(primary_email) = lower(?1)";

pub const PERSON_EMAIL_SQL: &'static str = "INSERT OR IGNORE INTO principal_emails (principal_id, email, is_primary)
             VALUES (?1, ?2, 1)";

pub const ORGANIZATION_SQL: &'static str = "INSERT INTO organizations (name) VALUES (?1) ON CONFLICT(name) DO NOTHING";

pub const ORGANIZATION_ID_SQL: &'static str = "SELECT id FROM organizations WHERE name = ?1 COLLATE NOCASE";

pub const MEMBERSHIP_SQL: &'static str = "INSERT INTO organization_memberships (
                    organization_id, principal_id, status, source
                 ) VALUES (?1, ?2, ?3, ?4)
                 ON CONFLICT(organization_id, principal_id) DO UPDATE SET
                    status = excluded.status, source = excluded.source";

pub const IMPORT_RUN_DONE_SQL: &'static str = "UPDATE directory_import_runs SET
            status = 'complete', completed_at = CURRENT_TIMESTAMP,
            rows_seen = ?2, rows_created = ?3, rows_updated = ?4, rows_rejected = ?5
         WHERE id = ?1";

pub const SOURCE_DONE_SQL: &'static str = "UPDATE directory_sources SET
            last_attempt_at = CURRENT_TIMESTAMP, last_success_at = CURRENT_TIMESTAMP,
            last_error = NULL, updated_at = CURRENT_TIMESTAMP
         WHERE id = ?1";

/// The parameter is this text, or `NULL` when there is none.
pub open spec fn optional_text_param(p: SqlParam, value: Option<Seq<char>>) -> bool {
    match value {
        Some(t) => crate::database::inventory::text_param(p, t),
        None => p is Null,
    }
}

/// The name an import from `filename` is recorded under.
pub open spec fn import_source_name(filename: Seq<char>) -> Seq<char> {
    "CSV: "@ + trim(filename)
}

/// The statement that writes person `p` from source `source`: its type,
/// address, display name, status, departure date, notes and source, in
/// that order.
pub open spec fn person_upserted(statement: SentStatement, p: PlannedPerson, source: Seq<char>) -> bool {
    &&& statement_is(statement, PERSON_UPSERT_SQL@, 7)
    &&& crate::database::inventory::text_param(statement.1[0], p.principal_type@)
    &&& crate::database::inventory::text_param(statement.1[1], p.email@)
    &&& crate::database::inventory::text_param(statement.1[2], p.display_name@)
    &&& crate::database::inventory::text_param(statement.1[3], p.status@)
    &&& optional_text_param(statement.1[4], opt_string(p.departure_date))
    &&& optional_text_param(statement.1[5], opt_string(p.notes))
    &&& crate::database::inventory::text_param(statement.1[6], source)
}

/// Every person of `people` is written by some statement sent after
/// `before`.
pub open spec fn people_written(
    before: Seq<SentStatement>,
    after: Seq<SentStatement>,
    people: Seq<PlannedPerson>,
    source: Seq<char>,
) -> bool {
    forall|k: int|
        0 <= k < people.len() ==> exists|j: int|
            before.len() <= j < after.len() && person_upserted(#[trigger] after[j], #[trigger] people[k], source)
}

fn optional_param(value: &Option<String>) -> (result: SqlParam)
    ensures
        optional_text_param(result, opt_string(*value)),
{
    match value {
        Some(v) => SqlParam::Text(v.clone()),
        None => SqlParam::Null,
    }
}

/// Writes one planned person (and their organization membership), and
/// says whether the address was already known.
fn write_person(
    database: &mut Database,
    connection: &rusqlite::Connection,
    person: &PlannedPerson,
    source_name: &String,
) -> (result: Result<bool, DatabaseError>)
    ensures
        result matches Err(e) ==> e is Storage,
        final(database).sent().len() >= old(database).sent().len(),
        final(database).sent().subrange(0, old(database).sent().len() as int) == old(database).sent(),
        result is Ok ==> final(database).sent().len() >= old(database).sent().len() + 2 && person_upserted(
            final(database).sent()[old(database).sent().len() as int + 1],
            *person,
            source_name@,
        ),
{
    let ghost before = database.sent();
    let email_param = vec![SqlParam::Text(person.email.clone())];
    let existed = send_count(database, connection, PERSON_EXISTS_SQL, email_param.as_slice())? != 0;
    let ghost asked = database.sent();
    let row = vec![
        SqlParam::Text(person.principal_type.clone()),
        SqlParam::Text(person.email.clone()),
        SqlParam::Text(person.display_name.clone()),
        SqlParam::Text(person.status.clone()),
        optional_param(&person.departure_date),
        optional_param(&person.notes),
        SqlParam::Text(source_name.clone()),
    ];
    send(database, connection, PERSON_UPSERT_SQL, row.as_slice())?;
    let ghost written = database.sent();
    proof {
        crate::database::lemma_sent_chain(before, asked, written, 1, 1);
        assert(person_upserted(written[before.len() as int + 1], *person, source_name@));
    }
    let principal_id = send_count(database, connection, PERSON_ID_SQL, email_param.as_slice())?;
    let ghost mut now = database.sent();
    proof {
        crate::database::lemma_sent_chain(before, written, now, 2, 1);
    }
    let email_row = vec![SqlParam::Integer(principal_id), SqlParam::Text(person.email.clone())];
    send(database, connection, PERSON_EMAIL_SQL, email_row.as_slice())?;
    proof {
        crate::database::lemma_sent_chain(before, now, database.sent(), 3, 1);
        now = database.sent();
    }
    if let Some(organization) = &person.organization {
        let org_param = vec![SqlParam::Text(organization.clone())];
        send(database, connection, ORGANIZATION_SQL, org_param.as_slice())?;
        proof {
            crate::database::lemma_sent_chain(before, now, database.sent(), 4, 1);
            now = database.sent();
        }
        let organization_id = send_count(database, connection, ORGANIZATION_ID_SQL, org_param.as_slice())?;
        proof {
            crate::database::lemma_sent_chain(before, now, database.sent(), 5, 1);
            now = database.sent();
        }
        let membership = vec![
            SqlParam::Integer(organization_id),
            SqlParam::Integer(principal_id),
            SqlParam::Text(person.status.clone()),
            SqlParam::Text(source_name.clone()),
        ];
        send(database, connection, MEMBERSHIP_SQL, membership.as_slice())?;
        proof {
            crate::database::lemma_sent_chain(before, now, database.sent(), 6, 1);
        }
    }
    Ok(existed)
}

/// Imports people from a directory CSV file named `filename`, recording the
/// import run and returning what it did. Each kept row creates or updates
/// the person with that address and their organization membership: the
/// statement writing each planned person carries exactly that person's
/// fields.
pub fn import_csv(database: &mut Database, filename: &str, data: &[u8]) -> (result: Result<
    ImportSummary,
    DatabaseError,
>)
    ensures
        import_refused(data@) ==> result matches Err(DatabaseError::Rejected(Rejection::InvalidImport(_))),
        import_refused(data@) ==> final(database).sent() == old(database).sent(),
        result matches Err(DatabaseError::Rejected(r)) ==> r is InvalidImport && import_refused(data@),
        result matches Ok(summary) ==> summary.rows_created + summary.rows_updated + summary.rows_rejected
            == summary.rows_seen,
        result matches Ok(summary) ==> vstd::utf8::valid_utf8(data@),
        result matches Ok(summary) ==> (csv_rows(vstd::utf8::decode_utf8(data@)) matches Some(rows) && import_counts(
            rows,
            summary.rows_seen,
            summary.rows_rejected,
        )),
        result is Ok ==> (csv_rows(vstd::utf8::decode_utf8(data@)) matches Some(rows) && exists|plan: ImportPlan|
            #[trigger] import_plan_of(rows, plan) && people_written(
                old(database).sent(),
                final(database).sent(),
                plan.people@,
                import_source_name(filename@),
            )),
{
    let text = match utf8_text(data) {
        Some(t) => t,
        None => {
            return Err(
                DatabaseError::Rejected(Rejection::InvalidImport(string_from("Directory CSV must use UTF-8 encoding"))),
            )
        },
    };
    let plan = match plan_import(text.as_str()) {
        Ok(p) => p,
        Err(e) => return Err(DatabaseError::Rejected(Rejection::InvalidImport(string_from(e.message())))),
    };
    assert(!import_refused(data@));
    let connection = database.connect()?;
    let ghost start = database.sent();
    send_batch(database, &connection, "BEGIN")?;
    let mut source: Vec<char> = Vec::new();
    push_str(&mut source, "CSV: ");
    let name = trim_str(filename);
    push_chars(&mut source, name.as_slice());
    let source_name = string_of(source.as_slice());
    proof {
        reveal_strlit("CSV: ");
        assert(source_name@ =~= import_source_name(filename@));
    }
    let source_param = vec![SqlParam::Text(source_name.clone())];
    send(database, &connection, SOURCE_UPSERT_SQL, source_param.as_slice())?;
    let source_id = send_count(database, &connection, SOURCE_ID_SQL, source_param.as_slice())?;
    send(database, &connection, IMPORT_RUN_SQL, vec![SqlParam::Integer(source_id)].as_slice())?;
    let run_id = crate::database::sql::sql_last_insert_rowid(&connection);
    let ghost looped = database.sent();
    assert(looped.len() >= start.len()) by {
        assert(looped.len() == start.len() + 4);
    }
    assert(looped.subrange(0, start.len() as int) =~= start);
    let mut created: u64 = 0;
    let mut updated: u64 = 0;
    let mut i: usize = 0;
    while i < plan.people.len()
        invariant
            !import_refused(data@),
            i <= plan.people@.len(),
            created + updated == i,
            plan.people@.len() + plan.rows_rejected == plan.rows_seen,
            database.sent().len() >= start.len(),
            database.sent().subrange(0, start.len() as int) == start,
            people_written(start, database.sent(), plan.people@.subrange(0, i as int), source_name@),
        decreases plan.people@.len() - i,
    {
        let ghost previous = database.sent();
        let existed = write_person(database, &connection, &plan.people[i], &source_name)?;
        proof {
            let now = database.sent();
            let done = plan.people@.subrange(0, i + 1);
            let earlier = plan.people@.subrange(0, i as int);
            assert forall|k: int| 0 <= k < done.len() implies exists|j: int|
                start.len() <= j < now.len() && person_upserted(#[trigger] now[j], #[trigger] done[k], source_name@) by {
                if k < i {
                    assert(earlier[k] == done[k]);
                    let j = choose|j: int|
                        start.len() <= j < previous.len() && person_upserted(#[trigger] previous[j], #[trigger] earlier[k], source_name@);
                    assert(now.subrange(0, previous.len() as int)[j] == now[j]);
                    assert(now[j] == previous[j]);
                } else {
                    assert(done[k] == plan.people@[i as int]);
                    let j = previous.len() as int + 1;
                    assert(person_upserted(now[j], done[k], source_name@));
                }
            }
            assert(now.subrange(0, start.len() as int) =~= start) by {
                assert forall|m: int| 0 <= m < start.len() implies now.subrange(0, start.len() as int)[m] == start[m] by {
                    assert(now.subrange(0, previous.len() as int)[m] == now[m]);
                    assert(previous.subrange(0, start.len() as int)[m] == previous[m]);
                }
            }
        }
        if existed {
            updated = updated + 1;
        } else {
            created = created + 1;
        }
        i = i + 1;
    }
    assert(plan.people@.subrange(0, i as int) =~= plan.people@);
    let ghost people_done = database.sent();
    let summary = ImportSummary {
        rows_seen: plan.rows_seen,
        rows_created: created,
        rows_updated: updated,
        rows_rejected: plan.rows_rejected,
    };
    send(
        database,
        &connection,
        IMPORT_RUN_DONE_SQL,
        vec![
            SqlParam::Integer(run_id),
            SqlParam::Integer(summary.rows_seen as i64),
            SqlParam::Integer(summary.rows_created as i64),
            SqlParam::Integer(summary.rows_updated as i64),
            SqlParam::Integer(summary.rows_rejected as i64),
        ].as_slice(),
    )?;
    send(database, &connection, SOURCE_DONE_SQL, vec![SqlParam::Integer(source_id)].as_slice())?;
    send_batch(database, &connection, "COMMIT")?;
    proof {
        let now = database.sent();
        assert(now.len() == people_done.len() + 3);
        assert forall|j: int| 0 <= j < people_done.len() implies #[trigger] now[j] == people_done[j] by {}
        assert forall|k: int| 0 <= k < plan.people@.len() implies exists|j: int|
            old(database).sent().len() <= j < now.len() && person_upserted(#[trigger] now[j], #[trigger] plan.people@[k], source_name@) by {
            let j = choose|j: int|
                start.len() <= j < people_done.len() && person_upserted(#[trigger] people_done[j], #[trigger] plan.people@[k], source_name@);
            assert(now[j] == people_done[j]);
        }
        assert(import_plan_of(csv_rows(text@)->0, plan));
    }
    Ok(summary)
}

/// Whether planning refuses the text outright (unreadable or empty CSV).
pub open spec fn plan_import_fails(text: Seq<char>) -> bool {
    csv_rows(text) is None || (csv_rows(text) matches Some(rows) && (rows.len() == 0 || !has_email_header(rows[0])))
}

/// The names an email column may have.
pub open spec fn email_header_names() -> Seq<Seq<char>> {
    seq!["email"@, "primary_email"@, "email_address"@]
}

/// Whether a header row names an email column, once normalized.
pub open spec fn has_email_header(first: Seq<Seq<char>>) -> bool {
    exists|j: int| 0 <= j < first.len() && email_header_names().contains(#[trigger] normalized_header(first[j]))
}

} // verus!
