//! The Drive inventory: items, tags, Shared Drives and scan history.
use vstd::prelude::*;
use vstd::hash_map::StringHashMap;
use vstd::string::StringSliceAdditionalSpecFns;

use crate::database::sql::{
    SqlParam,
    SqlValue,
};
use crate::rclone::inventory::DriveItem;
use crate::json::{member, text_of, JsonValue};
use crate::text::{digits_value, split_once, upper_seq};
use crate::database::{
    Database,
    DatabaseError,
    Rejection,
    cell_integer,
    cell_text,
    integer_at,
    integer_or_zero,
    query_count,
    query_rows,
    run,
    run_batch,
    send,
    send_batch,
    send_count,
    send_query,
    sent_after,
    statement_is,
    SentStatement,
    extends,
    lemma_extends_trans,
    text_at,
    text_or_empty,
};
use crate::text::{
    char_is_ascii_alphanumeric,
    char_is_ascii_digit,
    char_is_ascii_hexdigit,
    chars_of,
    is_ascii_alphanumeric,
    is_ascii_digit,
    is_ascii_hexdigit,
    lower_seq,
    push_chars,
    push_str,
    slice_range,
    split_char,
    split_chars,
    starts_with,
    string_from,
    string_of,
    strip_trailing,
    strip_trailing_char,
    trim,
    trim_chars,
    trim_str,
};

verus! {

pub const MY_DRIVE_SCOPE: &'static str = "my-drive-ro";

pub const SHARED_WITH_ME_SCOPE: &'static str = "shared-with-me";

pub const SHARED_DRIVE_SCOPE_PREFIX: &'static str = "shared-drive:";

pub const DELETED_TAG_FILTER: &'static str = "__deleted__";

/// The tag filter that selects items without any tag.
pub const UNTAGGED_TAG_FILTER: &'static str = "__untagged__";

/// Where a tag may be used.
#[derive(Debug, Clone, Copy, PartialEq, Eq, Structural)]
pub enum TagScope {
    Directory,
    MyDrive,
    SharedDrives,
    SharedWithMe,
}

pub open spec fn scope_text(scope: TagScope) -> Seq<char> {
    match scope {
        TagScope::Directory => seq!['d', 'i', 'r', 'e', 'c', 't', 'o', 'r', 'y'],
        TagScope::MyDrive => seq!['m', 'y', '-', 'd', 'r', 'i', 'v', 'e'],
        TagScope::SharedDrives => seq![
            's',
            'h',
            'a',
            'r',
            'e',
            'd',
            '-',
            'd',
            'r',
            'i',
            'v',
            'e',
            's',
        ],
        TagScope::SharedWithMe => seq![
            's',
            'h',
            'a',
            'r',
            'e',
            'd',
            '-',
            'w',
            'i',
            't',
            'h',
            '-',
            'm',
            'e',
        ],
    }
}

pub open spec fn my_drive_scope() -> Seq<char> {
    seq!['m', 'y', '-', 'd', 'r', 'i', 'v', 'e', '-', 'r', 'o']
}

pub open spec fn shared_with_me_scope() -> Seq<char> {
    seq!['s', 'h', 'a', 'r', 'e', 'd', '-', 'w', 'i', 't', 'h', '-', 'm', 'e']
}

pub open spec fn shared_drive_prefix() -> Seq<char> {
    seq!['s', 'h', 'a', 'r', 'e', 'd', '-', 'd', 'r', 'i', 'v', 'e', ':']
}

/// The tag scope that governs an inventory.
pub open spec fn scope_for_inventory(inventory: Seq<char>) -> Option<TagScope> {
    if inventory == my_drive_scope() {
        Some(TagScope::MyDrive)
    } else if inventory == shared_with_me_scope() {
        Some(TagScope::SharedWithMe)
    } else if starts_with(inventory, shared_drive_prefix()) {
        Some(TagScope::SharedDrives)
    } else {
        None
    }
}

impl TagScope {
    pub fn as_str(self) -> (result: &'static str)
        ensures
            result@ == scope_text(self),
    {
        proof {
            reveal_strlit("directory");
            reveal_strlit("my-drive");
            reveal_strlit("shared-drives");
            reveal_strlit("shared-with-me");
        }
        match self {
            TagScope::Directory => "directory",
            TagScope::MyDrive => "my-drive",
            TagScope::SharedDrives => "shared-drives",
            TagScope::SharedWithMe => "shared-with-me",
        }
    }

    /// The scope of tags shown in an inventory's explorer.
    pub fn for_inventory(inventory_scope: &str) -> (result: Option<TagScope>)
        ensures
            result == scope_for_inventory(inventory_scope@),
    {
        let c = chars_of(inventory_scope);
        proof {
            reveal_strlit("my-drive-ro");
            reveal_strlit("shared-with-me");
            reveal_strlit("shared-drive:");
            assert("my-drive-ro"@ =~= my_drive_scope());
            assert("shared-with-me"@ =~= shared_with_me_scope());
            assert("shared-drive:"@ =~= shared_drive_prefix());
        }
        if crate::text::equals_str(c.as_slice(), MY_DRIVE_SCOPE) {
            Some(TagScope::MyDrive)
        } else if crate::text::equals_str(c.as_slice(), SHARED_WITH_ME_SCOPE) {
            Some(TagScope::SharedWithMe)
        } else if crate::text::starts_with_str(c.as_slice(), SHARED_DRIVE_SCOPE_PREFIX) {
            Some(TagScope::SharedDrives)
        } else {
            None
        }
    }

    /// Every scope, in the order forms list them.
    pub open spec fn all_spec() -> Seq<TagScope> {
        seq![TagScope::Directory, TagScope::MyDrive, TagScope::SharedDrives, TagScope::SharedWithMe]
    }

    /// Every scope, in the order forms list them.
    pub fn all() -> (result: Vec<TagScope>)
        ensures
            result@ == TagScope::all_spec(),
    {
        let v = vec![TagScope::Directory, TagScope::MyDrive, TagScope::SharedDrives, TagScope::SharedWithMe];
        assert(v@ =~= seq![
            TagScope::Directory,
            TagScope::MyDrive,
            TagScope::SharedDrives,
            TagScope::SharedWithMe,
        ]);
        v
    }
}

/// The inventory name of a Shared Drive.
pub fn shared_drive_scope(drive_id: &str) -> (result: String)
    ensures
        result@ == shared_drive_prefix() + drive_id@,
{
    proof {
        reveal_strlit("shared-drive:");
        assert("shared-drive:"@ =~= shared_drive_prefix());
    }
    let mut text: Vec<char> = Vec::new();
    push_str(&mut text, SHARED_DRIVE_SCOPE_PREFIX);
    push_str(&mut text, drive_id);
    string_of(text.as_slice())
}

/// Every inventory that has a tag scope maps back to one whose explorer
/// uses it: a Shared Drive's inventory is tagged with Shared Drive tags.
pub proof fn law_shared_drive_inventories_use_shared_drive_tags(drive_id: Seq<char>)
    ensures
        scope_for_inventory(shared_drive_prefix() + drive_id) == Some(TagScope::SharedDrives),
{
    let s = shared_drive_prefix() + drive_id;
    assert(s.subrange(0, shared_drive_prefix().len() as int) =~= shared_drive_prefix());
    assert(s != my_drive_scope()) by {
        assert(s[0] == 's');
    }
    assert(s != shared_with_me_scope()) by {
        assert(s[7] == 'd');
        assert(shared_with_me_scope()[7] == 'w');
    }
}

// ---------------------------------------------------------------------------
// Tags
// ---------------------------------------------------------------------------

#[derive(Debug, Clone)]
pub struct Tag {
    pub slug: String,
    pub name: String,
    pub description: String,
    pub color: String,
    pub directory: bool,
    pub my_drive: bool,
    pub shared_drives: bool,
    pub shared_with_me: bool,
}

/// A tag color, when acceptable: `#RGB` doubled to `#RRGGBB`, or `#RRGGBB`,
/// in lower case.
pub open spec fn normalized_color(color: Seq<char>) -> Option<Seq<char>> {
    let c = trim(color);
    if c.len() == 0 || c[0] != '#' || !(forall|i: int| 1 <= i < c.len() ==> is_ascii_hexdigit(#[trigger] c[i])) {
        None
    } else if c.len() == 4 {
        Some(lower_seq(seq!['#', c[1], c[1], c[2], c[2], c[3], c[3]]))
    } else if c.len() == 7 {
        Some(lower_seq(c))
    } else {
        None
    }
}

/// How many bytes UTF-8 spends on a character.
pub open spec fn utf8_width(c: char) -> nat {
    if (c as u32) < 0x80 {
        1
    } else if (c as u32) < 0x800 {
        2
    } else if (c as u32) < 0x10000 {
        3
    } else {
        4
    }
}

/// The byte length of text, as `str::len` counts it.
pub open spec fn byte_len(s: Seq<char>) -> nat
    decreases s.len(),
{
    if s.len() == 0 {
        0
    } else {
        byte_len(s.drop_last()) + utf8_width(s.last())
    }
}

/// The byte length of `s`, or `limit + 1` when it exceeds `limit`.
fn byte_len_capped(s: &[char], limit: usize) -> (result: usize)
    requires
        limit < usize::MAX - 4,
    ensures
        result <= limit ==> result == byte_len(s@),
        result > limit ==> byte_len(s@) > limit,
{
    let mut total: usize = 0;
    let mut i: usize = 0;
    while i < s.len()
        invariant
            i <= s@.len(),
            limit < usize::MAX - 4,
            total <= limit,
            total == byte_len(s@.subrange(0, i as int)),
        decreases s@.len() - i,
    {
        let c = s[i] as u32;
        let w: usize = if c < 0x80 { 1 } else if c < 0x800 { 2 } else if c < 0x10000 { 3 } else { 4 };
        assert(s@.subrange(0, i + 1).drop_last() =~= s@.subrange(0, i as int));
        total = total + w;
        i = i + 1;
        if total > limit {
            proof {
                lemma_byte_len_prefix(s@, i as int);
            }
            return total;
        }
    }
    assert(s@.subrange(0, s@.len() as int) =~= s@);
    total
}

proof fn lemma_byte_len_prefix(s: Seq<char>, k: int)
    requires
        0 <= k <= s.len(),
    ensures
        byte_len(s.subrange(0, k)) <= byte_len(s),
    decreases s.len() - k,
{
    if k < s.len() {
        lemma_byte_len_prefix(s, k + 1);
        assert(s.subrange(0, k + 1).drop_last() =~= s.subrange(0, k));
    } else {
        assert(s.subrange(0, k) =~= s);
    }
}

/// Checks a tag's name (1 to 40 bytes once trimmed) and color, returning the
/// normalized color.
pub fn validate_tag(name: &str, color: &str) -> (result: Result<String, Rejection>)
    ensures
        !(1 <= byte_len(trim(name@)) <= 40) ==> result == Err::<String, Rejection>(
            Rejection::TagNameLength,
        ),
        (1 <= byte_len(trim(name@)) <= 40) ==> match normalized_color(color@) {
            Some(c) => result matches Ok(r) && r@ == c,
            None => result == Err::<String, Rejection>(Rejection::TagColorFormat),
        },
{
    let n = trim_str(name);
    let bytes = byte_len_capped(n.as_slice(), 40);
    if bytes == 0 || bytes > 40 {
        return Err(Rejection::TagNameLength);
    }
    let c = trim_str(color);
    if c.len() == 0 || c[0] != '#' {
        return Err(Rejection::TagColorFormat);
    }
    let mut i: usize = 1;
    while i < c.len()
        invariant
            1 <= i <= c@.len(),
            c@ == trim(color@),
            c@[0] == '#',
            1 <= byte_len(trim(name@)) <= 40,
            forall|k: int| 1 <= k < i ==> is_ascii_hexdigit(#[trigger] c@[k]),
        decreases c@.len() - i,
    {
        if !char_is_ascii_hexdigit(c[i]) {
            assert(!is_ascii_hexdigit(c@[i as int]));
            return Err(Rejection::TagColorFormat);
        }
        i = i + 1;
    }
    if c.len() == 4 {
        let mut v: Vec<char> = Vec::new();
        v.push('#');
        v.push(c[1]);
        v.push(c[1]);
        v.push(c[2]);
        v.push(c[2]);
        v.push(c[3]);
        v.push(c[3]);
        let lower = crate::text::to_ascii_lower(v.as_slice());
        assert(v@ =~= seq!['#', c@[1], c@[1], c@[2], c@[2], c@[3], c@[3]]);
        Ok(string_of(lower.as_slice()))
    } else if c.len() == 7 {
        let lower = crate::text::to_ascii_lower(c.as_slice());
        Ok(string_of(lower.as_slice()))
    } else {
        Err(Rejection::TagColorFormat)
    }
}

/// A description is kept trimmed and may hold at most 500 bytes.
pub fn validate_tag_description(description: &str) -> (result: Result<String, Rejection>)
    ensures
        byte_len(trim(description@)) > 500 ==> result == Err::<String, Rejection>(
            Rejection::TagDescriptionTooLong,
        ),
        byte_len(trim(description@)) <= 500 ==> (result matches Ok(d) && d@ == trim(description@)),
{
    let d = trim_str(description);
    if byte_len_capped(d.as_slice(), 500) > 500 {
        return Err(Rejection::TagDescriptionTooLong);
    }
    Ok(string_of(d.as_slice()))
}

/// The slug built from lower-cased characters: letters and digits are kept,
/// every run of other characters after the first kept one becomes one `-`.
pub open spec fn slug_fold(s: Seq<char>) -> Seq<char>
    decreases s.len(),
{
    if s.len() == 0 {
        seq![]
    } else {
        let prev = slug_fold(s.drop_last());
        let c = s.last();
        if is_ascii_alphanumeric(c) {
            prev.push(c)
        } else if prev.len() > 0 && prev.last() != '-' {
            prev.push('-')
        } else {
            prev
        }
    }
}

/// A tag's slug: its trimmed, lower-cased name folded as above, without
/// trailing dashes.
pub open spec fn slug_of(name: Seq<char>) -> Seq<char> {
    strip_trailing(slug_fold(lower_seq(trim(name))), '-')
}

pub fn tag_slug(name: &str) -> (result: String)
    ensures
        result@ == slug_of(name@),
{
    let t = trim_str(name);
    let lower = crate::text::to_ascii_lower(t.as_slice());
    let mut slug: Vec<char> = Vec::new();
    let mut i: usize = 0;
    while i < lower.len()
        invariant
            i <= lower@.len(),
            slug@ == slug_fold(lower@.subrange(0, i as int)),
        decreases lower@.len() - i,
    {
        let c = lower[i];
        assert(lower@.subrange(0, i + 1).drop_last() =~= lower@.subrange(0, i as int));
        if char_is_ascii_alphanumeric(c) {
            slug.push(c);
        } else if slug.len() > 0 && slug[slug.len() - 1] != '-' {
            slug.push('-');
        }
        i = i + 1;
    }
    assert(lower@.subrange(0, lower@.len() as int) =~= lower@);
    let trimmed = strip_trailing_char(slug.as_slice(), '-');
    string_of(trimmed.as_slice())
}

/// A slug never ends with a dash and never holds two dashes in a row.
pub proof fn law_slug_has_no_dash_runs(s: Seq<char>)
    ensures
        forall|i: int| 0 <= i < slug_fold(s).len() - 1 ==> !(#[trigger] slug_fold(s)[i] == '-'
            && slug_fold(s)[i + 1] == '-'),
        slug_fold(s).len() > 0 ==> slug_fold(s)[0] != '-',
    decreases s.len(),
{
    if s.len() > 0 {
        law_slug_has_no_dash_runs(s.drop_last());
        let prev = slug_fold(s.drop_last());
        assert forall|i: int| 0 <= i < slug_fold(s).len() - 1 implies !(#[trigger] slug_fold(s)[i]
            == '-' && slug_fold(s)[i + 1] == '-') by {
            if i + 1 < prev.len() {
                assert(slug_fold(s)[i] == prev[i]);
                assert(slug_fold(s)[i + 1] == prev[i + 1]);
            }
        }
    }
}

// ---------------------------------------------------------------------------
// Explorer filters
// ---------------------------------------------------------------------------

/// A filter's comparison code and operand: `>=` 2, `<=` 4, `>` 1, `<` 3,
/// `=` 5, and 5 when no operator leads; the operand is trimmed.
pub open spec fn comparison_parts(value: Seq<char>) -> (int, Seq<char>) {
    if starts_with(value, seq!['>', '=']) {
        (2, trim(value.subrange(2, value.len() as int)))
    } else if starts_with(value, seq!['<', '=']) {
        (4, trim(value.subrange(2, value.len() as int)))
    } else if value.len() > 0 && value[0] == '>' {
        (1, trim(value.subrange(1, value.len() as int)))
    } else if value.len() > 0 && value[0] == '<' {
        (3, trim(value.subrange(1, value.len() as int)))
    } else if value.len() > 0 && value[0] == '=' {
        (5, trim(value.subrange(1, value.len() as int)))
    } else {
        (5, trim(value))
    }
}

pub fn comparison_prefix(value: &[char]) -> (result: (i64, Vec<char>))
    ensures
        result.0 == comparison_parts(value@).0,
        result.1@ == comparison_parts(value@).1,
{
    proof {
        if value@.len() >= 2 {
            assert(value@.subrange(0, 2) =~= seq![value@[0], value@[1]]);
        }
        if starts_with(value@, seq!['>', '=']) {
            assert(value@.subrange(0, 2)[0] == '>' && value@.subrange(0, 2)[1] == '=');
        }
        if starts_with(value@, seq!['<', '=']) {
            assert(value@.subrange(0, 2)[0] == '<' && value@.subrange(0, 2)[1] == '=');
        }
    }
    let n = value.len();
    let (code, skip): (i64, usize) = if n >= 2 && value[0] == '>' && value[1] == '=' {
        (2, 2)
    } else if n >= 2 && value[0] == '<' && value[1] == '=' {
        (4, 2)
    } else if n >= 1 && value[0] == '>' {
        (1, 1)
    } else if n >= 1 && value[0] == '<' {
        (3, 1)
    } else if n >= 1 && value[0] == '=' {
        (5, 1)
    } else {
        (5, 0)
    };
    let rest = slice_range(value, skip, n);
    if skip == 0 {
        assert(rest@ =~= value@);
    }
    (code, trim_chars(rest.as_slice()))
}

/// A count filter such as `>100`: blank compares nothing; otherwise the
/// operand must be a whole number that is not negative.
pub fn parse_count_filter(filter: &str) -> (result: Result<(i64, i64), Rejection>)
    ensures
        trim(filter@).len() == 0 ==> result == Ok::<(i64, i64), Rejection>((0, 0)),
        trim(filter@).len() > 0 ==> match crate::text::i64_text_value(
            comparison_parts(trim(filter@)).1,
        ) {
            Some(v) => if v >= 0 {
                result matches Ok((c, n)) && c == comparison_parts(trim(filter@)).0 && n == v
            } else {
                result is Err
            },
            None => result is Err,
        },
{
    let f = trim_str(filter);
    if f.len() == 0 {
        return Ok((0, 0));
    }
    let (code, operand) = comparison_prefix(f.as_slice());
    match crate::text::parse_i64(operand.as_slice()) {
        Some(v) => {
            if v < 0 {
                Err(Rejection::InvalidFilter(string_from("Count filters cannot be negative")))
            } else {
                Ok((code, v))
            }
        },
        None => {
            let mut m: Vec<char> = Vec::new();
            push_str(&mut m, "Invalid count filter '");
            push_chars(&mut m, f.as_slice());
            push_str(&mut m, "'. Try >100 or <=25.");
            Err(Rejection::InvalidFilter(string_of(m.as_slice())))
        },
    }
}

/// A `YYYY-MM-DD` date.
pub open spec fn is_date_text(v: Seq<char>) -> bool {
    crate::database::directory::date_text(v)
}

fn check_date(v: &[char]) -> (result: bool)
    ensures
        result == is_date_text(v@),
{
    if !(v.len() == 10 && v[4] == '-' && v[7] == '-') {
        return false;
    }
    let mut i: usize = 0;
    while i < 10
        invariant
            i <= 10,
            v@.len() == 10,
            forall|q: int| 0 <= q < i && q != 4 && q != 7 ==> is_ascii_digit(#[trigger] v@[q]),
        decreases 10 - i,
    {
        if i != 4 && i != 7 && !char_is_ascii_digit(v[i]) {
            assert(!is_ascii_digit(v@[i as int]));
            return false;
        }
        i = i + 1;
    }
    true
}

/// A modified-date filter such as `>2026-01-01`.
pub fn parse_modified_filter(filter: &str) -> (result: Result<(i64, String), Rejection>)
    ensures
        trim(filter@).len() == 0 ==> (result matches Ok((c, v)) && c == 0 && v@.len() == 0),
        trim(filter@).len() > 0 ==> if is_date_text(comparison_parts(trim(filter@)).1) {
            result matches Ok((c, v)) && c == comparison_parts(trim(filter@)).0 && v@
                == comparison_parts(trim(filter@)).1
        } else {
            result is Err
        },
{
    let f = trim_str(filter);
    if f.len() == 0 {
        return Ok((0, String::new()));
    }
    let (code, operand) = comparison_prefix(f.as_slice());
    if !check_date(operand.as_slice()) {
        let mut m: Vec<char> = Vec::new();
        push_str(&mut m, "Invalid modified-date filter '");
        push_chars(&mut m, f.as_slice());
        push_str(&mut m, "'. Try >2026-01-01.");
        return Err(Rejection::InvalidFilter(string_of(m.as_slice())));
    }
    Ok((code, string_of(operand.as_slice())))
}

/// Bytes per unit of a size filter; no unit means megabytes.
pub open spec fn unit_bytes(unit: Seq<char>) -> Option<nat> {
    if unit.len() == 0 || unit == seq!['M', 'B'] {
        Some(1_000_000)
    } else if unit == seq!['B'] {
        Some(1)
    } else if unit == seq!['K', 'B'] {
        Some(1_000)
    } else if unit == seq!['G', 'B'] {
        Some(1_000_000_000)
    } else if unit == seq!['T', 'B'] {
        Some(1_000_000_000_000)
    } else if unit == seq!['K', 'I', 'B'] {
        Some(1_024)
    } else if unit == seq!['M', 'I', 'B'] {
        Some(1_048_576)
    } else if unit == seq!['G', 'I', 'B'] {
        Some(1_073_741_824)
    } else if unit == seq!['T', 'I', 'B'] {
        Some(1_099_511_627_776)
    } else {
        None
    }
}

fn unit_multiplier(unit: &[char]) -> (result: Option<u128>)
    ensures
        match result {
            Some(m) => unit_bytes(unit@) == Some(m as nat),
            None => unit_bytes(unit@) is None,
        },
{
    let is = |s: &str| -> (r: bool)
        ensures
            r == (unit@ == s@),
        { crate::text::equals_str(unit, s) };
    proof {
        reveal_strlit("MB");
        reveal_strlit("B");
        reveal_strlit("KB");
        reveal_strlit("GB");
        reveal_strlit("TB");
        reveal_strlit("KIB");
        reveal_strlit("MIB");
        reveal_strlit("GIB");
        reveal_strlit("TIB");
        assert("MB"@ =~= seq!['M', 'B']);
        assert("B"@ =~= seq!['B']);
        assert("KB"@ =~= seq!['K', 'B']);
        assert("GB"@ =~= seq!['G', 'B']);
        assert("TB"@ =~= seq!['T', 'B']);
        assert("KIB"@ =~= seq!['K', 'I', 'B']);
        assert("MIB"@ =~= seq!['M', 'I', 'B']);
        assert("GIB"@ =~= seq!['G', 'I', 'B']);
        assert("TIB"@ =~= seq!['T', 'I', 'B']);
    }
    if unit.len() == 0 || is("MB") {
        Some(1_000_000)
    } else if is("B") {
        Some(1)
    } else if is("KB") {
        Some(1_000)
    } else if is("GB") {
        Some(1_000_000_000)
    } else if is("TB") {
        Some(1_000_000_000_000)
    } else if is("KIB") {
        Some(1_024)
    } else if is("MIB") {
        Some(1_048_576)
    } else if is("GIB") {
        Some(1_073_741_824)
    } else if is("TIB") {
        Some(1_099_511_627_776)
    } else {
        None
    }
}

/// How many `.` the text holds.
pub open spec fn dot_count(s: Seq<char>) -> nat
    decreases s.len(),
{
    if s.len() == 0 {
        0
    } else {
        dot_count(s.drop_last()) + if s.last() == '.' {
            1nat
        } else {
            0nat
        }
    }
}

/// How many digits the text holds.
pub open spec fn digit_count(s: Seq<char>) -> nat
    decreases s.len(),
{
    if s.len() == 0 {
        0
    } else {
        digit_count(s.drop_last()) + if is_ascii_digit(s.last()) {
            1nat
        } else {
            0nat
        }
    }
}

/// The digits before the first `.`.
pub open spec fn whole_digits(s: Seq<char>) -> Seq<char>
    decreases s.len(),
{
    if s.len() == 0 {
        Seq::empty()
    } else if dot_count(s.drop_last()) == 0 && is_ascii_digit(s.last()) {
        whole_digits(s.drop_last()).push(s.last())
    } else {
        whole_digits(s.drop_last())
    }
}

/// The first eighteen digits after the first `.`; later ones are ignored.
pub open spec fn fraction_digits(s: Seq<char>) -> Seq<char>
    decreases s.len(),
{
    if s.len() == 0 {
        Seq::empty()
    } else {
        let before = fraction_digits(s.drop_last());
        if dot_count(s.drop_last()) >= 1 && is_ascii_digit(s.last()) && before.len() < 18 {
            before.push(s.last())
        } else {
            before
        }
    }
}

pub open spec fn pow10(n: nat) -> nat
    decreases n,
{
    if n == 0 {
        1
    } else {
        10 * pow10((n - 1) as nat)
    }
}

/// The byte count of a decimal number of `unit`-sized units, rounded half up.
pub open spec fn size_in_bytes(number: Seq<char>, unit: nat) -> nat {
    let fraction = fraction_digits(number);
    let scale = pow10(fraction.len());
    let numerator = digits_value(fraction) * unit;
    digits_value(whole_digits(number)) * unit + numerator / scale + if (numerator % scale) * 2 >= scale {
        1nat
    } else {
        0nat
    }
}

/// How many leading characters are digits or `.`.
pub open spec fn number_length(s: Seq<char>) -> nat
    decreases s.len(),
{
    if s.len() > 0 && (is_ascii_digit(s[0]) || s[0] == '.') {
        1 + number_length(s.drop_first())
    } else {
        0
    }
}

/// What a size filter means: the comparison code and the byte count, or
/// the message refusing it.
pub open spec fn size_filter_meaning(filter: Seq<char>) -> Result<(int, int), Seq<char>> {
    let f = trim(filter);
    if f.len() == 0 {
        Ok((0, 0))
    } else {
        let (parsed, operand) = comparison_parts(f);
        let code = if f[0] == '>' || f[0] == '<' || f[0] == '=' { parsed } else { 2 };
        let split = number_length(operand) as int;
        let number = trim(operand.subrange(0, split));
        if dot_count(number) > 1 || digit_count(number) == 0 {
            Err("Invalid size filter '"@ + f + "'. Try >5GB or <=250MB."@)
        } else {
            match unit_bytes(upper_seq(trim(operand.subrange(split, operand.len() as int)))) {
                None => Err("Unknown size unit in '"@ + f + "'. Use B, KB, MB, GB, or TB."@),
                Some(m) => {
                    let bytes = size_in_bytes(number, m);
                    if bytes > 9_223_372_036_854_776_832 {
                        Err("Size filter '"@ + f + "' is out of range."@)
                    } else if bytes > i64::MAX {
                        Ok((code, i64::MAX as int))
                    } else {
                        Ok((code, bytes as int))
                    }
                },
            }
        }
    }
}

proof fn lemma_pow10_monotone(a: nat, b: nat)
    requires
        a <= b,
    ensures
        pow10(a) <= pow10(b),
    decreases b,
{
    if a < b {
        lemma_pow10_monotone(a, (b - 1) as nat);
    }
}

proof fn lemma_number_length(s: Seq<char>, k: int)
    requires
        0 <= k <= s.len(),
        forall|j: int| 0 <= j < k ==> is_ascii_digit(#[trigger] s[j]) || s[j] == '.',
        k == s.len() || !(is_ascii_digit(s[k]) || s[k] == '.'),
    ensures
        number_length(s) == k,
    decreases k,
{
    if k > 0 {
        assert(is_ascii_digit(s[0]) || s[0] == '.');
        lemma_number_length(s.drop_first(), k - 1);
    }
}

proof fn lemma_dot_count_prefix(s: Seq<char>, k: int)
    requires
        0 <= k <= s.len(),
    ensures
        dot_count(s.subrange(0, k)) <= dot_count(s),
    decreases s.len() - k,
{
    if k < s.len() {
        lemma_dot_count_prefix(s, k + 1);
        assert(s.subrange(0, k + 1).drop_last() =~= s.subrange(0, k));
    } else {
        assert(s.subrange(0, k) =~= s);
    }
}

proof fn lemma_whole_digits_prefix(s: Seq<char>, k: int)
    requires
        0 <= k <= s.len(),
    ensures
        digits_value(whole_digits(s.subrange(0, k))) <= digits_value(whole_digits(s)),
    decreases s.len() - k,
{
    if k < s.len() {
        lemma_whole_digits_prefix(s, k + 1);
        let p = s.subrange(0, k + 1);
        let prev = s.subrange(0, k);
        assert(p.drop_last() =~= prev);
        let w = whole_digits(prev);
        if dot_count(prev) == 0 && is_ascii_digit(p.last()) {
            assert(whole_digits(p) == w.push(p.last()));
            assert(w.push(p.last()).drop_last() =~= w);
            assert(digits_value(w.push(p.last())) == digits_value(w) * 10 + ((p.last() as u32) - 48) as nat);
        } else {
            assert(whole_digits(p) == w);
        }
    } else {
        assert(s.subrange(0, k) =~= s);
    }
}

/// Whether a modified-date filter is accepted.
pub open spec fn modified_filter_ok(filter: Seq<char>) -> bool {
    trim(filter).len() == 0 || is_date_text(comparison_parts(trim(filter)).1)
}

/// Whether a count filter is accepted.
pub open spec fn count_filter_ok(filter: Seq<char>) -> bool {
    trim(filter).len() == 0 || (crate::text::i64_text_value(comparison_parts(trim(filter)).1) matches Some(v)
        && v >= 0)
}

proof fn lemma_plain_digits(s: Seq<char>)
    requires
        crate::text::all_digits(s),
    ensures
        dot_count(s) == 0,
        digit_count(s) == s.len(),
        whole_digits(s) == s,
        fraction_digits(s) == Seq::<char>::empty(),
    decreases s.len(),
{
    if s.len() > 0 {
        let p = s.drop_last();
        assert(crate::text::all_digits(p)) by {
            assert forall|i: int| 0 <= i < p.len() implies is_ascii_digit(#[trigger] p[i]) by {
                assert(p[i] == s[i]);
            }
        }
        lemma_plain_digits(p);
        assert(is_ascii_digit(s.last()));
        assert(s.last() != '.');
        assert(p.push(s.last()) =~= s);
    }
}

/// A filter of a whole number and a unit means that number of units: a
/// number with `KB` is that many thousands of bytes, with `MB` millions,
/// with `GB` billions and with `TB` trillions, each unit 1000 times the one
/// before (compared as "at least", as a bare size is).
pub proof fn law_size_units_scale_the_number(digits: Seq<char>)
    requires
        digits.len() > 0,
        crate::text::all_digits(digits),
        digits_value(digits) * 1_000_000_000_000 <= i64::MAX,
    ensures
        size_filter_meaning(digits + seq!['K', 'B']) == Ok::<(int, int), Seq<char>>((2, (digits_value(digits) * 1_000) as int)),
        size_filter_meaning(digits + seq!['M', 'B']) == Ok::<(int, int), Seq<char>>(
            (2, (digits_value(digits) * 1_000_000) as int),
        ),
        size_filter_meaning(digits + seq!['G', 'B']) == Ok::<(int, int), Seq<char>>(
            (2, (digits_value(digits) * 1_000_000_000) as int),
        ),
        size_filter_meaning(digits + seq!['T', 'B']) == Ok::<(int, int), Seq<char>>(
            (2, (digits_value(digits) * 1_000_000_000_000) as int),
        ),
{
    lemma_unit_filter(digits, 'K', 1_000);
    lemma_unit_filter(digits, 'M', 1_000_000);
    lemma_unit_filter(digits, 'G', 1_000_000_000);
    lemma_unit_filter(digits, 'T', 1_000_000_000_000);
}

#[verifier::spinoff_prover]
proof fn lemma_unit_filter(digits: Seq<char>, letter: char, m: nat)
    requires
        digits.len() > 0,
        crate::text::all_digits(digits),
        digits_value(digits) * 1_000_000_000_000 <= i64::MAX,
        (letter == 'K' && m == 1_000) || (letter == 'M' && m == 1_000_000) || (letter == 'G' && m
            == 1_000_000_000) || (letter == 'T' && m == 1_000_000_000_000),
    ensures
        size_filter_meaning(digits + seq![letter, 'B']) == Ok::<(int, int), Seq<char>>((2, (digits_value(digits) * m) as int)),
{
    let u = seq![letter, 'B'];
    let f = digits + u;
    let k = digits.len() as int;
    assert(is_ascii_digit(f[0])) by {
        assert(f[0] == digits[0]);
    }
    assert(trim(f) == f) by {
        assert(!crate::text::is_whitespace(f[0]));
        assert(crate::text::trim_start(f) == f);
        assert(f.last() == 'B');
        assert(!crate::text::is_whitespace(f.last()));
    }
    assert(!starts_with(f, seq!['>', '='])) by {
        if starts_with(f, seq!['>', '=']) {
            assert(f.subrange(0, 2)[0] == f[0]);
        }
    }
    assert(!starts_with(f, seq!['<', '='])) by {
        if starts_with(f, seq!['<', '=']) {
            assert(f.subrange(0, 2)[0] == f[0]);
        }
    }
    assert(comparison_parts(f) == (5int, f));
    assert forall|j: int| 0 <= j < k implies is_ascii_digit(#[trigger] f[j]) || f[j] == '.' by {
        assert(f[j] == digits[j]);
    }
    assert(f[k] == letter);
    lemma_number_length(f, k);
    assert(f.subrange(0, k) =~= digits);
    crate::text::lemma_trim_digits(digits);
    lemma_plain_digits(digits);
    let rest = f.subrange(k, f.len() as int);
    assert(rest =~= u);
    assert(trim(u) == u) by {
        assert(!crate::text::is_whitespace(u[0]));
        assert(crate::text::trim_start(u) == u);
        assert(!crate::text::is_whitespace(u.last()));
    }
    assert(upper_seq(u) =~= u) by {
        assert(!crate::text::is_ascii_lower(letter));
        assert(!crate::text::is_ascii_lower('B'));
    }
    assert(unit_bytes(u) == Some(m));
    assert(size_in_bytes(digits, m) == digits_value(digits) * m) by {
        let none = Seq::<char>::empty();
        assert(fraction_digits(digits) == none);
        assert(whole_digits(digits) == digits);
        assert(pow10(0) == 1);
        assert(digits_value(none) == 0);
        let z = digits_value(none);
        assert(z * m == 0) by (nonlinear_arith)
            requires
                z == 0,
        ;
    }
    assert(digits_value(digits) * m <= i64::MAX) by (nonlinear_arith)
        requires
            digits_value(digits) * 1_000_000_000_000 <= i64::MAX,
            m <= 1_000_000_000_000,
    ;
}

/// Whether a size filter is accepted.
pub open spec fn size_filter_ok(filter: Seq<char>) -> bool {
    size_filter_meaning(filter) is Ok
}

/// A refused filter.
pub open spec fn filter_refused(result: Result<Vec<DriveExplorerItem>, DatabaseError>) -> bool {
    result matches Err(DatabaseError::Rejected(_))
}

/// A size filter such as `>5GB`: an operator as for counts (a bare size
/// means "at least"), a decimal number and an optional unit. The number is
/// read exactly, up to eighteen decimals, and the byte count rounded half
/// up. Counts from 2^63 up to 2^63 + 1024 (those a 64-bit float rounds to
/// 2^63) are read as `i64::MAX`, as converting such a float to `i64`
/// saturates; larger counts are refused.
pub fn parse_size_filter(filter: &str) -> (result: Result<(i64, i64), Rejection>)
    ensures
        match size_filter_meaning(filter@) {
            Ok((code, bytes)) => result == Ok::<(i64, i64), Rejection>((code as i64, bytes as i64)),
            Err(message) => result matches Err(Rejection::InvalidFilter(m)) && m@ == message,
        },
{
    let f = trim_str(filter);
    if f.len() == 0 {
        return Ok((0, 0));
    }
    let (mut code, operand) = comparison_prefix(f.as_slice());
    if !(f[0] == '>' || f[0] == '<' || f[0] == '=') {
        code = 2;
    }
    let mut split: usize = 0;
    while split < operand.len() && (char_is_ascii_digit(operand[split]) || operand[split] == '.')
        invariant
            split <= operand@.len(),
            forall|j: int| 0 <= j < split ==> is_ascii_digit(#[trigger] operand@[j]) || operand@[j] == '.',
        decreases operand@.len() - split,
    {
        split = split + 1;
    }
    proof {
        lemma_number_length(operand@, split as int);
    }
    let number = trim_chars(slice_range(operand.as_slice(), 0, split).as_slice());
    let mut invalid: Vec<char> = Vec::new();
    push_str(&mut invalid, "Invalid size filter '");
    push_chars(&mut invalid, f.as_slice());
    push_str(&mut invalid, "'. Try >5GB or <=250MB.");
    let mut whole: u128 = 0;
    let mut fraction: u128 = 0;
    let mut scale: u128 = 1;
    let mut kept: usize = 0;
    let mut digits: bool = false;
    let mut dots: usize = 0;
    let mut too_large = false;
    let mut i: usize = 0;
    while i < number.len()
        invariant
            i <= number@.len(),
            dots == dot_count(number@.subrange(0, i as int)),
            dots <= 1,
            digits == (digit_count(number@.subrange(0, i as int)) > 0),
            !too_large ==> whole == digits_value(whole_digits(number@.subrange(0, i as int))),
            too_large ==> digits_value(whole_digits(number@.subrange(0, i as int))) > 100_000_000_000_000_000_000,
            whole <= 100_000_000_000_000_000_009,
            kept == fraction_digits(number@.subrange(0, i as int)).len(),
            kept <= 18,
            fraction == digits_value(fraction_digits(number@.subrange(0, i as int))),
            scale == pow10(kept as nat),
            fraction < scale,
            scale <= 1_000_000_000_000_000_000,
            invalid@ == "Invalid size filter '"@ + f@ + "'. Try >5GB or <=250MB."@,
            f@ == trim(filter@),
            f@.len() > 0,
            operand@ == comparison_parts(f@).1,
            split == number_length(operand@),
            number@ == trim(operand@.subrange(0, split as int)),
        decreases number@.len() - i,
    {
        let c = number[i];
        let ghost p = number@.subrange(0, i as int);
        let ghost q = number@.subrange(0, i + 1);
        assert(q.drop_last() =~= p);
        assert(q.last() == c);
        if c == '.' {
            if dots >= 1 {
                proof {
                    lemma_dot_count_prefix(number@, i + 1);
                }
                return Err(Rejection::InvalidFilter(string_of(invalid.as_slice())));
            }
            dots = 1;
        } else if char_is_ascii_digit(c) {
            let d = (c as u32 - 48) as u128;
            digits = true;
            if dots == 0 {
                proof {
                    let w = whole_digits(p);
                    assert(whole_digits(q) == w.push(c));
                    assert(w.push(c).drop_last() =~= w);
                    assert(digits_value(w.push(c)) == digits_value(w) * 10 + ((c as u32) - 48) as nat);
                }
                if whole > 10_000_000_000_000_000_000 || too_large {
                    too_large = true;
                } else {
                    whole = whole * 10 + d;
                }
            } else if kept < 18 {
                proof {
                    lemma_pow10_monotone(kept as nat, 17);
                    reveal_with_fuel(pow10, 18);
                    assert(pow10(17) == 100_000_000_000_000_000);
                }
                assert(fraction * 10 + d < scale * 10) by (nonlinear_arith)
                    requires
                        fraction < scale,
                        d <= 9,
                ;
                proof {
                    let fd = fraction_digits(p);
                    assert(fraction_digits(q) == fd.push(c));
                    assert(fd.push(c).drop_last() =~= fd);
                    assert(digits_value(fd.push(c)) == digits_value(fd) * 10 + ((c as u32) - 48) as nat);
                }
                fraction = fraction * 10 + d;
                scale = scale * 10;
                kept = kept + 1;
            }
        }
        i = i + 1;
    }
    assert(number@.subrange(0, number@.len() as int) =~= number@);
    if !digits {
        return Err(Rejection::InvalidFilter(string_of(invalid.as_slice())));
    }
    let unit_text = trim_chars(slice_range(operand.as_slice(), split, operand.len()).as_slice());
    let unit = crate::text::to_ascii_upper(unit_text.as_slice());
    let multiplier = match unit_multiplier(unit.as_slice()) {
        Some(m) => m,
        None => {
            let mut m: Vec<char> = Vec::new();
            push_str(&mut m, "Unknown size unit in '");
            push_chars(&mut m, f.as_slice());
            push_str(&mut m, "'. Use B, KB, MB, GB, or TB.");
            return Err(Rejection::InvalidFilter(string_of(m.as_slice())));
        },
    };
    let mut out_of_range: Vec<char> = Vec::new();
    push_str(&mut out_of_range, "Size filter '");
    push_chars(&mut out_of_range, f.as_slice());
    push_str(&mut out_of_range, "' is out of range.");
    let ghost exact = size_in_bytes(number@, multiplier as nat);
    let ghost numerator = digits_value(fraction_digits(number@)) * multiplier;
    assert(multiplier >= 1 && multiplier <= 1_099_511_627_776);
    assert(exact >= digits_value(whole_digits(number@)) * multiplier);
    if too_large || whole > 9_223_372_036_854_776_832 {
        proof {
            assert(digits_value(whole_digits(number@)) * multiplier >= digits_value(whole_digits(number@)))
                by (nonlinear_arith)
                requires
                    multiplier >= 1,
            ;
        }
        return Err(Rejection::InvalidFilter(string_of(out_of_range.as_slice())));
    }
    assert(whole * multiplier <= 9_223_372_036_854_776_832 * 1_099_511_627_776) by (nonlinear_arith)
        requires
            whole <= 9_223_372_036_854_776_832,
            multiplier <= 1_099_511_627_776,
    ;
    let whole_bytes = whole * multiplier;
    if whole_bytes > 9_223_372_036_854_776_832 {
        return Err(Rejection::InvalidFilter(string_of(out_of_range.as_slice())));
    }
    assert(fraction * multiplier <= 1_000_000_000_000_000_000 * 1_099_511_627_776) by (nonlinear_arith)
        requires
            fraction < 1_000_000_000_000_000_000,
            multiplier <= 1_099_511_627_776,
    ;
    let product = fraction * multiplier;
    let part = product / scale;
    let remainder = product % scale;
    let rounded = if remainder * 2 >= scale { part + 1 } else { part };
    assert(part <= product);
    let bytes = whole_bytes + rounded;
    if bytes > 9_223_372_036_854_776_832 {
        return Err(Rejection::InvalidFilter(string_of(out_of_range.as_slice())));
    }
    if bytes > 9_223_372_036_854_775_807 {
        return Ok((code, 9_223_372_036_854_775_807));
    }
    Ok((code, bytes as i64))
}


// ---------------------------------------------------------------------------
// Rows
// ---------------------------------------------------------------------------

#[derive(Debug, Clone)]
pub struct SharedDriveRow {
    pub drive_id: String,
    pub name: String,
    pub inventory_scope: String,
    pub is_accessible: bool,
    pub last_error: String,
    pub files_scanned: u64,
    pub folders_scanned: u64,
    pub permissions_scanned: u64,
    pub bytes_discovered: u64,
    pub modified_at: String,
    pub tags: Vec<Tag>,
    pub permission_identities: Vec<SharedDrivePermissionIdentity>,
}

#[derive(Debug, Clone)]
pub struct SharedDrivePermissionIdentity {
    pub label: String,
    pub roles: Vec<String>,
    pub known: bool,
    pub tags: Vec<Tag>,
}

#[derive(Debug, Clone)]
pub struct DiscoveredDriveFolder {
    pub item_id: String,
    pub name: String,
    pub modified_at: String,
}

#[derive(Debug, Clone, Default)]
pub struct InventorySummary {
    pub completed_at: String,
    pub files_scanned: u64,
    pub folders_scanned: u64,
    pub permissions_scanned: u64,
    pub bytes_discovered: u64,
    pub deleted_items: u64,
}

#[derive(Debug, Clone, Copy)]
pub struct ScanTimingEstimate {
    pub elapsed_seconds: u64,
    pub average_seconds: u64,
    pub sample_count: u64,
}

#[derive(Debug, Clone)]
pub struct DriveExplorerItem {
    pub item_id: String,
    pub name: String,
    pub relative_path: String,
    pub is_directory: bool,
    pub mime_type: Option<String>,
    pub size_bytes: Option<u64>,
    pub modified_at: Option<String>,
    pub owner_email: Option<String>,
    pub owner_known: bool,
    pub owner_tags: Vec<Tag>,
    pub tags: Vec<Tag>,
    pub permissions: Vec<PermissionIdentity>,
    pub is_deleted: bool,
}

#[derive(Debug, Clone)]
pub struct DriveDownloadItem {
    pub name: String,
    pub relative_path: String,
    pub is_directory: bool,
    pub is_deleted: bool,
}

#[derive(Debug, Clone)]
pub struct PermissionIdentity {
    pub label: String,
    pub known: bool,
    pub tags: Vec<Tag>,
}

/// A cell read as a count: its integer as `u64` (zero when absent).
pub open spec fn count_of(cell: SqlValue) -> u64 {
    match cell_integer(cell) {
        Some(v) => v as u64,
        None => 0,
    }
}

fn count_at(row: &Vec<SqlValue>, i: usize) -> (result: u64)
    requires
        i < row.len(),
    ensures
        result == count_of(row[i as int]),
{
    integer_or_zero(row, i) as u64
}

fn flag_at(row: &Vec<SqlValue>, i: usize) -> (result: bool)
    requires
        i < row.len(),
    ensures
        result == flag_of(row[i as int]),
{
    integer_or_zero(row, i) != 0
}

fn bare_tag(slug: String, name: String, color: String, description: String) -> (result: Tag)
    ensures
        tag_text(result) == (slug@, name@, color@, description@),
        unscoped(result),
{
    Tag {
        slug,
        name,
        description,
        color,
        directory: false,
        my_drive: false,
        shared_drives: false,
        shared_with_me: false,
    }
}

/// Slug, name, color and description of a tag.
pub open spec fn tag_text(t: Tag) -> (Seq<char>, Seq<char>, Seq<char>, Seq<char>) {
    (t.slug@, t.name@, t.color@, t.description@)
}

/// The tag a packed record holds: fields separated by U+001E, slug, name,
/// color and description with `with_slug`, else name, color and description;
/// nothing when there are too few fields.
pub open spec fn record_tag(record: Seq<char>, with_slug: bool) -> Option<
    (Seq<char>, Seq<char>, Seq<char>, Seq<char>),
> {
    let f = split_char(record, '\u{1e}');
    if with_slug {
        if f.len() >= 4 {
            Some((f[0], f[1], f[2], f[3]))
        } else {
            None
        }
    } else {
        if f.len() >= 3 {
            Some((Seq::empty(), f[0], f[1], f[2]))
        } else {
            None
        }
    }
}

/// The tags of the records, in order, skipping records with too few fields.
pub open spec fn packed_tags(records: Seq<Seq<char>>, with_slug: bool) -> Seq<
    (Seq<char>, Seq<char>, Seq<char>, Seq<char>),
>
    decreases records.len(),
{
    if records.len() == 0 {
        seq![]
    } else {
        let before = packed_tags(records.drop_last(), with_slug);
        match record_tag(records.last(), with_slug) {
            Some(t) => before.push(t),
            None => before,
        }
    }
}

/// A tag with no scope flags set.
pub open spec fn unscoped(t: Tag) -> bool {
    !t.directory && !t.my_drive && !t.shared_drives && !t.shared_with_me
}

/// The tags an item query returns, one per row of slug, name, description
/// and color.
pub(crate) fn tags_of(connection: &rusqlite::Connection, sql: &str, key: SqlParam) -> (result: Result<
    Vec<Tag>,
    DatabaseError,
>)
    ensures
        result matches Err(e) ==> e is Storage,
        result matches Ok(tags) ==> forall|i: int| 0 <= i < tags@.len() ==> unscoped(#[trigger] tags@[i]),
{
    let params = vec![key];
    let (columns, rows) = query_rows(connection, sql, params.as_slice())?;
    let mut tags: Vec<Tag> = Vec::new();
    if columns < 4 {
        return Ok(tags);
    }
    let mut i: usize = 0;
    while i < rows.len()
        invariant
            i <= rows@.len(),
            columns >= 4,
            forall|k: int| 0 <= k < rows.len() ==> #[trigger] rows[k].len() == columns,
            forall|k: int| 0 <= k < tags@.len() ==> unscoped(#[trigger] tags@[k]),
        decreases rows.len() - i,
    {
        let row = &rows[i];
        tags.push(
            bare_tag(text_or_empty(row, 0), text_or_empty(row, 1), text_or_empty(row, 3), text_or_empty(row, 2)),
        );
        i = i + 1;
    }
    Ok(tags)
}

/// The tags packed by the queries: records separated by U+001F, fields by
/// U+001E. With `with_slug` a record holds slug, name, color, description;
/// without, name, color, description. Records with too few fields are
/// skipped.
pub fn tags_from_packed(packed: &str, with_slug: bool) -> (result: Vec<Tag>)
    ensures
        result@.map_values(|t: Tag| tag_text(t)) == packed_tags(split_char(packed@, '\u{1f}'), with_slug),
        forall|i: int| 0 <= i < result@.len() ==> unscoped(#[trigger] result@[i]),
{
    let chars = chars_of(packed);
    let records = split_chars(chars.as_slice(), '\u{1f}');
    let ghost all = split_char(packed@, '\u{1f}');
    let mut tags: Vec<Tag> = Vec::new();
    let mut i: usize = 0;
    while i < records.len()
        invariant
            i <= records@.len(),
            records@.len() == all.len(),
            all == split_char(packed@, '\u{1f}'),
            forall|k: int| 0 <= k < records@.len() ==> #[trigger] records@[k]@ == all[k],
            tags@.map_values(|t: Tag| tag_text(t)) == packed_tags(all.subrange(0, i as int), with_slug),
            forall|k: int| 0 <= k < tags@.len() ==> unscoped(#[trigger] tags@[k]),
        decreases records@.len() - i,
    {
        assert(all.subrange(0, i + 1).drop_last() =~= all.subrange(0, i as int));
        assert(all.subrange(0, i + 1).last() == records@[i as int]@);
        let fields = split_chars(records[i].as_slice(), '\u{1e}');
        let needed: usize = if with_slug { 4 } else { 3 };
        let ghost before = tags@;
        if fields.len() >= needed {
            let tag = if with_slug {
                bare_tag(
                    string_of(fields[0].as_slice()),
                    string_of(fields[1].as_slice()),
                    string_of(fields[2].as_slice()),
                    string_of(fields[3].as_slice()),
                )
            } else {
                bare_tag(
                    String::new(),
                    string_of(fields[0].as_slice()),
                    string_of(fields[1].as_slice()),
                    string_of(fields[2].as_slice()),
                )
            };
            tags.push(tag);
            assert(tags@.map_values(|t: Tag| tag_text(t)) =~= before.map_values(|t: Tag| tag_text(t)).push(
                tag_text(tag),
            ));
        }
        i = i + 1;
    }
    assert(all.subrange(0, records@.len() as int) =~= all);
    tags
}

/// The permission labels packed by the explorer query, one per record.
#[verifier::spinoff_prover]
pub fn labels_from_packed(packed: &str) -> (result: Vec<PermissionIdentity>)
    ensures
        result@.len() == split_char(packed@, '\u{1f}').len(),
        forall|i: int|
            0 <= i < result@.len() ==> #[trigger] result@[i].label@ == split_char(
                packed@,
                '\u{1f}',
            )[i] && !result@[i].known && result@[i].tags@.len() == 0,
{
    let chars = chars_of(packed);
    let records = split_chars(chars.as_slice(), '\u{1f}');
    let mut out: Vec<PermissionIdentity> = Vec::new();
    let mut i: usize = 0;
    while i < records.len()
        invariant
            i <= records@.len(),
            records@.len() == split_char(packed@, '\u{1f}').len(),
            forall|k: int| 0 <= k < records@.len() ==> #[trigger] records@[k]@ == split_char(packed@, '\u{1f}')[k],
            out@.len() == i,
            forall|k: int|
                0 <= k < i ==> #[trigger] out@[k].label@ == split_char(packed@, '\u{1f}')[k]
                    && !out@[k].known && out@[k].tags@.len() == 0,
        decreases records@.len() - i,
    {
        let identity = PermissionIdentity { label: string_of(records[i].as_slice()), known: false, tags: Vec::new() };
        assert(identity.label@ == split_char(packed@, '\u{1f}')[i as int]);
        let ghost before = out@;
        out.push(identity);
        assert forall|k: int| 0 <= k < i + 1 implies #[trigger] out@[k].label@ == split_char(packed@, '\u{1f}')[k]
            && !out@[k].known && out@[k].tags@.len() == 0 by {
            if k < i {
                assert(out@[k] == before[k]);
            }
        }
        i = i + 1;
    }
    out
}

/// The first group with this label.
pub open spec fn group_position(groups: Seq<(Seq<char>, Seq<Seq<char>>)>, label: Seq<char>) -> Option<int>
    decreases groups.len(),
{
    if groups.len() == 0 {
        None
    } else {
        match group_position(groups.drop_last(), label) {
            Some(i) => Some(i),
            None => if groups.last().0 == label {
                Some(groups.len() - 1)
            } else {
                None
            },
        }
    }
}

proof fn lemma_group_position_bound(groups: Seq<(Seq<char>, Seq<Seq<char>>)>, label: Seq<char>)
    ensures
        group_position(groups, label) matches Some(i) ==> 0 <= i < groups.len() && groups[i].0 == label,
    decreases groups.len(),
{
    if groups.len() > 0 {
        lemma_group_position_bound(groups.drop_last(), label);
    }
}

/// The label and role records (label, U+001E, role) grouped by label in
/// order of first appearance, each role listed once per label, in order of
/// first appearance; records without the separator are skipped.
pub open spec fn identity_groups(records: Seq<Seq<char>>) -> Seq<(Seq<char>, Seq<Seq<char>>)>
    decreases records.len(),
{
    if records.len() == 0 {
        seq![]
    } else {
        let before = identity_groups(records.drop_last());
        match split_once(records.last(), seq!['\u{1e}']) {
            None => before,
            Some((label, role)) => match group_position(before, label) {
                Some(g) => if before[g].1.contains(role) {
                    before
                } else {
                    before.update(g, (label, before[g].1.push(role)))
                },
                None => before.push((label, seq![role])),
            },
        }
    }
}

/// The identities the Shared Drive query packs, as `identity_groups` groups
/// them, none yet known to the directory nor tagged.
#[verifier::spinoff_prover]
#[verifier::rlimit(40)]
pub fn identities_from_packed(packed: &str) -> (result: Vec<SharedDrivePermissionIdentity>)
    ensures
        result@.len() == identity_groups(split_char(packed@, '\u{1f}')).len(),
        forall|k: int|
            0 <= k < result@.len() ==> {
                let g = identity_groups(split_char(packed@, '\u{1f}'))[k];
                &&& (#[trigger] result@[k]).label@ == g.0
                &&& result@[k].roles@.map_values(|r: String| r@) == g.1
                &&& !result@[k].known
                &&& result@[k].tags@.len() == 0
            },
{
    let chars = chars_of(packed);
    let records = split_chars(chars.as_slice(), '\u{1f}');
    let ghost all = split_char(packed@, '\u{1f}');
    let mut labels: Vec<Vec<char>> = Vec::new();
    let mut roles_by: Vec<Vec<String>> = Vec::new();
    let mut i: usize = 0;
    proof {
        reveal_strlit("\u{1e}");
        assert("\u{1e}"@ =~= seq!['\u{1e}']);
    }
    while i < records.len()
        invariant
            i <= records@.len(),
            records@.len() == all.len(),
            all == split_char(packed@, '\u{1f}'),
            forall|q: int| 0 <= q < records@.len() ==> #[trigger] records@[q]@ == all[q],
            "\u{1e}"@ == seq!['\u{1e}'],
            labels@.len() == roles_by@.len(),
            labels@.len() == identity_groups(all.subrange(0, i as int)).len(),
            forall|a: int|
                0 <= a < labels@.len() ==> #[trigger] labels@[a]@ == identity_groups(all.subrange(0, i as int))[a].0
                    && roles_by@[a]@.map_values(|r: String| r@) == identity_groups(all.subrange(0, i as int))[a].1,
        decreases records@.len() - i,
    {
        let ghost groups = identity_groups(all.subrange(0, i as int));
        assert(all.subrange(0, i + 1).drop_last() =~= all.subrange(0, i as int));
        assert(all.subrange(0, i + 1).last() == records@[i as int]@);
        let record = &records[i];
        match crate::text::split_once_str(record.as_slice(), "\u{1e}") {
            None => {
                assert(identity_groups(all.subrange(0, i + 1)) == groups);
            },
            Some((label, role_chars)) => {
                let role = string_of(role_chars.as_slice());
                let mut k: usize = 0;
                let mut found: Option<usize> = None;
                while k < labels.len()
                    invariant
                        k <= labels@.len(),
                        labels@.len() == groups.len(),
                        forall|a: int| 0 <= a < labels@.len() ==> #[trigger] labels@[a]@ == groups[a].0,
                        match found {
                            Some(f) => group_position(groups.subrange(0, k as int), label@) == Some(f as int),
                            None => group_position(groups.subrange(0, k as int), label@) is None,
                        },
                    decreases labels@.len() - k,
                {
                    assert(groups.subrange(0, k + 1).drop_last() =~= groups.subrange(0, k as int));
                    assert(groups.subrange(0, k + 1).last() == groups[k as int]);
                    assert(labels@[k as int]@ == groups[k as int].0);
                    if found.is_none() && crate::text::chars_equal(labels[k].as_slice(), label.as_slice()) {
                        found = Some(k);
                    }
                    k = k + 1;
                }
                assert(groups.subrange(0, groups.len() as int) =~= groups);
                proof {
                    lemma_group_position_bound(groups, label@);
                }
                match found {
                    Some(f) => {
                        assert(labels@[f as int]@ == groups[f as int].0);
                        let ghost old_roles_by = roles_by@;
                        let mut roles = roles_by.remove(f);
                        assert(roles == old_roles_by[f as int]);
                        let ghost names = roles@.map_values(|r: String| r@);
                        assert(names == groups[f as int].1);
                        let mut r: usize = 0;
                        let mut present = false;
                        while r < roles.len()
                            invariant
                                r <= roles@.len(),
                                names == roles@.map_values(|r: String| r@),
                                present == (exists|q: int| 0 <= q < r && #[trigger] names[q] == role@),
                            decreases roles@.len() - r,
                        {
                            let existing = chars_of(roles[r].as_str());
                            if crate::text::equals_str(existing.as_slice(), role.as_str()) {
                                assert(names[r as int] == role@);
                                present = true;
                            }
                            r = r + 1;
                        }
                        assert(present == names.contains(role@));
                        if !present {
                            roles.push(role);
                            assert(roles@.map_values(|r: String| r@) =~= names.push(role_chars@));
                        }
                        roles_by.insert(f, roles);
                        let ghost expected = identity_groups(all.subrange(0, i + 1));
                        assert(expected == if groups[f as int].1.contains(role_chars@) {
                            groups
                        } else {
                            groups.update(f as int, (label@, groups[f as int].1.push(role_chars@)))
                        });
                        assert forall|a: int| 0 <= a < labels@.len() implies #[trigger] labels@[a]@ == expected[a].0
                            && roles_by@[a]@.map_values(|r: String| r@) == expected[a].1 by {
                            assert(labels@[a]@ == groups[a].0);
                            if a != f {
                                assert(roles_by@[a] == old_roles_by[a]);
                            }
                        }
                    },
                    None => {
                        let mut roles: Vec<String> = Vec::new();
                        roles.push(role);
                        assert(roles@.map_values(|r: String| r@) =~= seq![role_chars@]);
                        let ghost old_labels = labels@;
                        let ghost old_roles_by = roles_by@;
                        labels.push(label);
                        roles_by.push(roles);
                        let ghost expected = identity_groups(all.subrange(0, i + 1));
                        assert(expected == groups.push((label@, seq![role_chars@])));
                        assert forall|a: int| 0 <= a < labels@.len() implies #[trigger] labels@[a]@ == expected[a].0
                            && roles_by@[a]@.map_values(|r: String| r@) == expected[a].1 by {
                            if a < groups.len() {
                                assert(labels@[a] == old_labels[a]);
                                assert(old_labels[a]@ == groups[a].0);
                                assert(roles_by@[a] == old_roles_by[a]);
                            }
                        }
                    },
                }
                assert forall|a: int| 0 <= a < labels@.len() implies #[trigger] labels@[a]@ == identity_groups(
                    all.subrange(0, i + 1),
                )[a].0 && roles_by@[a]@.map_values(|r: String| r@) == identity_groups(all.subrange(0, i + 1))[a].1 by {
                    if a < groups.len() {
                        assert(labels@[a]@ == groups[a].0);
                    }
                }
            },
        }
        i = i + 1;
    }
    assert(all.subrange(0, all.len() as int) =~= all);
    let ghost groups = identity_groups(all);
    let n = labels.len();
    let ghost all_labels = labels@;
    let ghost all_roles = roles_by@;
    let mut out: Vec<SharedDrivePermissionIdentity> = Vec::new();
    let mut k: usize = 0;
    while labels.len() > 0
        invariant
            k + labels@.len() == n,
            n == groups.len(),
            all_labels.len() == n,
            all_roles.len() == n,
            labels@ == all_labels.subrange(k as int, n as int),
            roles_by@ == all_roles.subrange(k as int, n as int),
            forall|a: int|
                0 <= a < n ==> #[trigger] all_labels[a]@ == groups[a].0 && all_roles[a]@.map_values(
                    |r: String| r@,
                ) == groups[a].1,
            out@.len() == k,
            forall|a: int|
                0 <= a < k ==> (#[trigger] out@[a]).label@ == groups[a].0 && out@[a].roles@.map_values(
                    |r: String| r@,
                ) == groups[a].1 && !out@[a].known && out@[a].tags@.len() == 0,
        decreases labels@.len(),
    {
        let label = labels.remove(0);
        let roles = roles_by.remove(0);
        assert(label == all_labels[k as int]);
        assert(roles == all_roles[k as int]);
        assert(labels@ =~= all_labels.subrange(k + 1, n as int));
        assert(roles_by@ =~= all_roles.subrange(k + 1, n as int));
        out.push(SharedDrivePermissionIdentity { label: string_of(label.as_slice()), roles, known: false, tags: Vec::new() });
        k = k + 1;
    }
    out
}


// ---------------------------------------------------------------------------
// Known identities
// ---------------------------------------------------------------------------

/// The directory's addresses (lower-cased) and the tags on each.
pub struct IdentityDirectory {
    pub known: StringHashMap<bool>,
    pub tags: StringHashMap<Vec<Tag>>,
}

pub const IDENTITY_EMAILS_SQL: &'static str = "SELECT lower(email) FROM principal_emails
         UNION SELECT lower(primary_email) FROM principals WHERE primary_email IS NOT NULL";

pub const IDENTITY_TAGS_SQL: &'static str = "SELECT lower(pe.email), t.slug, t.name, t.color, t.description
         FROM principal_emails pe
         JOIN principal_tags pt ON pt.principal_id = pe.principal_id
         JOIN tags t ON t.id = pt.tag_id
         ORDER BY t.name COLLATE NOCASE";

/// The two reads of the identity directory: its addresses, then the tags
/// on them.
pub open spec fn identity_reads() -> Seq<SentStatement> {
    seq![(IDENTITY_EMAILS_SQL@, Seq::<SqlParam>::empty()), (IDENTITY_TAGS_SQL@, Seq::<SqlParam>::empty())]
}

fn identity_directory(database: &mut Database, connection: &rusqlite::Connection) -> (result: Result<
    IdentityDirectory,
    DatabaseError,
>)
    ensures
        result matches Err(e) ==> e is Storage,
        result is Ok ==> final(database).sent() == old(database).sent() + identity_reads(),
{
    let none: Vec<SqlParam> = Vec::new();
    assert(none@ =~= Seq::<SqlParam>::empty());
    let (columns, rows) = send_query(database, connection, IDENTITY_EMAILS_SQL, none.as_slice())?;
    let mut known: StringHashMap<bool> = StringHashMap::new();
    if columns >= 1 {
        let mut i: usize = 0;
        while i < rows.len()
            invariant
                i <= rows@.len(),
                columns >= 1,
                forall|k: int| 0 <= k < rows@.len() ==> #[trigger] rows@[k].len() == columns,
            decreases rows@.len() - i,
        {
            if let Some(email) = text_at(&rows[i], 0) {
                known.insert(email, true);
            }
            i = i + 1;
        }
    }
    let (columns, rows) = send_query(database, connection, IDENTITY_TAGS_SQL, none.as_slice())?;
    let mut tags: StringHashMap<Vec<Tag>> = StringHashMap::new();
    if columns >= 5 {
        let mut i: usize = 0;
        while i < rows.len()
            invariant
                i <= rows@.len(),
                columns >= 5,
                forall|k: int| 0 <= k < rows@.len() ==> #[trigger] rows@[k].len() == columns,
            decreases rows@.len() - i,
        {
            let row = &rows[i];
            let email = text_or_empty(row, 0);
            let tag = bare_tag(text_or_empty(row, 1), text_or_empty(row, 2), text_or_empty(row, 3), text_or_empty(row, 4));
            let mut list: Vec<Tag> = match tags.get(email.as_str()) {
                Some(existing) => existing.clone(),
                None => Vec::new(),
            };
            list.push(tag);
            tags.insert(email, list);
            i = i + 1;
        }
    }
    Ok(IdentityDirectory { known, tags })
}

/// Whether the directory knows an address or label, without regard to
/// ASCII case.
pub open spec fn identity_known(directory: IdentityDirectory, label: Seq<char>) -> bool {
    directory.known@.contains_key(lower_seq(label))
}

/// The tags the directory holds on an address or label (none when it holds
/// none), without regard to ASCII case.
pub open spec fn identity_tags(directory: IdentityDirectory, label: Seq<char>) -> Seq<Tag> {
    if directory.tags@.contains_key(lower_seq(label)) {
        directory.tags@[lower_seq(label)]@
    } else {
        Seq::empty()
    }
}

fn copy_tag(tag: &Tag) -> (copy: Tag)
    ensures
        copy == *tag,
{
    Tag {
        slug: tag.slug.clone(),
        name: tag.name.clone(),
        description: tag.description.clone(),
        color: tag.color.clone(),
        directory: tag.directory,
        my_drive: tag.my_drive,
        shared_drives: tag.shared_drives,
        shared_with_me: tag.shared_with_me,
    }
}

fn copy_tags(tags: &Vec<Tag>) -> (copy: Vec<Tag>)
    ensures
        copy@ == tags@,
{
    let mut out: Vec<Tag> = Vec::new();
    let mut i: usize = 0;
    while i < tags.len()
        invariant
            i <= tags@.len(),
            out@ == tags@.subrange(0, i as int),
        decreases tags@.len() - i,
    {
        out.push(copy_tag(&tags[i]));
        i = i + 1;
    }
    out
}

/// Whether an address or label is in the directory, and its tags, matching
/// without regard to ASCII case.
fn lookup_identity(directory: &IdentityDirectory, label: &str) -> (result: (bool, Vec<Tag>))
    ensures
        result.0 == identity_known(*directory, label@),
        result.1@ == identity_tags(*directory, label@),
{
    let lower = crate::text::to_ascii_lower(chars_of(label).as_slice());
    let key = string_of(lower.as_slice());
    let known = directory.known.contains_key(key.as_str());
    let tags = match directory.tags.get(key.as_str()) {
        Some(t) => copy_tags(t),
        None => Vec::new(),
    };
    (known, tags)
}

// ---------------------------------------------------------------------------
// Explorer
// ---------------------------------------------------------------------------

/// The `ORDER BY` expression for an explorer sort key; any other key sorts by name.
pub open spec fn explorer_order(sort: Seq<char>) -> Seq<char> {
    if sort == "type"@ {
        "CASE WHEN is_directory THEN 'folder' ELSE COALESCE(mime_type, '') END COLLATE NOCASE"@
    } else if sort == "size"@ {
        "COALESCE(CASE WHEN is_directory THEN cumulative_size_bytes ELSE size_bytes END, -1)"@
    } else if sort == "modified"@ {
        "COALESCE(modified_at, '')"@
    } else if sort == "owner"@ {
        "COALESCE(owner_email, '') COLLATE NOCASE"@
    } else {
        "name COLLATE NOCASE"@
    }
}

/// The `ORDER BY` expression for an explorer sort key.
pub fn explorer_sort_expression(sort: &str) -> (result: &'static str)
    ensures
        result@ == explorer_order(sort@),
{
    let c = chars_of(sort);
    if crate::text::equals_str(c.as_slice(), "type") {
        "CASE WHEN is_directory THEN 'folder' ELSE COALESCE(mime_type, '') END COLLATE NOCASE"
    } else if crate::text::equals_str(c.as_slice(), "size") {
        "COALESCE(CASE WHEN is_directory THEN cumulative_size_bytes ELSE size_bytes END, -1)"
    } else if crate::text::equals_str(c.as_slice(), "modified") {
        "COALESCE(modified_at, '')"
    } else if crate::text::equals_str(c.as_slice(), "owner") {
        "COALESCE(owner_email, '') COLLATE NOCASE"
    } else {
        "name COLLATE NOCASE"
    }
}

/// The listing's order names the column its key stands for: "owner" the
/// owner's address, "modified" the modification time, "size" the size in
/// bytes, "type" the MIME type, and any other key the name.
pub proof fn law_explorer_sort_names_its_column(sort: Seq<char>)
    ensures
        sort == "owner"@ ==> crate::text::contains_seq(explorer_order(sort), "owner_email"@),
        sort == "modified"@ ==> crate::text::contains_seq(explorer_order(sort), "modified_at"@),
        sort == "size"@ ==> crate::text::contains_seq(explorer_order(sort), "size_bytes"@),
        sort == "type"@ ==> crate::text::contains_seq(explorer_order(sort), "mime_type"@),
        !(sort == "owner"@ || sort == "modified"@ || sort == "size"@ || sort == "type"@)
            ==> crate::text::contains_seq(explorer_order(sort), "name"@),
{
    reveal_strlit("type");
    reveal_strlit("size");
    reveal_strlit("modified");
    reveal_strlit("owner");
    reveal_strlit("owner_email");
    reveal_strlit("modified_at");
    reveal_strlit("size_bytes");
    reveal_strlit("mime_type");
    reveal_strlit("name");
    reveal_strlit("CASE WHEN is_directory THEN 'folder' ELSE COALESCE(mime_type, '') END COLLATE NOCASE");
    reveal_strlit("COALESCE(CASE WHEN is_directory THEN cumulative_size_bytes ELSE size_bytes END, -1)");
    reveal_strlit("COALESCE(modified_at, '')");
    reveal_strlit("COALESCE(owner_email, '') COLLATE NOCASE");
    reveal_strlit("name COLLATE NOCASE");
    assert("size"@[0] != "type"@[0]);
    assert("owner"@[0] != "modified"@[0] || "owner"@.len() != "modified"@.len());
    let e = explorer_order(sort);
    if sort == "owner"@ {
        assert(e.subrange(9, 20) =~= "owner_email"@);
        assert(crate::text::occurs_at(e, "owner_email"@, 9));
    } else if sort == "modified"@ {
        assert(e.subrange(9, 20) =~= "modified_at"@);
        assert(crate::text::occurs_at(e, "modified_at"@, 9));
    } else if sort == "size"@ {
        assert(e.subrange(48, 58) =~= "size_bytes"@);
        assert(crate::text::occurs_at(e, "size_bytes"@, 48));
    } else if sort == "type"@ {
        assert(e.subrange(51, 60) =~= "mime_type"@);
        assert(crate::text::occurs_at(e, "mime_type"@, 51));
    } else {
        assert(e.subrange(0, 4) =~= "name"@);
        assert(crate::text::occurs_at(e, "name"@, 0));
    }
}

/// The keys the explorer offers ("type", "size", "modified", "owner" and
/// "name") each order the listing differently.
pub proof fn law_explorer_sort_keys_order_differently(a: Seq<char>, b: Seq<char>)
    requires
        a == "type"@ || a == "size"@ || a == "modified"@ || a == "owner"@ || a == "name"@,
        b == "type"@ || b == "size"@ || b == "modified"@ || b == "owner"@ || b == "name"@,
        a != b,
    ensures
        explorer_order(a) != explorer_order(b),
{
    reveal_strlit("type");
    reveal_strlit("size");
    reveal_strlit("modified");
    reveal_strlit("owner");
    reveal_strlit("name");
    reveal_strlit("CASE WHEN is_directory THEN 'folder' ELSE COALESCE(mime_type, '') END COLLATE NOCASE");
    reveal_strlit("COALESCE(CASE WHEN is_directory THEN cumulative_size_bytes ELSE size_bytes END, -1)");
    reveal_strlit("COALESCE(modified_at, '')");
    reveal_strlit("COALESCE(owner_email, '') COLLATE NOCASE");
    reveal_strlit("name COLLATE NOCASE");
    assert("size"@[0] != "type"@[0]);
    assert("name"@[0] != "type"@[0] && "name"@[0] != "size"@[0]);
    assert(explorer_order(a).len() != explorer_order(b).len());
}

fn trimmed_param(s: &str) -> (result: SqlParam)
    ensures
        text_param(result, trim(s@)),
{
    SqlParam::Text(string_of(trim_str(s).as_slice()))
}

fn filter_error(r: Rejection) -> (result: DatabaseError)
    ensures
        result is Rejected,
{
    DatabaseError::Rejected(r)
}

/// The query of an inventory's folder listing, up to its `ORDER BY`.
pub const DRIVE_DIRECTORY_SELECT: &'static str = "SELECT item_id, name, relative_path, is_directory, mime_type,
                CASE WHEN is_directory THEN cumulative_size_bytes ELSE size_bytes END,
                modified_at, owner_email,
                (SELECT group_concat(t.name || char(30) || t.color || char(30) || t.description, char(31))
                 FROM drive_item_tags dit JOIN tags t ON t.id = dit.tag_id
                 WHERE dit.remote_name = drive_items.remote_name
                   AND dit.item_id = drive_items.item_id),
                (SELECT group_concat(label, char(31)) FROM (
                    SELECT DISTINCT COALESCE(
                        NULLIF(p.email_address, ''), NULLIF(p.domain, ''),
                        NULLIF(p.display_name, ''), NULLIF(p.permission_type, ''), 'Unknown'
                    ) AS label
                    FROM drive_permissions p
                    WHERE p.remote_name = drive_items.remote_name
                      AND p.item_id = drive_items.item_id
                      AND COALESCE(p.email_address, '') <> COALESCE(drive_items.owner_email, '')
                    ORDER BY label COLLATE NOCASE
                )), is_deleted
         FROM drive_items
         WHERE remote_name = ?1
           AND (?13 = 1 OR is_deleted = 0)
           AND ((?2 IS NULL AND parent_path IS NULL) OR parent_path = ?2)
           AND (?3 = '' OR instr(lower(name), lower(?3)) > 0)
           AND (?4 = '' OR (?4 = '__deleted__' AND is_deleted = 1) OR
                (?4 <> '__deleted__' AND EXISTS (
                SELECT 1 FROM drive_item_tags dit JOIN tags t ON t.id = dit.tag_id
                WHERE dit.remote_name = drive_items.remote_name
                  AND dit.item_id = drive_items.item_id AND t.slug = ?4
           )))
           AND (?5 = '' OR instr(lower(
                CASE WHEN is_directory THEN 'folder' ELSE COALESCE(mime_type, '') END
           ), lower(?5)) > 0)
           AND (?6 = 0 OR
                (?6 = 1 AND COALESCE(CASE WHEN is_directory THEN cumulative_size_bytes ELSE size_bytes END, 0) > ?7) OR
                (?6 = 2 AND COALESCE(CASE WHEN is_directory THEN cumulative_size_bytes ELSE size_bytes END, 0) >= ?7) OR
                (?6 = 3 AND COALESCE(CASE WHEN is_directory THEN cumulative_size_bytes ELSE size_bytes END, 0) < ?7) OR
                (?6 = 4 AND COALESCE(CASE WHEN is_directory THEN cumulative_size_bytes ELSE size_bytes END, 0) <= ?7) OR
                (?6 = 5 AND COALESCE(CASE WHEN is_directory THEN cumulative_size_bytes ELSE size_bytes END, 0) = ?7))
           AND (?8 = 0 OR
                (?8 = 1 AND substr(COALESCE(modified_at, ''), 1, 10) > ?9) OR
                (?8 = 2 AND substr(COALESCE(modified_at, ''), 1, 10) >= ?9) OR
                (?8 = 3 AND substr(COALESCE(modified_at, ''), 1, 10) < ?9) OR
                (?8 = 4 AND substr(COALESCE(modified_at, ''), 1, 10) <= ?9) OR
                (?8 = 5 AND substr(COALESCE(modified_at, ''), 1, length(?9)) = ?9))
           AND (?10 = '' OR
                (?11 = 0 AND instr(lower(COALESCE(owner_email, '')), lower(?10)) > 0) OR
                (?11 = 1 AND instr(lower(COALESCE(owner_email, '')), lower(?10)) = 0))
           AND (?12 = '' OR EXISTS (
                SELECT 1 FROM drive_permissions permission_filter
                WHERE permission_filter.remote_name = drive_items.remote_name
                  AND permission_filter.item_id = drive_items.item_id
                  AND instr(lower(
                      COALESCE(permission_filter.email_address, '') || ' ' ||
                      COALESCE(permission_filter.domain, '') || ' ' ||
                      COALESCE(permission_filter.display_name, '') || ' ' ||
                      COALESCE(permission_filter.permission_type, '')
                  ), lower(?12)) > 0
           ))
           AND (?14 = '' OR EXISTS (
                SELECT 1
                FROM principal_tags identity_pt
                JOIN tags identity_tag ON identity_tag.id = identity_pt.tag_id
                JOIN principals identity_principal ON identity_principal.id = identity_pt.principal_id
                WHERE identity_tag.slug = ?14
                  AND (lower(COALESCE(drive_items.owner_email, '')) = lower(COALESCE(identity_principal.primary_email, ''))
                       OR EXISTS (
                           SELECT 1 FROM principal_emails identity_alias
                           WHERE identity_alias.principal_id = identity_principal.id
                             AND lower(identity_alias.email) = lower(COALESCE(drive_items.owner_email, ''))
                       ))
           ))
           AND (?15 = '' OR EXISTS (
                SELECT 1
                FROM drive_permissions identity_permission
                JOIN principal_emails permission_email
                  ON lower(permission_email.email) = lower(COALESCE(identity_permission.email_address, ''))
                JOIN principal_tags permission_pt ON permission_pt.principal_id = permission_email.principal_id
                JOIN tags permission_tag ON permission_tag.id = permission_pt.tag_id
                WHERE identity_permission.remote_name = drive_items.remote_name
                  AND identity_permission.item_id = drive_items.item_id
                  AND permission_tag.slug = ?15
           ))
         ORDER BY ";

/// The parameter is this text.
pub open spec fn text_param(p: SqlParam, t: Seq<char>) -> bool {
    p matches SqlParam::Text(s) && s@ == t
}

/// The parameter is this integer.
pub open spec fn integer_param(p: SqlParam, v: int) -> bool {
    p matches SqlParam::Integer(i) && i == v
}

/// The sort direction in SQL.
pub open spec fn sql_direction(descending: bool) -> Seq<char> {
    if descending {
        " DESC"@
    } else {
        " ASC"@
    }
}

/// The `ORDER BY` of a folder listing: folders first when sorting by name,
/// then the sort key in the asked direction, then name and id.
pub open spec fn drive_directory_order(sort: Seq<char>, descending: bool) -> Seq<char> {
    (if sort == "name"@ {
        "is_directory DESC, "@
    } else {
        Seq::empty()
    }) + explorer_order(sort) + sql_direction(descending) + ", name COLLATE NOCASE, item_id"@
}

/// The parameters of a folder listing, in the order its query numbers them.
pub open spec fn drive_directory_params(
    params: Seq<SqlParam>,
    inventory_scope: Seq<char>,
    parent_path: Option<Seq<char>>,
    search: Seq<char>,
    tag_filter: Seq<char>,
    type_filter: Seq<char>,
    size_comparison: int,
    size_bytes: int,
    modified_comparison: int,
    modified_value: Seq<char>,
    owner_filter: Seq<char>,
    exclude_owner: bool,
    permission_filter: Seq<char>,
    owner_identity_tag_filter: Seq<char>,
    permission_identity_tag_filter: Seq<char>,
    include_deleted: bool,
) -> bool {
    &&& params.len() == 15
    &&& text_param(params[0], inventory_scope)
    &&& match parent_path {
        Some(p) => text_param(params[1], p),
        None => params[1] is Null,
    }
    &&& text_param(params[2], trim(search))
    &&& text_param(params[3], tag_filter)
    &&& text_param(params[4], trim(type_filter))
    &&& integer_param(params[5], size_comparison)
    &&& integer_param(params[6], size_bytes)
    &&& integer_param(params[7], modified_comparison)
    &&& text_param(params[8], modified_value)
    &&& text_param(params[9], trim(owner_filter))
    &&& integer_param(params[10], if exclude_owner { 1 } else { 0 })
    &&& text_param(params[11], trim(permission_filter))
    &&& integer_param(params[12], if include_deleted { 1 } else { 0 })
    &&& text_param(params[13], owner_identity_tag_filter)
    &&& text_param(params[14], permission_identity_tag_filter)
}

fn text_param_of(s: &str) -> (p: SqlParam)
    ensures
        text_param(p, s@),
{
    SqlParam::Text(string_from(s))
}

/// The query and parameters of a folder listing, its size and modified
/// filters already read.
pub fn drive_directory_query(
    inventory_scope: &str,
    parent_path: Option<&str>,
    search: &str,
    tag_filter: &str,
    type_filter: &str,
    size_comparison: i64,
    size_bytes: i64,
    modified_comparison: i64,
    modified_value: String,
    owner_filter: &str,
    exclude_owner: bool,
    permission_filter: &str,
    owner_identity_tag_filter: &str,
    permission_identity_tag_filter: &str,
    include_deleted: bool,
    sort: &str,
    descending: bool,
) -> (query: (String, Vec<SqlParam>))
    ensures
        query.0@ == DRIVE_DIRECTORY_SELECT@ + drive_directory_order(sort@, descending),
        drive_directory_params(
            query.1@,
            inventory_scope@,
            match parent_path {
                Some(p) => Some(p@),
                None => None,
            },
            search@,
            tag_filter@,
            type_filter@,
            size_comparison as int,
            size_bytes as int,
            modified_comparison as int,
            modified_value@,
            owner_filter@,
            exclude_owner,
            permission_filter@,
            owner_identity_tag_filter@,
            permission_identity_tag_filter@,
            include_deleted,
        ),
{
    proof {
        reveal_strlit("name");
        reveal_strlit(" DESC");
        reveal_strlit(" ASC");
    }
    let direction = if descending { " DESC" } else { " ASC" };
    let by_name = crate::text::equals_str(chars_of(sort).as_slice(), "name");
    let mut sql: Vec<char> = Vec::new();
    push_str(&mut sql, DRIVE_DIRECTORY_SELECT);
    if by_name {
        push_str(&mut sql, "is_directory DESC, ");
    }
    push_str(&mut sql, explorer_sort_expression(sort));
    push_str(&mut sql, direction);
    push_str(&mut sql, ", name COLLATE NOCASE, item_id");
    proof {
        reveal_strlit("is_directory DESC, ");
    }
    assert(sql@ =~= DRIVE_DIRECTORY_SELECT@ + drive_directory_order(sort@, descending));
    let sql = string_of(sql.as_slice());
    let params = vec![
        text_param_of(inventory_scope),
        match parent_path {
            Some(p) => text_param_of(p),
            None => SqlParam::Null,
        },
        trimmed_param(search),
        text_param_of(tag_filter),
        trimmed_param(type_filter),
        SqlParam::Integer(size_comparison),
        SqlParam::Integer(size_bytes),
        SqlParam::Integer(modified_comparison),
        SqlParam::Text(modified_value),
        trimmed_param(owner_filter),
        SqlParam::Integer(if exclude_owner { 1 } else { 0 }),
        trimmed_param(permission_filter),
        SqlParam::Integer(if include_deleted { 1 } else { 0 }),
        text_param_of(owner_identity_tag_filter),
        text_param_of(permission_identity_tag_filter),
    ];
    (sql, params)
}

/// The query and parameters a folder listing sends for these arguments, or
/// the refusal of its size filter, then of its modified filter.
pub fn drive_directory_request(
    inventory_scope: &str,
    parent_path: Option<&str>,
    search: &str,
    tag_filter: &str,
    type_filter: &str,
    size_filter: &str,
    modified_filter: &str,
    owner_filter: &str,
    exclude_owner: bool,
    permission_filter: &str,
    owner_identity_tag_filter: &str,
    permission_identity_tag_filter: &str,
    include_deleted: bool,
    sort: &str,
    descending: bool,
) -> (result: Result<(String, Vec<SqlParam>), Rejection>)
    ensures
        result is Ok <==> size_filter_ok(size_filter@) && modified_filter_ok(modified_filter@),
        result matches Ok(query) ==> query.0@ == DRIVE_DIRECTORY_SELECT@ + drive_directory_order(sort@, descending),
        result matches Ok(query) ==> drive_directory_params(
            query.1@,
            inventory_scope@,
            match parent_path {
                Some(p) => Some(p@),
                None => None,
            },
            search@,
            tag_filter@,
            type_filter@,
            size_filter_meaning(size_filter@)->Ok_0.0,
            size_filter_meaning(size_filter@)->Ok_0.1,
            modified_meaning(modified_filter@).0,
            modified_meaning(modified_filter@).1,
            owner_filter@,
            exclude_owner,
            permission_filter@,
            owner_identity_tag_filter@,
            permission_identity_tag_filter@,
            include_deleted,
        ),
{
    let (size_comparison, size_bytes) = parse_size_filter(size_filter)?;
    let (modified_comparison, modified_value) = parse_modified_filter(modified_filter)?;
    assert(size_comparison == size_filter_meaning(size_filter@)->Ok_0.0);
    assert(size_bytes == size_filter_meaning(size_filter@)->Ok_0.1);
    assert(modified_comparison == modified_meaning(modified_filter@).0);
    assert(modified_value@ == modified_meaning(modified_filter@).1);
    Ok(
        drive_directory_query(
            inventory_scope,
            parent_path,
            search,
            tag_filter,
            type_filter,
            size_comparison,
            size_bytes,
            modified_comparison,
            modified_value,
            owner_filter,
            exclude_owner,
            permission_filter,
            owner_identity_tag_filter,
            permission_identity_tag_filter,
            include_deleted,
            sort,
            descending,
        ),
    )
}

/// An optional text by its view.
pub open spec fn opt_text(value: Option<String>) -> Option<Seq<char>> {
    match value {
        Some(s) => Some(s@),
        None => None,
    }
}

/// The text in a cell, or empty text.
pub open spec fn text_or_empty_of(cell: SqlValue) -> Seq<char> {
    match cell_text(cell) {
        Some(t) => t,
        None => Seq::empty(),
    }
}

/// A cell read as a flag: a nonzero integer.
pub open spec fn flag_of(cell: SqlValue) -> bool {
    match cell_integer(cell) {
        Some(v) => v != 0,
        None => false,
    }
}

/// The permission identities of a listed item: one per packed label, each
/// looked up in the directory.
pub open spec fn permissions_from(
    permissions: Seq<PermissionIdentity>,
    labels: Seq<Seq<char>>,
    directory: IdentityDirectory,
) -> bool {
    &&& permissions.len() == labels.len()
    &&& forall|k: int|
        0 <= k < permissions.len() ==> #[trigger] permissions[k].label@ == labels[k] && permissions[k].known
            == identity_known(directory, labels[k]) && permissions[k].tags@ == identity_tags(directory, labels[k])
}

/// An explorer item read from a result row (id, name, path, folder flag,
/// MIME type, size, modified time, owner, packed tags, packed permission
/// labels, deleted flag), its owner and permission labels looked up in the
/// directory.
pub open spec fn explorer_item_from(item: DriveExplorerItem, row: Seq<SqlValue>, directory: IdentityDirectory) -> bool {
    &&& item.item_id@ == text_or_empty_of(row[0])
    &&& item.name@ == text_or_empty_of(row[1])
    &&& item.relative_path@ == text_or_empty_of(row[2])
    &&& item.is_directory == flag_of(row[3])
    &&& opt_text(item.mime_type) == cell_text(row[4])
    &&& item.size_bytes == match cell_integer(row[5]) {
        Some(v) => Some(v as u64),
        None => None,
    }
    &&& opt_text(item.modified_at) == cell_text(row[6])
    &&& opt_text(item.owner_email) == cell_text(row[7])
    &&& match cell_text(row[7]) {
        Some(owner) => item.owner_known == identity_known(directory, owner) && item.owner_tags@ == identity_tags(
            directory,
            owner,
        ),
        None => !item.owner_known && item.owner_tags@.len() == 0,
    }
    &&& match cell_text(row[8]) {
        Some(packed) => item.tags@.map_values(|t: Tag| tag_text(t)) == packed_tags(
            split_char(packed, '\u{1f}'),
            false,
        ),
        None => item.tags@.len() == 0,
    }
    &&& permissions_from(
        item.permissions@,
        match cell_text(row[9]) {
            Some(packed) => split_char(packed, '\u{1f}'),
            None => Seq::empty(),
        },
        directory,
    )
    &&& item.is_deleted == flag_of(row[10])
}

/// The explorer items of a result: none when it has fewer than the eleven
/// columns read, else one per row, in order.
#[verifier::opaque]
pub open spec fn explorer_rows_decoded(
    items: Seq<DriveExplorerItem>,
    columns: usize,
    rows: Seq<Vec<SqlValue>>,
    directory: IdentityDirectory,
) -> bool {
    if columns < 11 {
        items.len() == 0
    } else {
        items.len() == rows.len() && forall|k: int|
            0 <= k < rows.len() ==> explorer_item_from(#[trigger] items[k], rows[k]@, directory)
    }
}

/// The items are those read from some query result and identity directory.
pub open spec fn explorer_listing(items: Seq<DriveExplorerItem>) -> bool {
    exists|columns: usize, rows: Seq<Vec<SqlValue>>, directory: IdentityDirectory|
        #[trigger] explorer_rows_decoded(items, columns, rows, directory)
}

#[verifier::spinoff_prover]
fn decode_permissions(packed: Option<String>, directory: &IdentityDirectory) -> (permissions: Vec<PermissionIdentity>)
    ensures
        permissions_from(
            permissions@,
            match opt_text(packed) {
                Some(p) => split_char(p, '\u{1f}'),
                None => Seq::empty(),
            },
            *directory,
        ),
{
    let labels = match packed {
        Some(p) => labels_from_packed(p.as_str()),
        None => Vec::new(),
    };
    let mut permissions: Vec<PermissionIdentity> = Vec::new();
    let mut k: usize = 0;
    while k < labels.len()
        invariant
            k <= labels@.len(),
            permissions@.len() == k,
            forall|m: int|
                0 <= m < k ==> #[trigger] permissions@[m].label@ == labels@[m].label@ && permissions@[m].known
                    == identity_known(*directory, labels@[m].label@) && permissions@[m].tags@ == identity_tags(
                    *directory,
                    labels@[m].label@,
                ),
        decreases labels@.len() - k,
    {
        let (known, found_tags) = lookup_identity(directory, labels[k].label.as_str());
        let entry = PermissionIdentity { label: labels[k].label.clone(), known, tags: found_tags };
        let ghost before = permissions@;
        permissions.push(entry);
        assert forall|m: int| 0 <= m < k + 1 implies #[trigger] permissions@[m].label@ == labels@[m].label@
            && permissions@[m].known == identity_known(*directory, labels@[m].label@) && permissions@[m].tags@
            == identity_tags(*directory, labels@[m].label@) by {
            if m < k {
                assert(permissions@[m] == before[m]);
            } else {
                assert(permissions@[m] == entry);
            }
        }
        k = k + 1;
    }
    permissions
}

fn decode_explorer_row(row: &Vec<SqlValue>, directory: &IdentityDirectory) -> (item: DriveExplorerItem)
    requires
        row@.len() >= 11,
    ensures
        explorer_item_from(item, row@, *directory),
{
    let owner_email = text_at(row, 7);
    let (owner_known, owner_tags) = match &owner_email {
        Some(owner) => lookup_identity(directory, owner.as_str()),
        None => (false, Vec::new()),
    };
    let tags = match text_at(row, 8) {
        Some(packed) => tags_from_packed(packed.as_str(), false),
        None => Vec::new(),
    };
    let permissions = decode_permissions(text_at(row, 9), directory);
    DriveExplorerItem {
        item_id: text_or_empty(row, 0),
        name: text_or_empty(row, 1),
        relative_path: text_or_empty(row, 2),
        is_directory: flag_at(row, 3),
        mime_type: text_at(row, 4),
        size_bytes: match integer_at(row, 5) {
            Some(v) => Some(v as u64),
            None => None,
        },
        modified_at: text_at(row, 6),
        owner_email,
        owner_known,
        owner_tags,
        tags,
        permissions,
        is_deleted: flag_at(row, 10),
    }
}

/// The explorer items of a query result, read row by row.
pub fn decode_explorer_rows(columns: usize, rows: &Vec<Vec<SqlValue>>, directory: &IdentityDirectory) -> (items:
    Vec<DriveExplorerItem>)
    requires
        forall|k: int| 0 <= k < rows@.len() ==> #[trigger] rows@[k].len() == columns,
    ensures
        explorer_rows_decoded(items@, columns, rows@, *directory),
{
    proof {
        reveal(explorer_rows_decoded);
    }
    let mut items: Vec<DriveExplorerItem> = Vec::new();
    if columns < 11 {
        return items;
    }
    let mut i: usize = 0;
    while i < rows.len()
        invariant
            i <= rows@.len(),
            columns >= 11,
            forall|k: int| 0 <= k < rows@.len() ==> #[trigger] rows@[k].len() == columns,
            items@.len() == i,
            forall|k: int| 0 <= k < i ==> explorer_item_from(#[trigger] items@[k], rows@[k]@, *directory),
        decreases rows@.len() - i,
    {
        assert(rows@[i as int].len() == columns);
        let item = decode_explorer_row(&rows[i], directory);
        items.push(item);
        i = i + 1;
    }
    items
}

/// What a listing sends after `before`: its query, then the two reads of
/// the identity directory.
pub open spec fn listing_sent(before: Seq<SentStatement>, after: Seq<SentStatement>) -> bool {
    &&& sent_after(before, after, 3)
    &&& after[before.len() as int + 1] == identity_reads()[0]
    &&& after[before.len() as int + 2] == identity_reads()[1]
}

/// The folder listing query for these arguments: the select in the asked
/// order, each argument bound in its place (filters by what they mean).
pub open spec fn drive_directory_sent(
    statement: SentStatement,
    inventory_scope: Seq<char>,
    parent_path: Option<Seq<char>>,
    search: Seq<char>,
    tag_filter: Seq<char>,
    type_filter: Seq<char>,
    size_filter: Seq<char>,
    modified_filter: Seq<char>,
    owner_filter: Seq<char>,
    exclude_owner: bool,
    permission_filter: Seq<char>,
    owner_identity_tag_filter: Seq<char>,
    permission_identity_tag_filter: Seq<char>,
    include_deleted: bool,
    sort: Seq<char>,
    descending: bool,
) -> bool {
    &&& statement.0 == DRIVE_DIRECTORY_SELECT@ + drive_directory_order(sort, descending)
    &&& drive_directory_params(
        statement.1,
        inventory_scope,
        parent_path,
        search,
        tag_filter,
        type_filter,
        size_filter_meaning(size_filter)->Ok_0.0,
        size_filter_meaning(size_filter)->Ok_0.1,
        modified_meaning(modified_filter).0,
        modified_meaning(modified_filter).1,
        owner_filter,
        exclude_owner,
        permission_filter,
        owner_identity_tag_filter,
        permission_identity_tag_filter,
        include_deleted,
    )
}

/// The items directly inside a folder (the top level when `parent_path` is
/// `None`) of one inventory, matching every given filter, sorted as asked
/// (folders first when sorting by name), with their tags, permissions, and
/// what the directory knows of owners and permitted identities.
pub fn list_drive_directory(
    database: &mut Database,
    inventory_scope: &str,
    parent_path: Option<&str>,
    search: &str,
    tag_filter: &str,
    type_filter: &str,
    size_filter: &str,
    modified_filter: &str,
    owner_filter: &str,
    exclude_owner: bool,
    permission_filter: &str,
    owner_identity_tag_filter: &str,
    permission_identity_tag_filter: &str,
    include_deleted: bool,
    sort: &str,
    descending: bool,
) -> (result: Result<Vec<DriveExplorerItem>, DatabaseError>)
    ensures
        !(size_filter_ok(size_filter@) && modified_filter_ok(modified_filter@)) ==> result is Err,
        result matches Err(DatabaseError::Rejected(_)) ==> !(size_filter_ok(size_filter@) && modified_filter_ok(
            modified_filter@,
        )),
        size_filter_ok(size_filter@) && modified_filter_ok(modified_filter@) ==> (result matches Err(e) ==> e is Storage),
        result matches Ok(items) ==> explorer_listing(items@),
        result matches Err(DatabaseError::Rejected(_)) ==> final(database).sent() == old(database).sent(),
        result is Ok ==> listing_sent(old(database).sent(), final(database).sent()) && drive_directory_sent(
            final(database).sent()[old(database).sent().len() as int],
            inventory_scope@,
            match parent_path {
                Some(p) => Some(p@),
                None => None,
            },
            search@,
            tag_filter@,
            type_filter@,
            size_filter@,
            modified_filter@,
            owner_filter@,
            exclude_owner,
            permission_filter@,
            owner_identity_tag_filter@,
            permission_identity_tag_filter@,
            include_deleted,
            sort@,
            descending,
        ),
{
    let connection = database.connect()?;
    let (sql, params) = match drive_directory_request(
        inventory_scope,
        parent_path,
        search,
        tag_filter,
        type_filter,
        size_filter,
        modified_filter,
        owner_filter,
        exclude_owner,
        permission_filter,
        owner_identity_tag_filter,
        permission_identity_tag_filter,
        include_deleted,
        sort,
        descending,
    ) {
        Ok(query) => query,
        Err(r) => return Err(filter_error(r)),
    };
    let ghost before = database.sent();
    let (columns, rows) = send_query(database, &connection, sql.as_str(), params.as_slice())?;
    let ghost queried = database.sent();
    let directory = identity_directory(database, &connection)?;
    proof {
        assert(database.sent()[before.len() as int] == queried[before.len() as int]);
        assert(database.sent().subrange(0, before.len() as int) =~= before);
    }
    let items = decode_explorer_rows(columns, &rows, &directory);
    assert(explorer_rows_decoded(items@, columns, rows@, directory));
    Ok(items)
}

/// The My Drive explorer.
pub fn list_my_drive_directory(
    database: &mut Database,
    parent_path: Option<&str>,
    search: &str,
    tag_filter: &str,
    type_filter: &str,
    size_filter: &str,
    modified_filter: &str,
    owner_filter: &str,
    exclude_owner: bool,
    permission_filter: &str,
    owner_identity_tag_filter: &str,
    permission_identity_tag_filter: &str,
    include_deleted: bool,
    sort: &str,
    descending: bool,
) -> (result: Result<Vec<DriveExplorerItem>, DatabaseError>)
    ensures
        !(size_filter_ok(size_filter@) && modified_filter_ok(modified_filter@)) ==> result is Err,
        result matches Err(DatabaseError::Rejected(_)) ==> !(size_filter_ok(size_filter@) && modified_filter_ok(
            modified_filter@,
        )),
        size_filter_ok(size_filter@) && modified_filter_ok(modified_filter@) ==> (result matches Err(e) ==> e is Storage),
        result matches Ok(items) ==> explorer_listing(items@),
        result is Ok ==> listing_sent(old(database).sent(), final(database).sent()) && drive_directory_sent(
            final(database).sent()[old(database).sent().len() as int],
            MY_DRIVE_SCOPE@,
            match parent_path {
                Some(p) => Some(p@),
                None => None,
            },
            search@,
            tag_filter@,
            type_filter@,
            size_filter@,
            modified_filter@,
            owner_filter@,
            exclude_owner,
            permission_filter@,
            owner_identity_tag_filter@,
            permission_identity_tag_filter@,
            include_deleted,
            sort@,
            descending,
        ),
{
    list_drive_directory(
        database,
        MY_DRIVE_SCOPE,
        parent_path,
        search,
        tag_filter,
        type_filter,
        size_filter,
        modified_filter,
        owner_filter,
        exclude_owner,
        permission_filter,
        owner_identity_tag_filter,
        permission_identity_tag_filter,
        include_deleted,
        sort,
        descending,
    )
}

pub const DOWNLOAD_ITEM_SQL: &'static str = "SELECT name, relative_path, is_directory, is_deleted
         FROM drive_items WHERE remote_name = ?1 AND item_id = ?2";

/// The name, path and kind of one inventoried item, deleted or not.
pub fn get_drive_download_item(database: &mut Database, inventory_scope: &str, item_id: &str) -> (result:
    Result<Option<DriveDownloadItem>, DatabaseError>)
    ensures
        result is Ok ==> sent_after(old(database).sent(), final(database).sent(), 1) && statement_is(final(database).sent().last(), DOWNLOAD_ITEM_SQL@, 2) && text_param(final(database).sent().last().1[0], inventory_scope@) && text_param(final(database).sent().last().1[1], item_id@),
        result matches Err(e) ==> e is Storage,
{
    let connection = database.connect()?;
    let params = vec![SqlParam::Text(string_from(inventory_scope)), SqlParam::Text(string_from(item_id))];
    let (columns, rows) = send_query(database, &connection, DOWNLOAD_ITEM_SQL, params.as_slice(),
    )?;
    if rows.len() == 0 || columns < 4 {
        return Ok(None);
    }
    let row = &rows[0];
    Ok(
        Some(
            DriveDownloadItem {
                name: text_or_empty(row, 0),
                relative_path: text_or_empty(row, 1),
                is_directory: flag_at(row, 2),
                is_deleted: flag_at(row, 3),
            },
        ),
    )
}


// ---------------------------------------------------------------------------
// Shared Drives
// ---------------------------------------------------------------------------


/// The query of the Shared Drives listing.
pub const SHARED_DRIVES_QUERY: &'static str = "SELECT sd.drive_id, sd.name, sd.inventory_scope, sd.is_accessible,
                COALESCE(last_error, ''),
                files_scanned, folders_scanned, permissions_scanned, bytes_discovered,
                COALESCE((SELECT MAX(di.modified_at) FROM drive_items di
                          WHERE di.remote_name = sd.inventory_scope AND di.is_deleted = 0), ''),
                (SELECT group_concat(t.slug || char(30) || t.name || char(30) || t.color || char(30) || t.description, char(31))
                 FROM shared_drive_tags sdt JOIN tags t ON t.id = sdt.tag_id
                 WHERE sdt.drive_id = sd.drive_id),
                (SELECT group_concat(label || char(30) || role, char(31)) FROM (
                    SELECT DISTINCT COALESCE(
                        NULLIF(p.email_address, ''), NULLIF(p.domain, ''),
                        NULLIF(p.display_name, ''), NULLIF(p.permission_type, ''), 'Unknown'
                    ) AS label, COALESCE(NULLIF(p.role, ''), 'unknown') AS role
                    FROM (
                        SELECT email_address, domain, display_name, permission_type, role
                        FROM drive_permissions WHERE remote_name = sd.inventory_scope
                        UNION ALL
                        SELECT email_address, domain, display_name, permission_type, role
                        FROM shared_drive_permissions WHERE drive_id = sd.drive_id
                    ) p
                    ORDER BY label COLLATE NOCASE, role COLLATE NOCASE
                ))
         FROM shared_drives sd
         WHERE (?1 = '' OR instr(lower(sd.name), lower(?1)) > 0
                    OR instr(lower(sd.drive_id), lower(?1)) > 0)
           AND (?2 = '' OR EXISTS (
                SELECT 1 FROM shared_drive_tags filter_sdt
                JOIN tags filter_tag ON filter_tag.id = filter_sdt.tag_id
                WHERE filter_sdt.drive_id = sd.drive_id AND filter_tag.slug = ?2
           ))
           AND (?3 = 0 OR (?3 = 1 AND files_scanned > ?4) OR (?3 = 2 AND files_scanned >= ?4)
                OR (?3 = 3 AND files_scanned < ?4) OR (?3 = 4 AND files_scanned <= ?4) OR (?3 = 5 AND files_scanned = ?4))
           AND (?5 = 0 OR (?5 = 1 AND folders_scanned > ?6) OR (?5 = 2 AND folders_scanned >= ?6)
                OR (?5 = 3 AND folders_scanned < ?6) OR (?5 = 4 AND folders_scanned <= ?6) OR (?5 = 5 AND folders_scanned = ?6))
           AND (?7 = 0 OR (?7 = 1 AND bytes_discovered > ?8) OR (?7 = 2 AND bytes_discovered >= ?8)
                OR (?7 = 3 AND bytes_discovered < ?8) OR (?7 = 4 AND bytes_discovered <= ?8) OR (?7 = 5 AND bytes_discovered = ?8))
           AND (?9 = 0 OR
                (?9 = 1 AND substr(COALESCE((SELECT MAX(di.modified_at) FROM drive_items di WHERE di.remote_name = sd.inventory_scope AND di.is_deleted = 0), ''), 1, 10) > ?10) OR
                (?9 = 2 AND substr(COALESCE((SELECT MAX(di.modified_at) FROM drive_items di WHERE di.remote_name = sd.inventory_scope AND di.is_deleted = 0), ''), 1, 10) >= ?10) OR
                (?9 = 3 AND substr(COALESCE((SELECT MAX(di.modified_at) FROM drive_items di WHERE di.remote_name = sd.inventory_scope AND di.is_deleted = 0), ''), 1, 10) < ?10) OR
                (?9 = 4 AND substr(COALESCE((SELECT MAX(di.modified_at) FROM drive_items di WHERE di.remote_name = sd.inventory_scope AND di.is_deleted = 0), ''), 1, 10) <= ?10) OR
                (?9 = 5 AND substr(COALESCE((SELECT MAX(di.modified_at) FROM drive_items di WHERE di.remote_name = sd.inventory_scope AND di.is_deleted = 0), ''), 1, length(?10)) = ?10))
           AND (?11 = '' OR EXISTS (
                SELECT 1 FROM shared_drive_permissions manager_permission
                WHERE manager_permission.drive_id = sd.drive_id
                  AND lower(COALESCE(manager_permission.role, '')) IN ('organizer', 'owner')
                  AND instr(lower(COALESCE(NULLIF(manager_permission.email_address, ''),
                      NULLIF(manager_permission.domain, ''), NULLIF(manager_permission.display_name, ''),
                      NULLIF(manager_permission.permission_type, ''), 'Unknown')), lower(?11)) > 0
           ))
           AND (?12 = '' OR EXISTS (
                SELECT 1 FROM (
                    SELECT email_address, domain, display_name, permission_type
                    FROM drive_permissions WHERE remote_name = sd.inventory_scope
                    UNION ALL
                    SELECT email_address, domain, display_name, permission_type
                    FROM shared_drive_permissions WHERE drive_id = sd.drive_id
                ) identity_permission
                WHERE 1 = 1
                  AND instr(lower(COALESCE(NULLIF(identity_permission.email_address, ''),
                      NULLIF(identity_permission.domain, ''), NULLIF(identity_permission.display_name, ''),
                      NULLIF(identity_permission.permission_type, ''), 'Unknown')), lower(?12)) > 0
           ))
         ORDER BY is_accessible DESC, name COLLATE NOCASE, drive_id";

/// The parameters of the Shared Drives listing, in the order its query
/// numbers them.
pub open spec fn shared_drives_query_params(
    params: Seq<SqlParam>,
    search: Seq<char>,
    tag_filter: Seq<char>,
    files: (i64, i64),
    folders: (i64, i64),
    size: (i64, i64),
    modified_comparison: i64,
    modified_value: Seq<char>,
    manager_filter: Seq<char>,
    permission_filter: Seq<char>,
) -> bool {
    &&& params.len() == 12
    &&& text_param(params[0], trim(search))
    &&& text_param(params[1], tag_filter)
    &&& integer_param(params[2], files.0 as int)
    &&& integer_param(params[3], files.1 as int)
    &&& integer_param(params[4], folders.0 as int)
    &&& integer_param(params[5], folders.1 as int)
    &&& integer_param(params[6], size.0 as int)
    &&& integer_param(params[7], size.1 as int)
    &&& integer_param(params[8], modified_comparison as int)
    &&& text_param(params[9], modified_value)
    &&& text_param(params[10], trim(manager_filter))
    &&& text_param(params[11], trim(permission_filter))
}

/// The parameters of the Shared Drives listing, its count, size and
/// modified filters already read.
pub fn shared_drives_params(
    search: &str,
    tag_filter: &str,
    files: (i64, i64),
    folders: (i64, i64),
    size: (i64, i64),
    modified_comparison: i64,
    modified_value: String,
    manager_filter: &str,
    permission_filter: &str,
) -> (params: Vec<SqlParam>)
    ensures
        shared_drives_query_params(
            params@,
            search@,
            tag_filter@,
            files,
            folders,
            size,
            modified_comparison,
            modified_value@,
            manager_filter@,
            permission_filter@,
        ),
{
    vec![
        trimmed_param(search),
        text_param_of(tag_filter),
        SqlParam::Integer(files.0),
        SqlParam::Integer(files.1),
        SqlParam::Integer(folders.0),
        SqlParam::Integer(folders.1),
        SqlParam::Integer(size.0),
        SqlParam::Integer(size.1),
        SqlParam::Integer(modified_comparison),
        SqlParam::Text(modified_value),
        trimmed_param(manager_filter),
        trimmed_param(permission_filter),
    ]
}

/// A count filter's comparison code and count (both zero when blank).
pub open spec fn count_meaning(filter: Seq<char>) -> (int, int) {
    if trim(filter).len() == 0 {
        (0, 0)
    } else {
        (
            comparison_parts(trim(filter)).0 as int,
            crate::text::i64_text_value(comparison_parts(trim(filter)).1)->0 as int,
        )
    }
}

/// A modified filter's comparison code and date (zero and empty when blank).
pub open spec fn modified_meaning(filter: Seq<char>) -> (int, Seq<char>) {
    if trim(filter).len() == 0 {
        (0, Seq::empty())
    } else {
        (comparison_parts(trim(filter)).0 as int, comparison_parts(trim(filter)).1)
    }
}

/// Whether the Shared Drives listing accepts these filters.
pub open spec fn shared_drive_filters_ok(files: Seq<char>, folders: Seq<char>, size: Seq<char>, modified: Seq<char>) -> bool {
    count_filter_ok(files) && count_filter_ok(folders) && size_filter_ok(size) && modified_filter_ok(modified)
}

/// The parameters of the Shared Drives listing for these arguments, in the
/// order its query numbers them: the trimmed search, the tag, each filter's
/// comparison and operand, and the trimmed manager and permission filters.
pub open spec fn shared_drives_request_params(
    params: Seq<SqlParam>,
    search: Seq<char>,
    tag_filter: Seq<char>,
    files_filter: Seq<char>,
    folders_filter: Seq<char>,
    size_filter: Seq<char>,
    modified_filter: Seq<char>,
    manager_filter: Seq<char>,
    permission_filter: Seq<char>,
) -> bool {
    let size = size_filter_meaning(size_filter)->Ok_0;
    &&& params.len() == 12
    &&& text_param(params[0], trim(search))
    &&& text_param(params[1], tag_filter)
    &&& integer_param(params[2], count_meaning(files_filter).0)
    &&& integer_param(params[3], count_meaning(files_filter).1)
    &&& integer_param(params[4], count_meaning(folders_filter).0)
    &&& integer_param(params[5], count_meaning(folders_filter).1)
    &&& integer_param(params[6], size.0)
    &&& integer_param(params[7], size.1)
    &&& integer_param(params[8], modified_meaning(modified_filter).0)
    &&& text_param(params[9], modified_meaning(modified_filter).1)
    &&& text_param(params[10], trim(manager_filter))
    &&& text_param(params[11], trim(permission_filter))
}

/// The parameters the Shared Drives listing binds for these arguments, or
/// the refusal of the first filter it does not accept (files, folders,
/// size, then modified).
pub fn shared_drives_request(
    search: &str,
    tag_filter: &str,
    files_filter: &str,
    folders_filter: &str,
    size_filter: &str,
    modified_filter: &str,
    manager_filter: &str,
    permission_filter: &str,
) -> (result: Result<Vec<SqlParam>, Rejection>)
    ensures
        result is Ok <==> shared_drive_filters_ok(files_filter@, folders_filter@, size_filter@, modified_filter@),
        result matches Ok(params) ==> shared_drives_request_params(
            params@,
            search@,
            tag_filter@,
            files_filter@,
            folders_filter@,
            size_filter@,
            modified_filter@,
            manager_filter@,
            permission_filter@,
        ),
{
    let files = parse_count_filter(files_filter)?;
    let folders = parse_count_filter(folders_filter)?;
    let size = parse_size_filter(size_filter)?;
    let (modified_comparison, modified_value) = parse_modified_filter(modified_filter)?;
    assert(files.0 == count_meaning(files_filter@).0 && files.1 == count_meaning(files_filter@).1);
    assert(folders.0 == count_meaning(folders_filter@).0 && folders.1 == count_meaning(folders_filter@).1);
    assert(size.0 == size_filter_meaning(size_filter@)->Ok_0.0);
    assert(size.1 == size_filter_meaning(size_filter@)->Ok_0.1);
    assert(modified_comparison == modified_meaning(modified_filter@).0);
    assert(modified_value@ == modified_meaning(modified_filter@).1);
    Ok(
        shared_drives_params(
            search,
            tag_filter,
            files,
            folders,
            size,
            modified_comparison,
            modified_value,
            manager_filter,
            permission_filter,
        ),
    )
}

/// The permission identities of a Shared Drive: one per group of the
/// packed permissions, each looked up in the directory.
pub open spec fn drive_identities_from(
    identities: Seq<SharedDrivePermissionIdentity>,
    groups: Seq<(Seq<char>, Seq<Seq<char>>)>,
    directory: IdentityDirectory,
) -> bool {
    &&& identities.len() == groups.len()
    &&& forall|k: int|
        0 <= k < identities.len() ==> #[trigger] identities[k].label@ == groups[k].0
            && identities[k].roles@.map_values(|r: String| r@) == groups[k].1 && identities[k].known
            == identity_known(directory, groups[k].0) && identities[k].tags@ == identity_tags(directory, groups[k].0)
}

/// A Shared Drive read from a result row (id, name, inventory, accessible
/// flag, last error, files, folders, permissions, bytes, modified time,
/// packed tags, packed permissions).
pub open spec fn shared_drive_from(drive: SharedDriveRow, row: Seq<SqlValue>, directory: IdentityDirectory) -> bool {
    &&& drive.drive_id@ == text_or_empty_of(row[0])
    &&& drive.name@ == text_or_empty_of(row[1])
    &&& drive.inventory_scope@ == text_or_empty_of(row[2])
    &&& drive.is_accessible == flag_of(row[3])
    &&& drive.last_error@ == text_or_empty_of(row[4])
    &&& drive.files_scanned == count_of(row[5])
    &&& drive.folders_scanned == count_of(row[6])
    &&& drive.permissions_scanned == count_of(row[7])
    &&& drive.bytes_discovered == count_of(row[8])
    &&& drive.modified_at@ == text_or_empty_of(row[9])
    &&& match cell_text(row[10]) {
        Some(packed) => drive.tags@.map_values(|t: Tag| tag_text(t)) == packed_tags(
            split_char(packed, '\u{1f}'),
            true,
        ),
        None => drive.tags@.len() == 0,
    }
    &&& drive_identities_from(
        drive.permission_identities@,
        match cell_text(row[11]) {
            Some(packed) => identity_groups(split_char(packed, '\u{1f}')),
            None => Seq::empty(),
        },
        directory,
    )
}

/// The Shared Drives of a result: none when it has fewer than the twelve
/// columns read, else one per row, in order.
#[verifier::opaque]
pub open spec fn shared_drive_rows_decoded(
    drives: Seq<SharedDriveRow>,
    columns: usize,
    rows: Seq<Vec<SqlValue>>,
    directory: IdentityDirectory,
) -> bool {
    if columns < 12 {
        drives.len() == 0
    } else {
        drives.len() == rows.len() && forall|k: int|
            0 <= k < rows.len() ==> shared_drive_from(#[trigger] drives[k], rows[k]@, directory)
    }
}

/// The drives are those read from some query result and identity directory.
pub open spec fn shared_drive_listing(drives: Seq<SharedDriveRow>) -> bool {
    exists|columns: usize, rows: Seq<Vec<SqlValue>>, directory: IdentityDirectory|
        #[trigger] shared_drive_rows_decoded(drives, columns, rows, directory)
}

fn copy_strings(values: &Vec<String>) -> (copy: Vec<String>)
    ensures
        copy@ == values@,
{
    let mut out: Vec<String> = Vec::new();
    let mut i: usize = 0;
    while i < values.len()
        invariant
            i <= values@.len(),
            out@ == values@.subrange(0, i as int),
        decreases values@.len() - i,
    {
        out.push(values[i].clone());
        i = i + 1;
    }
    out
}

#[verifier::spinoff_prover]
fn decode_drive_identities(packed: Option<String>, directory: &IdentityDirectory) -> (identities: Vec<
    SharedDrivePermissionIdentity,
>)
    ensures
        drive_identities_from(
            identities@,
            match opt_text(packed) {
                Some(p) => identity_groups(split_char(p, '\u{1f}')),
                None => Seq::empty(),
            },
            *directory,
        ),
{
    let grouped = match packed {
        Some(p) => identities_from_packed(p.as_str()),
        None => Vec::new(),
    };
    let ghost groups = match opt_text(packed) {
        Some(p) => identity_groups(split_char(p, '\u{1f}')),
        None => Seq::<(Seq<char>, Seq<Seq<char>>)>::empty(),
    };
    assert(grouped@.len() == groups.len());
    let mut identities: Vec<SharedDrivePermissionIdentity> = Vec::new();
    let mut k: usize = 0;
    while k < grouped.len()
        invariant
            k <= grouped@.len(),
            grouped@.len() == groups.len(),
            forall|m: int|
                0 <= m < grouped@.len() ==> (#[trigger] grouped@[m]).label@ == groups[m].0
                    && grouped@[m].roles@.map_values(|r: String| r@) == groups[m].1,
            identities@.len() == k,
            forall|m: int|
                0 <= m < k ==> #[trigger] identities@[m].label@ == groups[m].0 && identities@[m].roles@.map_values(
                    |r: String| r@,
                ) == groups[m].1 && identities@[m].known == identity_known(*directory, groups[m].0)
                    && identities@[m].tags@ == identity_tags(*directory, groups[m].0),
        decreases grouped@.len() - k,
    {
        let (known, found_tags) = lookup_identity(directory, grouped[k].label.as_str());
        let entry = SharedDrivePermissionIdentity {
            label: grouped[k].label.clone(),
            roles: copy_strings(&grouped[k].roles),
            known,
            tags: found_tags,
        };
        assert(grouped@[k as int].label@ == groups[k as int].0);
        let ghost before = identities@;
        identities.push(entry);
        assert forall|m: int| 0 <= m < k + 1 implies #[trigger] identities@[m].label@ == groups[m].0
            && identities@[m].roles@.map_values(|r: String| r@) == groups[m].1 && identities@[m].known
            == identity_known(*directory, groups[m].0) && identities@[m].tags@ == identity_tags(
            *directory,
            groups[m].0,
        ) by {
            if m < k {
                assert(identities@[m] == before[m]);
            } else {
                assert(identities@[m] == entry);
            }
        }
        k = k + 1;
    }
    assert(drive_identities_from(identities@, groups, *directory));
    identities
}

fn decode_shared_drive_row(row: &Vec<SqlValue>, directory: &IdentityDirectory) -> (drive: SharedDriveRow)
    requires
        row@.len() >= 12,
    ensures
        shared_drive_from(drive, row@, *directory),
{
    let tags = match text_at(row, 10) {
        Some(packed) => tags_from_packed(packed.as_str(), true),
        None => Vec::new(),
    };
    let identities = decode_drive_identities(text_at(row, 11), directory);
    SharedDriveRow {
        drive_id: text_or_empty(row, 0),
        name: text_or_empty(row, 1),
        inventory_scope: text_or_empty(row, 2),
        is_accessible: flag_at(row, 3),
        last_error: text_or_empty(row, 4),
        files_scanned: count_at(row, 5),
        folders_scanned: count_at(row, 6),
        permissions_scanned: count_at(row, 7),
        bytes_discovered: count_at(row, 8),
        modified_at: text_or_empty(row, 9),
        tags,
        permission_identities: identities,
    }
}

/// The Shared Drives of a query result, read row by row.
pub fn decode_shared_drive_rows(columns: usize, rows: &Vec<Vec<SqlValue>>, directory: &IdentityDirectory) -> (drives:
    Vec<SharedDriveRow>)
    requires
        forall|k: int| 0 <= k < rows@.len() ==> #[trigger] rows@[k].len() == columns,
    ensures
        shared_drive_rows_decoded(drives@, columns, rows@, *directory),
{
    proof {
        reveal(shared_drive_rows_decoded);
    }
    let mut drives: Vec<SharedDriveRow> = Vec::new();
    if columns < 12 {
        return drives;
    }
    let mut i: usize = 0;
    while i < rows.len()
        invariant
            i <= rows@.len(),
            columns >= 12,
            forall|k: int| 0 <= k < rows@.len() ==> #[trigger] rows@[k].len() == columns,
            drives@.len() == i,
            forall|k: int| 0 <= k < i ==> shared_drive_from(#[trigger] drives@[k], rows@[k]@, *directory),
        decreases rows@.len() - i,
    {
        assert(rows@[i as int].len() == columns);
        let drive = decode_shared_drive_row(&rows[i], directory);
        drives.push(drive);
        i = i + 1;
    }
    drives
}

/// Shared Drives matching every given filter: accessible ones first, then by
/// name and id, each with its tags and the identities its permissions name.
pub fn list_shared_drives_filtered(
    database: &mut Database,
    search: &str,
    tag_filter: &str,
    files_filter: &str,
    folders_filter: &str,
    size_filter: &str,
    modified_filter: &str,
    manager_filter: &str,
    permission_filter: &str,
) -> (result: Result<Vec<SharedDriveRow>, DatabaseError>)
    ensures
        ({
            let accepted = count_filter_ok(files_filter@) && count_filter_ok(folders_filter@) && size_filter_ok(
                size_filter@,
            ) && modified_filter_ok(modified_filter@);
            &&& !accepted ==> (result matches Err(DatabaseError::Rejected(_)))
            &&& accepted ==> (result matches Err(e) ==> e is Storage)
        }),
        result matches Ok(drives) ==> shared_drive_listing(drives@),
        result matches Err(DatabaseError::Rejected(_)) ==> !shared_drive_filters_ok(
            files_filter@,
            folders_filter@,
            size_filter@,
            modified_filter@,
        ),
        result matches Err(DatabaseError::Rejected(_)) ==> final(database).sent() == old(database).sent(),
        result is Ok ==> listing_sent(old(database).sent(), final(database).sent()) && final(database).sent()[old(
            database,
        ).sent().len() as int].0 == SHARED_DRIVES_QUERY@ && shared_drives_request_params(
            final(database).sent()[old(database).sent().len() as int].1,
            search@,
            tag_filter@,
            files_filter@,
            folders_filter@,
            size_filter@,
            modified_filter@,
            manager_filter@,
            permission_filter@,
        ),
{
    let params = match shared_drives_request(
        search,
        tag_filter,
        files_filter,
        folders_filter,
        size_filter,
        modified_filter,
        manager_filter,
        permission_filter,
    ) {
        Ok(params) => params,
        Err(r) => return Err(filter_error(r)),
    };
    let connection = database.connect()?;
    let ghost before = database.sent();
    let (columns, rows) = send_query(database, &connection, SHARED_DRIVES_QUERY, params.as_slice())?;
    let ghost queried = database.sent();
    let directory = identity_directory(database, &connection)?;
    proof {
        assert(database.sent()[before.len() as int] == queried[before.len() as int]);
        assert(database.sent().subrange(0, before.len() as int) =~= before);
    }
    let drives = decode_shared_drive_rows(columns, &rows, &directory);
    assert(shared_drive_rows_decoded(drives@, columns, rows@, directory));
    Ok(drives)
}

pub fn list_shared_drives(database: &mut Database) -> (result: Result<Vec<SharedDriveRow>, DatabaseError>)
    ensures
        result matches Err(e) ==> e is Storage,
{
    proof {
        reveal_strlit("");
        assert(trim(""@).len() == 0);
        assert(size_filter_ok(""@));
    }
    list_shared_drives_filtered(database, "", "", "", "", "", "", "", "")
}

/// The listed Shared Drive with this id, if any.
pub fn get_shared_drive(database: &mut Database, drive_id: &str) -> (result: Result<
    Option<SharedDriveRow>,
    DatabaseError,
>)
    ensures
        result matches Ok(Some(d)) ==> d.drive_id@ == drive_id@,
{
    let mut drives = list_shared_drives(database)?;
    let mut i: usize = 0;
    while i < drives.len()
        invariant
            i <= drives@.len(),
        decreases drives@.len() - i,
    {
        let id = chars_of(drives[i].drive_id.as_str());
        if crate::text::equals_str(id.as_slice(), drive_id) {
            let found = drives.remove(i);
            return Ok(Some(found));
        }
        i = i + 1;
    }
    Ok(None)
}

pub const HIDE_SHARED_DRIVES_SQL: &'static str = "UPDATE shared_drives SET is_accessible = 0";

pub const SHARED_DRIVE_UPSERT_SQL: &'static str = "INSERT INTO shared_drives (drive_id, name, inventory_scope)
             VALUES (?1, ?2, ?3)
             ON CONFLICT(drive_id) DO UPDATE SET name = excluded.name,
                inventory_scope = excluded.inventory_scope, is_accessible = 1,
                last_seen_at = CURRENT_TIMESTAMP";

/// What reconciling the discovered drives sends after `before`: in a
/// transaction, every drive marked inaccessible, then each discovered drive
/// written (id, name and its inventory name) and so made accessible again.
pub open spec fn drives_reconciled(before: Seq<SentStatement>, after: Seq<SentStatement>, drives: Seq<(String, String)>) -> bool {
    let n = before.len() as int;
    &&& sent_after(before, after, drives.len() as int + 3)
    &&& after[n] == ("BEGIN"@, Seq::<SqlParam>::empty())
    &&& after[n + 1] == (HIDE_SHARED_DRIVES_SQL@, Seq::<SqlParam>::empty())
    &&& forall|k: int| 0 <= k < drives.len() ==> drive_upserted(#[trigger] after[n + 2 + k], drives[k])
    &&& after.last() == ("COMMIT"@, Seq::<SqlParam>::empty())
}

/// The write of one discovered drive.
pub open spec fn drive_upserted(statement: SentStatement, drive: (String, String)) -> bool {
    &&& statement_is(statement, SHARED_DRIVE_UPSERT_SQL@, 3)
    &&& text_param(statement.1[0], drive.0@)
    &&& text_param(statement.1[1], drive.1@)
    &&& text_param(statement.1[2], shared_drive_prefix() + drive.0@)
}

/// Records the Shared Drives discovery found: every known drive becomes
/// inaccessible, and each listed one is written and accessible again; no
/// drive row is removed.
pub fn reconcile_shared_drives(database: &mut Database, drives: &[(String, String)]) -> (result: Result<
    (),
    DatabaseError,
>)
    ensures
        result matches Err(e) ==> e is Storage,
        result is Ok ==> drives_reconciled(old(database).sent(), final(database).sent(), drives@),
{
    let connection = database.connect()?;
    let ghost before = database.sent();
    send_batch(database, &connection, "BEGIN")?;
    let none: Vec<SqlParam> = Vec::new();
    assert(none@ =~= Seq::<SqlParam>::empty());
    let ghost begun = database.sent();
    send(database, &connection, HIDE_SHARED_DRIVES_SQL, none.as_slice())?;
    proof {
        crate::database::lemma_sent_chain(before, begun, database.sent(), 1, 1);
    }
    let mut i: usize = 0;
    while i < drives.len()
        invariant
            i <= drives@.len(),
            sent_after(before, database.sent(), i + 2),
            database.sent()[before.len() as int] == ("BEGIN"@, Seq::<SqlParam>::empty()),
            database.sent()[before.len() as int + 1] == (HIDE_SHARED_DRIVES_SQL@, Seq::<SqlParam>::empty()),
            forall|k: int| 0 <= k < i ==> drive_upserted(#[trigger] database.sent()[before.len() as int + 2 + k], drives@[k]),
        decreases drives@.len() - i,
    {
        let ghost previous = database.sent();
        let (drive_id, name) = &drives[i];
        let params = vec![
            SqlParam::Text(drive_id.clone()),
            SqlParam::Text(name.clone()),
            SqlParam::Text(shared_drive_scope(drive_id.as_str())),
        ];
        send(database, &connection, SHARED_DRIVE_UPSERT_SQL, params.as_slice())?;
        proof {
            crate::database::lemma_sent_chain(before, previous, database.sent(), i + 2, 1);
        }
        i = i + 1;
    }
    let ghost listed = database.sent();
    send_batch(database, &connection, "COMMIT")?;
    proof {
        crate::database::lemma_sent_chain(before, listed, database.sent(), drives@.len() as int + 2, 1);
        assert forall|k: int| 0 <= k < drives@.len() implies drive_upserted(
            #[trigger] database.sent()[before.len() as int + 2 + k],
            drives@[k],
        ) by {
            assert(database.sent()[before.len() as int + 2 + k] == listed[before.len() as int + 2 + k]);
        }
    }
    Ok(())
}

pub const DRIVE_SCAN_SQL: &'static str = "UPDATE shared_drives SET last_scanned_at = CURRENT_TIMESTAMP, last_error = NULL,
                files_scanned = ?2, folders_scanned = ?3, permissions_scanned = ?4,
                bytes_discovered = ?5, deleted_items = ?6 WHERE drive_id = ?1";

/// Records a Shared Drive's completed scan: its counts, and no error.
pub fn record_shared_drive_scan(database: &mut Database, drive_id: &str, summary: &InventorySummary) -> (result:
    Result<(), DatabaseError>)
    ensures
        result matches Err(e) ==> e is Storage,
        result is Ok ==> sent_after(old(database).sent(), final(database).sent(), 1) && ({
            let st = final(database).sent().last();
            &&& statement_is(st, DRIVE_SCAN_SQL@, 6)
            &&& text_param(st.1[0], drive_id@)
            &&& integer_param(st.1[1], summary.files_scanned as i64 as int)
            &&& integer_param(st.1[2], summary.folders_scanned as i64 as int)
            &&& integer_param(st.1[3], summary.permissions_scanned as i64 as int)
            &&& integer_param(st.1[4], summary.bytes_discovered as i64 as int)
            &&& integer_param(st.1[5], summary.deleted_items as i64 as int)
        }),
{
    let connection = database.connect()?;
    let params = vec![
        SqlParam::Text(string_from(drive_id)),
        SqlParam::Integer(summary.files_scanned as i64),
        SqlParam::Integer(summary.folders_scanned as i64),
        SqlParam::Integer(summary.permissions_scanned as i64),
        SqlParam::Integer(summary.bytes_discovered as i64),
        SqlParam::Integer(summary.deleted_items as i64),
    ];
    send(database, &connection, DRIVE_SCAN_SQL, params.as_slice())?;
    Ok(())
}

/// One Drive permission as reported, with its JSON text.
#[derive(Debug)]
pub struct PermissionRecord {
    pub value: crate::json::JsonValue,
    pub raw_json: String,
}

fn field_param(value: &crate::json::JsonValue, name: &str) -> (result: SqlParam)
    ensures
        match text_of(member(*value, name@)) {
            Some(t) => result matches SqlParam::Text(s) && s@ == t,
            None => result is Null,
        },
{
    match crate::json::get_str(value, name) {
        Some(t) => SqlParam::Text(t.clone()),
        None => SqlParam::Null,
    }
}

/// The fields that identify a permission without an id.
pub open spec fn permission_fields() -> Seq<&'static str> {
    seq!["type", "role", "emailAddress", "domain"]
}

/// `name:text` for each of `names` that `value` holds as text, joined by `|`.
pub open spec fn keyed_fields(value: JsonValue, names: Seq<&str>) -> Seq<char>
    decreases names.len(),
{
    if names.len() == 0 {
        Seq::empty()
    } else {
        let before = keyed_fields(value, names.drop_last());
        match text_of(member(value, names.last()@)) {
            Some(t) => (if before.len() > 0 {
                before.push('|')
            } else {
                before
            }) + names.last()@ + seq![':'] + t,
            None => before,
        }
    }
}

/// The key that identifies a permission of an item.
pub open spec fn permission_identity(value: JsonValue, raw_json: Seq<char>) -> Seq<char> {
    match text_of(member(value, "id"@)) {
        Some(id) => "id:"@ + id,
        None => {
            let k = keyed_fields(value, permission_fields());
            if k.len() == 0 {
                raw_json
            } else {
                k
            }
        },
    }
}

/// The key that identifies a permission of an item: its id when it has one,
/// else its type, role, address and domain, else its JSON text.
pub fn permission_key(permission: &PermissionRecord) -> (result: String)
    ensures
        result@ == permission_identity(permission.value, permission.raw_json@),
{
    let value = &permission.value;
    if let Some(id) = crate::json::get_str(value, "id") {
        let mut k: Vec<char> = Vec::new();
        push_str(&mut k, "id:");
        push_str(&mut k, id.as_str());
        return string_of(k.as_slice());
    }
    let names: Vec<&str> = vec!["type", "role", "emailAddress", "domain"];
    assert(names@ =~= permission_fields());
    let mut key: Vec<char> = Vec::new();
    let mut i: usize = 0;
    while i < names.len()
        invariant
            i <= names@.len(),
            names@ == permission_fields(),
            *value == permission.value,
            key@ == keyed_fields(permission.value, names@.subrange(0, i as int)),
        decreases names@.len() - i,
    {
        assert(names@.subrange(0, i + 1).drop_last() =~= names@.subrange(0, i as int));
        assert(names@.subrange(0, i + 1).last() == names@[i as int]);
        let ghost before = key@;
        if let Some(part) = crate::json::get_str(value, names[i]) {
            if key.len() > 0 {
                key.push('|');
            }
            push_str(&mut key, names[i]);
            key.push(':');
            push_str(&mut key, part.as_str());
            assert(key@ =~= (if before.len() > 0 {
                before.push('|')
            } else {
                before
            }) + names@[i as int]@ + seq![':'] + part@);
        }
        i = i + 1;
    }
    assert(names@.subrange(0, 4) =~= names@);
    if key.len() == 0 {
        permission.raw_json.clone()
    } else {
        string_of(key.as_slice())
    }
}

/// Replaces the stored permissions of a Shared Drive.
pub fn record_shared_drive_permissions(
    database: &Database,
    drive_id: &str,
    drive_permissions: &[PermissionRecord],
) -> (result: Result<(), DatabaseError>)
    ensures
        result matches Err(e) ==> e is Storage,
{
    let connection = database.connect()?;
    run_batch(&connection, "BEGIN")?;
    run(
        &connection,
        "DELETE FROM shared_drive_permissions WHERE drive_id = ?1",
        vec![SqlParam::Text(string_from(drive_id))].as_slice(),
    )?;
    let mut i: usize = 0;
    while i < drive_permissions.len()
        invariant
            i <= drive_permissions@.len(),
        decreases drive_permissions@.len() - i,
    {
        let p = &drive_permissions[i];
        let params = vec![
            SqlParam::Text(string_from(drive_id)),
            SqlParam::Text(permission_key(p)),
            field_param(&p.value, "id"),
            field_param(&p.value, "type"),
            field_param(&p.value, "role"),
            field_param(&p.value, "emailAddress"),
            field_param(&p.value, "displayName"),
            field_param(&p.value, "domain"),
            SqlParam::Text(p.raw_json.clone()),
        ];
        run(
            &connection,
            "INSERT INTO shared_drive_permissions (
                drive_id, permission_key, permission_id, permission_type, role,
                email_address, display_name, domain, raw_json, updated_at
             ) VALUES (?1, ?2, ?3, ?4, ?5, ?6, ?7, ?8, ?9, CURRENT_TIMESTAMP)",
            params.as_slice(),
        )?;
        i = i + 1;
    }
    run_batch(&connection, "COMMIT")?;
    Ok(())
}

pub const DRIVE_ERROR_SQL: &'static str = "UPDATE shared_drives SET last_error = ?2 WHERE drive_id = ?1";

/// Records why a Shared Drive's scan failed.
pub fn record_shared_drive_error(database: &mut Database, drive_id: &str, error: &str) -> (result: Result<
    (),
    DatabaseError,
>)
    ensures
        result matches Err(e) ==> e is Storage,
        result is Ok ==> sent_after(old(database).sent(), final(database).sent(), 1) && statement_is(
            final(database).sent().last(),
            DRIVE_ERROR_SQL@,
            2,
        ) && text_param(final(database).sent().last().1[0], drive_id@) && text_param(
            final(database).sent().last().1[1],
            error@,
        ),
{
    let connection = database.connect()?;
    let params = vec![SqlParam::Text(string_from(drive_id)), SqlParam::Text(string_from(error))];
    send(database, &connection, DRIVE_ERROR_SQL, params.as_slice())?;
    Ok(())
}

/// The counts read from five cells of a row, starting at `first`.
pub open spec fn summary_read(result: InventorySummary, row: Seq<SqlValue>, first: int) -> bool {
    &&& result.files_scanned == count_of(row[first])
    &&& result.folders_scanned == count_of(row[first + 1])
    &&& result.permissions_scanned == count_of(row[first + 2])
    &&& result.bytes_discovered == count_of(row[first + 3])
    &&& result.deleted_items == count_of(row[first + 4])
}

fn summary_from(row: &Vec<SqlValue>, first: usize, completed_at: String) -> (result: InventorySummary)
    requires
        first + 5 <= row.len(),
    ensures
        result.completed_at@ == completed_at@,
        summary_read(result, row@, first as int),
{
    InventorySummary {
        completed_at,
        files_scanned: count_at(row, first),
        folders_scanned: count_at(row, first + 1),
        permissions_scanned: count_at(row, first + 2),
        bytes_discovered: count_at(row, first + 3),
        deleted_items: count_at(row, first + 4),
    }
}

pub const SHARED_DRIVES_TOTALS_SQL: &'static str = "SELECT COALESCE(SUM(files_scanned), 0), COALESCE(SUM(folders_scanned), 0),
                COALESCE(SUM(permissions_scanned), 0), COALESCE(SUM(bytes_discovered), 0),
                COALESCE(SUM(deleted_items), 0)
         FROM shared_drives WHERE is_accessible = 1";

/// The totals the answer to the Shared Drives totals query gives: the five
/// sums of its first row, all zero when it has no such row, and no
/// completion time.
pub fn totals_from_answer(columns: usize, rows: &Vec<Vec<SqlValue>>) -> (result: InventorySummary)
    requires
        forall|i: int| 0 <= i < rows.len() ==> #[trigger] rows[i].len() == columns,
    ensures
        result.completed_at@.len() == 0,
        rows.len() == 0 || columns < 5 ==> result.files_scanned == 0 && result.folders_scanned == 0
            && result.permissions_scanned == 0 && result.bytes_discovered == 0 && result.deleted_items == 0,
        !(rows.len() == 0 || columns < 5) ==> summary_read(result, rows@[0]@, 0),
{
    if rows.len() == 0 || columns < 5 {
        return InventorySummary {
            completed_at: String::new(),
            files_scanned: 0,
            folders_scanned: 0,
            permissions_scanned: 0,
            bytes_discovered: 0,
            deleted_items: 0,
        };
    }
    summary_from(&rows[0], 0, String::new())
}

/// Totals over every accessible Shared Drive: the sums query is sent, and
/// `totals_from_answer` reads its answer.
pub fn shared_drives_aggregate(database: &mut Database) -> (result: Result<InventorySummary, DatabaseError>)
    ensures
        result matches Err(e) ==> e is Storage,
        result matches Ok(s) ==> s.completed_at@.len() == 0,
        result is Ok ==> final(database).sent() == old(database).sent().push(
            (SHARED_DRIVES_TOTALS_SQL@, Seq::<SqlParam>::empty()),
        ),
{
    let connection = database.connect()?;
    let none: Vec<SqlParam> = Vec::new();
    assert(none@ =~= Seq::<SqlParam>::empty());
    let (columns, rows) = send_query(database, &connection, SHARED_DRIVES_TOTALS_SQL, none.as_slice())?;
    Ok(totals_from_answer(columns, &rows))
}

pub fn latest_summary(database: &mut Database) -> (result: Result<Option<InventorySummary>, DatabaseError>)
    ensures
        result matches Err(e) ==> e is Storage,
{
    latest_summary_for(database, "my-drive")
}

pub const LATEST_SUMMARY_SQL: &'static str = "SELECT completed_at, files_scanned, folders_scanned,
                permissions_scanned, bytes_discovered, deleted_items
         FROM scan_runs
         WHERE scan_type = ?1 AND status = 'complete'
         ORDER BY id DESC LIMIT 1";

/// The totals of the latest completed scan of a type.
pub fn latest_summary_for(database: &mut Database, scan_type: &str) -> (result: Result<
    Option<InventorySummary>,
    DatabaseError,
>)
    ensures
        result is Ok ==> sent_after(old(database).sent(), final(database).sent(), 1) && statement_is(final(database).sent().last(), LATEST_SUMMARY_SQL@, 1) && text_param(final(database).sent().last().1[0], scan_type@),
        result matches Err(e) ==> e is Storage,
{
    let connection = database.connect()?;
    let (columns, rows) = send_query(database, &connection, LATEST_SUMMARY_SQL, vec![SqlParam::Text(string_from(scan_type))].as_slice(),
    )?;
    if rows.len() == 0 || columns < 6 {
        return Ok(None);
    }
    let completed_at = text_or_empty(&rows[0], 0);
    Ok(Some(summary_from(&rows[0], 1, completed_at)))
}

/// The time a running scan has taken and the rounded average time of the
/// last five completed scans of its type, when both are known.
pub open spec fn timing_shown(average_seconds: u64, sample_count: u64) -> bool {
    sample_count > 0 && average_seconds > 0
}

pub fn scan_timing_estimate(database: &Database, scan_type: &str) -> (result: Result<
    Option<ScanTimingEstimate>,
    DatabaseError,
>)
    ensures
        result matches Err(e) ==> e is Storage,
        result matches Ok(Some(t)) ==> timing_shown(t.average_seconds, t.sample_count),
{
    let connection = database.connect()?;
    let kind = vec![SqlParam::Text(string_from(scan_type))];
    let (columns, rows) = query_rows(
        &connection,
        "SELECT started_at FROM scan_runs
         WHERE scan_type = ?1 AND status = 'running'
         ORDER BY id DESC LIMIT 1",
        kind.as_slice(),
    )?;
    if rows.len() == 0 || columns < 1 {
        return Ok(None);
    }
    let started = match text_at(&rows[0], 0) {
        Some(s) => s,
        None => return Ok(None),
    };
    let elapsed = query_count(
        &connection,
        "SELECT MAX(0, CAST((julianday('now') - julianday(?1)) * 86400 AS INTEGER))",
        vec![SqlParam::Text(started)].as_slice(),
    )? as u64;
    let (columns, rows) = query_rows(
        &connection,
        "SELECT CAST(ROUND(COALESCE(AVG(duration_seconds), 0)) AS INTEGER), COUNT(*) FROM (
             SELECT (julianday(completed_at) - julianday(started_at)) * 86400 AS duration_seconds
             FROM scan_runs
             WHERE scan_type = ?1 AND status = 'complete' AND completed_at IS NOT NULL
             ORDER BY id DESC LIMIT 5
         )",
        kind.as_slice(),
    )?;
    if rows.len() == 0 || columns < 2 {
        return Ok(None);
    }
    let average = count_at(&rows[0], 0);
    let samples = count_at(&rows[0], 1);
    if samples > 0 && average > 0 {
        Ok(Some(ScanTimingEstimate { elapsed_seconds: elapsed, average_seconds: average, sample_count: samples }))
    } else {
        Ok(None)
    }
}


// ---------------------------------------------------------------------------
// Tag storage
// ---------------------------------------------------------------------------

pub const TAGS_SQL: &'static str = "SELECT t.slug, t.name, t.description, t.color,
                EXISTS(SELECT 1 FROM tag_scopes s WHERE s.tag_id = t.id AND s.scope = 'directory'),
                EXISTS(SELECT 1 FROM tag_scopes s WHERE s.tag_id = t.id AND s.scope = 'my-drive'),
                EXISTS(SELECT 1 FROM tag_scopes s WHERE s.tag_id = t.id AND s.scope = 'shared-drives'),
                EXISTS(SELECT 1 FROM tag_scopes s WHERE s.tag_id = t.id AND s.scope = 'shared-with-me')
         FROM tags t
         WHERE ?1 IS NULL OR EXISTS(
             SELECT 1 FROM tag_scopes selected
             WHERE selected.tag_id = t.id AND selected.scope = ?1
         )
         ORDER BY t.name COLLATE NOCASE";

/// The read of the tags, of those usable in `scope` when one is given (the
/// scope's name bound, else `NULL`).
pub open spec fn tags_read(statement: SentStatement, scope: Option<TagScope>) -> bool {
    &&& statement_is(statement, TAGS_SQL@, 1)
    &&& match scope {
        Some(c) => text_param(statement.1[0], scope_text(c)),
        None => statement.1[0] is Null,
    }
}

fn list_tags_query(database: &mut Database, scope: Option<TagScope>) -> (result: Result<
    Vec<Tag>,
    DatabaseError,
>)
    ensures
        result matches Err(e) ==> e is Storage,
        result is Ok ==> sent_after(old(database).sent(), final(database).sent(), 1) && tags_read(
            final(database).sent().last(),
            scope,
        ),
{
    let connection = database.connect()?;
    let param = match scope {
        Some(s) => SqlParam::Text(string_from(s.as_str())),
        None => SqlParam::Null,
    };
    let params = vec![param];
    let (columns, rows) = send_query(database, &connection, TAGS_SQL, params.as_slice())?;
    let mut tags: Vec<Tag> = Vec::new();
    if columns < 8 {
        return Ok(tags);
    }
    let mut i: usize = 0;
    while i < rows.len()
        invariant
            i <= rows@.len(),
            columns >= 8,
            forall|k: int| 0 <= k < rows@.len() ==> #[trigger] rows@[k].len() == columns,
        decreases rows@.len() - i,
    {
        let row = &rows[i];
        tags.push(
            Tag {
                slug: text_or_empty(row, 0),
                name: text_or_empty(row, 1),
                description: text_or_empty(row, 2),
                color: text_or_empty(row, 3),
                directory: flag_at(row, 4),
                my_drive: flag_at(row, 5),
                shared_drives: flag_at(row, 6),
                shared_with_me: flag_at(row, 7),
            },
        );
        i = i + 1;
    }
    Ok(tags)
}

/// Every tag, by name.
pub fn list_tags(database: &mut Database) -> (result: Result<Vec<Tag>, DatabaseError>)
    ensures
        result matches Err(e) ==> e is Storage,
        result is Ok ==> sent_after(old(database).sent(), final(database).sent(), 1) && tags_read(
            final(database).sent().last(),
            None,
        ),
{
    list_tags_query(database, None)
}

/// The tags usable in one place, by name.
pub fn list_tags_for_scope(database: &mut Database, scope: TagScope) -> (result: Result<
    Vec<Tag>,
    DatabaseError,
>)
    ensures
        result matches Err(e) ==> e is Storage,
        result is Ok ==> sent_after(old(database).sent(), final(database).sent(), 1) && tags_read(
            final(database).sent().last(),
            Some(scope),
        ),
{
    list_tags_query(database, Some(scope))
}

/// Why a tag definition is refused, in the order the checks run: name,
/// color, description, places, then a name without letters or digits.
pub open spec fn tag_definition_problem(name: Seq<char>, description: Seq<char>, color: Seq<char>, scopes: Seq<TagScope>, new_tag: bool) -> Option<Rejection> {
    if !(1 <= byte_len(trim(name)) <= 40) {
        Some(Rejection::TagNameLength)
    } else if normalized_color(color) is None {
        Some(Rejection::TagColorFormat)
    } else if byte_len(trim(description)) > 500 {
        Some(Rejection::TagDescriptionTooLong)
    } else if scopes.len() == 0 {
        Some(Rejection::TagLocationRequired)
    } else if new_tag && slug_of(name).len() == 0 {
        Some(Rejection::TagNameNeedsLetters)
    } else {
        None
    }
}

pub const TAG_INSERT_SQL: &'static str = "INSERT INTO tags (slug, name, description, color) VALUES (?1, ?2, ?3, ?4)";

pub const TAG_SCOPE_SQL: &'static str = "INSERT OR IGNORE INTO tag_scopes (tag_id, scope) VALUES (?1, ?2)";

pub const TAG_UPDATE_SQL: &'static str = "UPDATE tags SET name = ?2, description = ?3, color = ?4 WHERE slug = ?1";

pub const TAG_ID_SQL: &'static str = "SELECT id FROM tags WHERE slug = ?1";

pub const TAG_SCOPES_CLEAR_SQL: &'static str = "DELETE FROM tag_scopes WHERE tag_id = ?1";

pub const TAG_DELETE_SQL: &'static str = "DELETE FROM tags WHERE slug = ?1";

/// The row of a tag as it is written: `slug`, then the trimmed name and
/// description and the normalized colour of `name`, `description` and
/// `color`.
pub open spec fn tag_row_written(
    statement: SentStatement,
    sql: Seq<char>,
    slug: Seq<char>,
    name: Seq<char>,
    description: Seq<char>,
    color: Seq<char>,
) -> bool {
    &&& statement_is(statement, sql, 4)
    &&& text_param(statement.1[0], slug)
    &&& text_param(statement.1[1], trim(name))
    &&& text_param(statement.1[2], trim(description))
    &&& text_param(statement.1[3], normalized_color(color)->0)
}

/// The integer a statement binds first (zero when it binds none).
pub open spec fn first_integer(statement: SentStatement) -> i64 {
    if statement.1.len() > 0 {
        match statement.1[0] {
            SqlParam::Integer(i) => i,
            _ => 0,
        }
    } else {
        0
    }
}

/// From position `start` on, `after` gives tag `tag_id` each of `scopes`, in
/// order.
pub open spec fn tag_scopes_written(after: Seq<SentStatement>, start: int, tag_id: i64, scopes: Seq<TagScope>) -> bool {
    forall|k: int|
        0 <= k < scopes.len() ==> {
            let s = #[trigger] after[start + k];
            &&& statement_is(s, TAG_SCOPE_SQL@, 2)
            &&& integer_param(s.1[0], tag_id as int)
            &&& text_param(s.1[1], scope_text(scopes[k]))
        }
}

fn save_tag_scopes(database: &mut Database, connection: &rusqlite::Connection, tag_id: i64, scopes: &[TagScope]) -> (result:
    Result<(), DatabaseError>)
    ensures
        result matches Err(e) ==> e is Storage,
        result is Ok ==> sent_after(old(database).sent(), final(database).sent(), scopes@.len() as int)
            && tag_scopes_written(final(database).sent(), old(database).sent().len() as int, tag_id, scopes@),
{
    let ghost before = database.sent();
    assert(database.sent().subrange(0, before.len() as int) =~= before);
    let mut i: usize = 0;
    while i < scopes.len()
        invariant
            i <= scopes@.len(),
            sent_after(before, database.sent(), i as int),
            tag_scopes_written(database.sent(), before.len() as int, tag_id, scopes@.subrange(0, i as int)),
        decreases scopes@.len() - i,
    {
        let ghost previous = database.sent();
        let params = vec![SqlParam::Integer(tag_id), SqlParam::Text(string_from(scopes[i].as_str()))];
        send(database, connection, TAG_SCOPE_SQL, params.as_slice())?;
        proof {
            crate::database::lemma_sent_chain(before, previous, database.sent(), i as int, 1);
            let done = scopes@.subrange(0, i + 1);
            assert forall|k: int| 0 <= k < done.len() implies {
                let s = #[trigger] database.sent()[before.len() as int + k];
                &&& statement_is(s, TAG_SCOPE_SQL@, 2)
                &&& integer_param(s.1[0], tag_id as int)
                &&& text_param(s.1[1], scope_text(done[k]))
            } by {
                if k < i {
                    assert(scopes@.subrange(0, i as int)[k] == done[k]);
                    assert(database.sent()[before.len() as int + k] == previous[before.len() as int + k]);
                }
            }
        }
        i = i + 1;
    }
    assert(scopes@.subrange(0, i as int) =~= scopes@);
    Ok(())
}

/// Creates a tag usable everywhere.
pub fn create_tag(database: &mut Database, name: &str, color: &str) -> (result: Result<(), DatabaseError>)
    ensures
        tag_definition_problem(name@, seq![], color@, seq![TagScope::Directory], true) matches Some(r)
            ==> result == Err::<(), DatabaseError>(DatabaseError::Rejected(r)),
        result matches Err(e) ==> e is Storage || e is Rejected,
        result is Ok ==> tag_created(old(database).sent(), final(database).sent(), name@, seq![], color@, TagScope::all_spec()),
{
    let all = TagScope::all();
    create_tag_with_scopes(database, name, color, all.as_slice())
}

pub fn create_tag_with_scopes(database: &mut Database, name: &str, color: &str, scopes: &[TagScope]) -> (result:
    Result<(), DatabaseError>)
    ensures
        tag_definition_problem(name@, seq![], color@, scopes@, true) matches Some(r) ==> result
            == Err::<(), DatabaseError>(DatabaseError::Rejected(r)),
        result matches Err(e) ==> e is Storage || e is Rejected,
        result is Ok ==> tag_created(old(database).sent(), final(database).sent(), name@, seq![], color@, scopes@),
{
    proof {
        reveal_strlit("");
        assert(""@ =~= Seq::<char>::empty());
    }
    create_tag_with_description_and_scopes(database, name, "", color, scopes)
}

/// What creating a tag sends after `before`: in a transaction, the row with
/// the slug of `name` and its trimmed name and description and normalized
/// colour, then each scope of the new tag.
pub open spec fn tag_created(
    before: Seq<SentStatement>,
    after: Seq<SentStatement>,
    name: Seq<char>,
    description: Seq<char>,
    color: Seq<char>,
    scopes: Seq<TagScope>,
) -> bool {
    let n = before.len() as int;
    &&& sent_after(before, after, scopes.len() as int + 3)
    &&& after[n] == ("BEGIN"@, Seq::<SqlParam>::empty())
    &&& tag_row_written(after[n + 1], TAG_INSERT_SQL@, slug_of(name), name, description, color)
    &&& tag_scopes_written(after, n + 2, first_integer(after[n + 2]), scopes)
    &&& after.last() == ("COMMIT"@, Seq::<SqlParam>::empty())
}

/// Creates a tag with a description, usable in the given places; its slug
/// comes from its name.
pub fn create_tag_with_description_and_scopes(
    database: &mut Database,
    name: &str,
    description: &str,
    color: &str,
    scopes: &[TagScope],
) -> (result: Result<(), DatabaseError>)
    ensures
        tag_definition_problem(name@, description@, color@, scopes@, true) matches Some(r) ==> result
            == Err::<(), DatabaseError>(DatabaseError::Rejected(r)),
        tag_definition_problem(name@, description@, color@, scopes@, true) is None ==> (result matches Err(
            e,
        ) ==> e is Storage),
        tag_definition_problem(name@, description@, color@, scopes@, true) is Some ==> final(database).sent()
            == old(database).sent(),
        result matches Err(e) ==> e is Storage || e is Rejected,
        result is Ok ==> tag_created(old(database).sent(), final(database).sent(), name@, description@, color@, scopes@),
{
    let color = match validate_tag(name, color) {
        Ok(c) => c,
        Err(r) => return Err(DatabaseError::Rejected(r)),
    };
    let description_text = match validate_tag_description(description) {
        Ok(d) => d,
        Err(r) => return Err(DatabaseError::Rejected(r)),
    };
    if scopes.len() == 0 {
        return Err(DatabaseError::Rejected(Rejection::TagLocationRequired));
    }
    let slug = tag_slug(name);
    if crate::text::is_empty_text(slug.as_str()) {
        return Err(DatabaseError::Rejected(Rejection::TagNameNeedsLetters));
    }
    let connection = database.connect()?;
    let ghost before = database.sent();
    send_batch(database, &connection, "BEGIN")?;
    let ghost begun = database.sent();
    let trimmed_name = string_of(trim_str(name).as_slice());
    let row = vec![
        SqlParam::Text(slug),
        SqlParam::Text(trimmed_name),
        SqlParam::Text(description_text),
        SqlParam::Text(color),
    ];
    send(database, &connection, TAG_INSERT_SQL, row.as_slice())?;
    let ghost inserted = database.sent();
    let tag_id = crate::database::sql::sql_last_insert_rowid(&connection);
    save_tag_scopes(database, &connection, tag_id, scopes)?;
    let ghost scoped = database.sent();
    send_batch(database, &connection, "COMMIT")?;
    proof {
        let n = before.len() as int;
        crate::database::lemma_sent_chain(before, begun, inserted, 1, 1);
        crate::database::lemma_sent_chain(before, inserted, scoped, 2, scopes@.len() as int);
        crate::database::lemma_sent_chain(before, scoped, database.sent(), 2 + scopes@.len() as int, 1);
        let after = database.sent();
        assert(after[n] == begun[n]);
        assert(after[n + 1] == inserted[n + 1]);
        assert forall|k: int| 0 <= k < scopes@.len() implies #[trigger] after[n + 2 + k] == scoped[n + 2 + k] by {}
        assert(scoped[n + 2] == after[n + 2]);
        assert(first_integer(scoped[n + 2]) == tag_id);
        assert(tag_scopes_written(after, n + 2, tag_id, scopes@)) by {
            assert forall|k: int| 0 <= k < scopes@.len() implies {
                let s = #[trigger] after[n + 2 + k];
                &&& statement_is(s, TAG_SCOPE_SQL@, 2)
                &&& integer_param(s.1[0], tag_id as int)
                &&& text_param(s.1[1], scope_text(scopes@[k]))
            } by {
                assert(after[n + 2 + k] == scoped[n + 2 + k]);
                assert(scoped[n + 2 + k] == scoped[(n + 2) + k]);
            }
        }
    }
    Ok(())
}

pub fn update_tag(database: &mut Database, slug: &str, name: &str, color: &str) -> (result: Result<
    (),
    DatabaseError,
>)
    ensures
        tag_definition_problem(name@, seq![], color@, seq![TagScope::Directory], false) matches Some(
            r,
        ) ==> result == Err::<(), DatabaseError>(DatabaseError::Rejected(r)),
        result is Ok ==> tag_updated(old(database).sent(), final(database).sent(), slug@, name@, seq![], color@, TagScope::all_spec()),
{
    let all = TagScope::all();
    update_tag_with_scopes(database, slug, name, color, all.as_slice())
}

pub fn update_tag_with_scopes(
    database: &mut Database,
    slug: &str,
    name: &str,
    color: &str,
    scopes: &[TagScope],
) -> (result: Result<(), DatabaseError>)
    ensures
        tag_definition_problem(name@, seq![], color@, scopes@, false) matches Some(r) ==> result
            == Err::<(), DatabaseError>(DatabaseError::Rejected(r)),
        result matches Err(DatabaseError::Rejected(r)) ==> (tag_definition_problem(name@, seq![], color@, scopes@, false) == Some(r)
            || (r matches Rejection::UnknownTag(s) && s@ == slug@)),
        result is Ok ==> tag_updated(old(database).sent(), final(database).sent(), slug@, name@, seq![], color@, scopes@),
{
    proof {
        reveal_strlit("");
        assert(""@ =~= Seq::<char>::empty());
    }
    update_tag_with_description_and_scopes(database, slug, name, "", color, scopes)
}

/// What updating tag `slug` sends after `before`: in a transaction, its new
/// trimmed name and description and normalized colour, the read of its id,
/// the removal of its scopes, and each of `scopes` given to that id.
pub open spec fn tag_updated(
    before: Seq<SentStatement>,
    after: Seq<SentStatement>,
    slug: Seq<char>,
    name: Seq<char>,
    description: Seq<char>,
    color: Seq<char>,
    scopes: Seq<TagScope>,
) -> bool {
    let n = before.len() as int;
    &&& sent_after(before, after, scopes.len() as int + 5)
    &&& after[n] == ("BEGIN"@, Seq::<SqlParam>::empty())
    &&& tag_row_written(after[n + 1], TAG_UPDATE_SQL@, slug, name, description, color)
    &&& statement_is(after[n + 2], TAG_ID_SQL@, 1) && text_param(after[n + 2].1[0], slug)
    &&& statement_is(after[n + 3], TAG_SCOPES_CLEAR_SQL@, 1) && after[n + 3].1[0] is Integer
    &&& tag_scopes_written(after, n + 4, first_integer(after[n + 3]), scopes)
    &&& after.last() == ("COMMIT"@, Seq::<SqlParam>::empty())
}

/// Renames, recolors and re-scopes the tag with this slug; the slug stays.
/// Its old scopes are removed and the given ones written; refused as unknown
/// when the update changed no tag.
pub fn update_tag_with_description_and_scopes(
    database: &mut Database,
    slug: &str,
    name: &str,
    description: &str,
    color: &str,
    scopes: &[TagScope],
) -> (result: Result<(), DatabaseError>)
    ensures
        tag_definition_problem(name@, description@, color@, scopes@, false) matches Some(r) ==> result
            == Err::<(), DatabaseError>(DatabaseError::Rejected(r)),
        tag_definition_problem(name@, description@, color@, scopes@, false) is Some ==> final(database).sent()
            == old(database).sent(),
        result matches Err(DatabaseError::Rejected(r)) ==> (tag_definition_problem(name@, description@, color@, scopes@, false) == Some(r)
            || (r matches Rejection::UnknownTag(s) && s@ == slug@)),
        result matches Err(DatabaseError::Rejected(Rejection::UnknownTag(_))) ==> sent_after(
            old(database).sent(),
            final(database).sent(),
            2,
        ) && tag_row_written(final(database).sent().last(), TAG_UPDATE_SQL@, slug@, name@, description@, color@),
        result is Ok ==> tag_updated(old(database).sent(), final(database).sent(), slug@, name@, description@, color@, scopes@),
{
    let color = match validate_tag(name, color) {
        Ok(c) => c,
        Err(r) => return Err(DatabaseError::Rejected(r)),
    };
    let description_text = match validate_tag_description(description) {
        Ok(d) => d,
        Err(r) => return Err(DatabaseError::Rejected(r)),
    };
    if scopes.len() == 0 {
        return Err(DatabaseError::Rejected(Rejection::TagLocationRequired));
    }
    let connection = database.connect()?;
    let ghost before = database.sent();
    send_batch(database, &connection, "BEGIN")?;
    let ghost begun = database.sent();
    let row = vec![
        SqlParam::Text(string_from(slug)),
        SqlParam::Text(string_of(trim_str(name).as_slice())),
        SqlParam::Text(description_text),
        SqlParam::Text(color),
    ];
    let updated = send(database, &connection, TAG_UPDATE_SQL, row.as_slice())?;
    let ghost changed = database.sent();
    proof {
        crate::database::lemma_sent_chain(before, begun, changed, 1, 1);
    }
    if updated == 0 {
        return Err(DatabaseError::Rejected(Rejection::UnknownTag(string_from(slug))));
    }
    let key = vec![SqlParam::Text(string_from(slug))];
    let tag_id = send_count(database, &connection, TAG_ID_SQL, key.as_slice())?;
    let ghost read = database.sent();
    let clear = vec![SqlParam::Integer(tag_id)];
    send(database, &connection, TAG_SCOPES_CLEAR_SQL, clear.as_slice())?;
    let ghost cleared = database.sent();
    save_tag_scopes(database, &connection, tag_id, scopes)?;
    let ghost scoped = database.sent();
    send_batch(database, &connection, "COMMIT")?;
    proof {
        let n = before.len() as int;
        crate::database::lemma_sent_chain(before, changed, read, 2, 1);
        crate::database::lemma_sent_chain(before, read, cleared, 3, 1);
        crate::database::lemma_sent_chain(before, cleared, scoped, 4, scopes@.len() as int);
        crate::database::lemma_sent_chain(before, scoped, database.sent(), 4 + scopes@.len() as int, 1);
        let after = database.sent();
        assert(after[n] == begun[n]);
        assert(after[n + 1] == changed[n + 1]);
        assert(after[n + 2] == read[n + 2]);
        assert(after[n + 3] == cleared[n + 3]);
        assert(first_integer(after[n + 3]) == tag_id);
        assert(tag_scopes_written(after, n + 4, tag_id, scopes@)) by {
            assert forall|k: int| 0 <= k < scopes@.len() implies {
                let s = #[trigger] after[n + 4 + k];
                &&& statement_is(s, TAG_SCOPE_SQL@, 2)
                &&& integer_param(s.1[0], tag_id as int)
                &&& text_param(s.1[1], scope_text(scopes@[k]))
            } by {
                assert(after[n + 4 + k] == scoped[n + 4 + k]);
            }
        }
    }
    Ok(())
}

/// Deletes the tag with this slug: the deletion is sent, and the tag is
/// refused as unknown when it removed nothing.
pub fn delete_tag(database: &mut Database, slug: &str) -> (result: Result<(), DatabaseError>)
    ensures
        result matches Err(DatabaseError::Rejected(r)) ==> (r matches Rejection::UnknownTag(s) && s@
            == slug@),
        result matches Err(e) ==> e is Storage || e is Rejected,
        !(result matches Err(DatabaseError::Storage(_))) ==> sent_after(old(database).sent(), final(database).sent(), 1)
            && statement_is(final(database).sent().last(), TAG_DELETE_SQL@, 1) && text_param(
            final(database).sent().last().1[0],
            slug@,
        ),
{
    let connection = database.connect()?;
    let params = vec![SqlParam::Text(string_from(slug))];
    let deleted = send(database, &connection, TAG_DELETE_SQL, params.as_slice())?;
    if deleted == 0 {
        return Err(DatabaseError::Rejected(Rejection::UnknownTag(string_from(slug))));
    }
    Ok(())
}

fn optional_id(connection: &rusqlite::Connection, sql: &str, params: &[SqlParam]) -> (result: Result<
    Option<i64>,
    DatabaseError,
>)
    ensures
        result matches Err(e) ==> e is Storage,
{
    let (columns, rows) = query_rows(connection, sql, params)?;
    if rows.len() == 0 || columns < 1 {
        return Ok(None);
    }
    Ok(integer_at(&rows[0], 0))
}

/// Tags the given items of My Drive, and everything inside the folders
/// among them.
pub fn apply_tag_recursively(database: &mut Database, item_ids: &[String], tag_slug: &str) -> (result:
    Result<usize, DatabaseError>)
    ensures
        item_ids@.len() == 0 ==> result == Err::<usize, DatabaseError>(
            DatabaseError::Rejected(Rejection::DriveItemsRequired),
        ),
{
    apply_tag_recursively_for_scope(database, MY_DRIVE_SCOPE, item_ids, tag_slug)
}

pub const EXPLORER_TAG_SQL: &'static str = "SELECT t.id FROM tags t JOIN tag_scopes s ON s.tag_id = t.id
         WHERE t.slug = ?1 AND s.scope = ?2";

pub const APPLY_TAG_SQL: &'static str = "INSERT OR IGNORE INTO drive_item_tags (remote_name, item_id, tag_id)
             SELECT descendant.remote_name, descendant.item_id, ?3
             FROM drive_items selected
             JOIN drive_items descendant
               ON descendant.remote_name = selected.remote_name
              AND descendant.is_deleted = selected.is_deleted
              AND (
                   descendant.item_id = selected.item_id
                   OR (selected.is_directory = 1 AND
                       substr(descendant.relative_path, 1, length(selected.relative_path) + 1)
                           = selected.relative_path || '/')
              )
             WHERE selected.remote_name = ?1
               AND selected.item_id = ?2";

/// The lookup of the tag `slug` among those `scope` offers.
pub open spec fn explorer_tag_read(statement: SentStatement, slug: Seq<char>, scope: TagScope) -> bool {
    &&& statement_is(statement, EXPLORER_TAG_SQL@, 2)
    &&& text_param(statement.1[0], slug)
    &&& text_param(statement.1[1], scope_text(scope))
}

/// What tagging the selected items sends after `before`: in a transaction,
/// the lookup of the tag, then for each selected item the statement that
/// tags it and everything inside it (in the same deleted state) in that
/// inventory, all with one tag id.
pub open spec fn items_tagged(
    before: Seq<SentStatement>,
    after: Seq<SentStatement>,
    inventory_scope: Seq<char>,
    item_ids: Seq<String>,
    slug: Seq<char>,
) -> bool {
    let n = before.len() as int;
    &&& sent_after(before, after, item_ids.len() as int + 3)
    &&& after[n] == ("BEGIN"@, Seq::<SqlParam>::empty())
    &&& explorer_tag_read(after[n + 1], slug, scope_for_inventory(inventory_scope)->0)
    &&& forall|k: int|
        0 <= k < item_ids.len() ==> {
            let s = #[trigger] after[n + 2 + k];
            &&& statement_is(s, APPLY_TAG_SQL@, 3)
            &&& text_param(s.1[0], inventory_scope)
            &&& text_param(s.1[1], item_ids[k]@)
            &&& s.1[2] == after[n + 2].1[2]
            &&& s.1[2] is Integer
        }
    &&& after.last() == ("COMMIT"@, Seq::<SqlParam>::empty())
}

/// Tags the given items of an inventory, and everything inside the folders
/// among them; returns how many item tags were added. The tag must be one
/// the inventory's explorer offers.
pub fn apply_tag_recursively_for_scope(
    database: &mut Database,
    inventory_scope: &str,
    item_ids: &[String],
    tag_slug: &str,
) -> (result: Result<usize, DatabaseError>)
    ensures
        item_ids@.len() == 0 ==> result == Err::<usize, DatabaseError>(
            DatabaseError::Rejected(Rejection::DriveItemsRequired),
        ),
        item_ids@.len() == 0 ==> final(database).sent() == old(database).sent(),
        item_ids@.len() > 0 && scope_for_inventory(inventory_scope@) is None ==> (result matches Err(e)
            && (e is Storage || e matches DatabaseError::Rejected(Rejection::UnknownInventoryScope(_)))),
        scope_for_inventory(inventory_scope@) is None ==> final(database).sent() == old(database).sent(),
        result matches Err(DatabaseError::Rejected(Rejection::TagNotInExplorer(s))) ==> s@ == tag_slug@ && sent_after(
            old(database).sent(),
            final(database).sent(),
            2,
        ) && explorer_tag_read(final(database).sent().last(), tag_slug@, scope_for_inventory(inventory_scope@)->0),
        result is Ok ==> items_tagged(old(database).sent(), final(database).sent(), inventory_scope@, item_ids@, tag_slug@),
{
    if item_ids.len() == 0 {
        return Err(DatabaseError::Rejected(Rejection::DriveItemsRequired));
    }
    let connection = database.connect()?;
    let scope = match TagScope::for_inventory(inventory_scope) {
        Some(s) => s,
        None => return Err(DatabaseError::Rejected(Rejection::UnknownInventoryScope(string_from(inventory_scope)))),
    };
    let ghost before = database.sent();
    send_batch(database, &connection, "BEGIN")?;
    let ghost begun = database.sent();
    let lookup = vec![SqlParam::Text(string_from(tag_slug)), SqlParam::Text(string_from(scope.as_str()))];
    let (columns, rows) = send_query(database, &connection, EXPLORER_TAG_SQL, lookup.as_slice())?;
    proof {
        crate::database::lemma_sent_chain(before, begun, database.sent(), 1, 1);
    }
    let found = if rows.len() == 0 || columns < 1 {
        None
    } else {
        integer_at(&rows[0], 0)
    };
    let tag_id = match found {
        Some(id) => id,
        None => return Err(DatabaseError::Rejected(Rejection::TagNotInExplorer(string_from(tag_slug)))),
    };
    let mut applied: usize = 0;
    let mut i: usize = 0;
    while i < item_ids.len()
        invariant
            i <= item_ids@.len(),
            item_ids@.len() > 0,
            scope_for_inventory(inventory_scope@) == Some(scope),
            sent_after(before, database.sent(), i + 2),
            database.sent()[before.len() as int] == ("BEGIN"@, Seq::<SqlParam>::empty()),
            explorer_tag_read(database.sent()[before.len() as int + 1], tag_slug@, scope),
            forall|k: int|
                0 <= k < i ==> {
                    let s = #[trigger] database.sent()[before.len() as int + 2 + k];
                    &&& statement_is(s, APPLY_TAG_SQL@, 3)
                    &&& text_param(s.1[0], inventory_scope@)
                    &&& text_param(s.1[1], item_ids@[k]@)
                    &&& s.1[2] == SqlParam::Integer(tag_id)
                },
        decreases item_ids@.len() - i,
    {
        let ghost previous = database.sent();
        let params = vec![
            SqlParam::Text(string_from(inventory_scope)),
            SqlParam::Text(item_ids[i].clone()),
            SqlParam::Integer(tag_id),
        ];
        let n = send(database, &connection, APPLY_TAG_SQL, params.as_slice())?;
        proof {
            crate::database::lemma_sent_chain(before, previous, database.sent(), i + 2, 1);
        }
        applied = applied.saturating_add(n);
        i = i + 1;
    }
    let ghost tagged = database.sent();
    send_batch(database, &connection, "COMMIT")?;
    proof {
        crate::database::lemma_sent_chain(before, tagged, database.sent(), item_ids@.len() as int + 2, 1);
        let after = database.sent();
        let n = before.len() as int;
        assert(after[n + 1] == tagged[n + 1]);
        assert(after[n + 2] == tagged[n + 2]);
        assert forall|k: int| 0 <= k < item_ids@.len() implies {
            let s = #[trigger] after[n + 2 + k];
            &&& statement_is(s, APPLY_TAG_SQL@, 3)
            &&& text_param(s.1[0], inventory_scope@)
            &&& text_param(s.1[1], item_ids@[k]@)
            &&& s.1[2] == after[n + 2].1[2]
            &&& s.1[2] is Integer
        } by {
            assert(after[n + 2 + k] == tagged[n + 2 + k]);
            assert(tagged[n + 2 + 0] == tagged[n + 2]);
        }
    }
    Ok(applied)
}

pub const TAG_BY_SLUG_SQL: &'static str = "SELECT id FROM tags WHERE slug = ?1";

pub const REMOVE_TAG_SQL: &'static str = "DELETE FROM drive_item_tags
             WHERE tag_id = ?3 AND remote_name = ?1 AND item_id IN (
                SELECT descendant.item_id
                FROM drive_items selected
                JOIN drive_items descendant
                  ON descendant.remote_name = selected.remote_name
                 AND descendant.is_deleted = selected.is_deleted
                 AND (descendant.item_id = selected.item_id
                      OR (selected.is_directory = 1 AND
                          substr(descendant.relative_path, 1, length(selected.relative_path) + 1)
                              = selected.relative_path || '/'))
                WHERE selected.remote_name = ?1 AND selected.item_id = ?2
             )";

/// What untagging the selected items sends after `before`: in a
/// transaction, the lookup of the tag, then for each selected item the
/// statement removing the tag from it and everything inside it (in the same
/// deleted state) in that inventory, all with one tag id.
pub open spec fn items_untagged(
    before: Seq<SentStatement>,
    after: Seq<SentStatement>,
    inventory_scope: Seq<char>,
    item_ids: Seq<String>,
    slug: Seq<char>,
) -> bool {
    let n = before.len() as int;
    &&& sent_after(before, after, item_ids.len() as int + 3)
    &&& after[n] == ("BEGIN"@, Seq::<SqlParam>::empty())
    &&& statement_is(after[n + 1], TAG_BY_SLUG_SQL@, 1) && text_param(after[n + 1].1[0], slug)
    &&& forall|k: int|
        0 <= k < item_ids.len() ==> {
            let s = #[trigger] after[n + 2 + k];
            &&& statement_is(s, REMOVE_TAG_SQL@, 3)
            &&& text_param(s.1[0], inventory_scope)
            &&& text_param(s.1[1], item_ids[k]@)
            &&& s.1[2] == after[n + 2].1[2]
            &&& s.1[2] is Integer
        }
    &&& after.last() == ("COMMIT"@, Seq::<SqlParam>::empty())
}

/// Removes a tag from the given items and everything inside the folders
/// among them; returns how many item tags were removed.
pub fn remove_tag_recursively_for_scope(
    database: &mut Database,
    inventory_scope: &str,
    item_ids: &[String],
    tag_slug: &str,
) -> (result: Result<usize, DatabaseError>)
    ensures
        item_ids@.len() == 0 ==> result == Err::<usize, DatabaseError>(
            DatabaseError::Rejected(Rejection::DriveItemsRequired),
        ),
        item_ids@.len() == 0 ==> final(database).sent() == old(database).sent(),
        result is Ok ==> items_untagged(old(database).sent(), final(database).sent(), inventory_scope@, item_ids@, tag_slug@),
{
    if item_ids.len() == 0 {
        return Err(DatabaseError::Rejected(Rejection::DriveItemsRequired));
    }
    let connection = database.connect()?;
    let ghost before = database.sent();
    send_batch(database, &connection, "BEGIN")?;
    let ghost begun = database.sent();
    let lookup = vec![SqlParam::Text(string_from(tag_slug))];
    let (columns, rows) = send_query(database, &connection, TAG_BY_SLUG_SQL, lookup.as_slice())?;
    proof {
        crate::database::lemma_sent_chain(before, begun, database.sent(), 1, 1);
    }
    let found = if rows.len() == 0 || columns < 1 {
        None
    } else {
        integer_at(&rows[0], 0)
    };
    let tag_id = match found {
        Some(id) => id,
        None => return Err(DatabaseError::Rejected(Rejection::UnknownTag(string_from(tag_slug)))),
    };
    let mut removed: usize = 0;
    let mut i: usize = 0;
    while i < item_ids.len()
        invariant
            i <= item_ids@.len(),
            item_ids@.len() > 0,
            sent_after(before, database.sent(), i + 2),
            database.sent()[before.len() as int] == ("BEGIN"@, Seq::<SqlParam>::empty()),
            statement_is(database.sent()[before.len() as int + 1], TAG_BY_SLUG_SQL@, 1),
            text_param(database.sent()[before.len() as int + 1].1[0], tag_slug@),
            forall|k: int|
                0 <= k < i ==> {
                    let s = #[trigger] database.sent()[before.len() as int + 2 + k];
                    &&& statement_is(s, REMOVE_TAG_SQL@, 3)
                    &&& text_param(s.1[0], inventory_scope@)
                    &&& text_param(s.1[1], item_ids@[k]@)
                    &&& s.1[2] == SqlParam::Integer(tag_id)
                },
        decreases item_ids@.len() - i,
    {
        let ghost previous = database.sent();
        let params = vec![
            SqlParam::Text(string_from(inventory_scope)),
            SqlParam::Text(item_ids[i].clone()),
            SqlParam::Integer(tag_id),
        ];
        let n = send(database, &connection, REMOVE_TAG_SQL, params.as_slice())?;
        proof {
            crate::database::lemma_sent_chain(before, previous, database.sent(), i + 2, 1);
        }
        removed = removed.saturating_add(n);
        i = i + 1;
    }
    let ghost untagged = database.sent();
    send_batch(database, &connection, "COMMIT")?;
    proof {
        crate::database::lemma_sent_chain(before, untagged, database.sent(), item_ids@.len() as int + 2, 1);
        let after = database.sent();
        let n = before.len() as int;
        assert(after[n] == untagged[n]);
        assert(after[n + 1] == untagged[n + 1]);
        assert(after[n + 2] == untagged[n + 2]);
        assert forall|k: int| 0 <= k < item_ids@.len() implies {
            let s = #[trigger] after[n + 2 + k];
            &&& statement_is(s, REMOVE_TAG_SQL@, 3)
            &&& text_param(s.1[0], inventory_scope@)
            &&& text_param(s.1[1], item_ids@[k]@)
            &&& s.1[2] == after[n + 2].1[2]
            &&& s.1[2] is Integer
        } by {
            assert(after[n + 2 + k] == untagged[n + 2 + k]);
            assert(untagged[n + 2 + 0] == untagged[n + 2]);
        }
    }
    Ok(removed)
}

/// Adds (or, with `remove`, takes off) a tag on the given Shared Drives;
/// returns how many drives changed. Only Shared Drive tags can be added.
pub fn change_shared_drive_tags(
    database: &Database,
    drive_ids: &[String],
    tag_slug: &str,
    remove: bool,
) -> (result: Result<usize, DatabaseError>)
    ensures
        drive_ids@.len() == 0 ==> result == Err::<usize, DatabaseError>(
            DatabaseError::Rejected(Rejection::SharedDrivesRequired),
        ),
{
    if drive_ids.len() == 0 {
        return Err(DatabaseError::Rejected(Rejection::SharedDrivesRequired));
    }
    let connection = database.connect()?;
    run_batch(&connection, "BEGIN")?;
    let lookup = if remove {
        "SELECT id FROM tags WHERE slug = ?1"
    } else {
        "SELECT t.id FROM tags t JOIN tag_scopes s ON s.tag_id = t.id
                 WHERE t.slug = ?1 AND s.scope = 'shared-drives'"
    };
    let tag_id = match optional_id(&connection, lookup, vec![SqlParam::Text(string_from(tag_slug))].as_slice())? {
        Some(id) => id,
        None => return Err(DatabaseError::Rejected(Rejection::TagNotForSharedDrives(string_from(tag_slug)))),
    };
    let mut changed: usize = 0;
    let mut i: usize = 0;
    while i < drive_ids.len()
        invariant
            i <= drive_ids@.len(),
        decreases drive_ids@.len() - i,
    {
        let params = vec![SqlParam::Text(drive_ids[i].clone()), SqlParam::Integer(tag_id)];
        let n = if remove {
            run(&connection, "DELETE FROM shared_drive_tags WHERE drive_id = ?1 AND tag_id = ?2", params.as_slice())?
        } else {
            run(
                &connection,
                "INSERT OR IGNORE INTO shared_drive_tags (drive_id, tag_id)
                 SELECT drive_id, ?2 FROM shared_drives WHERE drive_id = ?1",
                params.as_slice(),
            )?
        };
        changed = changed.saturating_add(n);
        i = i + 1;
    }
    run_batch(&connection, "COMMIT")?;
    Ok(changed)
}

/// The relative paths of a chain of nested folders: each folder's path is
/// the names so far joined with `/`, its parent the path before it.
pub open spec fn chain_path(names: Seq<Seq<char>>, n: int) -> Seq<char>
    decreases n,
{
    if n <= 1 {
        if names.len() > 0 { names[0] } else { seq![] }
    } else {
        chain_path(names, n - 1) + seq!['/'] + names[n - 1]
    }
}

/// Records a destination found by browsing: the Shared Drive (none for My
/// Drive) and the chain of folders from its root down to the destination.
pub fn record_migration_destination(
    database: &Database,
    drive_id: &str,
    drive_name: &str,
    folders: &[DiscoveredDriveFolder],
) -> (result: Result<(), DatabaseError>)
    ensures
        result matches Err(e) ==> e is Storage,
{
    let connection = database.connect()?;
    run_batch(&connection, "BEGIN")?;
    let none: Vec<SqlParam> = Vec::new();
    run(
        &connection,
        "INSERT INTO scan_runs (scan_type, status, completed_at)
         VALUES ('migration-destination-discovery', 'completed', CURRENT_TIMESTAMP)",
        none.as_slice(),
    )?;
    let scan_id = crate::database::sql::sql_last_insert_rowid(&connection);
    let inventory_scope = if crate::text::is_empty_text(drive_id) {
        string_from(MY_DRIVE_SCOPE)
    } else {
        let scope = shared_drive_scope(drive_id);
        run(
            &connection,
            "INSERT INTO shared_drives (drive_id, name, inventory_scope)
             VALUES (?1, ?2, ?3)
             ON CONFLICT(drive_id) DO UPDATE SET name = excluded.name,
                 inventory_scope = excluded.inventory_scope, is_accessible = 1,
                 last_seen_at = CURRENT_TIMESTAMP",
            vec![
                SqlParam::Text(string_from(drive_id)),
                SqlParam::Text(string_from(drive_name)),
                SqlParam::Text(scope.clone()),
            ].as_slice(),
        )?;
        scope
    };
    let mut path: Vec<char> = Vec::new();
    let mut i: usize = 0;
    while i < folders.len()
        invariant
            i <= folders@.len(),
        decreases folders@.len() - i,
    {
        let parent = if i == 0 { SqlParam::Null } else { SqlParam::Text(string_of(path.as_slice())) };
        if i > 0 {
            path.push('/');
        }
        push_str(&mut path, folders[i].name.as_str());
        run(
            &connection,
            "INSERT INTO drive_items
             (remote_name, item_id, name, relative_path, parent_path, is_directory,
              mime_type, modified_at, metadata_json, last_seen_scan_id)
             VALUES (?1, ?2, ?3, ?4, ?5, 1, 'application/vnd.google-apps.folder',
                     NULLIF(?6, ''), '{\"discovery\":\"migration-destination\"}', ?7)
             ON CONFLICT(remote_name, item_id) DO UPDATE SET
                name = excluded.name, relative_path = excluded.relative_path,
                parent_path = excluded.parent_path,
                modified_at = COALESCE(excluded.modified_at, drive_items.modified_at),
                last_seen_at = CURRENT_TIMESTAMP, is_deleted = 0, deleted_at = NULL",
            vec![
                SqlParam::Text(inventory_scope.clone()),
                SqlParam::Text(folders[i].item_id.clone()),
                SqlParam::Text(folders[i].name.clone()),
                SqlParam::Text(string_of(path.as_slice())),
                parent,
                SqlParam::Text(folders[i].modified_at.clone()),
                SqlParam::Integer(scan_id),
            ].as_slice(),
        )?;
        i = i + 1;
    }
    run_batch(&connection, "COMMIT")?;
    Ok(())
}


// ---------------------------------------------------------------------------
// Folder sizes
// ---------------------------------------------------------------------------

/// `p` names a folder that holds `path`: the part of `path` before one of
/// its `/`.
pub open spec fn is_ancestor(p: Seq<char>, path: Seq<char>) -> bool {
    p.len() < path.len() && path[p.len() as int] == '/' && path.subrange(0, p.len() as int) == p
}

/// The bytes a listed size stands for: negative sizes (unknown) count as 0.
pub open spec fn file_bytes(size: i64) -> nat {
    if size > 0 {
        size as nat
    } else {
        0
    }
}

/// The bytes of the files under folder `p`.
pub open spec fn under_total(files: Seq<(String, i64)>, p: Seq<char>) -> nat
    decreases files.len(),
{
    if files.len() == 0 {
        0
    } else {
        under_total(files.drop_last(), p) + if is_ancestor(p, files.last().0@) {
            file_bytes(files.last().1)
        } else {
            0
        }
    }
}

/// Whether any file lies under folder `p`.
pub open spec fn has_under(files: Seq<(String, i64)>, p: Seq<char>) -> bool
    decreases files.len(),
{
    files.len() > 0 && (has_under(files.drop_last(), p) || is_ancestor(p, files.last().0@))
}

/// A count that saturates at `u64::MAX`.
pub open spec fn saturated(n: nat) -> u64 {
    if n > u64::MAX {
        u64::MAX
    } else {
        n as u64
    }
}

proof fn lemma_saturated_add(t: nat, x: nat)
    requires
        x <= u64::MAX,
    ensures
        (if saturated(t) + x > u64::MAX { u64::MAX } else { (saturated(t) + x) as u64 }) == saturated(t + x),
{
}

/// Every folder that holds one of the files, with the bytes under it
/// (saturating), each folder once.
#[verifier::spinoff_prover]
pub fn folder_totals(files: &[(String, i64)]) -> (result: Vec<(String, u64)>)
    ensures
        forall|a: int, b: int|
            0 <= a < b < result@.len() ==> #[trigger] result@[a].0@ != #[trigger] result@[b].0@,
        forall|a: int|
            0 <= a < result@.len() ==> has_under(files@, #[trigger] result@[a].0@) && result@[a].1
                == saturated(under_total(files@, result@[a].0@)),
        forall|p: Seq<char>|
            has_under(files@, p) ==> exists|a: int| 0 <= a < result@.len() && #[trigger] result@[a].0@ == p,
{
    let mut totals: StringHashMap<u64> = StringHashMap::new();
    let mut keys: Vec<String> = Vec::new();
    let mut i: usize = 0;
    while i < files.len()
        invariant
            i <= files@.len(),
            forall|p: Seq<char>| #[trigger] totals@.contains_key(p) <==> has_under(files@.subrange(0, i as int), p),
            forall|p: Seq<char>| #[trigger] totals@.contains_key(p) ==> totals@[p] == saturated(under_total(files@.subrange(0, i as int), p)),
            forall|a: int, b: int| 0 <= a < b < keys@.len() ==> #[trigger] keys@[a]@ != #[trigger] keys@[b]@,
            forall|a: int| 0 <= a < keys@.len() ==> totals@.contains_key(#[trigger] keys@[a]@),
            forall|p: Seq<char>| #[trigger] totals@.contains_key(p) ==> exists|a: int| 0 <= a < keys@.len() && #[trigger] keys@[a]@ == p,
        decreases files@.len() - i,
    {
        let ghost before = files@.subrange(0, i as int);
        let ghost after = files@.subrange(0, i + 1);
        assert(after.drop_last() =~= before);
        let path = crate::text::chars_of(files[i].0.as_str());
        let ghost path_view = files@[i as int].0@;
        let bytes: u64 = if files[i].1 > 0 { files[i].1 as u64 } else { 0 };
        let mut end: usize = path.len();
        loop
            invariant
                end <= path@.len(),
                path@ == path_view,
                path_view == files@[i as int].0@,
                after.drop_last() == before,
                after.last() == files@[i as int],
                bytes == file_bytes(files@[i as int].1),
                forall|p: Seq<char>| #[trigger] totals@.contains_key(p) <==> (has_under(before, p) || (is_ancestor(p, path_view) && p.len() >= end)),
                forall|p: Seq<char>| #[trigger] totals@.contains_key(p) ==> totals@[p] == saturated(
                    under_total(before, p) + if is_ancestor(p, path_view) && p.len() >= end { bytes as nat } else { 0 }),
                forall|a: int, b: int| 0 <= a < b < keys@.len() ==> #[trigger] keys@[a]@ != #[trigger] keys@[b]@,
                forall|a: int| 0 <= a < keys@.len() ==> totals@.contains_key(#[trigger] keys@[a]@),
                forall|p: Seq<char>| #[trigger] totals@.contains_key(p) ==> exists|a: int| 0 <= a < keys@.len() && #[trigger] keys@[a]@ == p,
            ensures
                forall|p: Seq<char>| #[trigger] totals@.contains_key(p) <==> (has_under(before, p) || is_ancestor(p, path_view)),
                forall|p: Seq<char>| #[trigger] totals@.contains_key(p) ==> totals@[p] == saturated(
                    under_total(before, p) + if is_ancestor(p, path_view) { bytes as nat } else { 0 }),
                forall|a: int, b: int| 0 <= a < b < keys@.len() ==> #[trigger] keys@[a]@ != #[trigger] keys@[b]@,
                forall|a: int| 0 <= a < keys@.len() ==> totals@.contains_key(#[trigger] keys@[a]@),
                forall|p: Seq<char>| #[trigger] totals@.contains_key(p) ==> exists|a: int| 0 <= a < keys@.len() && #[trigger] keys@[a]@ == p,
            decreases end,
        {
            // The last `/` before `end`.
            let mut k: usize = end;
            while k > 0 && path[k - 1] != '/'
                invariant
                    k <= end <= path@.len(),
                    forall|q: int| k <= q < end ==> path@[q] != '/',
                decreases k,
            {
                k = k - 1;
            }
            if k == 0 {
                assert forall|p: Seq<char>| is_ancestor(p, path_view) implies p.len() >= end by {
                    if p.len() < end {
                        assert(path@[p.len() as int] == '/');
                    }
                }
                break;
            }
            let slash = k - 1;
            let prefix = crate::text::slice_range(path.as_slice(), 0, slash);
            let ghost pv = prefix@;
            assert(is_ancestor(pv, path_view));
            assert forall|p: Seq<char>| is_ancestor(p, path_view) && p.len() < end implies p.len() <= slash by {
                if p.len() > slash {
                    assert(path@[p.len() as int] == '/');
                }
            }
            assert forall|p: Seq<char>| is_ancestor(p, path_view) && p.len() == slash implies p == pv by {
                assert(p =~= pv);
            }
            let key = string_of(prefix.as_slice());
            let current: u64 = match totals.get(key.as_str()) {
                Some(v) => *v,
                None => 0,
            };
            proof {
                if totals@.contains_key(pv) {
                    assert(!(is_ancestor(pv, path_view) && pv.len() >= end));
                    assert(current == saturated(under_total(before, pv)));
                } else {
                    assert(!has_under(before, pv));
                    lemma_not_under_total_zero(before, pv);
                }
                lemma_saturated_add(under_total(before, pv), bytes as nat);
            }
            let updated = current.saturating_add(bytes);
            let ghost had = totals@.contains_key(pv);
            let ghost keys_before = keys@;
            if !totals.contains_key(key.as_str()) {
                keys.push(key.clone());
                assert forall|a: int, b: int| 0 <= a < b < keys@.len() implies #[trigger] keys@[a]@ != #[trigger] keys@[b]@ by {
                    if b == keys@.len() - 1 {
                        assert(keys@[b]@ == pv);
                        assert(totals@.contains_key(keys_before[a]@));
                    }
                }
            }
            totals.insert(key, updated);
            proof {
                assert forall|a: int| 0 <= a < keys@.len() implies totals@.contains_key(#[trigger] keys@[a]@) by {
                    if a < keys_before.len() {
                        assert(keys@[a] == keys_before[a]);
                    }
                }
                assert forall|p: Seq<char>| #[trigger] totals@.contains_key(p) implies exists|a: int| 0 <= a < keys@.len() && #[trigger] keys@[a]@ == p by {
                    if p == pv {
                        if had {
                            let a = choose|a: int| 0 <= a < keys_before.len() && #[trigger] keys_before[a]@ == p;
                            assert(keys@[a]@ == p);
                        } else {
                            assert(keys@[keys@.len() - 1]@ == p);
                        }
                    } else {
                        let a = choose|a: int| 0 <= a < keys_before.len() && #[trigger] keys_before[a]@ == p;
                        assert(keys@[a]@ == p);
                    }
                }
            }
            end = slash;
        }
        proof {
            assert forall|p: Seq<char>| #[trigger] totals@.contains_key(p) implies totals@[p] == saturated(under_total(after, p)) by {
                assert(under_total(after, p) == under_total(before, p) + if is_ancestor(p, after.last().0@) { file_bytes(after.last().1) } else { 0 });
            }
            assert forall|p: Seq<char>| #[trigger] totals@.contains_key(p) <==> has_under(after, p) by {
                assert(has_under(after, p) == (has_under(before, p) || is_ancestor(p, after.last().0@)));
            }
        }
        i = i + 1;
    }
    assert(files@.subrange(0, files@.len() as int) =~= files@);
    let mut out: Vec<(String, u64)> = Vec::new();
    let mut a: usize = 0;
    while a < keys.len()
        invariant
            a <= keys@.len(),
            forall|x: int, y: int| 0 <= x < y < keys@.len() ==> #[trigger] keys@[x]@ != #[trigger] keys@[y]@,
            forall|x: int| 0 <= x < keys@.len() ==> totals@.contains_key(#[trigger] keys@[x]@),
            forall|p: Seq<char>| #[trigger] totals@.contains_key(p) <==> has_under(files@, p),
            forall|p: Seq<char>| #[trigger] totals@.contains_key(p) ==> totals@[p] == saturated(under_total(files@, p)),
            out@.len() == a,
            forall|x: int| 0 <= x < a ==> #[trigger] out@[x].0@ == keys@[x]@ && out@[x].1 == totals@[keys@[x]@],
        decreases keys@.len() - a,
    {
        let value = match totals.get(keys[a].as_str()) {
            Some(v) => *v,
            None => 0,
        };
        let ghost before = out@;
        out.push((keys[a].clone(), value));
        assert forall|x: int| 0 <= x < a + 1 implies #[trigger] out@[x].0@ == keys@[x]@ && out@[x].1 == totals@[keys@[x]@] by {
            if x < a {
                assert(out@[x] == before[x]);
            }
        }
        a = a + 1;
    }
    proof {
        assert forall|p: Seq<char>| has_under(files@, p) implies exists|x: int| 0 <= x < out@.len() && #[trigger] out@[x].0@ == p by {
            assert(totals@.contains_key(p));
            let x = choose|x: int| 0 <= x < keys@.len() && #[trigger] keys@[x]@ == p;
            assert(out@[x].0@ == p);
        }
        assert forall|x: int, y: int| 0 <= x < y < out@.len() implies #[trigger] out@[x].0@ != #[trigger] out@[y].0@ by {
            assert(out@[x].0@ == keys@[x]@);
            assert(out@[y].0@ == keys@[y]@);
        }
    }
    out
}

proof fn lemma_not_under_total_zero(files: Seq<(String, i64)>, p: Seq<char>)
    requires
        !has_under(files, p),
    ensures
        under_total(files, p) == 0,
    decreases files.len(),
{
    if files.len() > 0 {
        lemma_not_under_total_zero(files.drop_last(), p);
    }
}


// ---------------------------------------------------------------------------
// Synchronizing a listing
// ---------------------------------------------------------------------------

/// Item `i` is the first in the listing with its Drive id.
pub open spec fn first_with_id(items: Seq<DriveItem>, i: int) -> bool {
    forall|j: int| 0 <= j < i ==> #[trigger] items[j].id@ != items[i].id@
}

/// The files among the first `n` items, counting each Drive id once.
pub open spec fn listed_files(items: Seq<DriveItem>, n: int) -> nat
    decreases n,
{
    if n <= 0 {
        0
    } else {
        listed_files(items, n - 1) + if first_with_id(items, n - 1) && !items[n - 1].is_dir {
            1nat
        } else {
            0nat
        }
    }
}

/// The folders among the first `n` items, counting each Drive id once.
pub open spec fn listed_folders(items: Seq<DriveItem>, n: int) -> nat
    decreases n,
{
    if n <= 0 {
        0
    } else {
        listed_folders(items, n - 1) + if first_with_id(items, n - 1) && items[n - 1].is_dir {
            1nat
        } else {
            0nat
        }
    }
}

/// The permission records of the first `n` items, counting each Drive id
/// once.
pub open spec fn listed_permissions(items: Seq<DriveItem>, n: int) -> nat
    decreases n,
{
    if n <= 0 {
        0
    } else {
        listed_permissions(items, n - 1) + if first_with_id(items, n - 1) {
            items[n - 1].permissions@.len()
        } else {
            0
        }
    }
}

/// The bytes of the files among the first `n` items, counting each Drive
/// id once.
pub open spec fn listed_bytes(items: Seq<DriveItem>, n: int) -> nat
    decreases n,
{
    if n <= 0 {
        0
    } else {
        listed_bytes(items, n - 1) + if first_with_id(items, n - 1) && !items[n - 1].is_dir {
            file_bytes(items[n - 1].size)
        } else {
            0
        }
    }
}

proof fn lemma_listed_prefix(items: Seq<DriveItem>, again: DriveItem, n: int)
    requires
        0 <= n <= items.len(),
    ensures
        listed_files(items.push(again), n) == listed_files(items, n),
        listed_folders(items.push(again), n) == listed_folders(items, n),
        listed_bytes(items.push(again), n) == listed_bytes(items, n),
        listed_permissions(items.push(again), n) == listed_permissions(items, n),
    decreases n,
{
    if n > 0 {
        lemma_listed_prefix(items, again, n - 1);
        let longer = items.push(again);
        assert(longer[n - 1] == items[n - 1]);
        if first_with_id(items, n - 1) {
            assert forall|j: int| 0 <= j < n - 1 implies #[trigger] longer[j].id@ != longer[n - 1].id@ by {
                assert(longer[j] == items[j]);
            }
        }
        if first_with_id(longer, n - 1) {
            assert forall|j: int| 0 <= j < n - 1 implies #[trigger] items[j].id@ != items[n - 1].id@ by {
                assert(longer[j] == items[j]);
            }
        }
    }
}

/// Listing an object again under a Drive id already listed changes none of
/// the counts: files, folders, bytes and permission records each count an
/// id once.
pub proof fn law_relisting_counts_nothing(items: Seq<DriveItem>, again: DriveItem, j: int)
    requires
        0 <= j < items.len(),
        items[j].id@ == again.id@,
    ensures
        listed_files(items.push(again), items.len() + 1int) == listed_files(items, items.len() as int),
        listed_folders(items.push(again), items.len() + 1int) == listed_folders(items, items.len() as int),
        listed_bytes(items.push(again), items.len() + 1int) == listed_bytes(items, items.len() as int),
        listed_permissions(items.push(again), items.len() + 1int) == listed_permissions(items, items.len() as int),
{
    let longer = items.push(again);
    lemma_listed_prefix(items, again, items.len() as int);
    assert(longer[j] == items[j]);
    assert(longer[items.len() as int] == again);
    assert(!first_with_id(longer, items.len() as int));
}

/// What a listing adds up to once repeated Drive ids are dropped.
#[derive(Debug, Clone)]
pub struct SyncPlan {
    /// Positions of the items kept, in listing order.
    pub kept: Vec<usize>,
    pub files_scanned: u64,
    pub folders_scanned: u64,
    pub bytes_discovered: u64,
    /// The permission records of the kept items (saturating).
    pub permission_records: u64,
    /// The kept files' paths and sizes.
    pub files: Vec<(String, i64)>,
}

/// Keeps the first item of each Drive id (Rclone may list one object under
/// several paths), counts kept files and folders, and totals the bytes of
/// kept files (saturating).
pub fn plan_sync(items: &[DriveItem]) -> (result: SyncPlan)
    ensures
        forall|a: int, b: int| 0 <= a < b < result.kept@.len() ==> result.kept@[a] < result.kept@[b],
        forall|a: int|
            0 <= a < result.kept@.len() ==> #[trigger] result.kept@[a] < items@.len() && first_with_id(items@, result.kept@[a] as int),
        forall|i: int|
            0 <= i < items@.len() && first_with_id(items@, i) ==> exists|a: int|
                0 <= a < result.kept@.len() && #[trigger] result.kept@[a] == i,
        result.files_scanned + result.folders_scanned == result.kept@.len(),
        result.files_scanned == listed_files(items@, items@.len() as int),
        result.folders_scanned == listed_folders(items@, items@.len() as int),
        result.bytes_discovered == saturated(listed_bytes(items@, items@.len() as int)),
        result.permission_records == saturated(listed_permissions(items@, items@.len() as int)),
{
    let mut permission_records: u64 = 0;
    let mut seen: StringHashMap<bool> = StringHashMap::new();
    let mut kept: Vec<usize> = Vec::new();
    let mut files: Vec<(String, i64)> = Vec::new();
    let mut file_count: u64 = 0;
    let mut folder_count: u64 = 0;
    let mut bytes: u64 = 0;
    let mut i: usize = 0;
    while i < items.len()
        invariant
            i <= items@.len(),
            forall|x: Seq<char>| #[trigger] seen@.contains_key(x) <==> exists|j: int| 0 <= j < i && #[trigger] items@[j].id@ == x,
            forall|a: int, b: int| 0 <= a < b < kept@.len() ==> kept@[a] < kept@[b],
            forall|a: int| 0 <= a < kept@.len() ==> #[trigger] kept@[a] < i && first_with_id(items@, kept@[a] as int),
            forall|j: int| 0 <= j < i && first_with_id(items@, j) ==> exists|a: int| 0 <= a < kept@.len() && #[trigger] kept@[a] == j,
            file_count + folder_count == kept@.len(),
            file_count == listed_files(items@, i as int),
            folder_count == listed_folders(items@, i as int),
            kept@.len() <= i,
            bytes == saturated(listed_bytes(items@, i as int)),
            permission_records == saturated(listed_permissions(items@, i as int)),
        decreases items@.len() - i,
    {
        let id = items[i].id.as_str();
        let repeated = seen.contains_key(id);
        proof {
            if repeated {
                let j = choose|j: int| 0 <= j < i && #[trigger] items@[j].id@ == items@[i as int].id@;
                assert(!first_with_id(items@, i as int));
            } else {
                assert forall|j: int| 0 <= j < i implies #[trigger] items@[j].id@ != items@[i as int].id@ by {
                    if items@[j].id@ == items@[i as int].id@ {
                        assert(seen@.contains_key(items@[i as int].id@));
                    }
                }
                assert(first_with_id(items@, i as int));
            }
        }
        if !repeated {
            let records = items[i].permissions.len() as u64;
            proof {
                lemma_saturated_add(listed_permissions(items@, i as int), records as nat);
            }
            permission_records = permission_records.saturating_add(records);
            seen.insert(items[i].id.clone(), true);
            let ghost kept_before = kept@;
            kept.push(i);
            if items[i].is_dir {
                folder_count = folder_count + 1;
            } else {
                file_count = file_count + 1;
                let size: u64 = if items[i].size > 0 { items[i].size as u64 } else { 0 };
                proof {
                    lemma_saturated_add(listed_bytes(items@, i as int), size as nat);
                }
                bytes = bytes.saturating_add(size);
                files.push((items[i].path.clone(), items[i].size));
            }
            assert forall|j: int| 0 <= j < i + 1 && first_with_id(items@, j) implies exists|a: int| 0 <= a < kept@.len() && #[trigger] kept@[a] == j by {
                if j == i {
                    assert(kept@[kept@.len() - 1] == j);
                } else {
                    let a = choose|a: int| 0 <= a < kept_before.len() && #[trigger] kept_before[a] == j;
                    assert(kept@[a] == j);
                }
            }
        } else {
            assert forall|j: int| 0 <= j < i + 1 && first_with_id(items@, j) implies exists|a: int| 0 <= a < kept@.len() && #[trigger] kept@[a] == j by {
                if j < i {
                    let a = choose|a: int| 0 <= a < kept@.len() && #[trigger] kept@[a] == j;
                }
            }
        }
        assert forall|x: Seq<char>| #[trigger] seen@.contains_key(x) <==> exists|j: int| 0 <= j < i + 1 && #[trigger] items@[j].id@ == x by {
            if exists|j: int| 0 <= j < i + 1 && #[trigger] items@[j].id@ == x {
                let j = choose|j: int| 0 <= j < i + 1 && #[trigger] items@[j].id@ == x;
                if j < i {
                    assert(exists|k: int| 0 <= k < i && #[trigger] items@[k].id@ == x);
                }
            }
        }
        i = i + 1;
    }
    assert forall|j: int| 0 <= j < items@.len() && first_with_id(items@, j) implies exists|a: int|
        0 <= a < kept@.len() && #[trigger] kept@[a] == j by {
        assert(0 <= j < i && first_with_id(items@, j));
    }
    let plan = SyncPlan {
        kept,
        files_scanned: file_count,
        folders_scanned: folder_count,
        bytes_discovered: bytes,
        permission_records,
        files,
    };
    assert forall|j: int| 0 <= j < items@.len() && first_with_id(items@, j) implies exists|a: int|
        0 <= a < plan.kept@.len() && #[trigger] plan.kept@[a] == j by {
        let a = choose|a: int| 0 <= a < plan.kept@.len() && #[trigger] plan.kept@[a] == j;
    }
    plan
}

/// Kept Drive objects are distinct: no two kept positions hold one id.
pub proof fn law_each_drive_object_counted_once(items: Seq<DriveItem>, i: int, j: int)
    requires
        0 <= i < j < items.len(),
        first_with_id(items, i),
        first_with_id(items, j),
    ensures
        items[i].id@ != items[j].id@,
{
}


/// The value that metadata entry `key` holds: where the key comes more than
/// once, the later entry counts, as in the map the entries are stored as.
pub open spec fn metadata_lookup(entries: Seq<(String, String)>, key: Seq<char>) -> Option<Seq<char>>
    decreases entries.len(),
{
    if entries.len() == 0 {
        None
    } else if entries.last().0@ == key {
        Some(entries.last().1@)
    } else {
        metadata_lookup(entries.drop_last(), key)
    }
}

fn metadata_value(item: &DriveItem, key: &str) -> (result: SqlParam)
    ensures
        match metadata_lookup(item.metadata@, key@) {
            Some(v) => result matches SqlParam::Text(s) && s@ == v,
            None => result is Null,
        },
{
    let ghost entries = item.metadata@;
    assert(entries.subrange(0, entries.len() as int) =~= entries);
    let mut i: usize = item.metadata.len();
    while i > 0
        invariant
            i <= entries.len(),
            entries == item.metadata@,
            metadata_lookup(entries, key@) == metadata_lookup(entries.subrange(0, i as int), key@),
        decreases i,
    {
        let ghost head = entries.subrange(0, i as int);
        assert(head.last() == entries[i - 1]);
        assert(head.drop_last() =~= entries.subrange(0, i - 1));
        let k = chars_of(item.metadata[i - 1].0.as_str());
        if crate::text::equals_str(k.as_slice(), key) {
            return SqlParam::Text(item.metadata[i - 1].1.clone());
        }
        i = i - 1;
    }
    assert(entries.subrange(0, 0).len() == 0);
    SqlParam::Null
}

/// The folder part of a path: the text before its last `/`.
/// The text before the last `/` of a path (`str::rsplit_once('/')`).
pub open spec fn parent_path(path: Seq<char>) -> Option<Seq<char>>
    decreases path.len(),
{
    if path.len() == 0 {
        None
    } else if path.last() == '/' {
        Some(path.drop_last())
    } else {
        parent_path(path.drop_last())
    }
}

pub fn parent_of(path: &str) -> (result: Option<String>)
    ensures
        match result {
            Some(p) => parent_path(path@) == Some(p@),
            None => parent_path(path@) is None,
        },
{
    let c = chars_of(path);
    let mut k: usize = c.len();
    assert(c@.subrange(0, k as int) =~= c@);
    while k > 0 && c[k - 1] != '/'
        invariant
            k <= c@.len(),
            parent_path(c@.subrange(0, k as int)) == parent_path(c@),
        decreases k,
    {
        assert(c@.subrange(0, k - 1) =~= c@.subrange(0, k as int).drop_last());
        k = k - 1;
    }
    if k == 0 {
        None
    } else {
        assert(c@.subrange(0, k - 1) =~= c@.subrange(0, k as int).drop_last());
        Some(string_of(slice_range(c.as_slice(), 0, k - 1).as_slice()))
    }
}

fn empty_as_null(value: &String) -> (result: SqlParam) {
    if crate::text::is_empty_text(value.as_str()) {
        SqlParam::Null
    } else {
        SqlParam::Text(value.clone())
    }
}

pub const ITEM_UPSERT_SQL: &'static str = "INSERT INTO drive_items (
            remote_name, item_id, name, relative_path, parent_path,
            is_directory, mime_type, size_bytes, modified_at, created_at,
            owner_email, metadata_json, last_seen_scan_id
         ) VALUES (?1, ?2, ?3, ?4, ?5, ?6, ?7, ?8, ?9, ?10, ?11, ?12, ?13)
         ON CONFLICT(remote_name, item_id) DO UPDATE SET
            name = excluded.name,
            relative_path = excluded.relative_path,
            parent_path = excluded.parent_path,
            is_directory = excluded.is_directory,
            mime_type = excluded.mime_type,
            size_bytes = excluded.size_bytes,
            modified_at = excluded.modified_at,
            created_at = excluded.created_at,
            owner_email = excluded.owner_email,
            metadata_json = excluded.metadata_json,
            last_seen_at = CURRENT_TIMESTAMP,
            last_seen_scan_id = excluded.last_seen_scan_id,
            is_deleted = 0,
            deleted_at = NULL";

/// The write of a listed item of inventory `remote` seen by scan `scan_id`:
/// its id, name, path, kind and metadata, and the scan.
pub open spec fn item_stored(statement: SentStatement, remote: Seq<char>, scan_id: i64, item: DriveItem) -> bool {
    let p = statement.1;
    &&& statement_is(statement, ITEM_UPSERT_SQL@, 13)
    &&& text_param(p[0], remote)
    &&& text_param(p[1], item.id@)
    &&& text_param(p[2], item.name@)
    &&& text_param(p[3], item.path@)
    &&& integer_param(p[5], if item.is_dir { 1 } else { 0 })
    &&& text_param(p[11], crate::json::string_map_json(crate::json::entries_map(crate::json::entries_view(item.metadata@))))
    &&& integer_param(p[12], scan_id as int)
}

/// Item `item` is written somewhere in `after` between `start` and `end`.
pub open spec fn item_recorded(after: Seq<SentStatement>, start: int, end: int, remote: Seq<char>, scan_id: i64, item: DriveItem) -> bool {
    exists|j: int| start <= j < end && #[trigger] item_stored(after[j], remote, scan_id, item)
}

proof fn lemma_item_kept(a: Seq<SentStatement>, b: Seq<SentStatement>, start: int, remote: Seq<char>, scan_id: i64, item: DriveItem)
    requires
        0 <= start,
        item_recorded(a, start, a.len() as int, remote, scan_id, item),
        extends(a, b),
    ensures
        item_recorded(b, start, a.len() as int, remote, scan_id, item),
{
    let j = choose|j: int| start <= j < a.len() && #[trigger] item_stored(a[j], remote, scan_id, item);
    assert(a.subrange(0, a.len() as int) =~= a);
    lemma_extends_trans(a, a, b);
    assert(b[j] == a[j]);
}

fn store_item(database: &mut Database, connection: &rusqlite::Connection, remote: &str, scan_id: i64, item: &DriveItem) -> (result:
    Result<(), DatabaseError>)
    ensures
        result matches Err(e) ==> e is Storage,
        sent_after(old(database).sent(), final(database).sent(), 1),
        item_stored(final(database).sent().last(), remote@, scan_id, *item),
{
    let metadata = crate::json::distinct_entries(&item.metadata);
    let metadata_json = crate::json::json_of_string_map(&metadata);
    let size = if item.size >= 0 { SqlParam::Integer(item.size) } else { SqlParam::Null };
    let parent = match parent_of(item.path.as_str()) {
        Some(p) => SqlParam::Text(p),
        None => SqlParam::Null,
    };
    let params = vec![
            SqlParam::Text(string_from(remote)),
            SqlParam::Text(item.id.clone()),
            SqlParam::Text(item.name.clone()),
            SqlParam::Text(item.path.clone()),
            parent,
            SqlParam::Integer(if item.is_dir { 1 } else { 0 }),
            empty_as_null(&item.mime_type),
            size,
            empty_as_null(&item.mod_time),
            metadata_value(item, "btime"),
            metadata_value(item, "owner"),
            SqlParam::Text(metadata_json),
            SqlParam::Integer(scan_id),
        ];
    send(database, connection, ITEM_UPSERT_SQL, params.as_slice())?;
    Ok(())
}

pub const PERMISSIONS_CLEAR_SQL: &'static str = "DELETE FROM drive_permissions WHERE remote_name = ?1 AND item_id = ?2";

pub const PERMISSION_INSERT_SQL: &'static str = "INSERT INTO drive_permissions (
                remote_name, item_id, permission_key, permission_id,
                permission_type, role, email_address, display_name,
                domain, raw_json, last_seen_scan_id
             ) VALUES (?1, ?2, ?3, ?4, ?5, ?6, ?7, ?8, ?9, ?10, ?11)";

fn store_permissions(database: &mut Database, connection: &rusqlite::Connection, remote: &str, scan_id: i64, item: &DriveItem) -> (result:
    Result<u64, DatabaseError>)
    ensures
        result matches Ok(n) ==> n == item.permissions@.len(),
        result matches Err(e) ==> e is Storage,
        extends(old(database).sent(), final(database).sent()),
{
    let ghost before = database.sent();
    send(
        database,
        connection,
        PERMISSIONS_CLEAR_SQL,
        vec![SqlParam::Text(string_from(remote)), SqlParam::Text(item.id.clone())].as_slice(),
    )?;
    let mut count: u64 = 0;
    let mut i: usize = 0;
    while i < item.permissions.len()
        invariant
            i <= item.permissions@.len(),
            count == i,
            before == old(database).sent(),
            extends(before, database.sent()),
        decreases item.permissions@.len() - i,
    {
        let p = &item.permissions[i];
        let ghost previous = database.sent();
        let sent = send(
            database,
            connection,
            PERMISSION_INSERT_SQL,
            vec![
                SqlParam::Text(string_from(remote)),
                SqlParam::Text(item.id.clone()),
                SqlParam::Text(permission_key(p)),
                field_param(&p.value, "id"),
                field_param(&p.value, "type"),
                field_param(&p.value, "role"),
                field_param(&p.value, "emailAddress"),
                field_param(&p.value, "displayName"),
                field_param(&p.value, "domain"),
                SqlParam::Text(p.raw_json.clone()),
                SqlParam::Integer(scan_id),
            ].as_slice(),
        );
        proof {
            lemma_extends_trans(before, previous, database.sent());
        }
        sent?;
        count = count + 1;
        i = i + 1;
    }
    Ok(count)
}

pub const FOLDER_SIZE_SQL: &'static str = "UPDATE drive_items
             SET cumulative_size_bytes = ?3
             WHERE remote_name = ?1 AND relative_path = ?2 AND is_directory = 1";

fn store_folder_sizes(database: &mut Database, connection: &rusqlite::Connection, remote: &str, totals: &Vec<(String, u64)>) -> (result:
    Result<(), DatabaseError>)
    ensures
        result matches Err(e) ==> e is Storage,
        extends(old(database).sent(), final(database).sent()),
{
    let ghost before = database.sent();
    assert(before.subrange(0, before.len() as int) =~= before);
    let mut i: usize = 0;
    while i < totals.len()
        invariant
            i <= totals@.len(),
            before == old(database).sent(),
            extends(before, database.sent()),
        decreases totals@.len() - i,
    {
        let ghost previous = database.sent();
        let sent = send(
            database,
            connection,
            FOLDER_SIZE_SQL,
            vec![
                SqlParam::Text(string_from(remote)),
                SqlParam::Text(totals[i].0.clone()),
                SqlParam::Integer(totals[i].1 as i64),
            ].as_slice(),
        );
        proof {
            lemma_extends_trans(before, previous, database.sent());
        }
        sent?;
        i = i + 1;
    }
    Ok(())
}

pub const COMPLETED_AT_SQL: &'static str = "SELECT completed_at FROM scan_runs WHERE id = ?1";

fn completed_at(database: &mut Database, connection: &rusqlite::Connection, scan_id: i64) -> (result: Result<String, DatabaseError>)
    ensures
        result matches Err(e) ==> e is Storage,
        final(database).sent() == old(database).sent().push((COMPLETED_AT_SQL@, seq![SqlParam::Integer(scan_id)])),
{
    let params = vec![SqlParam::Integer(scan_id)];
    assert(params@ =~= seq![SqlParam::Integer(scan_id)]);
    let (columns, rows) = send_query(database, connection, COMPLETED_AT_SQL, params.as_slice())?;
    if rows.len() == 0 || columns < 1 {
        return Ok(String::new());
    }
    Ok(text_or_empty(&rows[0], 0))
}

pub const RESET_FOLDER_SIZES_SQL: &'static str = "UPDATE drive_items
         SET cumulative_size_bytes = 0
         WHERE remote_name = ?1 AND is_directory = 1 AND last_seen_scan_id = ?2";

pub const MARK_UNSEEN_DELETED_SQL: &'static str = "UPDATE drive_items
             SET is_deleted = 1,
                 deleted_at = COALESCE(deleted_at, CURRENT_TIMESTAMP)
             WHERE remote_name = ?1
               AND last_seen_scan_id <> ?2
               AND is_deleted = 0";

pub const SCAN_COMPLETE_SQL: &'static str = "UPDATE scan_runs SET
            status = 'complete', completed_at = CURRENT_TIMESTAMP, error_message = NULL,
            files_scanned = ?2, folders_scanned = ?3, permissions_scanned = ?4,
            bytes_discovered = ?5, deleted_items = ?6
         WHERE id = ?1";

/// What storing a listing sends after `before`: in a transaction, a write
/// of every Drive object of the listing (its first listing) with the scan
/// that saw it; then the folder sizes; for an authoritative listing, the
/// statement marking deleted every item of the inventory that scan did not
/// see; the scan completed with the summary's counts; and the read of its
/// completion time.
pub open spec fn listing_synchronized(
    before: Seq<SentStatement>,
    after: Seq<SentStatement>,
    scope: Seq<char>,
    scan_id: i64,
    items: Seq<DriveItem>,
    authoritative: bool,
    summary: InventorySummary,
) -> bool {
    let n = before.len() as int;
    let m = after.len() as int;
    let tail = if authoritative { 4int } else { 3int };
    &&& m >= n + 1 + tail
    &&& after.subrange(0, n) == before
    &&& after[n] == ("BEGIN"@, Seq::<SqlParam>::empty())
    &&& forall|i: int|
        0 <= i < items.len() && first_with_id(items, i) ==> item_recorded(after, n + 1, m - tail, scope, scan_id, #[trigger] items[i])
    &&& authoritative ==> statement_is(after[m - 4], MARK_UNSEEN_DELETED_SQL@, 2) && text_param(after[m - 4].1[0], scope)
        && integer_param(after[m - 4].1[1], scan_id as int)
    &&& statement_is(after[m - 3], SCAN_COMPLETE_SQL@, 6)
    &&& integer_param(after[m - 3].1[0], scan_id as int)
    &&& integer_param(after[m - 3].1[1], summary.files_scanned as i64 as int)
    &&& integer_param(after[m - 3].1[2], summary.folders_scanned as i64 as int)
    &&& integer_param(after[m - 3].1[3], summary.permissions_scanned as i64 as int)
    &&& integer_param(after[m - 3].1[4], summary.bytes_discovered as i64 as int)
    &&& after[m - 2] == (COMPLETED_AT_SQL@, seq![SqlParam::Integer(scan_id)])
    &&& after.last() == ("COMMIT"@, Seq::<SqlParam>::empty())
}

/// Stores a listing of an inventory in one transaction: each Drive object
/// once (its first listing), its permissions when asked, the size of every
/// folder holding its files, and the scan's totals. An authoritative listing
/// also marks every item it did not include as deleted.
pub fn synchronize_drive_inner(
    database: &mut Database,
    inventory_scope: &str,
    scan_id: i64,
    items: &[DriveItem],
    include_permissions: bool,
    authoritative: bool,
) -> (result: Result<InventorySummary, DatabaseError>)
    ensures
        result matches Err(e) ==> e is Storage,
        result matches Ok(s) ==> s.bytes_discovered == saturated(listed_bytes(items@, items@.len() as int))
            && s.files_scanned == listed_files(items@, items@.len() as int)
            && s.folders_scanned == listed_folders(items@, items@.len() as int)
            && (!authoritative ==> s.deleted_items == 0) && (!include_permissions ==> s.permissions_scanned == 0)
            && (include_permissions ==> s.permissions_scanned == saturated(listed_permissions(items@, items@.len() as int))),
        result matches Ok(s) ==> listing_synchronized(
            old(database).sent(),
            final(database).sent(),
            inventory_scope@,
            scan_id,
            items@,
            authoritative,
            s,
        ),
{
    let plan = plan_sync(items);
    let connection = database.connect()?;
    let ghost before = database.sent();
    send_batch(database, &connection, "BEGIN")?;
    let ghost start = database.sent();
    assert(start.subrange(0, before.len() as int) =~= before);
    assert(start.subrange(0, start.len() as int) =~= start);
    let mut k: usize = 0;
    while k < plan.kept.len()
        invariant
            k <= plan.kept@.len(),
            forall|a: int| 0 <= a < plan.kept@.len() ==> #[trigger] plan.kept@[a] < items@.len(),
            start.len() == before.len() + 1,
            extends(before, start),
            start[before.len() as int] == ("BEGIN"@, Seq::<SqlParam>::empty()),
            extends(start, database.sent()),
            forall|a: int|
                0 <= a < k ==> item_recorded(
                    database.sent(),
                    start.len() as int,
                    database.sent().len() as int,
                    inventory_scope@,
                    scan_id,
                    items@[#[trigger] plan.kept@[a] as int],
                ),
        decreases plan.kept@.len() - k,
    {
        let ghost previous = database.sent();
        let item = &items[plan.kept[k]];
        let stored = store_item(database, &connection, inventory_scope, scan_id, item);
        let ghost after_item = database.sent();
        proof {
            lemma_extends_trans(start, previous, after_item);
        }
        stored?;
        if include_permissions {
            let permitted = store_permissions(database, &connection, inventory_scope, scan_id, item);
            proof {
                lemma_extends_trans(start, after_item, database.sent());
            }
            permitted?;
        }
        proof {
            let now = database.sent();
            assert(now.subrange(0, now.len() as int) =~= now);
            assert(extends(after_item, now)) by {
                if !include_permissions {
                    assert(now.subrange(0, after_item.len() as int) =~= after_item);
                }
            }
            lemma_extends_trans(previous, after_item, now);
            assert forall|a: int| 0 <= a < k + 1 implies item_recorded(
                now,
                start.len() as int,
                now.len() as int,
                inventory_scope@,
                scan_id,
                items@[#[trigger] plan.kept@[a] as int],
            ) by {
                if a < k {
                    lemma_item_kept(previous, now, start.len() as int, inventory_scope@, scan_id, items@[plan.kept@[a] as int]);
                } else {
                    let j = previous.len() as int;
                    assert(item_stored(after_item[j], inventory_scope@, scan_id, *item));
                    assert(now.subrange(0, after_item.len() as int)[j] == now[j]);
                    assert(now[j] == after_item[j]);
                    assert(item_stored(now[j], inventory_scope@, scan_id, items@[plan.kept@[a] as int]));
                }
            }
        }
        k = k + 1;
    }
    let ghost stored_all = database.sent();
    let permissions_scanned: u64 = if include_permissions { plan.permission_records } else { 0 };
    send(
        database,
        &connection,
        RESET_FOLDER_SIZES_SQL,
        vec![SqlParam::Text(string_from(inventory_scope)), SqlParam::Integer(scan_id)].as_slice(),
    )?;
    let totals = folder_totals(plan.files.as_slice());
    store_folder_sizes(database, &connection, inventory_scope, &totals)?;
    let ghost sized = database.sent();
    let mut deleted_items: u64 = 0;
    if authoritative {
        let params = vec![SqlParam::Text(string_from(inventory_scope)), SqlParam::Integer(scan_id)];
        let n = send(database, &connection, MARK_UNSEEN_DELETED_SQL, params.as_slice())?;
        deleted_items = n as u64;
    }
    let ghost marked = database.sent();
    let done = vec![
        SqlParam::Integer(scan_id),
        SqlParam::Integer(plan.files_scanned as i64),
        SqlParam::Integer(plan.folders_scanned as i64),
        SqlParam::Integer(permissions_scanned as i64),
        SqlParam::Integer(plan.bytes_discovered as i64),
        SqlParam::Integer(deleted_items as i64),
    ];
    send(database, &connection, SCAN_COMPLETE_SQL, done.as_slice())?;
    let completed = completed_at(database, &connection, scan_id)?;
    send_batch(database, &connection, "COMMIT")?;
    proof {
        let after = database.sent();
        let m = after.len() as int;
        lemma_extends_trans(before, start, stored_all);
        assert(extends(stored_all, sized)) by {
            lemma_extends_trans(stored_all, stored_all.push(after[stored_all.len() as int]), sized);
        }
        assert(extends(sized, after)) by {
            assert(after.subrange(0, sized.len() as int) =~= sized);
        }
        lemma_extends_trans(stored_all, sized, after);
        lemma_extends_trans(before, stored_all, after);
        assert(m - 4 >= stored_all.len() || !authoritative);
        assert forall|i: int|
            0 <= i < items@.len() && first_with_id(items@, i) implies item_recorded(
                after,
                before.len() as int + 1,
                m - if authoritative { 4int } else { 3int },
                inventory_scope@,
                scan_id,
                #[trigger] items@[i],
            ) by {
            let a = choose|a: int| 0 <= a < plan.kept@.len() && #[trigger] plan.kept@[a] == i;
            let j = choose|j: int|
                start.len() <= j < stored_all.len() && #[trigger] item_stored(stored_all[j], inventory_scope@, scan_id, items@[plan.kept@[a] as int]);
            assert(after[j] == stored_all[j]);
        }
    }
    Ok(
        InventorySummary {
            completed_at: completed,
            files_scanned: plan.files_scanned,
            folders_scanned: plan.folders_scanned,
            permissions_scanned,
            bytes_discovered: plan.bytes_discovered,
            deleted_items,
        },
    )
}

/// Synchronizes a complete My Drive listing.
pub fn synchronize_my_drive(database: &mut Database, scan_id: i64, items: &[DriveItem], include_permissions: bool) -> (result:
    Result<InventorySummary, DatabaseError>)
    ensures
        result matches Err(e) ==> e is Storage,
        result matches Ok(s) ==> s.bytes_discovered == saturated(listed_bytes(items@, items@.len() as int))
            && s.files_scanned == listed_files(items@, items@.len() as int)
            && s.folders_scanned == listed_folders(items@, items@.len() as int)
            && (!include_permissions ==> s.permissions_scanned == 0)
            && (include_permissions ==> s.permissions_scanned == saturated(listed_permissions(items@, items@.len() as int))),
        result matches Ok(s) ==> listing_synchronized(
            old(database).sent(),
            final(database).sent(),
            MY_DRIVE_SCOPE@,
            scan_id,
            items@,
            true,
            s,
        ),
{
    synchronize_drive(database, MY_DRIVE_SCOPE, scan_id, items, include_permissions)
}

/// Synchronizes a complete listing: what it lacks is marked deleted.
pub fn synchronize_drive(
    database: &mut Database,
    inventory_scope: &str,
    scan_id: i64,
    items: &[DriveItem],
    include_permissions: bool,
) -> (result: Result<InventorySummary, DatabaseError>)
    ensures
        result matches Err(e) ==> e is Storage,
        result matches Ok(s) ==> s.bytes_discovered == saturated(listed_bytes(items@, items@.len() as int))
            && s.files_scanned == listed_files(items@, items@.len() as int)
            && s.folders_scanned == listed_folders(items@, items@.len() as int)
            && (!include_permissions ==> s.permissions_scanned == 0)
            && (include_permissions ==> s.permissions_scanned == saturated(listed_permissions(items@, items@.len() as int))),
        result matches Ok(s) ==> listing_synchronized(
            old(database).sent(),
            final(database).sent(),
            inventory_scope@,
            scan_id,
            items@,
            true,
            s,
        ),
{
    synchronize_drive_inner(database, inventory_scope, scan_id, items, include_permissions, true)
}

/// Stores a partial listing (with permissions); nothing is marked deleted.
pub fn refresh_drive_items(database: &mut Database, inventory_scope: &str, scan_id: i64, items: &[DriveItem]) -> (result:
    Result<InventorySummary, DatabaseError>)
    ensures
        result matches Err(e) ==> e is Storage,
        result matches Ok(s) ==> s.deleted_items == 0
            && s.permissions_scanned == saturated(listed_permissions(items@, items@.len() as int))
            && s.bytes_discovered == saturated(listed_bytes(items@, items@.len() as int))
            && s.files_scanned == listed_files(items@, items@.len() as int)
            && s.folders_scanned == listed_folders(items@, items@.len() as int),
        result matches Ok(s) ==> listing_synchronized(
            old(database).sent(),
            final(database).sent(),
            inventory_scope@,
            scan_id,
            items@,
            false,
            s,
        ),
{
    synchronize_drive_inner(database, inventory_scope, scan_id, items, true, false)
}

/// Marks an item (and, for a folder, everything inside it) deleted, then
/// recomputes every folder size of the inventory and completes the scan.
pub fn mark_drive_item_missing(database: &mut Database, inventory_scope: &str, scan_id: i64, item_id: &str) -> (result:
    Result<InventorySummary, DatabaseError>)
    ensures
        result matches Err(e) ==> e is Storage,
        result matches Ok(s) ==> s.files_scanned == 0 && s.folders_scanned == 0 && s.bytes_discovered == 0,
{
    let connection = database.connect()?;
    run_batch(&connection, "BEGIN")?;
    let scope = SqlParam::Text(string_from(inventory_scope));
    let (columns, rows) = query_rows(
        &connection,
        "SELECT relative_path, is_directory FROM drive_items
         WHERE remote_name = ?1 AND item_id = ?2 AND is_deleted = 0",
        vec![SqlParam::Text(string_from(inventory_scope)), SqlParam::Text(string_from(item_id))].as_slice(),
    )?;
    if rows.len() == 0 || columns < 2 {
        return Err(DatabaseError::Storage(string_from("Query returned no rows")));
    }
    let relative_path = text_or_empty(&rows[0], 0);
    let is_directory = flag_at(&rows[0], 1);
    let mut prefix: Vec<char> = Vec::new();
    push_str(&mut prefix, relative_path.as_str());
    push_str(&mut prefix, "/%");
    let deleted = run(
        &connection,
        "UPDATE drive_items
         SET is_deleted = 1, deleted_at = COALESCE(deleted_at, CURRENT_TIMESTAMP)
         WHERE remote_name = ?1 AND is_deleted = 0
           AND (item_id = ?2 OR (?3 = 1 AND relative_path LIKE ?4))",
        vec![
            SqlParam::Text(string_from(inventory_scope)),
            SqlParam::Text(string_from(item_id)),
            SqlParam::Integer(if is_directory { 1 } else { 0 }),
            SqlParam::Text(string_of(prefix.as_slice())),
        ].as_slice(),
    )? as u64;
    let (columns, rows) = query_rows(
        &connection,
        "SELECT relative_path, COALESCE(size_bytes, 0) FROM drive_items
         WHERE remote_name = ?1 AND is_deleted = 0 AND is_directory = 0",
        vec![scope].as_slice(),
    )?;
    let mut files: Vec<(String, i64)> = Vec::new();
    if columns >= 2 {
        let mut i: usize = 0;
        while i < rows.len()
            invariant
                i <= rows@.len(),
                columns >= 2,
                forall|k: int| 0 <= k < rows@.len() ==> #[trigger] rows@[k].len() == columns,
            decreases rows@.len() - i,
        {
            files.push((text_or_empty(&rows[i], 0), integer_or_zero(&rows[i], 1)));
            i = i + 1;
        }
    }
    run(
        &connection,
        "UPDATE drive_items SET cumulative_size_bytes = 0
         WHERE remote_name = ?1 AND is_directory = 1",
        vec![SqlParam::Text(string_from(inventory_scope))].as_slice(),
    )?;
    let totals = folder_totals(files.as_slice());
    store_folder_sizes(database, &connection, inventory_scope, &totals)?;
    run(
        &connection,
        "UPDATE scan_runs SET status = 'complete', completed_at = CURRENT_TIMESTAMP,
             error_message = NULL, deleted_items = ?2 WHERE id = ?1",
        vec![SqlParam::Integer(scan_id), SqlParam::Integer(deleted as i64)].as_slice(),
    )?;
    let completed = completed_at(database, &connection, scan_id)?;
    run_batch(&connection, "COMMIT")?;
    Ok(
        InventorySummary {
            completed_at: completed,
            files_scanned: 0,
            folders_scanned: 0,
            permissions_scanned: 0,
            bytes_discovered: 0,
            deleted_items: deleted,
        },
    )
}

} // verus!
