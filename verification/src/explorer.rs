//! View models of the Drive explorer pages: rows, identity badges, tag
//! pills, the summary line and the links that keep the filters in place.
use vstd::prelude::*;
use vstd::string::StringSliceAdditionalSpecFns;

use crate::database::inventory::{DriveExplorerItem, PermissionIdentity, Tag, DELETED_TAG_FILTER};
use crate::format::{format_bytes, size_text};
use crate::text::{chars_of, contains_seq, join, push_chars, push_str, starts_with, string_from, string_of, trim};

verus! {

/// Bytes that stay as they are in a query value.
pub open spec fn unreserved(b: u8) -> bool {
    (48 <= b <= 57) || (65 <= b <= 90) || (97 <= b <= 122) || b == 45 || b == 95 || b == 46 || b == 126
}

/// An upper-case hexadecimal digit.
pub open spec fn hex_digit_char(n: nat) -> char {
    if n < 10 {
        (48 + n) as char
    } else {
        (55 + n) as char
    }
}

/// A query value percent-encoded byte by byte.
pub open spec fn percent_encoded(bytes: Seq<u8>) -> Seq<char>
    decreases bytes.len(),
{
    if bytes.len() == 0 {
        Seq::empty()
    } else {
        let b = bytes.last();
        percent_encoded(bytes.drop_last()) + if unreserved(b) {
            seq![b as char]
        } else {
            seq!['%', hex_digit_char((b / 16) as nat), hex_digit_char((b % 16) as nat)]
        }
    }
}

fn hex_digit(n: u8) -> (c: char)
    requires
        n < 16,
    ensures
        c == hex_digit_char(n as nat),
{
    if n < 10 {
        (48 + n) as char
    } else {
        (55 + n) as char
    }
}

/// Appends the percent-encoding of `value`.
pub fn push_encoded(v: &mut Vec<char>, value: &str)
    ensures
        final(v)@ == old(v)@ + percent_encoded(value.spec_bytes()),
{
    let bytes = value.as_bytes();
    let ghost start = v@;
    let mut i: usize = 0;
    while i < bytes.len()
        invariant
            i <= bytes@.len(),
            bytes@ == value.spec_bytes(),
            v@ == start + percent_encoded(bytes@.subrange(0, i as int)),
        decreases bytes.len() - i,
    {
        let b = bytes[i];
        assert(bytes@.subrange(0, i + 1).drop_last() =~= bytes@.subrange(0, i as int));
        if (48 <= b && b <= 57) || (65 <= b && b <= 90) || (97 <= b && b <= 122) || b == 45 || b == 95 || b == 46
            || b == 126 {
            v.push(b as char);
        } else {
            v.push('%');
            v.push(hex_digit(b / 16));
            v.push(hex_digit(b % 16));
        }
        assert(v@ =~= start + percent_encoded(bytes@.subrange(0, i + 1)));
        i = i + 1;
    }
    assert(bytes@.subrange(0, bytes@.len() as int) =~= bytes@);
}

/// A value percent-encoded for a query string: ASCII letters, digits and
/// `-_.~` stay, every other byte of its UTF-8 form becomes `%XX`.
pub fn encode_query_value(value: &str) -> (result: String)
    ensures
        result@ == percent_encoded(value.spec_bytes()),
{
    let mut v: Vec<char> = Vec::new();
    push_encoded(&mut v, value);
    assert(v@ =~= percent_encoded(value.spec_bytes()));
    string_of(v.as_slice())
}

pub open spec fn hex_digit_value(c: char) -> nat {
    if '0' <= c && c <= '9' {
        (c as u32 - 48) as nat
    } else if 'a' <= c && c <= 'f' {
        (c as u32 - 87) as nat
    } else {
        (c as u32 - 55) as nat
    }
}

/// The value of a sequence of hexadecimal digits.
pub open spec fn hex_digits_value(s: Seq<char>) -> nat
    decreases s.len(),
{
    if s.len() == 0 {
        0
    } else {
        hex_digits_value(s.drop_last()) * 16 + hex_digit_value(s.last())
    }
}

/// `s` without its leading `#` characters (`trim_start_matches('#')`).
pub open spec fn without_hashes(s: Seq<char>) -> Seq<char>
    decreases s.len(),
{
    if s.len() > 0 && s[0] == '#' {
        without_hashes(s.drop_first())
    } else {
        s
    }
}

/// What `u32::from_str_radix(s, 16)` accepts, and the value it gives.
pub open spec fn u32_hex_value(s: Seq<char>) -> Option<nat> {
    let d = crate::text::unsigned_digits(s);
    if d.len() > 0 && (forall|i: int| 0 <= i < d.len() ==> crate::text::is_ascii_hexdigit(#[trigger] d[i]))
        && hex_digits_value(d) <= u32::MAX {
        Some(hex_digits_value(d))
    } else {
        None
    }
}

/// The colour a tag pill's text needs to stay readable on the tag's colour:
/// dark on light colours, white on dark ones; an unreadable colour counts
/// as the default grey `#6c757d`.
pub open spec fn readable_text_color(color: Seq<char>) -> Seq<char> {
    let value = match u32_hex_value(without_hashes(color)) {
        Some(v) => v,
        None => 0x6c757d,
    };
    let red = (value / 65536) % 256;
    let green = (value / 256) % 256;
    let blue = value % 256;
    if red * 299 + green * 587 + blue * 114 > 150_000 {
        "#212529"@
    } else {
        "#ffffff"@
    }
}

fn hex_value_of(c: char) -> (v: u64)
    requires
        crate::text::is_ascii_hexdigit(c),
    ensures
        v == hex_digit_value(c),
        v < 16,
{
    if '0' <= c && c <= '9' {
        (c as u32 - 48) as u64
    } else if 'a' <= c && c <= 'f' {
        (c as u32 - 87) as u64
    } else {
        (c as u32 - 55) as u64
    }
}

fn parse_u32_hex(s: &[char]) -> (result: Option<u64>)
    ensures
        match result {
            Some(v) => u32_hex_value(s@) == Some(v as nat),
            None => u32_hex_value(s@) is None,
        },
{
    let start: usize = if s.len() > 0 && s[0] == '+' { 1 } else { 0 };
    let digits = crate::text::slice_range(s, start, s.len());
    assert(digits@ =~= crate::text::unsigned_digits(s@));
    if digits.len() == 0 {
        return None;
    }
    let mut value: u64 = 0;
    let mut i: usize = 0;
    while i < digits.len()
        invariant
            i <= digits@.len(),
            digits@ == crate::text::unsigned_digits(s@),
            forall|k: int| 0 <= k < i ==> crate::text::is_ascii_hexdigit(#[trigger] digits@[k]),
            value == hex_digits_value(digits@.subrange(0, i as int)),
            value <= u32::MAX,
        decreases digits.len() - i,
    {
        if !crate::text::char_is_ascii_hexdigit(digits[i]) {
            assert(!crate::text::is_ascii_hexdigit(digits@[i as int]));
            return None;
        }
        let d = hex_value_of(digits[i]);
        assert(digits@.subrange(0, i + 1).drop_last() =~= digits@.subrange(0, i as int));
        let next = value * 16 + d;
        if next > 4294967295 {
            proof {
                lemma_hex_prefix_monotone(digits@, i as int + 1);
            }
            return None;
        }
        value = next;
        i = i + 1;
    }
    assert(digits@.subrange(0, digits@.len() as int) =~= digits@);
    Some(value)
}

/// A longer prefix of hexadecimal digits never has a smaller value.
pub proof fn lemma_hex_prefix_monotone(s: Seq<char>, k: int)
    requires
        0 <= k <= s.len(),
    ensures
        hex_digits_value(s.subrange(0, k)) <= hex_digits_value(s),
    decreases s.len() - k,
{
    if k < s.len() {
        lemma_hex_prefix_monotone(s, k + 1);
        assert(s.subrange(0, k + 1).drop_last() =~= s.subrange(0, k));
    } else {
        assert(s.subrange(0, k) =~= s);
    }
}

fn strip_hashes(s: &[char]) -> (result: Vec<char>)
    ensures
        result@ == without_hashes(s@),
{
    let mut k: usize = 0;
    assert(s@.subrange(0, s@.len() as int) =~= s@);
    while k < s.len() && s[k] == '#'
        invariant
            k <= s@.len(),
            without_hashes(s@.subrange(k as int, s@.len() as int)) == without_hashes(s@),
        decreases s.len() - k,
    {
        assert(s@.subrange(k + 1, s@.len() as int) =~= s@.subrange(k as int, s@.len() as int).drop_first());
        k = k + 1;
    }
    crate::text::slice_range(s, k, s.len())
}

/// The text colour for a tag pill of the given background colour.
pub fn tag_text_color(color: &str) -> (result: &'static str)
    ensures
        result@ == readable_text_color(color@),
{
    let c = chars_of(color);
    assert(c@.subrange(0, c@.len() as int) =~= c@);
    let digits = strip_hashes(c.as_slice());
    let value: u64 = match parse_u32_hex(digits.as_slice()) {
        Some(v) => v,
        None => 0x6c757d,
    };
    let red = (value / 65536) % 256;
    let green = (value / 256) % 256;
    let blue = value % 256;
    if red * 299 + green * 587 + blue * 114 > 150_000 {
        "#212529"
    } else {
        "#ffffff"
    }
}

/// The icon of an explorer row, from its MIME type.
pub open spec fn mime_icon_class(is_directory: bool, mime_type: Option<Seq<char>>) -> Seq<char> {
    let value = match mime_type {
        Some(m) => m,
        None => Seq::empty(),
    };
    if is_directory {
        "bi-folder-fill"@
    } else if contains_seq(value, "spreadsheet"@) || contains_seq(value, "excel"@) {
        "bi-file-earmark-spreadsheet"@
    } else if contains_seq(value, "presentation"@) || contains_seq(value, "powerpoint"@) {
        "bi-file-earmark-slides"@
    } else if contains_seq(value, "document"@) || contains_seq(value, "word"@) || starts_with(value, "text/"@) {
        "bi-file-earmark-text"@
    } else if value == "application/pdf"@ {
        "bi-file-earmark-pdf"@
    } else if starts_with(value, "image/"@) {
        "bi-file-earmark-image"@
    } else if starts_with(value, "audio/"@) {
        "bi-file-earmark-music"@
    } else if starts_with(value, "video/"@) {
        "bi-file-earmark-play"@
    } else if contains_seq(value, "zip"@) || contains_seq(value, "compressed"@) {
        "bi-file-earmark-zip"@
    } else {
        "bi-file-earmark"@
    }
}

fn has(value: &[char], part: &str) -> (result: bool)
    ensures
        result == contains_seq(value@, part@),
{
    let p = chars_of(part);
    crate::text::find_seq(value, p.as_slice()).is_some()
}

/// The Bootstrap icon for an explorer row.
pub fn mime_icon(is_directory: bool, mime_type: Option<&str>) -> (result: &'static str)
    ensures
        result@ == mime_icon_class(
            is_directory,
            match mime_type {
                Some(m) => Some(m@),
                None => None,
            },
        ),
{
    if is_directory {
        return "bi-folder-fill";
    }
    let value: Vec<char> = match mime_type {
        Some(m) => chars_of(m),
        None => Vec::new(),
    };
    let v = value.as_slice();
    if has(v, "spreadsheet") || has(v, "excel") {
        "bi-file-earmark-spreadsheet"
    } else if has(v, "presentation") || has(v, "powerpoint") {
        "bi-file-earmark-slides"
    } else if has(v, "document") || has(v, "word") || crate::text::starts_with_str(v, "text/") {
        "bi-file-earmark-text"
    } else if crate::text::equals_str(v, "application/pdf") {
        "bi-file-earmark-pdf"
    } else if crate::text::starts_with_str(v, "image/") {
        "bi-file-earmark-image"
    } else if crate::text::starts_with_str(v, "audio/") {
        "bi-file-earmark-music"
    } else if crate::text::starts_with_str(v, "video/") {
        "bi-file-earmark-play"
    } else if has(v, "zip") || has(v, "compressed") {
        "bi-file-earmark-zip"
    } else {
        "bi-file-earmark"
    }
}

/// How the explorer shows an owner or a permitted identity.
#[derive(Debug, Clone)]
pub struct IdentityDisplay {
    pub label: String,
    pub tagged: bool,
    pub unknown: bool,
    pub color: String,
    pub text_color: &'static str,
    pub tag_details: String,
    pub directory_url: String,
}

/// A tag on an explorer row.
#[derive(Debug, Clone)]
pub struct TagPill {
    pub name: String,
    pub description: String,
    pub color: String,
    pub text_color: &'static str,
}

/// A tag offered as a filter of the listing.
#[derive(Debug, Clone)]
pub struct TagFilterPill {
    pub slug: String,
    pub name: String,
    pub description: String,
    pub color: String,
    pub text_color: &'static str,
    pub selected: bool,
}

/// A Persons tag offered as a filter on owners or on permitted identities.
#[derive(Debug, Clone)]
pub struct IdentityTagFilterPill {
    pub slug: String,
    pub name: String,
    pub description: String,
    pub color: String,
    pub text_color: &'static str,
    pub owner_selected: bool,
    pub permission_selected: bool,
}

/// Totals over the listed items.
#[derive(Debug, Clone)]
pub struct ExplorerSummary {
    pub items: usize,
    pub files: usize,
    pub folders: usize,
    pub size_bytes: u64,
    pub size_label: String,
    pub permissions: usize,
}

/// One row of the explorer listing.
#[derive(Debug, Clone)]
pub struct DriveExplorerRow {
    pub item_id: String,
    pub name: String,
    pub is_directory: bool,
    pub name_url: String,
    pub name_new_tab: bool,
    pub mime_type: String,
    pub type_icon: &'static str,
    pub tags: Vec<TagPill>,
    pub permissions: Vec<IdentityDisplay>,
    pub size: String,
    pub modified_at: String,
    pub owner: IdentityDisplay,
    pub drive_url: String,
    pub is_deleted: bool,
    pub size_bytes: u64,
    pub permission_count: usize,
}

/// The filters, sort and position of an explorer page, as the query string
/// carries them.
#[derive(Debug, Clone)]
pub struct DrivePathQuery {
    pub drive: String,
    pub path: String,
    pub q: String,
    pub sort: String,
    pub direction: String,
    pub tag: String,
    pub tagged: usize,
    pub untagged: usize,
    pub type_filter: String,
    pub size_filter: String,
    pub modified_filter: String,
    pub owner_filter: String,
    pub permission_filter: String,
    pub owner_identity_tag: String,
    pub permission_identity_tag: String,
    pub include_deleted: bool,
    pub show_inaccessible: bool,
    pub files_filter: String,
    pub folders_filter: String,
    pub shared_drive_manager_filter: String,
    pub shared_drive_permission_filter: String,
}

/// The label shown for a missing owner.
pub open spec fn no_value() -> Seq<char> {
    "—"@
}

/// An identity that is not in the Persons directory, though it has a name.
pub open spec fn unknown_identity(label: Seq<char>, known: bool) -> bool {
    !known && label != no_value() && trim(label).len() > 0
}

/// How one identity tag is described: its name, and its description when it has one.
pub open spec fn tag_detail(t: Tag) -> Seq<char> {
    if t.description@.len() == 0 {
        t.name@
    } else {
        t.name@ + ": "@ + t.description@
    }
}

pub open spec fn tag_details_text(label: Seq<char>, known: bool, tags: Seq<Tag>) -> Seq<char> {
    if unknown_identity(label, known) {
        "Unknown identity — not found in BOREAL Persons"@
    } else if tags.len() == 0 {
        "No identity tags"@
    } else {
        "Identity tags: "@ + join(tags.map_values(|t: Tag| tag_detail(t)), ", "@)
    }
}

/// The badge of an identity: the first identity tag colours it; an unknown
/// address links to the form that adds it to Persons.
pub open spec fn identity_shown(d: IdentityDisplay, label: Seq<char>, known: bool, tags: Seq<Tag>) -> bool {
    let unknown = unknown_identity(label, known);
    &&& d.label@ == label
    &&& d.tagged == (tags.len() > 0)
    &&& d.unknown == unknown
    &&& d.color@ == (if tags.len() > 0 {
        tags[0].color@
    } else {
        Seq::empty()
    })
    &&& d.text_color@ == (if tags.len() > 0 {
        readable_text_color(tags[0].color@)
    } else {
        "#212529"@
    })
    &&& d.tag_details@ == tag_details_text(label, known, tags)
    &&& d.directory_url@ == (if unknown && label.contains('@') {
        "/directory/new?email="@ + percent_encoded(vstd::utf8::encode_utf8(label))
    } else {
        Seq::empty()
    })
}

fn tag_detail_chars(t: &Tag) -> (result: Vec<char>)
    ensures
        result@ == tag_detail(*t),
{
    let mut v = chars_of(t.name.as_str());
    let description = chars_of(t.description.as_str());
    if description.len() > 0 {
        push_str(&mut v, ": ");
        push_chars(&mut v, description.as_slice());
    }
    v
}

fn push_tag_details(v: &mut Vec<char>, tags: &[Tag])
    requires
        tags@.len() > 0,
    ensures
        final(v)@ == old(v)@ + join(tags@.map_values(|t: Tag| tag_detail(t)), ", "@),
{
    let ghost start = v@;
    let ghost details = tags@.map_values(|t: Tag| tag_detail(t));
    let mut i: usize = 0;
    while i < tags.len()
        invariant
            i <= tags@.len(),
            details == tags@.map_values(|t: Tag| tag_detail(t)),
            i > 0 ==> v@ == start + join(details.subrange(0, i as int), ", "@),
            i == 0 ==> v@ == start,
        decreases tags.len() - i,
    {
        let ghost before = v@;
        if i > 0 {
            push_str(v, ", ");
        }
        let detail = tag_detail_chars(&tags[i]);
        push_chars(v, detail.as_slice());
        assert(details.subrange(0, i + 1).drop_last() =~= details.subrange(0, i as int));
        assert(details[i as int] == tag_detail(tags@[i as int]));
        if i == 0 {
            assert(v@ =~= start + join(details.subrange(0, 1), ", "@));
        } else {
            assert(v@ =~= start + join(details.subrange(0, i + 1), ", "@));
        }
        i = i + 1;
    }
    assert(details.subrange(0, tags@.len() as int) =~= details);
}

/// The badge of an owner or permitted identity.
pub fn identity_display(label: String, known: bool, tags: &[Tag]) -> (d: IdentityDisplay)
    ensures
        identity_shown(d, label@, known, tags@),
{
    let chars = chars_of(label.as_str());
    let trimmed = crate::text::trim_chars(chars.as_slice());
    let unknown = !known && !crate::text::equals_str(chars.as_slice(), "—") && trimmed.len() > 0;
    let directory_url = if unknown && crate::text::contains_char(chars.as_slice(), '@') {
        let mut v = chars_of("/directory/new?email=");
        push_encoded(&mut v, label.as_str());
        string_of(v.as_slice())
    } else {
        String::new()
    };
    let tag_details = if unknown {
        string_from("Unknown identity — not found in BOREAL Persons")
    } else if tags.len() == 0 {
        string_from("No identity tags")
    } else {
        let mut v = chars_of("Identity tags: ");
        push_tag_details(&mut v, tags);
        string_of(v.as_slice())
    };
    let (color, text_color): (String, &'static str) = if tags.len() > 0 {
        (tags[0].color.clone(), tag_text_color(tags[0].color.as_str()))
    } else {
        (String::new(), "#212529")
    };
    IdentityDisplay {
        label,
        tagged: tags.len() > 0,
        unknown,
        color,
        text_color,
        tag_details,
        directory_url,
    }
}

/// The link to an explorer page with the given position, filters and sort.
pub open spec fn explorer_link(
    explorer_path: Seq<char>,
    path: Seq<u8>,
    search: Seq<u8>,
    tag: Seq<u8>,
    type_filter: Seq<u8>,
    size_filter: Seq<u8>,
    modified_filter: Seq<u8>,
    owner_filter: Seq<u8>,
    permission_filter: Seq<u8>,
    owner_identity_tag: Seq<u8>,
    permission_identity_tag: Seq<u8>,
    sort: Seq<u8>,
    direction: Seq<u8>,
    include_deleted: bool,
) -> Seq<char> {
    explorer_path + (if explorer_path.contains('?') {
        "&"@
    } else {
        "?"@
    }) + "path="@ + percent_encoded(path) + "&q="@ + percent_encoded(search) + "&tag="@ + percent_encoded(tag)
        + "&type_filter="@ + percent_encoded(type_filter) + "&size_filter="@ + percent_encoded(size_filter)
        + "&modified_filter="@ + percent_encoded(modified_filter) + "&owner_filter="@ + percent_encoded(
        owner_filter,
    ) + "&permission_filter="@ + percent_encoded(permission_filter) + "&owner_identity_tag="@
        + percent_encoded(owner_identity_tag) + "&permission_identity_tag="@ + percent_encoded(
        permission_identity_tag,
    ) + "&sort="@ + percent_encoded(sort) + "&direction="@ + percent_encoded(direction) + "&include_deleted="@
        + (if include_deleted {
        "true"@
    } else {
        "false"@
    })
}

/// The link to an explorer page with the given position, filters and sort.
pub fn explorer_url(
    explorer_path: &str,
    path: &str,
    search: &str,
    tag: &str,
    type_filter: &str,
    size_filter: &str,
    modified_filter: &str,
    owner_filter: &str,
    permission_filter: &str,
    owner_identity_tag_filter: &str,
    permission_identity_tag_filter: &str,
    sort: &str,
    direction: &str,
    include_deleted: bool,
) -> (url: String)
    ensures
        url@ == explorer_link(
            explorer_path@,
            path.spec_bytes(),
            search.spec_bytes(),
            tag.spec_bytes(),
            type_filter.spec_bytes(),
            size_filter.spec_bytes(),
            modified_filter.spec_bytes(),
            owner_filter.spec_bytes(),
            permission_filter.spec_bytes(),
            owner_identity_tag_filter.spec_bytes(),
            permission_identity_tag_filter.spec_bytes(),
            sort.spec_bytes(),
            direction.spec_bytes(),
            include_deleted,
        ),
{
    let base = chars_of(explorer_path);
    let mut v = chars_of(explorer_path);
    if crate::text::contains_char(base.as_slice(), '?') {
        v.push('&');
    } else {
        v.push('?');
    }
    push_str(&mut v, "path=");
    push_encoded(&mut v, path);
    push_str(&mut v, "&q=");
    push_encoded(&mut v, search);
    push_str(&mut v, "&tag=");
    push_encoded(&mut v, tag);
    push_str(&mut v, "&type_filter=");
    push_encoded(&mut v, type_filter);
    push_str(&mut v, "&size_filter=");
    push_encoded(&mut v, size_filter);
    push_str(&mut v, "&modified_filter=");
    push_encoded(&mut v, modified_filter);
    push_str(&mut v, "&owner_filter=");
    push_encoded(&mut v, owner_filter);
    push_str(&mut v, "&permission_filter=");
    push_encoded(&mut v, permission_filter);
    push_str(&mut v, "&owner_identity_tag=");
    push_encoded(&mut v, owner_identity_tag_filter);
    push_str(&mut v, "&permission_identity_tag=");
    push_encoded(&mut v, permission_identity_tag_filter);
    push_str(&mut v, "&sort=");
    push_encoded(&mut v, sort);
    push_str(&mut v, "&direction=");
    push_encoded(&mut v, direction);
    push_str(&mut v, "&include_deleted=");
    if include_deleted {
        push_str(&mut v, "true");
    } else {
        push_str(&mut v, "false");
    }
    proof {
        reveal_strlit("&");
        reveal_strlit("?");
    }
    assert(v@ =~= explorer_link(
        explorer_path@,
        path.spec_bytes(),
        search.spec_bytes(),
        tag.spec_bytes(),
        type_filter.spec_bytes(),
        size_filter.spec_bytes(),
        modified_filter.spec_bytes(),
        owner_filter.spec_bytes(),
        permission_filter.spec_bytes(),
        owner_identity_tag_filter.spec_bytes(),
        permission_identity_tag_filter.spec_bytes(),
        sort.spec_bytes(),
        direction.spec_bytes(),
        include_deleted,
    ));
    string_of(v.as_slice())
}

/// The direction a column header's link asks for: a second click on the
/// current ascending column sorts it descending.
pub open spec fn next_direction(current_sort: Seq<char>, descending: bool, requested_sort: Seq<char>) -> Seq<char> {
    if current_sort == requested_sort && !descending {
        "desc"@
    } else {
        "asc"@
    }
}

/// The link of a sortable column header, keeping the page's filters.
pub fn sort_url(
    explorer_path: &str,
    query: &DrivePathQuery,
    current_sort: &str,
    descending: bool,
    requested_sort: &str,
) -> (url: String)
    ensures
        url@ == explorer_link(
            explorer_path@,
            vstd::utf8::encode_utf8(query.path@),
            vstd::utf8::encode_utf8(query.q@),
            vstd::utf8::encode_utf8(query.tag@),
            vstd::utf8::encode_utf8(query.type_filter@),
            vstd::utf8::encode_utf8(query.size_filter@),
            vstd::utf8::encode_utf8(query.modified_filter@),
            vstd::utf8::encode_utf8(query.owner_filter@),
            vstd::utf8::encode_utf8(query.permission_filter@),
            vstd::utf8::encode_utf8(query.owner_identity_tag@),
            vstd::utf8::encode_utf8(query.permission_identity_tag@),
            requested_sort.spec_bytes(),
            vstd::utf8::encode_utf8(next_direction(current_sort@, descending, requested_sort@)),
            query.include_deleted,
        ),
{
    let same = crate::text::chars_equal(chars_of(current_sort).as_slice(), chars_of(requested_sort).as_slice());
    let direction: &str = if same && !descending { "desc" } else { "asc" };
    explorer_url(
        explorer_path,
        query.path.as_str(),
        query.q.as_str(),
        query.tag.as_str(),
        query.type_filter.as_str(),
        query.size_filter.as_str(),
        query.modified_filter.as_str(),
        query.owner_filter.as_str(),
        query.permission_filter.as_str(),
        query.owner_identity_tag.as_str(),
        query.permission_identity_tag.as_str(),
        requested_sort,
        direction,
        query.include_deleted,
    )
}

/// Files among the items.
pub open spec fn file_count(items: Seq<DriveExplorerItem>) -> nat
    decreases items.len(),
{
    if items.len() == 0 {
        0
    } else {
        file_count(items.drop_last()) + if items.last().is_directory {
            0nat
        } else {
            1nat
        }
    }
}

/// Bytes of the items that have a size.
pub open spec fn size_total(items: Seq<DriveExplorerItem>) -> nat
    decreases items.len(),
{
    if items.len() == 0 {
        0
    } else {
        size_total(items.drop_last()) + match items.last().size_bytes {
            Some(b) => b as nat,
            None => 0nat,
        }
    }
}

/// Permissions listed over the items.
pub open spec fn permission_total(items: Seq<DriveExplorerItem>) -> nat
    decreases items.len(),
{
    if items.len() == 0 {
        0
    } else {
        permission_total(items.drop_last()) + items.last().permissions@.len()
    }
}

/// The totals of a prefix never exceed those of the whole listing.
pub proof fn lemma_totals_of_prefix(items: Seq<DriveExplorerItem>, k: int)
    requires
        0 <= k <= items.len(),
    ensures
        size_total(items.subrange(0, k)) <= size_total(items),
        permission_total(items.subrange(0, k)) <= permission_total(items),
        file_count(items.subrange(0, k)) <= k,
    decreases items.len() - k,
{
    if k < items.len() {
        lemma_totals_of_prefix(items, k + 1);
        assert(items.subrange(0, k + 1).drop_last() =~= items.subrange(0, k));
    } else {
        assert(items.subrange(0, k) =~= items);
    }
    lemma_file_count_bound(items.subrange(0, k));
}

pub proof fn lemma_file_count_bound(items: Seq<DriveExplorerItem>)
    ensures
        file_count(items) <= items.len(),
    decreases items.len(),
{
    if items.len() > 0 {
        lemma_file_count_bound(items.drop_last());
    }
}

/// The summary line over a listing: how many items, files and folders, their
/// combined size, and how many permissions they list.
pub fn explorer_summary(items: &[DriveExplorerItem]) -> (summary: ExplorerSummary)
    requires
        size_total(items@) <= u64::MAX,
        permission_total(items@) <= usize::MAX,
    ensures
        summary.items == items@.len(),
        summary.files == file_count(items@),
        summary.folders == items@.len() - file_count(items@),
        summary.size_bytes == size_total(items@),
        summary.size_label@ == size_text(size_total(items@)),
        summary.permissions == permission_total(items@),
{
    let mut files: usize = 0;
    let mut size: u64 = 0;
    let mut permissions: usize = 0;
    let mut i: usize = 0;
    while i < items.len()
        invariant
            i <= items@.len(),
            size_total(items@) <= u64::MAX,
            permission_total(items@) <= usize::MAX,
            files == file_count(items@.subrange(0, i as int)),
            size == size_total(items@.subrange(0, i as int)),
            permissions == permission_total(items@.subrange(0, i as int)),
        decreases items.len() - i,
    {
        proof {
            lemma_totals_of_prefix(items@, i + 1);
            assert(items@.subrange(0, i + 1).drop_last() =~= items@.subrange(0, i as int));
        }
        if !items[i].is_directory {
            files = files + 1;
        }
        match items[i].size_bytes {
            Some(b) => {
                size = size + b;
            },
            None => {},
        }
        permissions = permissions + items[i].permissions.len();
        i = i + 1;
    }
    proof {
        assert(items@.subrange(0, items@.len() as int) =~= items@);
        lemma_file_count_bound(items@);
    }
    ExplorerSummary {
        items: items.len(),
        files,
        folders: items.len() - files,
        size_bytes: size,
        size_label: format_bytes(size),
        permissions,
    }
}

pub open spec fn drive_link(item_id: Seq<char>, is_directory: bool) -> Seq<char> {
    if is_directory {
        "https://drive.google.com/drive/folders/"@ + item_id
    } else {
        "https://drive.google.com/open?id="@ + item_id
    }
}

pub open spec fn direction_word(descending: bool) -> Seq<char> {
    if descending {
        "desc"@
    } else {
        "asc"@
    }
}

/// A tag pill shows the tag with readable text.
pub open spec fn pill_of(p: TagPill, t: Tag) -> bool {
    &&& p.name@ == t.name@
    &&& p.description@ == t.description@
    &&& p.color@ == t.color@
    &&& p.text_color@ == readable_text_color(t.color@)
}

/// What one explorer row shows of a listed item.  Folders link into the
/// explorer, keeping the filters and sort but not the search; files open in
/// Google Drive.
pub open spec fn row_shows(
    row: DriveExplorerRow,
    item: DriveExplorerItem,
    explorer_path: Seq<char>,
    query: DrivePathQuery,
    sort: Seq<char>,
    descending: bool,
    include_deleted: bool,
) -> bool {
    &&& row.item_id@ == item.item_id@
    &&& row.name@ == item.name@
    &&& row.is_directory == item.is_directory
    &&& row.drive_url@ == drive_link(item.item_id@, item.is_directory)
    &&& row.name_url@ == (if item.is_directory {
        explorer_link(
            explorer_path,
            vstd::utf8::encode_utf8(item.relative_path@),
            Seq::empty(),
            vstd::utf8::encode_utf8(query.tag@),
            vstd::utf8::encode_utf8(query.type_filter@),
            vstd::utf8::encode_utf8(query.size_filter@),
            vstd::utf8::encode_utf8(query.modified_filter@),
            vstd::utf8::encode_utf8(query.owner_filter@),
            vstd::utf8::encode_utf8(query.permission_filter@),
            vstd::utf8::encode_utf8(query.owner_identity_tag@),
            vstd::utf8::encode_utf8(query.permission_identity_tag@),
            vstd::utf8::encode_utf8(sort),
            vstd::utf8::encode_utf8(direction_word(descending)),
            include_deleted,
        )
    } else {
        drive_link(item.item_id@, false)
    })
    &&& row.name_new_tab == !item.is_directory
    &&& row.type_icon@ == mime_icon_class(
        item.is_directory,
        match item.mime_type {
            Some(m) => Some(m@),
            None => None,
        },
    )
    &&& row.mime_type@ == (if item.is_directory {
        "Folder"@
    } else {
        match item.mime_type {
            Some(m) => m@,
            None => "Unknown file type"@,
        }
    })
    &&& row.tags@.len() == item.tags@.len()
    &&& (forall|k: int| 0 <= k < row.tags@.len() ==> #[trigger] pill_of(row.tags@[k], item.tags@[k]))
    &&& row.permissions@.len() == item.permissions@.len()
    &&& (forall|k: int|
        0 <= k < row.permissions@.len() ==> #[trigger] identity_shown(
            row.permissions@[k],
            item.permissions@[k].label@,
            item.permissions@[k].known,
            item.permissions@[k].tags@,
        ))
    &&& row.size@ == (match item.size_bytes {
        Some(b) => size_text(b as nat),
        None => no_value(),
    })
    &&& row.modified_at@ == (match item.modified_at {
        Some(m) => m@,
        None => no_value(),
    })
    &&& identity_shown(
        row.owner,
        match item.owner_email {
            Some(e) => e@,
            None => no_value(),
        },
        item.owner_known,
        item.owner_tags@,
    )
    &&& row.is_deleted == item.is_deleted
    &&& row.size_bytes == (match item.size_bytes {
        Some(b) => b,
        None => 0,
    })
    &&& row.permission_count == item.permissions@.len()
}

pub(crate) fn tag_pill(t: &Tag) -> (p: TagPill)
    ensures
        pill_of(p, *t),
{
    TagPill {
        name: t.name.clone(),
        description: t.description.clone(),
        color: t.color.clone(),
        text_color: tag_text_color(t.color.as_str()),
    }
}

fn drive_url_of(item_id: &String, is_directory: bool) -> (url: String)
    ensures
        url@ == drive_link(item_id@, is_directory),
{
    let mut v = if is_directory {
        chars_of("https://drive.google.com/drive/folders/")
    } else {
        chars_of("https://drive.google.com/open?id=")
    };
    push_str(&mut v, item_id.as_str());
    string_of(v.as_slice())
}

fn text_or_dash(value: &Option<String>) -> (text: String)
    ensures
        text@ == match *value {
            Some(v) => v@,
            None => no_value(),
        },
{
    match value {
        Some(v) => v.clone(),
        None => string_from("—"),
    }
}

/// The explorer row of a listed item.
pub fn explorer_row(
    item: &DriveExplorerItem,
    explorer_path: &str,
    query: &DrivePathQuery,
    sort: &str,
    descending: bool,
    include_deleted: bool,
) -> (row: DriveExplorerRow)
    ensures
        row_shows(row, *item, explorer_path@, *query, sort@, descending, include_deleted),
{
    let direction: &str = if descending { "desc" } else { "asc" };
    let name_url = if item.is_directory {
        proof {
            reveal_strlit("");
        }
        explorer_url(
            explorer_path,
            item.relative_path.as_str(),
            "",
            query.tag.as_str(),
            query.type_filter.as_str(),
            query.size_filter.as_str(),
            query.modified_filter.as_str(),
            query.owner_filter.as_str(),
            query.permission_filter.as_str(),
            query.owner_identity_tag.as_str(),
            query.permission_identity_tag.as_str(),
            sort,
            direction,
            include_deleted,
        )
    } else {
        drive_url_of(&item.item_id, false)
    };
    let mime = match &item.mime_type {
        Some(m) => Some(m.as_str()),
        None => None,
    };
    let mime_type = if item.is_directory {
        string_from("Folder")
    } else {
        match &item.mime_type {
            Some(m) => m.clone(),
            None => string_from("Unknown file type"),
        }
    };
    let mut tags: Vec<TagPill> = Vec::new();
    let mut k: usize = 0;
    while k < item.tags.len()
        invariant
            k <= item.tags@.len(),
            tags@.len() == k,
            forall|j: int| 0 <= j < k ==> #[trigger] pill_of(tags@[j], item.tags@[j]),
        decreases item.tags.len() - k,
    {
        tags.push(tag_pill(&item.tags[k]));
        k = k + 1;
    }
    let mut permissions: Vec<IdentityDisplay> = Vec::new();
    let mut k: usize = 0;
    while k < item.permissions.len()
        invariant
            k <= item.permissions@.len(),
            permissions@.len() == k,
            forall|j: int|
                0 <= j < k ==> #[trigger] identity_shown(
                    permissions@[j],
                    item.permissions@[j].label@,
                    item.permissions@[j].known,
                    item.permissions@[j].tags@,
                ),
        decreases item.permissions.len() - k,
    {
        let p = &item.permissions[k];
        permissions.push(identity_display(p.label.clone(), p.known, p.tags.as_slice()));
        k = k + 1;
    }
    let size = match item.size_bytes {
        Some(b) => format_bytes(b),
        None => string_from("—"),
    };
    let owner = identity_display(text_or_dash(&item.owner_email), item.owner_known, item.owner_tags.as_slice());
    let size_bytes: u64 = match item.size_bytes {
        Some(b) => b,
        None => 0,
    };
    proof {
        reveal_strlit("");
        assert(""@ =~= Seq::<char>::empty());
    }
    DriveExplorerRow {
        item_id: item.item_id.clone(),
        name: item.name.clone(),
        is_directory: item.is_directory,
        name_url,
        name_new_tab: !item.is_directory,
        mime_type,
        type_icon: mime_icon(item.is_directory, mime),
        tags,
        permissions,
        size,
        modified_at: text_or_dash(&item.modified_at),
        owner,
        drive_url: drive_url_of(&item.item_id, item.is_directory),
        is_deleted: item.is_deleted,
        size_bytes,
        permission_count: item.permissions.len(),
    }
}

/// What an explorer page asks the inventory for, derived from its query:
/// the folder (the top level for an empty path), a known sort key (name
/// otherwise), the direction, whether deleted items are shown (also when
/// filtering on them), and the owner filter, a leading `!` excluding it.
#[derive(Debug, Clone)]
pub struct ExplorerRequest {
    pub parent: Option<String>,
    pub sort: &'static str,
    pub descending: bool,
    pub include_deleted: bool,
    pub exclude_owner: bool,
    pub owner_filter: String,
}

pub open spec fn explorer_sort_key(sort: Seq<char>) -> Seq<char> {
    if sort == "type"@ || sort == "size"@ || sort == "modified"@ || sort == "owner"@ {
        sort
    } else {
        "name"@
    }
}

pub open spec fn request_for(r: ExplorerRequest, query: DrivePathQuery) -> bool {
    &&& (query.path@.len() == 0 ==> r.parent is None)
    &&& (query.path@.len() > 0 ==> (r.parent matches Some(p) && p@ == query.path@))
    &&& r.sort@ == explorer_sort_key(query.sort@)
    &&& r.descending == (query.direction@ == "desc"@)
    &&& r.include_deleted == (query.include_deleted || query.tag@ == DELETED_TAG_FILTER@)
    &&& r.exclude_owner == (query.owner_filter@.len() > 0 && query.owner_filter@[0] == '!')
    &&& r.owner_filter@ == trim(
        if r.exclude_owner {
            query.owner_filter@.drop_first()
        } else {
            query.owner_filter@
        },
    )
}

/// The inventory request of an explorer page.
pub fn explorer_request(query: &DrivePathQuery) -> (r: ExplorerRequest)
    ensures
        request_for(r, *query),
{
    let path = chars_of(query.path.as_str());
    let parent = if path.len() == 0 {
        None
    } else {
        Some(query.path.clone())
    };
    let sort_chars = chars_of(query.sort.as_str());
    let s = sort_chars.as_slice();
    let sort: &'static str = if crate::text::equals_str(s, "type") {
        "type"
    } else if crate::text::equals_str(s, "size") {
        "size"
    } else if crate::text::equals_str(s, "modified") {
        "modified"
    } else if crate::text::equals_str(s, "owner") {
        "owner"
    } else {
        "name"
    };
    let descending = crate::text::equals_str(chars_of(query.direction.as_str()).as_slice(), "desc");
    let include_deleted = query.include_deleted || crate::text::equals_str(
        chars_of(query.tag.as_str()).as_slice(),
        DELETED_TAG_FILTER,
    );
    let owner = chars_of(query.owner_filter.as_str());
    let exclude_owner = owner.len() > 0 && owner[0] == '!';
    let rest = if exclude_owner {
        crate::text::slice_range(owner.as_slice(), 1, owner.len())
    } else {
        owner.clone()
    };
    assert(exclude_owner ==> rest@ =~= owner@.drop_first());
    let owner_filter = string_of(crate::text::trim_chars(rest.as_slice()).as_slice());
    ExplorerRequest { parent, sort, descending, include_deleted, exclude_owner, owner_filter }
}

/// The filter pills of an explorer: the scope's tags, then the pseudo-tag
/// of deleted items.
pub open spec fn filter_pills_are(pills: Seq<TagFilterPill>, tags: Seq<Tag>, selected: Seq<char>) -> bool {
    &&& pills.len() == tags.len() + 1
    &&& forall|k: int|
        0 <= k < tags.len() ==> {
            let p = #[trigger] pills[k];
            &&& p.slug@ == tags[k].slug@
            &&& p.name@ == tags[k].name@
            &&& p.description@ == tags[k].description@
            &&& p.color@ == tags[k].color@
            &&& p.text_color@ == readable_text_color(tags[k].color@)
            &&& p.selected == (selected == tags[k].slug@)
        }
    &&& pills[tags.len() as int].slug@ == DELETED_TAG_FILTER@
    &&& pills[tags.len() as int].name@ == "Deleted"@
    &&& pills[tags.len() as int].description@
        == "Items no longer present in Google Drive but retained in BOREAL's local inventory."@
    &&& pills[tags.len() as int].color@ == "#6c757d"@
    &&& pills[tags.len() as int].text_color@ == "#ffffff"@
    &&& pills[tags.len() as int].selected == (selected == DELETED_TAG_FILTER@)
}

/// The tag filters of an explorer page.
pub fn tag_filter_pills(tags: &[Tag], selected: &str) -> (pills: Vec<TagFilterPill>)
    ensures
        filter_pills_are(pills@, tags@, selected@),
{
    let chosen = chars_of(selected);
    let mut pills: Vec<TagFilterPill> = Vec::new();
    let mut k: usize = 0;
    while k < tags.len()
        invariant
            k <= tags@.len(),
            chosen@ == selected@,
            pills@.len() == k,
            forall|j: int|
                0 <= j < k ==> {
                    let p = #[trigger] pills@[j];
                    &&& p.slug@ == tags@[j].slug@
                    &&& p.name@ == tags@[j].name@
                    &&& p.description@ == tags@[j].description@
                    &&& p.color@ == tags@[j].color@
                    &&& p.text_color@ == readable_text_color(tags@[j].color@)
                    &&& p.selected == (selected@ == tags@[j].slug@)
                },
        decreases tags.len() - k,
    {
        let t = &tags[k];
        let slug = chars_of(t.slug.as_str());
        pills.push(
            TagFilterPill {
                slug: t.slug.clone(),
                name: t.name.clone(),
                description: t.description.clone(),
                color: t.color.clone(),
                text_color: tag_text_color(t.color.as_str()),
                selected: crate::text::chars_equal(chosen.as_slice(), slug.as_slice()),
            },
        );
        k = k + 1;
    }
    pills.push(
        TagFilterPill {
            slug: string_from(DELETED_TAG_FILTER),
            name: string_from("Deleted"),
            description: string_from(
                "Items no longer present in Google Drive but retained in BOREAL's local inventory.",
            ),
            color: string_from("#6c757d"),
            text_color: "#ffffff",
            selected: crate::text::equals_str(chosen.as_slice(), DELETED_TAG_FILTER),
        },
    );
    pills
}

/// The Persons-tag filters of an explorer page.
pub fn identity_filter_pills(tags: &[Tag], owner_selected: &str, permission_selected: &str) -> (pills: Vec<
    IdentityTagFilterPill,
>)
    ensures
        pills@.len() == tags@.len(),
        forall|k: int|
            0 <= k < tags@.len() ==> {
                let p = #[trigger] pills@[k];
                &&& p.slug@ == tags@[k].slug@
                &&& p.name@ == tags@[k].name@
                &&& p.description@ == tags@[k].description@
                &&& p.color@ == tags@[k].color@
                &&& p.text_color@ == readable_text_color(tags@[k].color@)
                &&& p.owner_selected == (owner_selected@ == tags@[k].slug@)
                &&& p.permission_selected == (permission_selected@ == tags@[k].slug@)
            },
{
    let owner = chars_of(owner_selected);
    let permission = chars_of(permission_selected);
    let mut pills: Vec<IdentityTagFilterPill> = Vec::new();
    let mut k: usize = 0;
    while k < tags.len()
        invariant
            k <= tags@.len(),
            owner@ == owner_selected@,
            permission@ == permission_selected@,
            pills@.len() == k,
            forall|j: int|
                0 <= j < k ==> {
                    let p = #[trigger] pills@[j];
                    &&& p.slug@ == tags@[j].slug@
                    &&& p.name@ == tags@[j].name@
                    &&& p.description@ == tags@[j].description@
                    &&& p.color@ == tags@[j].color@
                    &&& p.text_color@ == readable_text_color(tags@[j].color@)
                    &&& p.owner_selected == (owner_selected@ == tags@[j].slug@)
                    &&& p.permission_selected == (permission_selected@ == tags@[j].slug@)
                },
        decreases tags.len() - k,
    {
        let t = &tags[k];
        let slug = chars_of(t.slug.as_str());
        pills.push(
            IdentityTagFilterPill {
                slug: t.slug.clone(),
                name: t.name.clone(),
                description: t.description.clone(),
                color: t.color.clone(),
                text_color: tag_text_color(t.color.as_str()),
                owner_selected: crate::text::chars_equal(owner.as_slice(), slug.as_slice()),
                permission_selected: crate::text::chars_equal(permission.as_slice(), slug.as_slice()),
            },
        );
        k = k + 1;
    }
    pills
}

/// The rows of a listing, in the listing's order.
pub fn explorer_rows(
    items: &[DriveExplorerItem],
    explorer_path: &str,
    query: &DrivePathQuery,
    request: &ExplorerRequest,
) -> (rows: Vec<DriveExplorerRow>)
    ensures
        rows@.len() == items@.len(),
        forall|k: int|
            0 <= k < rows@.len() ==> #[trigger] row_shows(
                rows@[k],
                items@[k],
                explorer_path@,
                *query,
                request.sort@,
                request.descending,
                request.include_deleted,
            ),
{
    let mut rows: Vec<DriveExplorerRow> = Vec::new();
    let mut k: usize = 0;
    while k < items.len()
        invariant
            k <= items@.len(),
            rows@.len() == k,
            forall|j: int|
                0 <= j < k ==> #[trigger] row_shows(
                    rows@[j],
                    items@[j],
                    explorer_path@,
                    *query,
                    request.sort@,
                    request.descending,
                    request.include_deleted,
                ),
        decreases items.len() - k,
    {
        rows.push(
            explorer_row(&items[k], explorer_path, query, request.sort, request.descending, request.include_deleted),
        );
        k = k + 1;
    }
    rows
}

/// The heading path of an explorer page: the root's label at the top level.
pub fn current_path_label(query: &DrivePathQuery, root_label: &str) -> (label: String)
    ensures
        label@ == if query.path@.len() == 0 {
            root_label@
        } else {
            query.path@
        },
{
    if chars_of(query.path.as_str()).len() == 0 {
        string_from(root_label)
    } else {
        query.path.clone()
    }
}

/// Where the explorer's "up" link leads: the folder holding the current
/// one, or the top level.
pub fn explorer_parent_path(query: &DrivePathQuery) -> (parent: String)
    ensures
        parent@ == match crate::database::inventory::parent_path(query.path@) {
            Some(p) => p,
            None => Seq::empty(),
        },
{
    match crate::database::inventory::parent_of(query.path.as_str()) {
        Some(p) => p,
        None => String::new(),
    }
}

/// The spreadsheet export of an explorer page.
pub fn export_path(active_page: &str) -> (path: &'static str)
    ensures
        path@ == if active_page@ == "my-drive"@ {
            "/my-drive/export.xlsx"@
        } else if active_page@ == "shared-with-me"@ {
            "/shared-with-me/export.xlsx"@
        } else {
            "/shared-drives/export.xlsx"@
        },
{
    let page = chars_of(active_page);
    if crate::text::equals_str(page.as_slice(), "my-drive") {
        "/my-drive/export.xlsx"
    } else if crate::text::equals_str(page.as_slice(), "shared-with-me") {
        "/shared-with-me/export.xlsx"
    } else {
        "/shared-drives/export.xlsx"
    }
}

} // verus!
