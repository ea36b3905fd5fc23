//! BOREAL's own settings file, `boreal.json`: the web server's address and
//! the directory layout, whose entries may refer to one another by name
//! (`DATA/sqlite` under the `data` directory).
use vstd::prelude::*;

use crate::json::{find_member, get, member, JsonValue};
use crate::local_files::join_path;
use crate::text::{
    chars_of, equals_str, is_ascii_digit, is_ascii_upper, lower_seq, push_chars, push_str, slice_range, string_from, string_of,
    to_ascii_lower, to_ascii_upper, upper_seq,
};

verus! {

/// Where and how the web interface listens.
#[derive(Debug, Clone)]
pub struct WebAppConfig {
    pub listen: String,
    pub port: u16,
    pub open_browser: bool,
}

/// Why `boreal.json` could not be read as BOREAL needs it.
#[derive(Debug, Clone)]
pub enum ConfigError {
    MissingWebApp,
    InvalidListen,
    InvalidPort,
    PortOutOfRange(u64),
    MissingDirs,
    NotAString(String),
    UnknownPseudoVariable { prefix: String, value: String },
    Unresolvable(String),
}

pub open spec fn config_error_text(e: ConfigError) -> Seq<char> {
    match e {
        ConfigError::MissingWebApp => "Missing BOREAL.WEBAPP in boreal.json"@,
        ConfigError::InvalidListen => "Missing or invalid BOREAL.WEBAPP.listen"@,
        ConfigError::InvalidPort => "Missing or invalid BOREAL.WEBAPP.port"@,
        ConfigError::PortOutOfRange(p) => "Invalid BOREAL.WEBAPP.port: "@ + crate::text::decimal(p as nat),
        ConfigError::MissingDirs => "Missing BOREAL.DIRS in boreal.json"@,
        ConfigError::NotAString(name) => "BOREAL.DIRS."@ + name@ + " must be a string"@,
        ConfigError::UnknownPseudoVariable { prefix, value } => "Unknown BOREAL directory pseudo-variable '"@
            + prefix@ + "' in path '"@ + value@ + "'"@,
        ConfigError::Unresolvable(list) => "Unable to resolve BOREAL directories: "@ + list@,
    }
}

impl ConfigError {
    pub fn message(&self) -> (m: String)
        ensures
            m@ == config_error_text(*self),
    {
        let mut v: Vec<char> = Vec::new();
        match self {
            ConfigError::MissingWebApp => push_str(&mut v, "Missing BOREAL.WEBAPP in boreal.json"),
            ConfigError::InvalidListen => push_str(&mut v, "Missing or invalid BOREAL.WEBAPP.listen"),
            ConfigError::InvalidPort => push_str(&mut v, "Missing or invalid BOREAL.WEBAPP.port"),
            ConfigError::PortOutOfRange(p) => {
                push_str(&mut v, "Invalid BOREAL.WEBAPP.port: ");
                crate::text::push_decimal(&mut v, *p);
            },
            ConfigError::MissingDirs => push_str(&mut v, "Missing BOREAL.DIRS in boreal.json"),
            ConfigError::NotAString(name) => {
                push_str(&mut v, "BOREAL.DIRS.");
                push_str(&mut v, name.as_str());
                push_str(&mut v, " must be a string");
            },
            ConfigError::UnknownPseudoVariable { prefix, value } => {
                push_str(&mut v, "Unknown BOREAL directory pseudo-variable '");
                push_str(&mut v, prefix.as_str());
                push_str(&mut v, "' in path '");
                push_str(&mut v, value.as_str());
                push_str(&mut v, "'");
            },
            ConfigError::Unresolvable(list) => {
                push_str(&mut v, "Unable to resolve BOREAL directories: ");
                push_str(&mut v, list.as_str());
            },
        }
        assert(v@ =~= config_error_text(*self));
        string_of(v.as_slice())
    }
}

/// The member `inner` of the member `outer` of a document.
pub open spec fn section(doc: JsonValue, outer: Seq<char>, inner: Seq<char>) -> Option<JsonValue> {
    match member(doc, outer) {
        Some(o) => member(o, inner),
        None => None,
    }
}

/// What `BOREAL.WEBAPP` says: a text `listen`, a non-negative integer
/// `port` that fits in 16 bits, and `open_browser`, on unless it is `false`.
pub open spec fn webapp_config_of(doc: JsonValue) -> Result<(Seq<char>, nat, bool), ConfigError> {
    match section(doc, "BOREAL"@, "WEBAPP"@) {
        None => Err(ConfigError::MissingWebApp),
        Some(w) => match member(w, "listen"@) {
            Some(JsonValue::Text(listen)) => match member(w, "port"@) {
                Some(JsonValue::Integer(p)) => if p < 0 {
                    Err(ConfigError::InvalidPort)
                } else if p > 65535 {
                    Err(ConfigError::PortOutOfRange(p as u64))
                } else {
                    Ok(
                        (
                            listen@,
                            p as nat,
                            match member(w, "open_browser"@) {
                                Some(JsonValue::Bool(b)) => b,
                                _ => true,
                            },
                        ),
                    )
                },
                _ => Err(ConfigError::InvalidPort),
            },
            _ => Err(ConfigError::InvalidListen),
        },
    }
}

fn same_error(a: ConfigError) -> (b: ConfigError)
    ensures
        b == a,
{
    a
}

/// The web interface's settings in `boreal.json`.
pub fn get_webapp_config(boreal: &JsonValue) -> (result: Result<WebAppConfig, ConfigError>)
    ensures
        match webapp_config_of(*boreal) {
            Ok((listen, port, open)) => result matches Ok(c) && c.listen@ == listen && c.port == port
                && c.open_browser == open,
            Err(e) => result matches Err(r) && r == e,
        },
{
    let outer = match get(boreal, "BOREAL") {
        Some(o) => o,
        None => return Err(ConfigError::MissingWebApp),
    };
    let webapp = match get(outer, "WEBAPP") {
        Some(w) => w,
        None => return Err(ConfigError::MissingWebApp),
    };
    let listen = match get(webapp, "listen") {
        Some(JsonValue::Text(t)) => t.clone(),
        _ => return Err(ConfigError::InvalidListen),
    };
    let port: u16 = match get(webapp, "port") {
        Some(JsonValue::Integer(p)) => {
            if *p < 0 {
                return Err(ConfigError::InvalidPort);
            } else if *p > 65535 {
                return Err(same_error(ConfigError::PortOutOfRange(*p as u64)));
            } else {
                *p as u16
            }
        },
        _ => return Err(ConfigError::InvalidPort),
    };
    let open_browser = match get(webapp, "open_browser") {
        Some(JsonValue::Bool(b)) => *b,
        _ => true,
    };
    Ok(WebAppConfig { listen, port, open_browser })
}

/// A separator of path components in `boreal.json`: either slash.
pub open spec fn separator(c: char) -> bool {
    c == '/' || c == '\\'
}

/// A pseudo-variable name: upper-case ASCII letters, digits and `_`.
pub open spec fn pseudo_name(s: Seq<char>) -> bool {
    s.len() > 0 && forall|i: int| 0 <= i < s.len() ==> (is_ascii_upper(#[trigger] s[i]) || is_ascii_digit(s[i])
        || s[i] == '_')
}

pub fn is_pseudo_name(value: &str) -> (result: bool)
    ensures
        result == pseudo_name(value@),
{
    let v = chars_of(value);
    if v.len() == 0 {
        return false;
    }
    let mut i: usize = 0;
    while i < v.len()
        invariant
            i <= v@.len(),
            v@ == value@,
            forall|k: int| 0 <= k < i ==> (is_ascii_upper(#[trigger] v@[k]) || is_ascii_digit(v@[k]) || v@[k] == '_'),
        decreases v.len() - i,
    {
        let c = v[i];
        if !(('A' <= c && c <= 'Z') || ('0' <= c && c <= '9') || c == '_') {
            return false;
        }
        i = i + 1;
    }
    true
}

/// Where the first separator is, if any.
pub open spec fn first_separator(s: Seq<char>, i: int) -> bool {
    0 <= i < s.len() && separator(s[i]) && forall|j: int| 0 <= j < i ==> !separator(#[trigger] s[j])
}

/// `DATA/sqlite` as `DATA` and `sqlite`: the text before and after the
/// first separator, when something precedes it.
pub open spec fn pseudo_path_parts(s: Seq<char>) -> Option<(Seq<char>, Seq<char>)> {
    if exists|i: int| first_separator(s, i) {
        let i = choose|i: int| first_separator(s, i);
        if i == 0 {
            None
        } else {
            Some((s.subrange(0, i), s.subrange(i + 1, s.len() as int)))
        }
    } else {
        None
    }
}

pub fn split_pseudo_path(value: &[char]) -> (result: Option<(Vec<char>, Vec<char>)>)
    ensures
        match pseudo_path_parts(value@) {
            Some((a, b)) => result matches Some((x, y)) && x@ == a && y@ == b,
            None => result is None,
        },
{
    let mut i: usize = 0;
    while i < value.len() && !(value[i] == '/' || value[i] == '\\')
        invariant
            i <= value@.len(),
            forall|j: int| 0 <= j < i ==> !separator(#[trigger] value@[j]),
        decreases value.len() - i,
    {
        i = i + 1;
    }
    if i == value.len() {
        assert(!exists|k: int| first_separator(value@, k)) by {
            if exists|k: int| first_separator(value@, k) {
                let k = choose|k: int| first_separator(value@, k);
                assert(!separator(value@[k]));
            }
        }
        return None;
    }
    assert(first_separator(value@, i as int));
    proof {
        let k = choose|k: int| first_separator(value@, k);
        if k < i {
            assert(!separator(value@[k]));
        }
        if i < k {
            assert(!separator(value@[i as int]));
        }
    }
    if i == 0 {
        return None;
    }
    Some((slice_range(value, 0, i), slice_range(value, i + 1, value.len())))
}

/// The pieces of a text between separators.
pub open spec fn path_pieces(s: Seq<char>) -> Seq<Seq<char>>
    decreases s.len(),
{
    if s.len() == 0 {
        seq![Seq::empty()]
    } else {
        let before = path_pieces(s.drop_last());
        if separator(s.last()) {
            before.push(Seq::empty())
        } else {
            before.update(before.len() - 1, before.last().push(s.last()))
        }
    }
}


/// `base` with each non-empty piece pushed on as a path component.
pub open spec fn pushed_pieces(base: Seq<char>, pieces: Seq<Seq<char>>) -> Seq<char>
    decreases pieces.len(),
{
    if pieces.len() == 0 {
        base
    } else {
        let before = pushed_pieces(base, pieces.drop_last());
        if pieces.last().len() == 0 {
            before
        } else {
            join_path(before, pieces.last())
        }
    }
}

fn push_component(path: &mut Vec<char>, component: &[char])
    requires
        component@.len() > 0,
        !separator(component@[0]),
    ensures
        final(path)@ == join_path(old(path)@, component@),
{
    if path.len() > 0 && path[path.len() - 1] != '/' {
        path.push('/');
    }
    push_chars(path, component);
}

/// `base` with the components of `rest` (split at either slash, empty
/// pieces skipped) pushed on, as `PathBuf::push` does.
fn push_components(base: &[char], rest: &[char]) -> (result: Vec<char>)
    ensures
        result@ == pushed_pieces(base@, path_pieces(rest@)),
{
    let mut done: Vec<char> = Vec::new();
    push_chars(&mut done, base);
    let mut current: Vec<char> = Vec::new();
    let mut i: usize = 0;
    proof {
        assert(rest@.subrange(0, 0) =~= Seq::<char>::empty());
        assert(path_pieces(Seq::<char>::empty()).drop_last() =~= Seq::<Seq<char>>::empty());
    }
    while i < rest.len()
        invariant
            i <= rest@.len(),
            path_pieces(rest@.subrange(0, i as int)).len() >= 1,
            current@ == path_pieces(rest@.subrange(0, i as int)).last(),
            done@ == pushed_pieces(base@, path_pieces(rest@.subrange(0, i as int)).drop_last()),
            forall|k: int| 0 <= k < current@.len() ==> !separator(#[trigger] current@[k]),
        decreases rest.len() - i,
    {
        let ghost p = rest@.subrange(0, i as int);
        let ghost q = rest@.subrange(0, i + 1);
        assert(q.drop_last() =~= p);
        let c = rest[i];
        if c == '/' || c == '\\' {
            let ghost pieces = path_pieces(p);
            assert(path_pieces(q) == pieces.push(Seq::empty()));
            assert(pieces.push(Seq::empty()).drop_last() =~= pieces);
            assert(pieces =~= pieces.drop_last().push(pieces.last()));
            if current.len() > 0 {
                push_component(&mut done, current.as_slice());
            }
            current = Vec::new();
        } else {
            let ghost pieces = path_pieces(p);
            current.push(c);
            assert(path_pieces(q) == pieces.update(pieces.len() - 1, pieces.last().push(c)));
            assert(path_pieces(q).drop_last() =~= pieces.drop_last());
        }
        i = i + 1;
    }
    proof {
        assert(rest@.subrange(0, rest@.len() as int) =~= rest@);
        let pieces = path_pieces(rest@);
        assert(pieces =~= pieces.drop_last().push(pieces.last()));
    }
    if current.len() > 0 {
        push_component(&mut done, current.as_slice());
    }
    done
}

/// The path of a directory already resolved, by its upper-case name.
pub open spec fn resolved_path(resolved: Seq<(String, String)>, name: Seq<char>) -> Option<Seq<char>>
    decreases resolved.len(),
{
    if resolved.len() == 0 {
        None
    } else if resolved[0].0@ == name {
        Some(resolved[0].1@)
    } else {
        resolved_path(resolved.drop_first(), name)
    }
}

pub open spec fn is_known(known: Seq<Seq<char>>, name: Seq<char>) -> bool {
    known.contains(name)
}

/// What one directory entry resolves to: a directory's name alone is that
/// directory; a name, a separator and a path is that path under it; an
/// upper-case prefix that names no directory is a mistake; anything else is
/// a literal path.  `None` while the named directory is not resolved yet.
pub open spec fn directory_value(value: Seq<char>, resolved: Seq<(String, String)>, known: Seq<Seq<char>>) -> Result<
    Option<Seq<char>>,
    Seq<char>,
> {
    let upper = upper_seq(value);
    if is_known(known, upper) {
        Ok(resolved_path(resolved, upper))
    } else {
        match pseudo_path_parts(value) {
            Some((prefix, rest)) => {
                let pseudo = upper_seq(prefix);
                if is_known(known, pseudo) {
                    match resolved_path(resolved, pseudo) {
                        Some(base) => Ok(Some(pushed_pieces(base, path_pieces(rest)))),
                        None => Ok(None),
                    }
                } else if pseudo_name(prefix) {
                    Err(prefix)
                } else {
                    Ok(Some(value))
                }
            },
            None => Ok(Some(value)),
        }
    }
}

fn lookup(resolved: &Vec<(String, String)>, name: &[char]) -> (result: Option<String>)
    ensures
        match result {
            Some(p) => resolved_path(resolved@, name@) == Some(p@),
            None => resolved_path(resolved@, name@) is None,
        },
{
    let mut i: usize = 0;
    assert(resolved@.subrange(0, resolved@.len() as int) =~= resolved@);
    while i < resolved.len()
        invariant
            i <= resolved@.len(),
            resolved_path(resolved@, name@) == resolved_path(
                resolved@.subrange(i as int, resolved@.len() as int),
                name@,
            ),
        decreases resolved.len() - i,
    {
        let ghost rest = resolved@.subrange(i as int, resolved@.len() as int);
        assert(rest[0] == resolved@[i as int]);
        if crate::text::chars_equal(chars_of(resolved[i].0.as_str()).as_slice(), name) {
            return Some(resolved[i].1.clone());
        }
        assert(rest.drop_first() =~= resolved@.subrange(i + 1, resolved@.len() as int));
        i = i + 1;
    }
    None
}

pub open spec fn names_view(known: Seq<String>) -> Seq<Seq<char>> {
    known.map_values(|s: String| s@)
}

fn known_name(known: &Vec<String>, name: &[char]) -> (result: bool)
    ensures
        result == is_known(names_view(known@), name@),
{
    let mut i: usize = 0;
    while i < known.len()
        invariant
            i <= known@.len(),
            forall|k: int| 0 <= k < i ==> #[trigger] known@[k]@ != name@,
        decreases known.len() - i,
    {
        if crate::text::chars_equal(chars_of(known[i].as_str()).as_slice(), name) {
            assert(names_view(known@)[i as int] == name@);
            return true;
        }
        i = i + 1;
    }
    assert forall|k: int| 0 <= k < names_view(known@).len() implies names_view(known@)[k] != name@ by {
        assert(known@[k]@ != name@);
    }
    false
}

/// Resolves one directory entry given those resolved so far.
pub fn resolve_directory_value(value: &str, resolved: &Vec<(String, String)>, known: &Vec<String>) -> (result:
    Result<Option<String>, ConfigError>)
    ensures
        match directory_value(value@, resolved@, names_view(known@)) {
            Ok(Some(p)) => result matches Ok(Some(r)) && r@ == p,
            Ok(None) => result matches Ok(None),
            Err(pre) => result matches Err(ConfigError::UnknownPseudoVariable { prefix, value: v }) && v@ == value@
                && prefix@ == pre,
        },
{
    let v = chars_of(value);
    let upper = to_ascii_upper(v.as_slice());
    if known_name(known, upper.as_slice()) {
        return Ok(lookup(resolved, upper.as_slice()));
    }
    match split_pseudo_path(v.as_slice()) {
        Some((prefix, rest)) => {
            let pseudo = to_ascii_upper(prefix.as_slice());
            if known_name(known, pseudo.as_slice()) {
                match lookup(resolved, pseudo.as_slice()) {
                    Some(base) => {
                        let b = chars_of(base.as_str());
                        let path = push_components(b.as_slice(), rest.as_slice());
                        Ok(Some(string_of(path.as_slice())))
                    },
                    None => Ok(None),
                }
            } else if is_pseudo_name(string_of(prefix.as_slice()).as_str()) {
                Err(
                    ConfigError::UnknownPseudoVariable {
                        prefix: string_of(prefix.as_slice()),
                        value: crate::text::string_from(value),
                    },
                )
            } else {
                Ok(Some(crate::text::string_from(value)))
            }
        },
        None => Ok(Some(crate::text::string_from(value))),
    }
}

/// The pairs of names and texts, by their views.
pub open spec fn entry_pairs(pairs: Seq<(String, String)>) -> Seq<(Seq<char>, Seq<char>)> {
    pairs.map_values(|p: (String, String)| (p.0@, p.1@))
}

/// `entries` with `name` set to `value`: in place where the name already
/// is, else at the end.
pub open spec fn put_entry(entries: Seq<(Seq<char>, Seq<char>)>, name: Seq<char>, value: Seq<char>) -> Seq<
    (Seq<char>, Seq<char>),
> {
    if exists|i: int| 0 <= i < entries.len() && (#[trigger] entries[i]).0 == name {
        entries.update(choose|i: int| 0 <= i < entries.len() && (#[trigger] entries[i]).0 == name, (name, value))
    } else {
        entries.push((name, value))
    }
}

/// The entries of `BOREAL.DIRS` other than `home` that hold text: their
/// names in upper case, each once (a later entry with the same name gives
/// its value), in the order the names first appear.
pub open spec fn pending_entries(entries: Seq<(String, JsonValue)>) -> Seq<(Seq<char>, Seq<char>)>
    decreases entries.len(),
{
    if entries.len() == 0 {
        seq![]
    } else {
        let before = pending_entries(entries.drop_last());
        let (name, value) = entries.last();
        if lower_seq(name@) == "home"@ {
            before
        } else {
            match value {
                JsonValue::Text(t) => put_entry(before, upper_seq(name@), t@),
                _ => before,
            }
        }
    }
}

/// Every entry of `BOREAL.DIRS` other than `home` holds text.
pub open spec fn all_text(entries: Seq<(String, JsonValue)>) -> bool {
    forall|i: int|
        0 <= i < entries.len() && lower_seq((#[trigger] entries[i]).0@) != "home"@ ==> entries[i].1 is Text
}

/// Some pending directory names an upper-case prefix that is no directory.
pub open spec fn some_refused(all: Seq<(Seq<char>, Seq<char>)>, known: Seq<Seq<char>>) -> bool {
    exists|k: int| 0 <= k < all.len() && directory_value((#[trigger] all[k]).1, seq![], known) is Err
}

/// Every pending directory resolves, following at most as many directories
/// as there are.
pub open spec fn all_resolve(all: Seq<(Seq<char>, Seq<char>)>, known: Seq<Seq<char>>, home: Seq<char>) -> bool {
    forall|k: int| 0 <= k < all.len() ==> canonical_path(all, known, home, (#[trigger] all[k]).0, all.len()) is Some
}

/// The resolved directories: `HOME` first, then each pending directory once,
/// in order, with the path it resolves to.
pub open spec fn directories_resolved(
    dirs: Seq<(String, String)>,
    all: Seq<(Seq<char>, Seq<char>)>,
    known: Seq<Seq<char>>,
    home: Seq<char>,
) -> bool {
    &&& dirs.len() == all.len() + 1
    &&& dirs[0].0@ == "HOME"@
    &&& dirs[0].1@ == home
    &&& forall|k: int|
        0 <= k < all.len() ==> (#[trigger] dirs[k + 1]).0@ == all[k].0 && canonical_path(
            all,
            known,
            home,
            all[k].0,
            all.len(),
        ) == Some(dirs[k + 1].1@)
}

proof fn lemma_put_entry_distinct(entries: Seq<(Seq<char>, Seq<char>)>, name: Seq<char>, value: Seq<char>)
    requires
        distinct_names(entries),
    ensures
        distinct_names(put_entry(entries, name, value)),
{
    if exists|i: int| 0 <= i < entries.len() && (#[trigger] entries[i]).0 == name {
        let i = choose|i: int| 0 <= i < entries.len() && (#[trigger] entries[i]).0 == name;
        let r = entries.update(i, (name, value));
        assert forall|a: int, b: int| 0 <= a < b < r.len() implies (#[trigger] r[a]).0 != (#[trigger] r[b]).0 by {
            assert(entries[a].0 != entries[b].0);
        }
    } else {
        let r = entries.push((name, value));
        assert forall|a: int, b: int| 0 <= a < b < r.len() implies (#[trigger] r[a]).0 != (#[trigger] r[b]).0 by {
            if b < entries.len() {
                assert(entries[a].0 != entries[b].0);
            } else {
                assert(entries[a].0 != name);
            }
        }
    }
}

proof fn lemma_pending_distinct(entries: Seq<(String, JsonValue)>)
    ensures
        distinct_names(pending_entries(entries)),
    decreases entries.len(),
{
    if entries.len() > 0 {
        lemma_pending_distinct(entries.drop_last());
        let (name, value) = entries.last();
        if lower_seq(name@) != "home"@ {
            match value {
                JsonValue::Text(t) => lemma_put_entry_distinct(
                    pending_entries(entries.drop_last()),
                    upper_seq(name@),
                    t@,
                ),
                _ => {},
            }
        }
    }
}

/// Sets `name` to `value` among the pending directories, as `put_entry`.
fn put_pending(pending: &mut Vec<(String, String)>, name: String, value: String)
    requires
        distinct_names(entry_pairs(old(pending)@)),
    ensures
        entry_pairs(final(pending)@) == put_entry(entry_pairs(old(pending)@), name@, value@),
{
    let ghost before = entry_pairs(pending@);
    let mut i: usize = 0;
    proof {
        if exists|c: int| 0 <= c < before.len() && (#[trigger] before[c]).0 == name@ {
            assert(true);
        }
    }
    while i < pending.len()
        invariant
            i <= pending@.len(),
            before == entry_pairs(pending@),
            before == entry_pairs(old(pending)@),
            distinct_names(before),
            forall|k: int| 0 <= k < i ==> (#[trigger] before[k]).0 != name@,
        decreases pending.len() - i,
    {
        if crate::text::chars_equal(chars_of(pending[i].0.as_str()).as_slice(), chars_of(name.as_str()).as_slice()) {
            assert(before[i as int].0 == name@);
            proof {
                let c = choose|c: int| 0 <= c < before.len() && (#[trigger] before[c]).0 == name@;
                if c != i {
                    if c < i {
                        assert(before[c].0 != before[i as int].0);
                    } else {
                        assert(before[i as int].0 != before[c].0);
                    }
                }
            }
            let ghost value_view = value@;
            let ghost name_view = name@;
            pending.set(i, (name, value));
            assert(entry_pairs(pending@) =~= before.update(i as int, (before[i as int].0, value_view)));
            assert(put_entry(before, before[i as int].0, value_view) == before.update(
                i as int,
                (before[i as int].0, value_view),
            ));
            assert(entry_pairs(pending@) == put_entry(before, name_view, value_view));
            return;
        }
        i = i + 1;
    }
    pending.push((name, value));
    assert(entry_pairs(pending@) =~= before.push((name@, value@)));
}

/// The pending directory named `name`, by its value.
fn pending_value(pending: &Vec<(String, String)>, name: &[char]) -> (result: Option<String>)
    ensures
        match entry_value(entry_pairs(pending@), name@) {
            Some(v) => result matches Some(r) && r@ == v,
            None => result is None,
        },
{
    let ghost all = entry_pairs(pending@);
    let mut i: usize = 0;
    assert(all.subrange(0, all.len() as int) =~= all);
    while i < pending.len()
        invariant
            i <= pending@.len(),
            all == entry_pairs(pending@),
            entry_value(all, name@) == entry_value(all.subrange(i as int, all.len() as int), name@),
        decreases pending.len() - i,
    {
        let ghost rest = all.subrange(i as int, all.len() as int);
        assert(rest[0] == all[i as int]);
        assert(rest.drop_first() =~= all.subrange(i + 1, all.len() as int));
        if crate::text::chars_equal(chars_of(pending[i].0.as_str()).as_slice(), name) {
            return Some(pending[i].1.clone());
        }
        i = i + 1;
    }
    None
}

/// Where a directory resolves to, as `canonical_path` says.
fn resolve_name(
    pending: &Vec<(String, String)>,
    known: &Vec<String>,
    home: &str,
    name: &[char],
    fuel: usize,
) -> (result: Option<String>)
    ensures
        match canonical_path(entry_pairs(pending@), names_view(known@), home@, name@, fuel as nat) {
            Some(p) => result matches Some(r) && r@ == p,
            None => result is None,
        },
    decreases fuel,
{
    proof {
        reveal_strlit("HOME");
    }
    if equals_str(name, "HOME") {
        return Some(crate::text::string_from(home));
    }
    if fuel == 0 {
        return None;
    }
    let v = match pending_value(pending, name) {
        Some(v) => v,
        None => return None,
    };
    let value = chars_of(v.as_str());
    let upper = to_ascii_upper(value.as_slice());
    if known_name(known, upper.as_slice()) {
        return resolve_name(pending, known, home, upper.as_slice(), fuel - 1);
    }
    match split_pseudo_path(value.as_slice()) {
        Some((prefix, rest)) => {
            let pseudo = to_ascii_upper(prefix.as_slice());
            if known_name(known, pseudo.as_slice()) {
                match resolve_name(pending, known, home, pseudo.as_slice(), fuel - 1) {
                    Some(base) => {
                        let b = chars_of(base.as_str());
                        let path = push_components(b.as_slice(), rest.as_slice());
                        Some(string_of(path.as_slice()))
                    },
                    None => None,
                }
            } else if is_pseudo_name(string_of(prefix.as_slice()).as_str()) {
                None
            } else {
                Some(v)
            }
        },
        None => Some(v),
    }
}

/// Every directory of `boreal.json` resolved: `HOME` (BOREAL's home, as
/// given) first, then each other directory once, in the order its name
/// first appears, with the path it resolves to.  Names are compared in
/// upper case.  Refused: a missing `BOREAL.DIRS`, an entry that is not
/// text, an upper-case prefix that names no directory, and directories
/// that cannot be resolved (those left are listed).
pub fn resolve_all_directories(boreal: &JsonValue, boreal_home: &str) -> (result: Result<
    Vec<(String, String)>,
    ConfigError,
>)
    ensures
        match section(*boreal, "BOREAL"@, "DIRS"@) {
            Some(JsonValue::Object(entries)) => {
                let all = pending_entries(entries@);
                let known = known_names(entries@);
                if !all_text(entries@) {
                    result matches Err(ConfigError::NotAString(_))
                } else if some_refused(all, known) {
                    result matches Err(ConfigError::UnknownPseudoVariable { .. })
                } else if all_resolve(all, known, boreal_home@) {
                    result matches Ok(dirs) && directories_resolved(dirs@, all, known, boreal_home@)
                } else {
                    result matches Err(ConfigError::Unresolvable(_))
                }
            },
            _ => result matches Err(ConfigError::MissingDirs),
        },
{
    proof {
        reveal_strlit("BOREAL");
        reveal_strlit("DIRS");
        reveal_strlit("HOME");
    }
    let outer = match get(boreal, "BOREAL") {
        Some(o) => o,
        None => return Err(ConfigError::MissingDirs),
    };
    let dirs_value = match get(outer, "DIRS") {
        Some(d) => d,
        None => return Err(ConfigError::MissingDirs),
    };
    let entries = match dirs_value {
        JsonValue::Object(entries) => entries,
        _ => return Err(ConfigError::MissingDirs),
    };
    assert(section(*boreal, "BOREAL"@, "DIRS"@) == Some(*dirs_value));
    let ghost dirs_doc = *dirs_value;
    let known = upper_names(entries);
    let mut pending: Vec<(String, String)> = Vec::new();
    let mut i: usize = 0;
    while i < entries.len()
        invariant
            i <= entries@.len(),
            section(*boreal, "BOREAL"@, "DIRS"@) == Some(dirs_doc),
            dirs_doc == JsonValue::Object(*entries),
            entry_pairs(pending@) == pending_entries(entries@.subrange(0, i as int)),
            distinct_names(entry_pairs(pending@)),
            all_text(entries@.subrange(0, i as int)),
        decreases entries.len() - i,
    {
        let ghost p = entries@.subrange(0, i as int);
        let ghost q = entries@.subrange(0, i + 1);
        assert(q.drop_last() =~= p);
        assert(q.last() == entries@[i as int]);
        let (name, value) = &entries[i];
        let lower = to_ascii_lower(chars_of(name.as_str()).as_slice());
        if !equals_str(lower.as_slice(), "home") {
            match value {
                JsonValue::Text(t) => {
                    let upper = to_ascii_upper(chars_of(name.as_str()).as_slice());
                    put_pending(&mut pending, string_of(upper.as_slice()), t.clone());
                    proof {
                        lemma_pending_distinct(q);
                    }
                },
                _ => {
                    proof {
                        assert(q[i as int] == entries@[i as int]);
                        assert(!all_text(entries@)) by {
                            assert(entries@[i as int] == q[i as int]);
                        }
                    }
                    return Err(ConfigError::NotAString(name.clone()));
                },
            }
        }
        assert forall|m: int|
            0 <= m < q.len() && lower_seq((#[trigger] q[m]).0@) != "home"@ implies q[m].1 is Text by {
            if m < i {
                assert(q[m] == p[m]);
            }
        }
        i = i + 1;
    }
    assert(entries@.subrange(0, entries@.len() as int) =~= entries@);
    let ghost all = pending_entries(entries@);
    assert(all == entry_pairs(pending@));
    let empty: Vec<(String, String)> = Vec::new();
    let mut k: usize = 0;
    while k < pending.len()
        invariant
            k <= pending@.len(),
            section(*boreal, "BOREAL"@, "DIRS"@) == Some(dirs_doc),
            dirs_doc == JsonValue::Object(*entries),
            all_text(entries@),
            all == pending_entries(entries@),
            all == entry_pairs(pending@),
            names_view(known@) == known_names(entries@),
            forall|m: int| 0 <= m < k ==> directory_value((#[trigger] all[m]).1, seq![], known_names(entries@)) is Ok,
            empty@.len() == 0,
        decreases pending.len() - k,
    {
        assert(all[k as int] == (pending@[k as int].0@, pending@[k as int].1@));
        assert(entry_pairs(empty@) =~= Seq::<(Seq<char>, Seq<char>)>::empty());
        assert(empty@ =~= Seq::<(String, String)>::empty());
        match resolve_directory_value(pending[k].1.as_str(), &empty, &known) {
            Err(e) => {
                proof {
                    assert(some_refused(all, known_names(entries@)));
                }
                return Err(e);
            },
            Ok(_) => {},
        }
        k = k + 1;
    }
    assert(!some_refused(all, known_names(entries@)));
    let n = pending.len();
    let mut resolved: Vec<(String, String)> = Vec::new();
    resolved.push((crate::text::string_from("HOME"), crate::text::string_from(boreal_home)));
    let mut left: Vec<char> = Vec::new();
    let mut all_found = true;
    let mut k: usize = 0;
    while k < n
        invariant
            k <= n,
            n == pending@.len(),
            section(*boreal, "BOREAL"@, "DIRS"@) == Some(dirs_doc),
            dirs_doc == JsonValue::Object(*entries),
            all_text(entries@),
            !some_refused(all, known_names(entries@)),
            all == pending_entries(entries@),
            all == entry_pairs(pending@),
            names_view(known@) == known_names(entries@),
            all_found ==> resolved@.len() == k + 1,
            resolved@.len() >= 1,
            resolved@[0].0@ == "HOME"@,
            resolved@[0].1@ == boreal_home@,
            all_found ==> forall|m: int|
                0 <= m < k ==> (#[trigger] resolved@[m + 1]).0@ == all[m].0 && canonical_path(
                    all,
                    known_names(entries@),
                    boreal_home@,
                    all[m].0,
                    n as nat,
                ) == Some(resolved@[m + 1].1@),
            !all_found ==> !all_resolve(all, known_names(entries@), boreal_home@),
        decreases n - k,
    {
        let name_chars = chars_of(pending[k].0.as_str());
        assert(all[k as int].0 == pending@[k as int].0@);
        match resolve_name(&pending, &known, boreal_home, name_chars.as_slice(), n) {
            Some(path) => {
                if all_found {
                    let ghost before = resolved@;
                    resolved.push((pending[k].0.clone(), path));
                    assert forall|m: int| 0 <= m < k + 1 implies (#[trigger] resolved@[m + 1]).0@ == all[m].0
                        && canonical_path(all, known_names(entries@), boreal_home@, all[m].0, n as nat) == Some(
                        resolved@[m + 1].1@,
                    ) by {
                        if m < k {
                            assert(resolved@[m + 1] == before[m + 1]);
                        }
                    }
                }
            },
            None => {
                if !all_found {
                    push_str(&mut left, ", ");
                }
                all_found = false;
                push_str(&mut left, pending[k].0.as_str());
                left.push('=');
                push_str(&mut left, pending[k].1.as_str());
            },
        }
        k = k + 1;
    }
    if !all_found {
        return Err(ConfigError::Unresolvable(string_of(left.as_slice())));
    }
    assert forall|m: int| 0 <= m < all.len() implies canonical_path(
        all,
        known_names(entries@),
        boreal_home@,
        (#[trigger] all[m]).0,
        all.len(),
    ) is Some by {
        assert(resolved@[m + 1].0@ == all[m].0);
    }
    assert(directories_resolved(resolved@, all, known_names(entries@), boreal_home@));
    Ok(resolved)
}

/// The names of `BOREAL.DIRS` in upper case: what the entries may refer to.
pub open spec fn known_names(entries: Seq<(String, JsonValue)>) -> Seq<Seq<char>> {
    entries.map_values(|e: (String, JsonValue)| upper_seq(e.0@))
}

fn upper_names(entries: &Vec<(String, JsonValue)>) -> (names: Vec<String>)
    ensures
        names_view(names@) == known_names(entries@),
{
    let mut names: Vec<String> = Vec::new();
    let mut i: usize = 0;
    while i < entries.len()
        invariant
            i <= entries@.len(),
            names_view(names@) == known_names(entries@.subrange(0, i as int)),
        decreases entries.len() - i,
    {
        let upper = string_of(to_ascii_upper(chars_of(entries[i].0.as_str()).as_slice()).as_slice());
        assert(upper@ == upper_seq(entries@[i as int].0@));
        let ghost before = names@;
        names.push(upper);
        assert(names@ =~= before.push(upper));
        assert(names_view(names@) =~= names_view(before).push(upper@));
        assert(entries@.subrange(0, i + 1) =~= entries@.subrange(0, i as int).push(entries@[i as int]));
        assert(known_names(entries@.subrange(0, i + 1)) =~= known_names(entries@.subrange(0, i as int)).push(
            upper_seq(entries@[i as int].0@),
        ));
        i = i + 1;
    }
    assert(entries@.subrange(0, entries@.len() as int) =~= entries@);
    names
}


// ---------------------------------------------------------------------------
// Resolution does not depend on the order of the entries
// ---------------------------------------------------------------------------

/// The value of the first pending directory with this name.
pub open spec fn entry_value(all: Seq<(Seq<char>, Seq<char>)>, name: Seq<char>) -> Option<Seq<char>>
    decreases all.len(),
{
    if all.len() == 0 {
        None
    } else if all[0].0 == name {
        Some(all[0].1)
    } else {
        entry_value(all.drop_first(), name)
    }
}

/// Where a directory resolves to, following the directories its value
/// names at most `fuel` deep: `HOME` is BOREAL's home; any other name takes
/// its entry's value and resolves it as `directory_value` does, with the
/// directories it names resolved the same way.
pub open spec fn canonical_path(
    all: Seq<(Seq<char>, Seq<char>)>,
    known: Seq<Seq<char>>,
    home: Seq<char>,
    name: Seq<char>,
    fuel: nat,
) -> Option<Seq<char>>
    decreases fuel,
{
    if name == "HOME"@ {
        Some(home)
    } else if fuel == 0 {
        None
    } else {
        match entry_value(all, name) {
            None => None,
            Some(v) => {
                let f = (fuel - 1) as nat;
                let upper = upper_seq(v);
                if is_known(known, upper) {
                    canonical_path(all, known, home, upper, f)
                } else {
                    match pseudo_path_parts(v) {
                        Some((prefix, rest)) => {
                            let pseudo = upper_seq(prefix);
                            if is_known(known, pseudo) {
                                match canonical_path(all, known, home, pseudo, f) {
                                    Some(base) => Some(pushed_pieces(base, path_pieces(rest))),
                                    None => None,
                                }
                            } else if pseudo_name(prefix) {
                                None
                            } else {
                                Some(v)
                            }
                        },
                        None => Some(v),
                    }
                }
            },
        }
    }
}

/// No two pending directories share a name.
pub open spec fn distinct_names(all: Seq<(Seq<char>, Seq<char>)>) -> bool {
    forall|i: int, j: int| 0 <= i < j < all.len() ==> (#[trigger] all[i]).0 != (#[trigger] all[j]).0
}







proof fn lemma_entry_value_member(all: Seq<(Seq<char>, Seq<char>)>, name: Seq<char>)
    ensures
        entry_value(all, name) matches Some(v) ==> all.contains((name, v)),
        entry_value(all, name) is None ==> forall|j: int| 0 <= j < all.len() ==> (#[trigger] all[j]).0 != name,
    decreases all.len(),
{
    if all.len() > 0 {
        lemma_entry_value_member(all.drop_first(), name);
        if all[0].0 != name {
            match entry_value(all.drop_first(), name) {
                Some(v) => {
                    let j = choose|j: int| 0 <= j < all.drop_first().len() && all.drop_first()[j] == (name, v);
                    assert(all[j + 1] == (name, v));
                },
                None => {
                    assert forall|j: int| 0 <= j < all.len() implies (#[trigger] all[j]).0 != name by {
                        if j > 0 {
                            assert(all[j] == all.drop_first()[j - 1]);
                        }
                    }
                },
            }
        } else {
            assert(all[0] == (name, all[0].1));
        }
    }
}

proof fn lemma_entry_value_permuted(
    all1: Seq<(Seq<char>, Seq<char>)>,
    all2: Seq<(Seq<char>, Seq<char>)>,
    name: Seq<char>,
)
    requires
        all1.to_multiset() == all2.to_multiset(),
        distinct_names(all1),
    ensures
        entry_value(all1, name) == entry_value(all2, name),
{
    broadcast use vstd::seq_lib::group_to_multiset_ensures;

    lemma_entry_value_member(all1, name);
    lemma_entry_value_member(all2, name);
    match entry_value(all1, name) {
        Some(v) => {
            vstd::seq_lib::to_multiset_contains(all1, (name, v));
            vstd::seq_lib::to_multiset_contains(all2, (name, v));
            assert(all2.contains((name, v)));
            let i = choose|i: int| 0 <= i < all2.len() && all2[i] == (name, v);
            assert(all2[i].0 == name);
            match entry_value(all2, name) {
                Some(w) => {
                    vstd::seq_lib::to_multiset_contains(all2, (name, w));
                    vstd::seq_lib::to_multiset_contains(all1, (name, w));
                    let a = choose|a: int| 0 <= a < all1.len() && all1[a] == (name, v);
                    let b = choose|b: int| 0 <= b < all1.len() && all1[b] == (name, w);
                    if a < b {
                        assert(all1[a].0 != all1[b].0);
                    } else if b < a {
                        assert(all1[b].0 != all1[a].0);
                    }
                },
                None => {},
            }
        },
        None => {
            match entry_value(all2, name) {
                Some(w) => {
                    vstd::seq_lib::to_multiset_contains(all2, (name, w));
                    vstd::seq_lib::to_multiset_contains(all1, (name, w));
                    let a = choose|a: int| 0 <= a < all1.len() && all1[a] == (name, w);
                    assert(all1[a].0 == name);
                },
                None => {},
            }
        },
    }
}

proof fn lemma_canonical_permuted(
    all1: Seq<(Seq<char>, Seq<char>)>,
    all2: Seq<(Seq<char>, Seq<char>)>,
    known1: Seq<Seq<char>>,
    known2: Seq<Seq<char>>,
    home: Seq<char>,
    name: Seq<char>,
    fuel: nat,
)
    requires
        all1.to_multiset() == all2.to_multiset(),
        distinct_names(all1),
        known1.to_set() == known2.to_set(),
    ensures
        canonical_path(all1, known1, home, name, fuel) == canonical_path(all2, known2, home, name, fuel),
    decreases fuel,
{
    if name != "HOME"@ && fuel > 0 {
        lemma_entry_value_permuted(all1, all2, name);
        match entry_value(all1, name) {
            None => {},
            Some(v) => {
                let f = (fuel - 1) as nat;
                let upper = upper_seq(v);
                assert(known1.to_set().contains(upper) == known1.contains(upper));
                assert(known2.to_set().contains(upper) == known2.contains(upper));
                if is_known(known1, upper) {
                    lemma_canonical_permuted(all1, all2, known1, known2, home, upper, f);
                } else {
                    match pseudo_path_parts(v) {
                        Some((prefix, rest)) => {
                            let pseudo = upper_seq(prefix);
                            assert(known1.to_set().contains(pseudo) == known1.contains(pseudo));
                            assert(known2.to_set().contains(pseudo) == known2.contains(pseudo));
                            if is_known(known1, pseudo) {
                                lemma_canonical_permuted(all1, all2, known1, known2, home, pseudo, f);
                            }
                        },
                        None => {},
                    }
                }
            },
        }
    }
}

/// The order of the directories in `boreal.json` does not matter: two
/// documents whose `BOREAL.DIRS` hold the same directories in any order
/// resolve every directory to the same path.
pub proof fn law_resolution_ignores_entry_order(
    entries1: Seq<(String, JsonValue)>,
    entries2: Seq<(String, JsonValue)>,
    dirs1: Seq<(String, String)>,
    dirs2: Seq<(String, String)>,
    home: Seq<char>,
)
    requires
        directories_resolved(dirs1, pending_entries(entries1), known_names(entries1), home),
        directories_resolved(dirs2, pending_entries(entries2), known_names(entries2), home),
        pending_entries(entries1).to_multiset() == pending_entries(entries2).to_multiset(),
        known_names(entries1).to_set() == known_names(entries2).to_set(),
    ensures
        forall|a: int, b: int|
            1 <= a < dirs1.len() && 1 <= b < dirs2.len() && (#[trigger] dirs1[a]).0@ == (#[trigger] dirs2[b]).0@
                ==> dirs1[a].1@ == dirs2[b].1@,
{
    broadcast use vstd::seq_lib::group_to_multiset_ensures;

    let all1 = pending_entries(entries1);
    let all2 = pending_entries(entries2);
    let known1 = known_names(entries1);
    let known2 = known_names(entries2);
    lemma_pending_distinct(entries1);
    assert(all1.len() == all1.to_multiset().len());
    assert(all2.len() == all2.to_multiset().len());
    assert forall|a: int, b: int|
        1 <= a < dirs1.len() && 1 <= b < dirs2.len() && (#[trigger] dirs1[a]).0@ == (#[trigger] dirs2[b]).0@ implies dirs1[a].1@
        == dirs2[b].1@ by {
        assert(dirs1[(a - 1) + 1] == dirs1[a]);
        assert(dirs2[(b - 1) + 1] == dirs2[b]);
        lemma_canonical_permuted(all1, all2, known1, known2, home, dirs1[a].0@, all1.len());
    }
}


/// The home a `BOREAL.DIRS` object records: its `home` text, or empty text.
pub open spec fn recorded_home(dirs: JsonValue) -> Seq<char> {
    match member(dirs, "home"@) {
        Some(JsonValue::Text(t)) => t@,
        _ => Seq::empty(),
    }
}

/// Whether `BOREAL.DIRS.home` must be rewritten to `home`: refused when
/// the document has no `BOREAL.DIRS` object, else whether the recorded home
/// differs.
pub fn boreal_home_outdated(document: &JsonValue, home: &str) -> (result: Result<bool, ConfigError>)
    ensures
        match section(*document, "BOREAL"@, "DIRS"@) {
            Some(JsonValue::Object(_)) => result == Ok::<bool, ConfigError>(
                recorded_home(section(*document, "BOREAL"@, "DIRS"@)->0) != home@,
            ),
            _ => result == Err::<bool, ConfigError>(ConfigError::MissingDirs),
        },
{
    proof {
        reveal_strlit("BOREAL");
        reveal_strlit("DIRS");
        reveal_strlit("home");
    }
    let boreal = match get(document, "BOREAL") {
        Some(b) => b,
        None => return Err(ConfigError::MissingDirs),
    };
    let dirs = match get(boreal, "DIRS") {
        Some(d) => d,
        None => return Err(ConfigError::MissingDirs),
    };
    match dirs {
        JsonValue::Object(_) => {},
        _ => return Err(ConfigError::MissingDirs),
    }
    let current = match get(dirs, "home") {
        Some(JsonValue::Text(t)) => chars_of(t.as_str()),
        _ => Vec::new(),
    };
    Ok(!equals_str(current.as_slice(), home))
}

/// Entry `i` is the first of `entries` named `key`.
pub open spec fn first_named(entries: Seq<(String, JsonValue)>, key: Seq<char>, i: int) -> bool {
    &&& 0 <= i < entries.len()
    &&& entries[i].0@ == key
    &&& forall|j: int| 0 <= j < i ==> (#[trigger] entries[j]).0@ != key
}

/// The entries of an object (none for any other value).
pub open spec fn object_entries(value: JsonValue) -> Seq<(String, JsonValue)> {
    match value {
        JsonValue::Object(entries) => entries@,
        _ => seq![],
    }
}

/// `after` is `before` with the value of its first member named `key`
/// replaced by `value`.
pub open spec fn member_replaced(
    before: Seq<(String, JsonValue)>,
    after: Seq<(String, JsonValue)>,
    key: Seq<char>,
    value: JsonValue,
) -> bool {
    exists|i: int| first_named(before, key, i) && after == before.update(i, (before[i].0, value))
}

/// `after` is `before` with member `key` holding the text `text`: the first
/// member of that name takes it, or a new member is added at the end.
pub open spec fn text_member_set(
    before: Seq<(String, JsonValue)>,
    after: Seq<(String, JsonValue)>,
    key: Seq<char>,
    text: Seq<char>,
) -> bool {
    if exists|i: int| first_named(before, key, i) {
        exists|i: int|
            #![trigger first_named(before, key, i)]
            first_named(before, key, i) && after.len() == before.len() && after[i].0 == before[i].0
                && (after[i].1 matches JsonValue::Text(t) && t@ == text) && forall|j: int|
                0 <= j < before.len() && j != i ==> #[trigger] after[j] == before[j]
    } else {
        &&& after.len() == before.len() + 1
        &&& after.drop_last() == before
        &&& after.last().0@ == key
        &&& after.last().1 matches JsonValue::Text(t) && t@ == text
    }
}

/// `after` is the document `before` with `BOREAL.DIRS.home` set to `home`
/// and nothing else changed.
pub open spec fn home_written(before: JsonValue, after: JsonValue, home: Seq<char>) -> bool {
    &&& before is Object
    &&& after is Object
    &&& exists|boreal: JsonValue, dirs: JsonValue|
        #![trigger member_replaced(object_entries(before), object_entries(after), "BOREAL"@, boreal), object_entries(dirs)]
        {
            &&& member_replaced(object_entries(before), object_entries(after), "BOREAL"@, boreal)
            &&& boreal is Object
            &&& member(before, "BOREAL"@) is Some
            &&& member(member(before, "BOREAL"@)->0, "DIRS"@) is Some
            &&& member_replaced(
                object_entries(member(before, "BOREAL"@)->0),
                object_entries(boreal),
                "DIRS"@,
                dirs,
            )
            &&& dirs is Object
            &&& text_member_set(
                object_entries(section(before, "BOREAL"@, "DIRS"@)->0),
                object_entries(dirs),
                "home"@,
                home,
            )
        }
}

proof fn lemma_first_named_found(entries: Seq<(String, JsonValue)>, key: Seq<char>, i: int)
    requires
        first_named(entries, key, i),
    ensures
        find_member(entries, key) == Some(entries[i].1),
    decreases i,
{
    if i > 0 {
        assert(entries[0].0@ != key);
        let rest = entries.drop_first();
        assert forall|j: int| 0 <= j < i - 1 implies (#[trigger] rest[j]).0@ != key by {
            assert(rest[j] == entries[j + 1]);
        }
        lemma_first_named_found(rest, key, i - 1);
    }
}

proof fn lemma_unnamed_missing(entries: Seq<(String, JsonValue)>, key: Seq<char>)
    requires
        forall|j: int| 0 <= j < entries.len() ==> (#[trigger] entries[j]).0@ != key,
    ensures
        find_member(entries, key) is None,
    decreases entries.len(),
{
    if entries.len() > 0 {
        let rest = entries.drop_first();
        assert forall|j: int| 0 <= j < rest.len() implies (#[trigger] rest[j]).0@ != key by {
            assert(rest[j] == entries[j + 1]);
        }
        lemma_unnamed_missing(rest, key);
    }
}

/// The position of the first member named `key`.
fn member_position(entries: &Vec<(String, JsonValue)>, key: &str) -> (result: Option<usize>)
    ensures
        match result {
            Some(i) => first_named(entries@, key@, i as int),
            None => forall|j: int| 0 <= j < entries@.len() ==> (#[trigger] entries@[j]).0@ != key@,
        },
{
    let mut i: usize = 0;
    while i < entries.len()
        invariant
            i <= entries@.len(),
            forall|j: int| 0 <= j < i ==> (#[trigger] entries@[j]).0@ != key@,
        decreases entries.len() - i,
    {
        if equals_str(chars_of(entries[i].0.as_str()).as_slice(), key) {
            return Some(i);
        }
        i = i + 1;
    }
    None
}

/// Gives member `key` of an object the text `text`.
fn set_text_member(value: &mut JsonValue, key: &str, text: &str)
    requires
        *old(value) is Object,
    ensures
        *final(value) is Object,
        text_member_set(object_entries(*old(value)), object_entries(*final(value)), key@, text@),
{
    match value {
        JsonValue::Object(entries) => {
            let ghost before = entries@;
            match member_position(entries, key) {
                Some(i) => {
                    let (name, _) = entries.remove(i);
                    entries.insert(i, (name, JsonValue::Text(string_from(text))));
                    assert(first_named(before, key@, i as int));
                },
                None => {
                    entries.push((string_from(key), JsonValue::Text(string_from(text))));
                    assert(entries@.drop_last() =~= before);
                },
            }
        },
        _ => {},
    }
}

/// Records `boreal_home` as `BOREAL.DIRS.home`, and says whether the file
/// must be rewritten: refused, with the document untouched, when it has no
/// `BOREAL.DIRS` object; else the home is written when it differs from the
/// recorded one, and the answer is whether it did.
pub fn set_boreal_home(boreal: &mut JsonValue, boreal_home: &str) -> (result: Result<bool, ConfigError>)
    ensures
        match section(*old(boreal), "BOREAL"@, "DIRS"@) {
            Some(JsonValue::Object(_)) => {
                let outdated = recorded_home(section(*old(boreal), "BOREAL"@, "DIRS"@)->0) != boreal_home@;
                &&& result == Ok::<bool, ConfigError>(outdated)
                &&& outdated ==> home_written(*old(boreal), *final(boreal), boreal_home@)
                &&& !outdated ==> *final(boreal) == *old(boreal)
            },
            _ => result == Err::<bool, ConfigError>(ConfigError::MissingDirs) && *final(boreal) == *old(boreal),
        },
{
    match boreal_home_outdated(boreal, boreal_home) {
        Err(e) => return Err(e),
        Ok(false) => return Ok(false),
        Ok(true) => {},
    }
    proof {
        reveal_strlit("BOREAL");
        reveal_strlit("DIRS");
        reveal_strlit("home");
    }
    let ghost before = *boreal;
    match boreal {
        JsonValue::Object(top) => {
            let ghost top_before = top@;
            let i = match member_position(top, "BOREAL") {
                Some(i) => i,
                None => {
                    proof {
                        lemma_unnamed_missing(top_before, "BOREAL"@);
                    }
                    return Ok(true);
                },
            };
            proof {
                lemma_first_named_found(top_before, "BOREAL"@, i as int);
            }
            let (outer_name, mut outer) = top.remove(i);
            assert(outer == top_before[i as int].1);
            match &mut outer {
                JsonValue::Object(inner) => {
                    let ghost inner_before = inner@;
                    match member_position(inner, "DIRS") {
                        Some(k) => {
                            proof {
                                lemma_first_named_found(inner_before, "DIRS"@, k as int);
                            }
                            let (dirs_name, mut dirs) = inner.remove(k);
                            assert(dirs == inner_before[k as int].1);
                            set_text_member(&mut dirs, "home", boreal_home);
                            let ghost dirs_after = dirs;
                            inner.insert(k, (dirs_name, dirs));
                            assert(inner@ =~= inner_before.update(k as int, (inner_before[k as int].0, dirs_after)));
                            assert(member_replaced(inner_before, inner@, "DIRS"@, dirs_after));
                        },
                        None => {
                            proof {
                                lemma_unnamed_missing(inner_before, "DIRS"@);
                            }
                            return Ok(true);
                        },
                    }
                },
                _ => {
                    return Ok(true);
                },
            }
            let ghost outer_after = outer;
            top.insert(i, (outer_name, outer));
            assert(top@ =~= top_before.update(i as int, (top_before[i as int].0, outer_after)));
            assert(member_replaced(object_entries(before), object_entries(*boreal), "BOREAL"@, outer_after));
        },
        _ => {},
    }
    Ok(true)
}

/// Writing the home makes it the recorded one: the document keeps its
/// `BOREAL.DIRS` object, whose `home` is now the written path, so a second
/// write finds nothing to change.
pub proof fn law_written_home_is_recorded(before: JsonValue, after: JsonValue, home: Seq<char>)
    requires
        home_written(before, after, home),
    ensures
        section(after, "BOREAL"@, "DIRS"@) matches Some(JsonValue::Object(_)),
        recorded_home(section(after, "BOREAL"@, "DIRS"@)->0) == home,
{
    reveal_strlit("home");
    let (boreal, dirs) = choose|boreal: JsonValue, dirs: JsonValue|
        {
            &&& member_replaced(object_entries(before), object_entries(after), "BOREAL"@, boreal)
            &&& boreal is Object
            &&& member(before, "BOREAL"@) is Some
            &&& member(member(before, "BOREAL"@)->0, "DIRS"@) is Some
            &&& member_replaced(
                object_entries(member(before, "BOREAL"@)->0),
                object_entries(boreal),
                "DIRS"@,
                dirs,
            )
            &&& dirs is Object
            &&& text_member_set(
                object_entries(section(before, "BOREAL"@, "DIRS"@)->0),
                object_entries(dirs),
                "home"@,
                home,
            )
        };
    lemma_replaced_found(object_entries(before), object_entries(after), "BOREAL"@, boreal);
    assert(member(after, "BOREAL"@) == Some(boreal));
    lemma_replaced_found(object_entries(member(before, "BOREAL"@)->0), object_entries(boreal), "DIRS"@, dirs);
    assert(section(after, "BOREAL"@, "DIRS"@) == Some(dirs));
    lemma_text_set_found(object_entries(section(before, "BOREAL"@, "DIRS"@)->0), object_entries(dirs), "home"@, home);
}

proof fn lemma_replaced_found(
    before: Seq<(String, JsonValue)>,
    after: Seq<(String, JsonValue)>,
    key: Seq<char>,
    value: JsonValue,
)
    requires
        member_replaced(before, after, key, value),
    ensures
        find_member(after, key) == Some(value),
{
    let i = choose|i: int| first_named(before, key, i) && after == before.update(i, (before[i].0, value));
    assert forall|j: int| 0 <= j < i implies (#[trigger] after[j]).0@ != key by {
        assert(after[j] == before[j]);
    }
    assert(first_named(after, key, i));
    lemma_first_named_found(after, key, i);
}

proof fn lemma_text_set_found(
    before: Seq<(String, JsonValue)>,
    after: Seq<(String, JsonValue)>,
    key: Seq<char>,
    text: Seq<char>,
)
    requires
        text_member_set(before, after, key, text),
    ensures
        find_member(after, key) matches Some(JsonValue::Text(t)) && t@ == text,
{
    if exists|i: int| first_named(before, key, i) {
        let i = choose|i: int|
            #![trigger first_named(before, key, i)]
            first_named(before, key, i) && after.len() == before.len() && after[i].0 == before[i].0
                && (after[i].1 matches JsonValue::Text(t) && t@ == text) && forall|j: int|
                0 <= j < before.len() && j != i ==> #[trigger] after[j] == before[j];
        assert forall|j: int| 0 <= j < i implies (#[trigger] after[j]).0@ != key by {
            assert(after[j] == before[j]);
        }
        assert(first_named(after, key, i));
        lemma_first_named_found(after, key, i);
    } else {
        let n = before.len() as int;
        assert forall|j: int| 0 <= j < n implies (#[trigger] after[j]).0@ != key by {
            assert(after[j] == after.drop_last()[j]);
            if before[j].0@ == key {
                assert(first_named(before, key, j) || exists|m: int| first_named(before, key, m)) by {
                    lemma_some_first_named(before, key, j);
                }
            }
        }
        assert(first_named(after, key, n));
        lemma_first_named_found(after, key, n);
    }
}

proof fn lemma_some_first_named(entries: Seq<(String, JsonValue)>, key: Seq<char>, j: int)
    requires
        0 <= j < entries.len(),
        entries[j].0@ == key,
    ensures
        exists|m: int| first_named(entries, key, m),
    decreases j,
{
    if exists|m: int| 0 <= m < j && (#[trigger] entries[m]).0@ == key {
        let m = choose|m: int| 0 <= m < j && (#[trigger] entries[m]).0@ == key;
        lemma_some_first_named(entries, key, m);
    } else {
        assert(first_named(entries, key, j));
    }
}

} // verus!
