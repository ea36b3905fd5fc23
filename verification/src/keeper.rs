//! Keeper Commander: locating it and reading its shared-folder report.
use vstd::prelude::*;

use crate::text::{
    chars_of,
    find_char,
    first_index_of,
    lower_seq,
    push_chars,
    push_str,
    slice_range,
    starts_with,
    string_from,
    string_of,
    trim,
    trim_chars,
    trim_str,
};

verus! {

#[derive(Debug, Clone)]
pub struct SharedFolder {
    pub folder_uid: String,
    pub name: String,
    pub folder_type: String,
    pub folder_path: String,
    pub access: Vec<FolderAccess>,
}

#[derive(Debug, Clone)]
pub struct FolderAccess {
    pub shared_to: String,
    pub permissions: String,
    pub target_kind: String,
}

/// One row of `share-report --folders`, as decoded from its JSON.
#[derive(Debug, Clone)]
pub struct SharedFolderReportRow {
    pub folder_uid: String,
    pub folder_name: String,
    pub folder_type: String,
    pub shared_to: String,
    pub permissions: String,
    pub folder_path: String,
}

/// The last index of `c` in `s`.
pub open spec fn last_index_of(s: Seq<char>, c: char, i: int) -> bool {
    0 <= i < s.len() && s[i] == c && forall|j: int| i < j < s.len() ==> s[j] != c
}

/// The JSON array in Commander's output: from its first `[` to its last
/// `]`, when they come in that order.
pub open spec fn json_array_span(s: Seq<char>) -> Option<Seq<char>> {
    if s.contains('[') && s.contains(']') {
        let start = choose|i: int| first_index_of(s, '[', i);
        let end = choose|i: int| last_index_of(s, ']', i);
        if end >= start {
            Some(s.subrange(start, end + 1))
        } else {
            None
        }
    } else {
        None
    }
}

fn rfind_char(s: &[char], c: char) -> (result: Option<usize>)
    ensures
        match result {
            Some(i) => last_index_of(s@, c, i as int),
            None => !s@.contains(c),
        },
{
    let mut k: usize = s.len();
    while k > 0
        invariant
            k <= s@.len(),
            forall|j: int| k <= j < s@.len() ==> s@[j] != c,
        decreases k,
    {
        if s[k - 1] == c {
            return Some(k - 1);
        }
        k = k - 1;
    }
    assert forall|j: int| 0 <= j < s@.len() implies s@[j] != c by {}
    None
}

pub fn json_array(output: &str) -> (result: Option<String>)
    ensures
        match json_array_span(output@) {
            Some(span) => result matches Some(r) && r@ == span,
            None => result is None,
        },
{
    let s = chars_of(output);
    let start = match find_char(s.as_slice(), '[') {
        Some(i) => i,
        None => return None,
    };
    let end = match rfind_char(s.as_slice(), ']') {
        Some(i) => i,
        None => {
            assert(s@.contains('[')) by {
                assert(s@[start as int] == '[');
            }
            return None;
        },
    };
    proof {
        assert(s@.contains('[')) by {
            assert(s@[start as int] == '[');
        }
        assert(s@.contains(']')) by {
            assert(s@[end as int] == ']');
        }
        let a = choose|i: int| first_index_of(s@, '[', i);
        let b = choose|i: int| last_index_of(s@, ']', i);
        assert(a == start) by {
            if a < start {
                assert(s@[a] != '[');
            }
            if a > start {
                assert(s@[start as int] == '[');
            }
        }
        assert(b == end) by {
            if b > end {
                assert(s@[b] != ']');
            }
            if b < end {
                assert(s@[end as int] == ']');
            }
        }
    }
    assert(end < s.len());
    if end >= start {
        Some(string_of(slice_range(s.as_slice(), start, end + 1).as_slice()))
    } else {
        None
    }
}

/// An error message with the command's trimmed error output, when it has
/// any.
pub fn command_error(prefix: &str, stderr: &str) -> (result: String)
    ensures
        trim(stderr@).len() == 0 ==> result@ == prefix@,
        trim(stderr@).len() > 0 ==> result@ == prefix@ + seq![':', ' '] + trim(stderr@),
{
    let detail = trim_str(stderr);
    let mut text: Vec<char> = Vec::new();
    push_str(&mut text, prefix);
    if detail.len() > 0 {
        text.push(':');
        text.push(' ');
        push_chars(&mut text, detail.as_slice());
    }
    string_of(text.as_slice())
}

/// The Commander executable a configured command names: a leading `~`
/// stands for `home`, and the separators after it are dropped.
pub fn command_path(command: &str, home: &str) -> (result: Option<String>)
    ensures
        match commander_path(command@, home@) {
            Some(p) => result matches Some(r) && r@ == p,
            None => result is None,
        },
{
    let c = trim_str(command);
    if c.len() == 0 {
        return None;
    }
    let tilde = c[0] == '~' && (c.len() == 1 || c[1] == '/' || c[1] == '\\');
    proof {
        reveal_strlit("~");
        reveal_strlit("~/");
        reveal_strlit("~\\");
        assert("~"@ =~= seq!['~']);
        assert("~/"@ =~= seq!['~', '/']);
        assert("~\\"@ =~= seq!['~', '\\']);
        if c@.len() >= 2 {
            assert(c@.subrange(0, 2) =~= seq![c@[0], c@[1]]);
        }
        if c@.len() == 1 {
            assert(c@ =~= seq![c@[0]]);
        }
        assert(tilde == (c@ == "~"@ || starts_with(c@, "~/"@) || starts_with(c@, "~\\"@)));
    }
    if !tilde {
        return Some(string_of(c.as_slice()));
    }
    let after_tildes = skip_run(c.as_slice(), 0, '~', '~');
    assert(c@.subrange(0, c@.len() as int) =~= c@);
    let start = skip_run(c.as_slice(), after_tildes, '/', '\\');
    let relative = slice_range(c.as_slice(), start, c.len());
    let base = chars_of(home);
    let mut out: Vec<char> = Vec::new();
    if relative.len() > 0 && relative[0] == '/' {
        push_chars(&mut out, relative.as_slice());
    } else if base.len() == 0 {
        push_chars(&mut out, relative.as_slice());
    } else {
        push_chars(&mut out, base.as_slice());
        if base[base.len() - 1] != '/' {
            out.push('/');
        }
        push_chars(&mut out, relative.as_slice());
    }
    assert(out@ =~= home_joined(home@, relative@));
    Some(string_of(out.as_slice()))
}

/// `s` without its leading run of `a` and `b` characters.
pub open spec fn without_leading(s: Seq<char>, a: char, b: char) -> Seq<char>
    decreases s.len(),
{
    if s.len() > 0 && (s[0] == a || s[0] == b) {
        without_leading(s.drop_first(), a, b)
    } else {
        s
    }
}

/// A path under the home folder, as `PathBuf::join` forms it.
pub open spec fn home_joined(home: Seq<char>, relative: Seq<char>) -> Seq<char> {
    if relative.len() > 0 && relative[0] == '/' {
        relative
    } else if home.len() == 0 {
        relative
    } else {
        home + (if home.last() != '/' {
            seq!['/']
        } else {
            Seq::empty()
        }) + relative
    }
}

/// The Commander executable a configured command names: nothing when blank;
/// `~`, `~/...` and `~\...` under the home folder; any other text as it is.
pub open spec fn commander_path(command: Seq<char>, home: Seq<char>) -> Option<Seq<char>> {
    let c = trim(command);
    if c.len() == 0 {
        None
    } else if c == "~"@ || starts_with(c, "~/"@) || starts_with(c, "~\\"@) {
        Some(home_joined(home, without_leading(without_leading(c, '~', '~'), '/', '\\')))
    } else {
        Some(c)
    }
}

fn skip_run(s: &[char], from: usize, a: char, b: char) -> (end: usize)
    requires
        from <= s@.len(),
    ensures
        from <= end <= s@.len(),
        without_leading(s@.subrange(from as int, s@.len() as int), a, b) == s@.subrange(end as int, s@.len() as int),
{
    let mut k = from;
    while k < s.len() && (s[k] == a || s[k] == b)
        invariant
            from <= k <= s@.len(),
            without_leading(s@.subrange(from as int, s@.len() as int), a, b) == without_leading(
                s@.subrange(k as int, s@.len() as int),
                a,
                b,
            ),
        decreases s.len() - k,
    {
        assert(s@.subrange(k + 1, s@.len() as int) =~= s@.subrange(k as int, s@.len() as int).drop_first());
        k = k + 1;
    }
    k
}

/// Who a folder is shared with: a team user, a team, or a user.
pub fn target_kind(shared_to: &str) -> (result: &'static str)
    ensures
        result@ == if starts_with(shared_to@, "(Team User)"@) {
            "team-user"@
        } else if starts_with(shared_to@, "(Team)"@) {
            "team"@
        } else {
            "user"@
        },
{
    let c = chars_of(shared_to);
    if crate::text::starts_with_str(c.as_slice(), "(Team User)") {
        "team-user"
    } else if crate::text::starts_with_str(c.as_slice(), "(Team)") {
        "team"
    } else {
        "user"
    }
}

/// Lexicographic order of character sequences.
pub open spec fn seq_le(a: Seq<char>, b: Seq<char>) -> bool
    decreases a.len(),
{
    if a.len() == 0 {
        true
    } else if b.len() == 0 {
        false
    } else if a[0] != b[0] {
        a[0] < b[0]
    } else {
        seq_le(a.drop_first(), b.drop_first())
    }
}

fn chars_le(a: &[char], b: &[char]) -> (result: bool)
    ensures
        result == seq_le(a@, b@),
{
    let mut i: usize = 0;
    assert(a@.subrange(0, a@.len() as int) =~= a@);
    assert(b@.subrange(0, b@.len() as int) =~= b@);
    while i < a.len() && i < b.len() && a[i] == b[i]
        invariant
            i <= a@.len(),
            i <= b@.len(),
            seq_le(a@, b@) == seq_le(a@.subrange(i as int, a@.len() as int), b@.subrange(i as int, b@.len() as int)),
        decreases a@.len() - i,
    {
        assert(a@.subrange(i as int, a@.len() as int).drop_first() =~= a@.subrange(i + 1, a@.len() as int));
        assert(b@.subrange(i as int, b@.len() as int).drop_first() =~= b@.subrange(i + 1, b@.len() as int));
        i = i + 1;
    }
    if i == a.len() {
        true
    } else if i == b.len() {
        false
    } else {
        a[i] < b[i]
    }
}

proof fn lemma_seq_le_total(a: Seq<char>, b: Seq<char>)
    ensures
        seq_le(a, b) || seq_le(b, a),
    decreases a.len(),
{
    if a.len() > 0 && b.len() > 0 && a[0] == b[0] {
        lemma_seq_le_total(a.drop_first(), b.drop_first());
    }
}

/// The key folders are listed by.
pub open spec fn folder_key(f: SharedFolder) -> Seq<char> {
    lower_seq(f.name@)
}

/// A folder as text: its id, name, type, path, and the access entries
/// (shared to, permissions, kind of target) in order.
pub struct FolderModel {
    pub uid: Seq<char>,
    pub name: Seq<char>,
    pub folder_type: Seq<char>,
    pub path: Seq<char>,
    pub access: Seq<(Seq<char>, Seq<char>, Seq<char>)>,
}

/// The kind of target a share names.
pub open spec fn kind_text(shared_to: Seq<char>) -> Seq<char> {
    if starts_with(shared_to, "(Team User)"@) {
        "team-user"@
    } else if starts_with(shared_to, "(Team)"@) {
        "team"@
    } else {
        "user"@
    }
}

/// An access entry as text.
pub open spec fn access_model(a: FolderAccess) -> (Seq<char>, Seq<char>, Seq<char>) {
    (a.shared_to@, a.permissions@, a.target_kind@)
}

/// A folder as text.
pub open spec fn folder_model(f: SharedFolder) -> FolderModel {
    FolderModel {
        uid: f.folder_uid@,
        name: f.name@,
        folder_type: f.folder_type@,
        path: f.folder_path@,
        access: f.access@.map_values(|a: FolderAccess| access_model(a)),
    }
}

/// The first folder with this id.
pub open spec fn folder_position(folders: Seq<FolderModel>, uid: Seq<char>) -> Option<int>
    decreases folders.len(),
{
    if folders.len() == 0 {
        None
    } else {
        match folder_position(folders.drop_last(), uid) {
            Some(i) => Some(i),
            None => if folders.last().uid == uid {
                Some(folders.len() - 1)
            } else {
                None
            },
        }
    }
}

/// The report's rows grouped by folder, folders in the order their first
/// row comes: rows without a folder id are skipped; a folder takes the
/// name, type and path of its first row, and each row shared with someone
/// adds an access entry.
pub open spec fn grouped(rows: Seq<SharedFolderReportRow>) -> Seq<FolderModel>
    decreases rows.len(),
{
    if rows.len() == 0 {
        seq![]
    } else {
        let before = grouped(rows.drop_last());
        let r = rows.last();
        if trim(r.folder_uid@).len() == 0 {
            before
        } else {
            let (with_folder, index) = match folder_position(before, r.folder_uid@) {
                Some(i) => (before, i),
                None => (
                    before.push(
                        FolderModel {
                            uid: r.folder_uid@,
                            name: r.folder_name@,
                            folder_type: r.folder_type@,
                            path: r.folder_path@,
                            access: seq![],
                        },
                    ),
                    before.len() as int,
                ),
            };
            if trim(r.shared_to@).len() > 0 {
                let f = with_folder[index];
                with_folder.update(
                    index,
                    FolderModel {
                        uid: f.uid,
                        name: f.name,
                        folder_type: f.folder_type,
                        path: f.path,
                        access: f.access.push((r.shared_to@, r.permissions@, kind_text(r.shared_to@))),
                    },
                )
            } else {
                with_folder
            }
        }
    }
}

/// The folders as text.
pub open spec fn folder_models(folders: Seq<SharedFolder>) -> Seq<FolderModel> {
    folders.map_values(|f: SharedFolder| folder_model(f))
}

/// `result` holds the folders the rows group into, in some order.
pub open spec fn groups_rows(result: Seq<SharedFolder>, rows: Seq<SharedFolderReportRow>) -> bool {
    exists|folders: Seq<SharedFolder>|
        #[trigger] folder_models(folders) == grouped(rows) && result.to_multiset() == folders.to_multiset()
}

proof fn lemma_position_bound(folders: Seq<FolderModel>, uid: Seq<char>)
    ensures
        folder_position(folders, uid) matches Some(i) ==> 0 <= i < folders.len() && folders[i].uid == uid,
    decreases folders.len(),
{
    if folders.len() > 0 {
        lemma_position_bound(folders.drop_last(), uid);
    }
}

/// Groups report rows by folder (rows without a folder id are skipped):
/// a folder keeps the name, type and path of its first row and gains one
/// access entry per row shared with someone. Folders come sorted by name,
/// ignoring ASCII case.
pub fn group_report_rows(rows: Vec<SharedFolderReportRow>) -> (result: Vec<SharedFolder>)
    ensures
        groups_rows(result@, rows@),
        forall|a: int| 0 <= a < result@.len() - 1 ==> seq_le(folder_key(#[trigger] result@[a]), folder_key(result@[a + 1])),
{
    let mut folders: Vec<SharedFolder> = Vec::new();
    let mut i: usize = 0;
    assert(folder_models(folders@) =~= grouped(rows@.subrange(0, 0)));
    while i < rows.len()
        invariant
            i <= rows@.len(),
            folder_models(folders@) == grouped(rows@.subrange(0, i as int)),
        decreases rows@.len() - i,
    {
        let ghost before = folder_models(folders@);
        assert(rows@.subrange(0, i + 1).drop_last() =~= rows@.subrange(0, i as int));
        assert(rows@.subrange(0, i + 1).last() == rows@[i as int]);
        let row = &rows[i];
        if trim_str(row.folder_uid.as_str()).len() > 0 {
            let mut found: Option<usize> = None;
            let mut k: usize = 0;
            let uid = chars_of(row.folder_uid.as_str());
            while k < folders.len()
                invariant
                    k <= folders@.len(),
                    before == folder_models(folders@),
                    uid@ == row.folder_uid@,
                    match found {
                        Some(f) => folder_position(before.subrange(0, k as int), uid@) == Some(f as int),
                        None => folder_position(before.subrange(0, k as int), uid@) is None,
                    },
                decreases folders@.len() - k,
            {
                assert(before.subrange(0, k + 1).drop_last() =~= before.subrange(0, k as int));
                assert(before.subrange(0, k + 1).last() == before[k as int]);
                assert(before[k as int].uid == folders@[k as int].folder_uid@);
                if found.is_none() && crate::text::equals_str(uid.as_slice(), folders[k].folder_uid.as_str()) {
                    found = Some(k);
                }
                k = k + 1;
            }
            assert(before.subrange(0, before.len() as int) =~= before);
            proof {
                lemma_position_bound(before, uid@);
            }
            let index = match found {
                Some(f) => f,
                None => {
                    folders.push(
                        SharedFolder {
                            folder_uid: row.folder_uid.clone(),
                            name: row.folder_name.clone(),
                            folder_type: row.folder_type.clone(),
                            folder_path: row.folder_path.clone(),
                            access: Vec::new(),
                        },
                    );
                    assert(folders@.last().access@.map_values(|a: FolderAccess| access_model(a)) =~= Seq::<
                        (Seq<char>, Seq<char>, Seq<char>),
                    >::empty());
                    assert(folder_models(folders@) =~= before.push(
                        FolderModel {
                            uid: row.folder_uid@,
                            name: row.folder_name@,
                            folder_type: row.folder_type@,
                            path: row.folder_path@,
                            access: seq![],
                        },
                    ));
                    folders.len() - 1
                },
            };
            let ghost with_folder = folder_models(folders@);
            if trim_str(row.shared_to.as_str()).len() > 0 {
                let mut folder = folders.remove(index);
                let ghost removed = folders@;
                let ghost old_access = folder.access@;
                folder.access.push(
                    FolderAccess {
                        shared_to: row.shared_to.clone(),
                        permissions: row.permissions.clone(),
                        target_kind: string_from(target_kind(row.shared_to.as_str())),
                    },
                );
                assert(folder.access@.map_values(|a: FolderAccess| access_model(a)) =~= old_access.map_values(
                    |a: FolderAccess| access_model(a),
                ).push((row.shared_to@, row.permissions@, kind_text(row.shared_to@))));
                folders.insert(index, folder);
                let ghost f = with_folder[index as int];
                assert(folder_models(folders@) =~= with_folder.update(
                    index as int,
                    FolderModel {
                        uid: f.uid,
                        name: f.name,
                        folder_type: f.folder_type,
                        path: f.path,
                        access: f.access.push((row.shared_to@, row.permissions@, kind_text(row.shared_to@))),
                    },
                ));
            }
        }
        i = i + 1;
    }
    assert(rows@.subrange(0, rows@.len() as int) =~= rows@);
    let ghost grouping = folders@;
    let result = sort_folders(folders);
    assert(folder_models(grouping) == grouped(rows@));
    result
}

/// Sorts folders by name ignoring ASCII case, keeping the order of equal
/// names.
pub fn sort_folders(folders: Vec<SharedFolder>) -> (result: Vec<SharedFolder>)
    ensures
        result@.len() == folders@.len(),
        result@.to_multiset() == folders@.to_multiset(),
        forall|a: int| 0 <= a < result@.len() - 1 ==> seq_le(folder_key(#[trigger] result@[a]), folder_key(result@[a + 1])),
{
    broadcast use vstd::seq_lib::group_to_multiset_ensures, vstd::multiset::group_multiset_axioms;

    let ghost original = folders@;
    let mut sorted: Vec<SharedFolder> = Vec::new();
    let mut keys: Vec<Vec<char>> = Vec::new();
    let mut rest = folders;
    let n = rest.len();
    while rest.len() > 0
        invariant
            sorted@.len() + rest@.len() == n,
            n == original.len(),
            sorted@.to_multiset().add(rest@.to_multiset()) == original.to_multiset(),
            keys@.len() == sorted@.len(),
            forall|a: int| 0 <= a < keys@.len() ==> #[trigger] keys@[a]@ == folder_key(sorted@[a]),
            forall|a: int| 0 <= a < sorted@.len() - 1 ==> seq_le(folder_key(#[trigger] sorted@[a]), folder_key(sorted@[a + 1])),
        decreases rest@.len(),
    {
        let ghost rest_before = rest@;
        let folder = rest.remove(0);
        assert(rest_before.to_multiset() == rest@.to_multiset().insert(folder)) by {
            vstd::seq_lib::to_multiset_remove(rest_before, 0);
            assert(rest_before[0] == folder);
            assert(rest_before.contains(folder));
            vstd::seq_lib::to_multiset_contains(rest_before, folder);
        }
        let key = crate::text::to_ascii_lower(chars_of(folder.name.as_str()).as_slice());
        // Insert after every folder whose key is not greater.
        let ghost k = folder_key(folder);
        assert(key@ == k);
        let mut at: usize = sorted.len();
        while at > 0 && !chars_le(keys[at - 1].as_slice(), key.as_slice())
            invariant
                at <= sorted@.len(),
                keys@.len() == sorted@.len(),
                at < sorted@.len() ==> !seq_le(keys@[at as int]@, key@),
            decreases at,
        {
            at = at - 1;
        }
        proof {
            if at < sorted@.len() {
                lemma_seq_le_total(keys@[at as int]@, key@);
            }
        }
        let ghost old_sorted = sorted@;
        let ghost old_keys = keys@;
        sorted.insert(at, folder);
        keys.insert(at, key);
        proof {
            vstd::seq_lib::to_multiset_insert(old_sorted, at as int, folder);
            assert(sorted@.to_multiset().add(rest@.to_multiset()) =~= original.to_multiset());
            assert forall|a: int| 0 <= a < keys@.len() implies #[trigger] keys@[a]@ == folder_key(sorted@[a]) by {
                if a < at {
                    assert(keys@[a] == old_keys[a] && sorted@[a] == old_sorted[a]);
                } else if a > at {
                    assert(keys@[a] == old_keys[a - 1] && sorted@[a] == old_sorted[a - 1]);
                }
            }
            assert forall|a: int| 0 <= a < sorted@.len() - 1 implies seq_le(folder_key(#[trigger] sorted@[a]), folder_key(sorted@[a + 1])) by {
                if a + 1 < at {
                    assert(sorted@[a] == old_sorted[a] && sorted@[a + 1] == old_sorted[a + 1]);
                } else if a + 1 == at {
                    assert(sorted@[a] == old_sorted[a]);
                    assert(keys@[a]@ == folder_key(sorted@[a]));
                } else if a == at {
                    assert(sorted@[a + 1] == old_sorted[a]);
                    assert(keys@[a + 1]@ == folder_key(sorted@[a + 1]));
                } else {
                    assert(sorted@[a] == old_sorted[a - 1] && sorted@[a + 1] == old_sorted[a]);
                }
            }
        }
    }
    assert(rest@.to_multiset() =~= vstd::multiset::Multiset::empty());
    assert(sorted@.to_multiset() =~= original.to_multiset());
    sorted
}


/// What Commander's `login-status` printed, when it names a session.
pub fn session_status(stdout: &str) -> (result: Result<String, &'static str>)
    ensures
        trim(stdout@).len() > 0 ==> (result matches Ok(s) && s@ == trim(stdout@)),
        trim(stdout@).len() == 0 ==> (result matches Err(m) && m@
            == "Keeper Commander did not report an authenticated session"@),
{
    let status = trim_str(stdout);
    if status.len() == 0 {
        return Err("Keeper Commander did not report an authenticated session");
    }
    Ok(string_of(status.as_slice()))
}

/// The file name of the Commander executable.
pub fn commander_file_name(windows: bool) -> (name: &'static str)
    ensures
        name@ == (if windows {
            "keeper.exe"@
        } else {
            "keeper"@
        }),
{
    if windows {
        "keeper.exe"
    } else {
        "keeper"
    }
}

} // verus!
