//! Downloads from Google Drive to local folders.
use vstd::prelude::*;

use crate::rclone::remotes::RemoteKind;
use crate::text::{
    chars_of,
    push_chars,
    push_str,
    slice_range,
    split_char,
    strip_trailing,
    strip_trailing_char,
    string_from,
    string_of,
    trim,
    trim_chars,
    upper_seq,
};

verus! {

/// Characters no portable file name may hold.
pub open spec fn forbidden_in_names(c: char) -> bool {
    c == '/' || c == '\\' || c == ':' || c == '*' || c == '?' || c == '"' || c == '<' || c == '>'
        || c == '|'
}

pub open spec fn replace_forbidden(s: Seq<char>) -> Seq<char> {
    s.map_values(|c: char| if forbidden_in_names(c) { '_' } else { c })
}

/// `s` with every leading `c` removed.
pub open spec fn strip_leading(s: Seq<char>, c: char) -> Seq<char>
    decreases s.len(),
{
    if s.len() > 0 && s[0] == c {
        strip_leading(s.drop_first(), c)
    } else {
        s
    }
}

/// Device names Windows reserves, whatever follows their first `.`.
pub open spec fn reserved_device(stem: Seq<char>) -> bool {
    ||| stem == seq!['C', 'O', 'N']
    ||| stem == seq!['P', 'R', 'N']
    ||| stem == seq!['A', 'U', 'X']
    ||| stem == seq!['N', 'U', 'L']
    ||| (stem.len() == 4 && (stem.subrange(0, 3) == seq!['C', 'O', 'M'] || stem.subrange(0, 3)
        == seq!['L', 'P', 'T']) && '1' <= stem[3] <= '9')
}

/// The cleaned name: forbidden characters replaced by `_`, surrounding
/// blanks and then surrounding dots removed.
pub open spec fn cleaned_name(name: Seq<char>) -> Seq<char> {
    strip_trailing(strip_leading(trim(replace_forbidden(name)), '.'), '.')
}

/// A file name that is safe on Windows, macOS and Linux.
pub open spec fn local_name(name: Seq<char>) -> Seq<char> {
    let s = cleaned_name(name);
    if s.len() == 0 {
        seq!['D', 'r', 'i', 'v', 'e', ' ', 'i', 't', 'e', 'm']
    } else if reserved_device(upper_seq(split_char(s, '.')[0])) {
        seq!['_'] + s
    } else {
        s
    }
}

pub(crate) fn strip_leading_char(s: &[char], c: char) -> (result: Vec<char>)
    ensures
        result@ == strip_leading(s@, c),
{
    let mut start: usize = 0;
    assert(s@.subrange(0, s@.len() as int) =~= s@);
    while start < s.len() && s[start] == c
        invariant
            start <= s@.len(),
            strip_leading(s@.subrange(start as int, s@.len() as int), c) == strip_leading(s@, c),
        decreases s@.len() - start,
    {
        assert(s@.subrange(start as int, s@.len() as int).drop_first() =~= s@.subrange(
            start + 1,
            s@.len() as int,
        ));
        start = start + 1;
    }
    slice_range(s, start, s.len())
}

fn first_piece(s: &[char], sep: char) -> (result: Vec<char>)
    ensures
        result@ == split_char(s@, sep)[0],
{
    let pieces = crate::text::split_chars(s, sep);
    proof {
        crate::text::lemma_split_nonempty(s@, sep);
    }
    pieces[0].clone()
}

fn is_reserved_device(stem: &[char]) -> (result: bool)
    ensures
        result == reserved_device(stem@),
{
    proof {
        if stem@.len() == 4 {
            assert(stem@.subrange(0, 3) =~= seq![stem@[0], stem@[1], stem@[2]]);
        }
    }
    if stem.len() == 3 {
        let a = stem[0];
        let b = stem[1];
        let c = stem[2];
        let r = (a == 'C' && b == 'O' && c == 'N') || (a == 'P' && b == 'R' && c == 'N') || (a
            == 'A' && b == 'U' && c == 'X') || (a == 'N' && b == 'U' && c == 'L');
        proof {
            if r {
                assert(reserved_device(stem@)) by {
                    if a == 'C' {
                        assert(stem@ =~= seq!['C', 'O', 'N']);
                    } else if a == 'P' {
                        assert(stem@ =~= seq!['P', 'R', 'N']);
                    } else if a == 'A' {
                        assert(stem@ =~= seq!['A', 'U', 'X']);
                    } else {
                        assert(stem@ =~= seq!['N', 'U', 'L']);
                    }
                }
            } else {
                assert(stem@ != seq!['C', 'O', 'N'] ==> true);
                if stem@ == seq!['C', 'O', 'N'] {
                    assert(stem@[0] == 'C' && stem@[1] == 'O' && stem@[2] == 'N');
                }
                if stem@ == seq!['P', 'R', 'N'] {
                    assert(stem@[0] == 'P' && stem@[1] == 'R' && stem@[2] == 'N');
                }
                if stem@ == seq!['A', 'U', 'X'] {
                    assert(stem@[0] == 'A' && stem@[1] == 'U' && stem@[2] == 'X');
                }
                if stem@ == seq!['N', 'U', 'L'] {
                    assert(stem@[0] == 'N' && stem@[1] == 'U' && stem@[2] == 'L');
                }
            }
        }
        r
    } else if stem.len() == 4 {
        let prefix_com = stem[0] == 'C' && stem[1] == 'O' && stem[2] == 'M';
        let prefix_lpt = stem[0] == 'L' && stem[1] == 'P' && stem[2] == 'T';
        proof {
            if prefix_com {
                assert(stem@.subrange(0, 3) =~= seq!['C', 'O', 'M']);
            }
            if prefix_lpt {
                assert(stem@.subrange(0, 3) =~= seq!['L', 'P', 'T']);
            }
            if stem@.subrange(0, 3) == seq!['C', 'O', 'M'] {
                assert(stem@[0] == 'C' && stem@[1] == 'O' && stem@[2] == 'M');
            }
            if stem@.subrange(0, 3) == seq!['L', 'P', 'T'] {
                assert(stem@[0] == 'L' && stem@[1] == 'P' && stem@[2] == 'T');
            }
        }
        (prefix_com || prefix_lpt) && '1' <= stem[3] && stem[3] <= '9'
    } else {
        false
    }
}

/// A local file name for a Drive item: characters that Windows, macOS or
/// Linux refuse become `_`, surrounding blanks and dots go, a reserved
/// Windows device name gets a leading `_`, and an empty result becomes
/// `Drive item`.
pub fn safe_local_name(name: &str) -> (result: String)
    ensures
        result@ == local_name(name@),
{
    let chars = chars_of(name);
    let mut replaced: Vec<char> = Vec::new();
    let mut i: usize = 0;
    while i < chars.len()
        invariant
            i <= chars@.len(),
            chars@ == name@,
            replaced@ == replace_forbidden(name@.subrange(0, i as int)),
        decreases chars@.len() - i,
    {
        let c = chars[i];
        let forbidden = c == '/' || c == '\\' || c == ':' || c == '*' || c == '?' || c == '"' || c
            == '<' || c == '>' || c == '|';
        replaced.push(if forbidden { '_' } else { c });
        i = i + 1;
        assert(replaced@ =~= replace_forbidden(name@.subrange(0, i as int)));
    }
    assert(name@.subrange(0, name@.len() as int) =~= name@);
    let trimmed = trim_chars(replaced.as_slice());
    let left = strip_leading_char(trimmed.as_slice(), '.');
    let cleaned = strip_trailing_char(left.as_slice(), '.');
    if cleaned.len() == 0 {
        proof {
            reveal_strlit("Drive item");
            assert("Drive item"@ =~= seq!['D', 'r', 'i', 'v', 'e', ' ', 'i', 't', 'e', 'm']);
        }
        return string_from("Drive item");
    }
    let stem = first_piece(cleaned.as_slice(), '.');
    let upper = crate::text::to_ascii_upper(stem.as_slice());
    if is_reserved_device(upper.as_slice()) {
        let mut out: Vec<char> = Vec::new();
        out.push('_');
        push_chars(&mut out, cleaned.as_slice());
        assert(out@ =~= seq!['_'] + cleaned@);
        string_of(out.as_slice())
    } else {
        string_of(cleaned.as_slice())
    }
}

/// What to download, and how.
#[derive(Debug, Clone)]
pub struct DownloadRequest {
    pub executable: String,
    pub config_path: String,
    pub relative_path: String,
    pub destination: String,
    pub is_directory: bool,
    pub shared_with_me: bool,
    pub shared_drive_id: Option<String>,
    pub immutable: bool,
}

/// The Rclone arguments that perform a download request, in order.
pub fn download_arguments(request: &DownloadRequest) -> (result: Vec<String>)
    ensures
        result@.len() >= 5,
        result@[0]@ == (if request.is_directory {
            seq!['c', 'o', 'p', 'y']
        } else {
            seq!['c', 'o', 'p', 'y', 't', 'o']
        }),
        result@[2]@ == request.destination@,
        result@[4]@ == request.config_path@,
{
    let mut args: Vec<String> = Vec::new();
    proof {
        reveal_strlit("copy");
        reveal_strlit("copyto");
        assert("copy"@ =~= seq!['c', 'o', 'p', 'y']);
        assert("copyto"@ =~= seq!['c', 'o', 'p', 'y', 't', 'o']);
    }
    args.push(string_from(if request.is_directory { "copy" } else { "copyto" }));
    let mut source: Vec<char> = Vec::new();
    push_str(&mut source, RemoteKind::MyDriveRo.name());
    source.push(':');
    push_str(&mut source, request.relative_path.as_str());
    args.push(string_of(source.as_slice()));
    args.push(string_from(request.destination.as_str()));
    args.push(string_from("--config"));
    args.push(string_from(request.config_path.as_str()));
    args.push(string_from("--create-empty-src-dirs"));
    if request.immutable {
        args.push(string_from("--immutable"));
    }
    if request.shared_with_me {
        args.push(string_from("--drive-shared-with-me"));
    }
    if let Some(drive_id) = &request.shared_drive_id {
        args.push(string_from("--drive-team-drive"));
        args.push(string_from(drive_id.as_str()));
        args.push(string_from("--drive-root-folder-id"));
        args.push(String::new());
    }
    args
}

} // verus!
