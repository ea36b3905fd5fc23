//! The Rclone web GUI BOREAL starts: where it says it listens, and what is
//! reported when it stops before saying so.
use vstd::prelude::*;

use crate::text::{chars_of, push_str, split_once, split_once_str, string_of, trim, trim_chars};

verus! {

/// The address in a line of Rclone's output that announces the GUI.
pub open spec fn announced_url(line: Seq<char>) -> Option<Seq<char>> {
    match split_once(line, "GUI available at "@) {
        Some((_, url)) => Some(trim(url)),
        None => None,
    }
}

/// The GUI's address, when the line announces it.
pub fn gui_url_in(line: &str) -> (url: Option<String>)
    ensures
        match announced_url(line@) {
            Some(u) => url matches Some(s) && s@ == u,
            None => url is None,
        },
{
    match split_once_str(chars_of(line).as_slice(), "GUI available at ") {
        Some((_, rest)) => Some(string_of(trim_chars(rest.as_slice()).as_slice())),
        None => None,
    }
}

/// Keeps the last twelve lines of output.
pub fn remember_line(output: &mut Vec<String>, line: String)
    requires
        old(output)@.len() <= 12,
    ensures
        final(output)@.len() <= 12,
        old(output)@.len() < 12 ==> final(output)@ == old(output)@.push(line),
        old(output)@.len() == 12 ==> final(output)@ == old(output)@.push(line).drop_first(),
{
    output.push(line);
    if output.len() > 12 {
        output.remove(0);
        assert(output@ =~= old(output)@.push(line).drop_first());
    }
}

/// The lines joined with ` | `.
pub open spec fn joined_lines(lines: Seq<String>) -> Seq<char> {
    crate::text::join(lines.map_values(|l: String| l@), " | "@)
}

/// What is reported when the GUI stops before announcing its address: its
/// exit status when known, and its last output (or why none came).
pub fn gui_failure_message(exit: Option<String>, output: &Vec<String>, channel_error: &str) -> (message: String)
    ensures
        message@ == "Rclone WebGUI exited before becoming ready"@ + (match exit {
            Some(e) => " ("@ + e@ + ")"@,
            None => Seq::empty(),
        }) + ": "@ + (if output@.len() == 0 {
            "no diagnostic output; readiness channel closed: "@ + channel_error@
        } else {
            joined_lines(output@)
        }),
{
    let mut v = chars_of("Rclone WebGUI exited before becoming ready");
    match &exit {
        Some(e) => {
            push_str(&mut v, " (");
            push_str(&mut v, e.as_str());
            push_str(&mut v, ")");
        },
        None => {},
    }
    push_str(&mut v, ": ");
    if output.len() == 0 {
        push_str(&mut v, "no diagnostic output; readiness channel closed: ");
        push_str(&mut v, channel_error);
    } else {
        let mut pieces: Vec<Vec<char>> = Vec::new();
        let mut i: usize = 0;
        while i < output.len()
            invariant
                i <= output@.len(),
                pieces@.len() == i,
                forall|k: int| 0 <= k < i ==> #[trigger] pieces@[k]@ == output@[k]@,
            decreases output.len() - i,
        {
            pieces.push(chars_of(output[i].as_str()));
            i = i + 1;
        }
        assert(pieces@.map_values(|p: Vec<char>| p@) =~= output@.map_values(|l: String| l@));
        let joined = crate::text::join_chars(&pieces, " | ");
        crate::text::push_chars(&mut v, joined.as_slice());
    }
    string_of(v.as_slice())
}

} // verus!
