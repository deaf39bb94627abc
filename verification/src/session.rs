//! Decisions of the interactive camera session: reading commands and naming
//! the device.

use vstd::prelude::*;

use crate::text::{chars_of, str_equals};

verus! {

/// Unicode `White_Space` (what `char::is_whitespace` and `str::trim` use).
pub open spec fn is_unicode_space(c: char) -> bool {
    let u = c as u32;
    ||| 0x09 <= u <= 0x0d
    ||| u == 0x20
    ||| u == 0x85
    ||| u == 0xa0
    ||| u == 0x1680
    ||| 0x2000 <= u <= 0x200a
    ||| u == 0x2028
    ||| u == 0x2029
    ||| u == 0x202f
    ||| u == 0x205f
    ||| u == 0x3000
}

/// `s` without leading whitespace.
pub open spec fn trim_start(s: Seq<char>) -> Seq<char>
    decreases s.len(),
{
    if s.len() > 0 && is_unicode_space(s[0]) {
        trim_start(s.drop_first())
    } else {
        s
    }
}

/// `s` without trailing whitespace.
pub open spec fn trim_end(s: Seq<char>) -> Seq<char>
    decreases s.len(),
{
    if s.len() > 0 && is_unicode_space(s.last()) {
        trim_end(s.drop_last())
    } else {
        s
    }
}

/// `s` without leading and trailing whitespace.
pub open spec fn trim(s: Seq<char>) -> Seq<char> {
    trim_end(trim_start(s))
}

/// ASCII letters lowered, everything else kept.
pub open spec fn ascii_lower(s: Seq<char>) -> Seq<char> {
    s.map_values(|c: char| if 'A' <= c <= 'Z' { ((c as u32) + 32) as char } else { c })
}

/// A command typed at the session prompt.
#[derive(Debug, Clone, PartialEq, Eq)]
pub enum Command {
    /// A blank line.
    Empty,
    /// `quit`, `exit` or `q`.
    Quit,
    /// `help`, `?` or `h`.
    Help,
    /// `capture`, `snap`, `photo` or `shot`.
    Capture,
    /// Anything else, lowered.
    Unknown(String),
}

/// What a typed line means, its surrounding whitespace removed and its ASCII
/// letters lowered.
pub open spec fn command_of(line: Seq<char>) -> Option<Seq<char>> {
    if trim(line).len() == 0 {
        None
    } else {
        Some(ascii_lower(trim(line)))
    }
}

/// Read a line typed at the prompt.
pub fn parse_command(line: &str) -> (cmd: Command)
    ensures
        command_of(line@) is None ==> cmd == Command::Empty,
        command_of(line@) matches Some(word) ==> {
            if word == "quit"@ || word == "exit"@ || word == "q"@ {
                cmd == Command::Quit
            } else if word == "help"@ || word == "?"@ || word == "h"@ {
                cmd == Command::Help
            } else if word == "capture"@ || word == "snap"@ || word == "photo"@ || word == "shot"@ {
                cmd == Command::Capture
            } else {
                cmd matches Command::Unknown(w) && w@ == word
            }
        },
{
    let chars = chars_of(line);
    let n = chars.len();
    let mut start: usize = 0;
    assert(chars@.skip(0) =~= chars@);
    while start < n && is_space_char(chars[start])
        invariant
            n == chars@.len(),
            chars@ == line@,
            start <= n,
            trim_start(chars@.skip(start as int)) == trim_start(line@),
        decreases n - start,
    {
        assert(chars@.skip(start as int).drop_first() =~= chars@.skip(start + 1));
        start += 1;
    }
    assert(trim_start(chars@.skip(start as int)) == chars@.skip(start as int));
    let mut end: usize = n;
    assert(chars@.subrange(start as int, n as int) =~= chars@.skip(start as int));
    while end > start && is_space_char(chars[end - 1])
        invariant
            n == chars@.len(),
            chars@ == line@,
            start <= end <= n,
            trim_start(line@) == chars@.skip(start as int),
            trim_end(chars@.subrange(start as int, end as int)) == trim(line@),
        decreases end,
    {
        assert(chars@.subrange(start as int, end as int).drop_last() =~= chars@.subrange(
            start as int,
            end - 1,
        ));
        end -= 1;
    }
    assert(trim_end(chars@.subrange(start as int, end as int)) == chars@.subrange(
        start as int,
        end as int,
    ));
    if start == end {
        return Command::Empty;
    }
    let mut word = String::new();
    for i in start..end
        invariant
            start <= end <= n,
            n == chars@.len(),
            word@ == ascii_lower(chars@.subrange(start as int, i as int)),
    {
        let c = chars[i];
        let lower = if 'A' <= c && c <= 'Z' {
            ((c as u32) + 32) as u8 as char
        } else {
            c
        };
        word.push(lower);
        assert(word@ =~= ascii_lower(chars@.subrange(start as int, i + 1)));
    }
    let w = word.as_str();
    if str_equals(w, "quit") || str_equals(w, "exit") || str_equals(w, "q") {
        Command::Quit
    } else if str_equals(w, "help") || str_equals(w, "?") || str_equals(w, "h") {
        Command::Help
    } else if str_equals(w, "capture") || str_equals(w, "snap") || str_equals(w, "photo")
        || str_equals(w, "shot") {
        Command::Capture
    } else {
        Command::Unknown(word)
    }
}

/// Whether `c` is Unicode whitespace.
pub fn is_space_char(c: char) -> (space: bool)
    ensures
        space == is_unicode_space(c),
{
    let u = c as u32;
    (0x09 <= u && u <= 0x0d) || u == 0x20 || u == 0x85 || u == 0xa0 || u == 0x1680 || (0x2000 <= u
        && u <= 0x200a) || u == 0x2028 || u == 0x2029 || u == 0x202f || u == 0x205f || u == 0x3000
}

/// The label that salts the device identity with the first camera:
/// `cam-` and the first twelve characters of its id.
pub fn camera_label(camera_id: &str) -> (label: String)
    ensures
        label@ == "cam-"@ + camera_id@.take(if camera_id@.len() < 12 {
            camera_id@.len() as int
        } else {
            12
        }),
{
    let chars = chars_of(camera_id);
    let k = if chars.len() < 12 {
        chars.len()
    } else {
        12
    };
    let mut label = String::new();
    label.append("cam-");
    let ghost start = label@;
    for i in 0..k
        invariant
            k <= chars@.len(),
            chars@ == camera_id@,
            label@ == start + chars@.take(i as int),
    {
        label.push(chars[i]);
        assert(label@ =~= start + chars@.take(i + 1));
    }
    label
}

} // verus!
