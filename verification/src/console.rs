//! The console window's title, as the console takes it.

use vstd::prelude::*;
use vstd::string::StringExecFns;
use crate::names::chars_of;
use crate::text::texts;

verus! {

/// The UTF-16 code units of one character: itself below 0x10000, a surrogate pair above.
pub open spec fn utf16_units(c: char) -> Seq<u16> {
    let v = c as u32;
    if v < 0x10000 {
        seq![v as u16]
    } else {
        seq![(0xD800 + (v - 0x10000) / 0x400) as u16, (0xDC00 + (v - 0x10000) % 0x400) as u16]
    }
}

/// The UTF-16 encoding of a text.
pub open spec fn utf16(s: Seq<char>) -> Seq<u16>
    decreases s.len(),
{
    if s.len() == 0 {
        Seq::empty()
    } else {
        utf16(s.drop_last()) + utf16_units(s.last())
    }
}

/// Encodes a text as the system's wide-character calls take it: its UTF-16
/// code units, closed by a zero.
pub fn wide(text: &str) -> (units: Vec<u16>)
    ensures
        units@ == utf16(text@).push(0u16),
{
    let chars = chars_of(text);
    let mut units: Vec<u16> = Vec::new();
    let mut i: usize = 0;
    while i < chars.len()
        invariant
            i <= chars.len(),
            chars@ == text@,
            units@ == utf16(text@.take(i as int)),
        decreases chars.len() - i,
    {
        let c: char = chars[i];
        let v: u32 = c as u32;
        proof {
            let next = text@.take(i + 1);
            assert(next.drop_last() =~= text@.take(i as int));
            assert(next.last() == c);
        }
        if v < 0x10000 {
            units.push(v as u16);
        } else {
            units.push((0xD800 + (v - 0x10000) / 0x400) as u16);
            units.push((0xDC00 + (v - 0x10000) % 0x400) as u16);
        }
        i = i + 1;
        assert(units@ =~= utf16(text@.take(i as int)));
    }
    assert(text@.take(chars.len() as int) =~= text@);
    units.push(0u16);
    units
}

/// Encodes the title that the console window is to show: its UTF-16 code
/// units, closed by a zero.
pub fn set_console_title(title: &str) -> (wide_title: Vec<u16>)
    ensures
        wide_title@ == utf16(title@).push(0u16),
{
    wide(title)
}

/// Texts written one after the other with a space between each two.
pub open spec fn spaced(parts: Seq<Seq<char>>) -> Seq<char>
    decreases parts.len(),
{
    if parts.len() == 0 {
        Seq::empty()
    } else if parts.len() == 1 {
        parts[0]
    } else {
        spaced(parts.drop_last()) + seq![' '] + parts.last()
    }
}

/// Writes the arguments one after the other with a space between each two.
pub fn join_arguments(args: &Vec<String>) -> (line: String)
    ensures
        line@ == spaced(texts(args@)),
{
    let mut line = String::new();
    let mut i: usize = 0;
    while i < args.len()
        invariant
            i <= args.len(),
            line@ == spaced(texts(args@).take(i as int)),
        decreases args.len() - i,
    {
        let ghost next = texts(args@).take(i + 1);
        proof {
            assert(next.drop_last() =~= texts(args@).take(i as int));
            assert(next.last() == args@[i as int]@);
            reveal_strlit(" ");
            assert(" "@ =~= seq![' ']);
        }
        if i > 0 {
            line.append(" ");
        }
        line.append(args[i].as_str());
        proof {
            if i == 0 {
                assert(line@ =~= args@[0]@);
                assert(next[0] == args@[0]@);
            }
            assert(line@ =~= spaced(next));
        }
        i = i + 1;
    }
    assert(texts(args@).take(args.len() as int) =~= texts(args@));
    line
}

/// What the shell is asked for when the program is to be started anew with
/// the rights of an administrator: the operation, the program's path and its
/// arguments, each as wide characters closed by a zero.
#[derive(Debug)]
pub struct ElevationRequest {
    pub operation: Vec<u16>,
    pub file: Vec<u16>,
    pub parameters: Vec<u16>,
}

/// Makes up the request to start the program at `exe_path` anew, elevated,
/// with the arguments given.
pub fn elevation_request(exe_path: &str, args: &Vec<String>) -> (request: ElevationRequest)
    ensures
        request.operation@ == utf16("runas"@).push(0u16),
        request.file@ == utf16(exe_path@).push(0u16),
        request.parameters@ == utf16(spaced(texts(args@))).push(0u16),
{
    let line = join_arguments(args);
    ElevationRequest {
        operation: wide("runas"),
        file: wide(exe_path),
        parameters: wide(line.as_str()),
    }
}

/// Whether the shell has started the program: it answers with a number above 32.
pub fn elevation_granted(code: i32) -> (granted: bool)
    ensures
        granted == (code > 32),
{
    code > 32
}

} // verus!
