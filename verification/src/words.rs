//! Plain text: finding words in it, putting texts in order, taking words
//! out, and cutting a text short.

use vstd::prelude::*;
use vstd::string::{StringExecFns, StringSliceAdditionalSpecFns};
use vstd::utf8::{char_u32_cast, decode_utf8, encode_utf8_decode_utf8, is_char_boundary};
use crate::names::chars_of;

verus! {

/// Whether `needle` occurs in `text` at position `at`.
pub open spec fn occurs_at(text: Seq<char>, needle: Seq<char>, at: int) -> bool {
    0 <= at && at + needle.len() <= text.len() && text.subrange(at, at + needle.len()) == needle
}

/// Whether `needle` occurs somewhere in `text`.
pub open spec fn occurs_in(text: Seq<char>, needle: Seq<char>) -> bool {
    exists|at: int| occurs_at(text, needle, at)
}

/// Whether `word` stands in `text` at position `at`.
fn stands_at(text: &Vec<char>, word: &Vec<char>, at: usize) -> (stands: bool)
    requires
        at + word.len() <= text.len(),
    ensures
        stands == occurs_at(text@, word@, at as int),
{
    let mut i: usize = 0;
    while i < word.len()
        invariant
            at + word.len() <= text.len(),
            i <= word.len(),
            forall|j: int| 0 <= j < i ==> text@[at + j] == word@[j],
        decreases word.len() - i,
    {
        if text[at + i] != word[i] {
            assert(text@.subrange(at as int, at + word@.len())[i as int] != word@[i as int]);
            return false;
        }
        i = i + 1;
    }
    assert(text@.subrange(at as int, at + word@.len()) =~= word@);
    true
}

/// Whether `needle` occurs somewhere in `text`.
pub fn contains_chars(text: &Vec<char>, needle: &Vec<char>) -> (found: bool)
    ensures
        found == occurs_in(text@, needle@),
{
    if needle.len() > text.len() {
        assert forall|at: int| !occurs_at(text@, needle@, at) by {}
        return false;
    }
    let last: usize = text.len() - needle.len();
    let mut at: usize = 0;
    let mut searching = true;
    while searching
        invariant
            at <= last,
            last == text.len() - needle.len(),
            needle.len() <= text.len(),
            forall|k: int| 0 <= k < at ==> !occurs_at(text@, needle@, k),
            !searching ==> at == last && !occurs_at(text@, needle@, at as int),
        decreases last - at + if searching { 1nat } else { 0nat },
    {
        let mut i: usize = 0;
        let mut same = true;
        while same && i < needle.len()
            invariant
                at <= last,
                last == text.len() - needle.len(),
                needle.len() <= text.len(),
                i <= needle.len(),
                same ==> forall|j: int| 0 <= j < i ==> text@[at + j] == needle@[j],
                !same ==> !occurs_at(text@, needle@, at as int),
            decreases needle.len() - i + if same { 1nat } else { 0nat },
        {
            if text[at + i] != needle[i] {
                same = false;
                assert(text@.subrange(at as int, at + needle@.len())[i as int] != needle@[i as int]);
            } else {
                i = i + 1;
            }
        }
        if same {
            assert(text@.subrange(at as int, at + needle@.len()) =~= needle@);
            assert(occurs_at(text@, needle@, at as int));
            return true;
        }
        if at == last {
            searching = false;
        } else {
            at = at + 1;
        }
    }
    assert forall|k: int| !occurs_at(text@, needle@, k) by {
        if 0 <= k && k + needle@.len() <= text@.len() {
            assert(k <= at);
        }
    }
    false
}

/// Whether `word` occurs somewhere in `text`.
pub(crate) fn mentions(text: &Vec<char>, word: &str) -> (found: bool)
    ensures
        found == occurs_in(text@, word@),
{
    let needle = chars_of(word);
    contains_chars(text, &needle)
}

/// Whether the text `a` sorts before the text `b`: where they first differ,
/// `a` holds the smaller character, or `a` ends there and `b` goes on.
pub open spec fn sorts_before(a: Seq<char>, b: Seq<char>) -> bool
    decreases a.len(),
{
    if b.len() == 0 {
        false
    } else if a.len() == 0 {
        true
    } else if a[0] != b[0] {
        (a[0] as u32) < (b[0] as u32)
    } else {
        sorts_before(a.skip(1), b.skip(1))
    }
}

/// Of two different texts one sorts before the other.
pub proof fn lemma_sorting_total(a: Seq<char>, b: Seq<char>)
    ensures
        sorts_before(a, b) || sorts_before(b, a) || a == b,
    decreases a.len(),
{
    if a.len() > 0 && b.len() > 0 && a[0] == b[0] {
        lemma_sorting_total(a.skip(1), b.skip(1));
        if a.skip(1) == b.skip(1) {
            assert(a =~= seq![a[0]] + a.skip(1));
            assert(b =~= seq![b[0]] + b.skip(1));
        }
    } else if a.len() == 0 && b.len() == 0 {
        assert(a =~= b);
    } else if a.len() > 0 && b.len() > 0 {
        assert(a[0] as u32 != b[0] as u32) by {
            char_u32_cast(a[0], a[0] as u32);
            char_u32_cast(b[0], b[0] as u32);
        }
    }
}

/// What sorts before a text sorts before all that the text sorts before.
pub proof fn lemma_sorting_transitive(a: Seq<char>, b: Seq<char>, c: Seq<char>)
    requires
        sorts_before(a, b),
        sorts_before(b, c),
    ensures
        sorts_before(a, c),
    decreases a.len(),
{
    if a.len() > 0 && a[0] == b[0] && b[0] == c[0] {
        lemma_sorting_transitive(a.skip(1), b.skip(1), c.skip(1));
    }
}

/// Whether `a` sorts before `b`.
pub fn is_sorted_before(a: &Vec<char>, b: &Vec<char>) -> (before: bool)
    ensures
        before == sorts_before(a@, b@),
{
    let mut i: usize = 0;
    assert(a@.skip(0) =~= a@ && b@.skip(0) =~= b@);
    while i < a.len() && i < b.len()
        invariant
            i <= a.len(),
            i <= b.len(),
            sorts_before(a@, b@) == sorts_before(a@.skip(i as int), b@.skip(i as int)),
        decreases a.len() - i,
    {
        proof {
            assert(a@.skip(i as int).skip(1) =~= a@.skip(i + 1));
            assert(b@.skip(i as int).skip(1) =~= b@.skip(i + 1));
            assert(a@.skip(i as int)[0] == a@[i as int]);
            assert(b@.skip(i as int)[0] == b@[i as int]);
        }
        if a[i] != b[i] {
            return (a[i] as u32) < (b[i] as u32);
        }
        i = i + 1;
    }
    i < b.len()
}

/// A text without the occurrences of a word: they are found from left to
/// right, and none overlaps another. Without an empty word the text is as it was.
pub open spec fn without(text: Seq<char>, word: Seq<char>) -> Seq<char>
    decreases text.len(),
{
    if word.len() == 0 || text.len() < word.len() {
        text
    } else if text.subrange(0, word.len() as int) == word {
        without(text.skip(word.len() as int), word)
    } else {
        seq![text[0]] + without(text.skip(1), word)
    }
}

/// Takes the occurrences of `word` out of `text`.
pub fn remove_word(text: &Vec<char>, word: &Vec<char>) -> (rest: Vec<char>)
    ensures
        rest@ == without(text@, word@),
{
    let mut rest: Vec<char> = Vec::new();
    let mut i: usize = 0;
    assert(text@.skip(0) =~= text@);
    while i < text.len()
        invariant
            i <= text.len(),
            without(text@, word@) == rest@ + without(text@.skip(i as int), word@),
        decreases text.len() - i,
    {
        let ghost tail = text@.skip(i as int);
        if word.len() == 0 || text.len() - i < word.len() {
            let ghost before = rest@;
            rest.push(text[i]);
            proof {
                assert(without(tail, word@) == tail);
                assert(without(text@.skip(i + 1), word@) == text@.skip(i + 1));
                assert(rest@ + text@.skip(i + 1) =~= before + tail);
            }
            i = i + 1;
        } else if stands_at(text, word, i) {
            proof {
                assert(tail.subrange(0, word@.len() as int) =~= text@.subrange(
                    i as int,
                    i + word@.len(),
                ));
                assert(tail.skip(word@.len() as int) =~= text@.skip(i + word@.len()));
            }
            i = i + word.len();
        } else {
            let ghost before = rest@;
            rest.push(text[i]);
            proof {
                assert(tail.subrange(0, word@.len() as int) =~= text@.subrange(
                    i as int,
                    i + word@.len(),
                ));
                assert(tail.skip(1) =~= text@.skip(i + 1));
                assert(tail[0] == text@[i as int]);
                assert(rest@ + without(text@.skip(i + 1), word@) =~= before + (seq![tail[0]]
                    + without(tail.skip(1), word@)));
            }
            i = i + 1;
        }
    }
    proof {
        assert(without(text@.skip(text@.len() as int), word@) =~= Seq::<char>::empty());
        assert(rest@ + Seq::<char>::empty() =~= rest@);
    }
    rest
}

/// Appends one character to a text, with std's `String::push`: the text is
/// then the text before with the character at its end.
#[verifier::external_body]
fn push_char(text: &mut String, c: char)
    ensures
        final(text)@ == old(text)@.push(c),
{
    text.push(c);
}

/// The text that the characters spell.
pub fn text_of(chars: &Vec<char>) -> (text: String)
    ensures
        text@ == chars@,
{
    let mut text = String::new();
    let mut i: usize = 0;
    while i < chars.len()
        invariant
            i <= chars.len(),
            text@ == chars@.take(i as int),
        decreases chars.len() - i,
    {
        push_char(&mut text, chars[i]);
        assert(text@ =~= chars@.take(i + 1));
        i = i + 1;
    }
    assert(chars@.take(chars.len() as int) =~= chars@);
    text
}

/// What `str::to_lowercase` makes of a text.
pub uninterp spec fn lowercase_of(text: Seq<char>) -> Seq<char>;

/// The text in lower case, by std's `str::to_lowercase`: the result is a
/// function of the text alone, and is named, not described.
#[verifier::external_body]
pub(crate) fn lowercase(text: &str) -> (lower: String)
    ensures
        lower@ == lowercase_of(text@),
{
    text.to_lowercase()
}

/// What `str::trim` leaves of a text.
pub uninterp spec fn trimmed(text: Seq<char>) -> Seq<char>;

/// The text without white space at its ends, by std's `str::trim`: the
/// result is a function of the text alone, and is named, not described.
#[verifier::external_body]
pub(crate) fn trim(text: &str) -> (inner: &str)
    ensures
        inner@ == trimmed(text@),
{
    text.trim()
}

/// Whether `text` can be cut to `kept` bytes: the cut must not fall inside a
/// character.
pub fn can_shorten(text: &str, longest: usize, kept: usize) -> (can: bool)
    requires
        kept <= longest,
    ensures
        can == (text.spec_bytes().len() <= longest || is_char_boundary(
            text.spec_bytes(),
            kept as int,
        )),
{
    text.as_bytes().len() <= longest || text.is_char_boundary(kept)
}

/// A text shortened for display: one of more than `longest` bytes is cut to
/// its first `kept` bytes, and three dots are put behind them.
pub fn shorten(text: &str, longest: usize, kept: usize) -> (short: String)
    requires
        kept <= longest,
        text.spec_bytes().len() > longest ==> is_char_boundary(text.spec_bytes(), kept as int),
    ensures
        short@ == if text.spec_bytes().len() <= longest {
            text@
        } else {
            decode_utf8(text.spec_bytes().subrange(0, kept as int)) + "..."@
        },
{
    if text.as_bytes().len() <= longest {
        String::from_str(text)
    } else {
        let (head, _) = text.split_at(kept);
        proof {
            encode_utf8_decode_utf8(head@);
        }
        let mut short = String::from_str(head);
        short.append("...");
        short
    }
}

} // verus!
