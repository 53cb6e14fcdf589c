//! File names: the names that mark system directories, and extensions.

use vstd::prelude::*;

verus! {

/// The characters of a text, one by one.
pub fn chars_of(s: &str) -> (chars: Vec<char>)
    ensures
        chars@ == s@,
{
    let mut chars: Vec<char> = Vec::new();
    for c in it: s.chars()
        invariant
            chars@ == it.seq().take(it.index() as int),
            it.seq() == s@,
    {
        chars.push(c);
        assert(chars@ =~= it.seq().take(it.index() + 1));
    }
    chars
}

/// Whether the characters from `from` on in `a` are exactly those of `b`.
pub fn same_chars(a: &Vec<char>, from: usize, b: &Vec<char>) -> (same: bool)
    requires
        from <= a.len(),
    ensures
        same == (a@.subrange(from as int, a@.len() as int) == b@),
{
    let tail: usize = a.len() - from;
    if tail != b.len() {
        return false;
    }
    let mut i: usize = 0;
    while i < tail
        invariant
            i <= tail,
            tail == b.len(),
            tail == a.len() - from,
            forall|j: int| 0 <= j < i ==> a@[from + j] == b@[j],
        decreases tail - i,
    {
        if a[from + i] != b[i] {
            assert(a@.subrange(from as int, a@.len() as int)[i as int] != b@[i as int]);
            return false;
        }
        i = i + 1;
    }
    assert(a@.subrange(from as int, a@.len() as int) =~= b@);
    true
}

/// Whether `chars` spells `text`.
pub fn spells(chars: &Vec<char>, text: &str) -> (same: bool)
    ensures
        same == (chars@ == text@),
{
    let other = chars_of(text);
    assert(chars@.subrange(0, chars@.len() as int) =~= chars@);
    same_chars(chars, 0, &other)
}

/// Whether `text` begins with `head`.
pub open spec fn begins_with(text: Seq<char>, head: Seq<char>) -> bool {
    head.len() <= text.len() && text.subrange(0, head.len() as int) == head
}

/// Whether `text` ends with `tail`.
pub open spec fn ends_with(text: Seq<char>, tail: Seq<char>) -> bool {
    tail.len() <= text.len() && text.subrange(text.len() - tail.len(), text.len() as int) == tail
}

/// Whether `chars` begins with `head`.
pub fn has_prefix(chars: &Vec<char>, head: &Vec<char>) -> (yes: bool)
    ensures
        yes == begins_with(chars@, head@),
{
    if head.len() > chars.len() {
        return false;
    }
    let mut i: usize = 0;
    while i < head.len()
        invariant
            i <= head.len() <= chars.len(),
            forall|j: int| 0 <= j < i ==> chars@[j] == head@[j],
        decreases head.len() - i,
    {
        if chars[i] != head[i] {
            assert(chars@.subrange(0, head@.len() as int)[i as int] != head@[i as int]);
            return false;
        }
        i = i + 1;
    }
    assert(chars@.subrange(0, head@.len() as int) =~= head@);
    true
}

/// Whether `chars` ends with `tail`.
pub fn has_suffix(chars: &Vec<char>, tail: &Vec<char>) -> (yes: bool)
    ensures
        yes == ends_with(chars@, tail@),
{
    if tail.len() > chars.len() {
        return false;
    }
    same_chars(chars, chars.len() - tail.len(), tail)
}

/// The names that mark a system directory at the root of a drive: the
/// installation directory, both program directories, the volume information
/// and recycle bin folders, the shared program data, and every name that
/// starts with a dollar sign.
pub open spec fn protected_name(name: Seq<char>) -> bool {
    name == "Windows"@ || name == "Program Files"@ || name == "Program Files (x86)"@ || name
        == "System Volume Information"@ || name == "$Recycle.Bin"@ || name == "ProgramData"@ || (
    name.len() > 0 && name[0] == '$')
}

/// Whether `name` marks a system directory.
pub fn is_protected_name(name: &str) -> (protected: bool)
    ensures
        protected == protected_name(name@),
{
    let chars = chars_of(name);
    spells(&chars, "Windows") || spells(&chars, "Program Files") || spells(
        &chars,
        "Program Files (x86)",
    ) || spells(&chars, "System Volume Information") || spells(&chars, "$Recycle.Bin") || spells(
        &chars,
        "ProgramData",
    ) || (chars.len() > 0 && chars[0] == '$')
}

/// The position of the last dot in `name`, or -1 where it has none.
pub open spec fn last_dot(name: Seq<char>) -> int
    decreases name.len(),
{
    if name.len() == 0 {
        -1
    } else if name.last() == '.' {
        name.len() - 1
    } else {
        last_dot(name.drop_last())
    }
}

/// The extension of a file name: what follows its last dot. A name without a
/// dot has none, nor has one whose only dot comes first, nor the name `..`.
pub open spec fn extension(name: Seq<char>) -> Option<Seq<char>> {
    let dot = last_dot(name);
    if dot <= 0 || name == seq!['.', '.'] {
        None
    } else {
        Some(name.subrange(dot + 1, name.len() as int))
    }
}

/// `last_dot` finds a dot that no dot follows, and -1 only where there is none.
pub proof fn lemma_last_dot(name: Seq<char>)
    ensures
        -1 <= last_dot(name) < name.len(),
        last_dot(name) >= 0 ==> name[last_dot(name)] == '.',
        forall|i: int| last_dot(name) < i < name.len() ==> name[i] != '.',
    decreases name.len(),
{
    if name.len() > 0 && name.last() != '.' {
        lemma_last_dot(name.drop_last());
        assert forall|i: int| last_dot(name) < i < name.len() implies name[i] != '.' by {
            if i < name.len() - 1 {
                assert(name.drop_last()[i] == name[i]);
            }
        }
    }
}

/// The position of the last dot among `chars`, if there is one.
pub fn find_last_dot(chars: &Vec<char>) -> (dot: Option<usize>)
    ensures
        match dot {
            Some(i) => i == last_dot(chars@),
            None => last_dot(chars@) == -1,
        },
{
    let mut i: usize = chars.len();
    assert(chars@.take(i as int) =~= chars@);
    while i > 0
        invariant
            i <= chars.len(),
            last_dot(chars@) == last_dot(chars@.take(i as int)),
        decreases i,
    {
        let ghost head = chars@.take(i as int);
        assert(head.last() == chars@[i - 1]);
        assert(head.drop_last() =~= chars@.take(i - 1));
        if chars[i - 1] == '.' {
            return Some(i - 1);
        }
        i = i - 1;
    }
    assert(chars@.take(0).len() == 0);
    None
}

/// Whether the file name `name` has one of the given extensions.
pub open spec fn matches_extension(name: Seq<char>, extensions: Seq<Seq<char>>) -> bool {
    match extension(name) {
        Some(ext) => extensions.contains(ext),
        None => false,
    }
}

/// The texts that lists of characters spell.
pub open spec fn spelled(lists: Seq<Vec<char>>) -> Seq<Seq<char>> {
    Seq::new(lists.len(), |i: int| lists[i]@)
}

/// Whether the file name `name` has one of the given extensions.
pub fn has_extension_in(name: &str, extensions: &Vec<Vec<char>>) -> (matches: bool)
    ensures
        matches == matches_extension(name@, spelled(extensions@)),
{
    let chars = chars_of(name);
    let dot = match find_last_dot(&chars) {
        Some(i) => i,
        None => {
            return false;
        },
    };
    if dot == 0 || (chars.len() == 2 && chars[0] == '.') {
        proof {
            if dot != 0 {
                lemma_last_dot(chars@);
                assert(chars@ =~= seq!['.', '.']);
            }
        }
        return false;
    }
    proof {
        lemma_last_dot(chars@);
        if chars@ == seq!['.', '.'] {
            assert(chars@.len() == 2);
            assert(chars@[0] == '.');
        }
    }
    let ghost ext = chars@.subrange(dot + 1, chars@.len() as int);
    assert(extension(name@) == Some(ext));
    let mut i: usize = 0;
    while i < extensions.len()
        invariant
            i <= extensions.len(),
            dot < chars.len(),
            extension(name@) == Some(ext),
            ext == chars@.subrange(dot + 1, chars@.len() as int),
            forall|j: int| 0 <= j < i ==> spelled(extensions@)[j] != ext,
        decreases extensions.len() - i,
    {
        if same_chars(&chars, dot + 1, &extensions[i]) {
            assert(spelled(extensions@)[i as int] == ext);
            assert(spelled(extensions@).contains(ext));
            return true;
        }
        i = i + 1;
    }
    false
}

/// The lists of characters that the given texts spell.
pub fn spell_all(texts: &Vec<String>) -> (lists: Vec<Vec<char>>)
    ensures
        spelled(lists@) == crate::text::texts(texts@),
{
    let mut lists: Vec<Vec<char>> = Vec::new();
    let mut i: usize = 0;
    while i < texts.len()
        invariant
            i <= texts.len(),
            lists.len() == i,
            forall|j: int| 0 <= j < i ==> lists@[j]@ == texts@[j]@,
        decreases texts.len() - i,
    {
        lists.push(chars_of(texts[i].as_str()));
        i = i + 1;
    }
    assert(spelled(lists@) =~= crate::text::texts(texts@));
    lists
}

} // verus!
