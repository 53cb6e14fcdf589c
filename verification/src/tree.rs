//! A directory tree held in memory: what a listing shows of each entry, and,
//! for trying a clean-up out, whether an entry can be removed.

use vstd::prelude::*;

verus! {

/// What kind of thing a directory entry is.
#[derive(Clone, Copy, Debug, PartialEq, Eq, Structural)]
pub enum EntryKind {
    /// A regular file.
    File,
    /// A directory.
    Directory,
    /// Neither, such as a broken link.
    Other,
}

/// One entry of a directory tree.
#[derive(Debug)]
pub enum Node {
    /// A regular file: its size in bytes, zero where the size cannot be read.
    File { name: String, size: u64, removable: bool },
    /// A directory with its entries; one that cannot be listed has none.
    Directory { name: String, entries: Vec<Node>, removable: bool },
    /// Neither a file nor a directory.
    Other { name: String, removable: bool },
}

impl Node {
    /// The entry's name.
    pub open spec fn name(self) -> Seq<char> {
        match self {
            Node::File { name, .. } => name@,
            Node::Directory { name, .. } => name@,
            Node::Other { name, .. } => name@,
        }
    }

    /// The entry's kind.
    pub open spec fn kind(self) -> EntryKind {
        match self {
            Node::File { .. } => EntryKind::File,
            Node::Directory { .. } => EntryKind::Directory,
            Node::Other { .. } => EntryKind::Other,
        }
    }

    /// Whether an attempt to remove the entry succeeds.
    pub open spec fn removable(self) -> bool {
        match self {
            Node::File { removable, .. } => removable,
            Node::Directory { removable, .. } => removable,
            Node::Other { removable, .. } => removable,
        }
    }

    /// The entries below a directory; none below anything else.
    pub open spec fn children(self) -> Seq<Node> {
        match self {
            Node::Directory { entries, .. } => entries@,
            _ => Seq::empty(),
        }
    }

    /// The bytes that the entry holds: a file's size, the sizes of all files
    /// below a directory, nothing for the rest.
    pub open spec fn size(self) -> nat
        decreases self, 0nat,
    {
        match self {
            Node::File { size, .. } => size as nat,
            Node::Directory { entries, .. } => listing_size(entries@, entries@.len()),
            Node::Other { .. } => 0,
        }
    }

    /// The entry's name.
    pub fn get_name(&self) -> (name: &str)
        ensures
            name@ == self.name(),
    {
        match self {
            Node::File { name, .. } => name.as_str(),
            Node::Directory { name, .. } => name.as_str(),
            Node::Other { name, .. } => name.as_str(),
        }
    }

    /// The entry's kind.
    pub fn get_kind(&self) -> (kind: EntryKind)
        ensures
            kind == self.kind(),
    {
        match self {
            Node::File { .. } => EntryKind::File,
            Node::Directory { .. } => EntryKind::Directory,
            Node::Other { .. } => EntryKind::Other,
        }
    }

    /// Whether an attempt to remove the entry succeeds.
    pub fn is_removable(&self) -> (removable: bool)
        ensures
            removable == self.removable(),
    {
        match self {
            Node::File { removable, .. } => *removable,
            Node::Directory { removable, .. } => *removable,
            Node::Other { removable, .. } => *removable,
        }
    }
}

/// The bytes that the first `n` entries of a listing hold.
pub open spec fn listing_size(entries: Seq<Node>, n: nat) -> nat
    decreases entries, n,
{
    if n == 0 || n > entries.len() {
        0
    } else {
        listing_size(entries, (n - 1) as nat) + entries[n - 1].size()
    }
}

/// A longer prefix of a listing holds no fewer bytes.
pub proof fn lemma_listing_size_grows(entries: Seq<Node>, i: nat, j: nat)
    requires
        i <= j <= entries.len(),
    ensures
        listing_size(entries, i) <= listing_size(entries, j),
    decreases j,
{
    if i < j {
        lemma_listing_size_grows(entries, i, (j - 1) as nat);
    }
}

/// Adds up the sizes of all files in a directory tree.
pub fn calculate_dir_size(entries: &Vec<Node>) -> (size: u64)
    requires
        listing_size(entries@, entries@.len()) <= u64::MAX,
    ensures
        size == listing_size(entries@, entries@.len()),
    decreases entries,
{
    let mut size: u64 = 0;
    let mut i: usize = 0;
    while i < entries.len()
        invariant
            i <= entries.len(),
            size == listing_size(entries@, i as nat),
            listing_size(entries@, entries@.len()) <= u64::MAX,
        decreases entries.len() - i,
    {
        proof {
            lemma_listing_size_grows(entries@, (i + 1) as nat, entries@.len());
            assert(listing_size(entries@, (i + 1) as nat) == listing_size(entries@, i as nat)
                + entries@[i as int].size());
        }
        match &entries[i] {
            Node::File { size: bytes, .. } => {
                size = size + *bytes;
            },
            Node::Directory { entries: below, .. } => {
                size = size + calculate_dir_size(below);
            },
            Node::Other { .. } => {},
        }
        i = i + 1;
    }
    size
}

/// Adds up the sizes of all files in a directory tree; `None` where the sum
/// does not fit into 64 bits.
pub fn checked_dir_size(entries: &Vec<Node>) -> (size: Option<u64>)
    ensures
        match size {
            Some(sum) => sum == listing_size(entries@, entries@.len()),
            None => listing_size(entries@, entries@.len()) > u64::MAX,
        },
    decreases entries,
{
    let mut size: u64 = 0;
    let mut i: usize = 0;
    while i < entries.len()
        invariant
            i <= entries.len(),
            size == listing_size(entries@, i as nat),
        decreases entries.len() - i,
    {
        proof {
            lemma_listing_size_grows(entries@, (i + 1) as nat, entries@.len());
            assert(listing_size(entries@, (i + 1) as nat) == listing_size(entries@, i as nat)
                + entries@[i as int].size());
        }
        let part: u64 = match &entries[i] {
            Node::File { size: bytes, .. } => *bytes,
            Node::Directory { entries: below, .. } => match checked_dir_size(below) {
                Some(sum) => sum,
                None => {
                    return None;
                },
            },
            Node::Other { .. } => 0,
        };
        if part > u64::MAX - size {
            return None;
        }
        size = size + part;
        i = i + 1;
    }
    Some(size)
}

} // verus!
