//! A plain-value model of a depth-first directory walk.
//!
//! The traversal layer (outside this library) walks the root directory in
//! depth-first order and reports every filesystem entry it meets, in order,
//! as a [`WalkItem`]: either the entry itself with its depth below the root,
//! or the message of an error that stopped the walk at that point. The
//! scanner works entirely on such snapshots, so its behaviour is a function
//! of the reported sequence alone.

use vstd::prelude::*;

verus! {

/// What kind of filesystem object an entry is. Symbolic links are reported
/// as [`EntryKind::Other`]: the walk never follows them, so a linked
/// directory is neither descended into nor taken for a marker.
#[derive(Clone, Copy, Debug, PartialEq, Eq, Structural)]
pub enum EntryKind {
    Dir,
    File,
    Other,
}

/// One visited filesystem entry, as the traversal layer reports it.
#[derive(Clone, Debug)]
pub struct WalkEntry {
    /// The full path of the entry.
    pub path: String,
    /// The final component of the path.
    pub name: String,
    /// Distance from the scan root; the root itself has depth `0`.
    pub depth: usize,
    /// What the entry is.
    pub kind: EntryKind,
}

/// The mathematical value of a [`WalkEntry`].
pub struct WalkEntryView {
    pub path: Seq<char>,
    pub name: Seq<char>,
    pub depth: nat,
    pub kind: EntryKind,
}

impl View for WalkEntry {
    type V = WalkEntryView;

    open spec fn view(&self) -> WalkEntryView {
        WalkEntryView {
            path: self.path@,
            name: self.name@,
            depth: self.depth as nat,
            kind: self.kind,
        }
    }
}

/// One item of the walk stream: an entry, or the message of the error that
/// the traversal hit at this point.
#[derive(Clone, Debug)]
pub enum WalkItem {
    Entry(WalkEntry),
    Error(String),
}

/// The entry views of a sequence of entries.
pub open spec fn views_of(entries: Seq<WalkEntry>) -> Seq<WalkEntryView> {
    entries.map_values(|e: WalkEntry| e@)
}

/// Whether a stream is free of traversal errors.
pub open spec fn stream_ok(items: Seq<WalkItem>) -> bool {
    forall|k: int| 0 <= k < items.len() ==> items[k] is Entry
}

/// The entry carried by a stream item; an error item stands for no entry
/// and is given a vacuous one (the scanner never reads it).
pub open spec fn item_entry_view(it: WalkItem) -> WalkEntryView {
    match it {
        WalkItem::Entry(e) => e@,
        WalkItem::Error(_) => WalkEntryView {
            path: Seq::empty(),
            name: Seq::empty(),
            depth: 0,
            kind: EntryKind::Other,
        },
    }
}

/// The error message carried by a stream item.
pub open spec fn item_error_msg(it: WalkItem) -> Seq<char> {
    match it {
        WalkItem::Entry(_) => Seq::empty(),
        WalkItem::Error(m) => m@,
    }
}

/// The entry views of a whole stream.
pub open spec fn stream_views(items: Seq<WalkItem>) -> Seq<WalkEntryView> {
    items.map_values(|it: WalkItem| item_entry_view(it))
}

/// Whether `k` is the position of the first error of the stream.
pub open spec fn first_error_at(items: Seq<WalkItem>, k: int) -> bool {
    &&& 0 <= k < items.len()
    &&& items[k] is Error
    &&& forall|m: int| 0 <= m < k ==> items[m] is Entry
}

/// A hidden directory name: it starts with a dot and is not the git
/// metadata directory `.git`, which gets its own rule.
pub open spec fn hidden_name(name: Seq<char>) -> bool {
    name.len() > 0 && name[0] == '.' && name != ".git"@
}

/// A well-formed depth-first walk of a real directory tree: the first entry
/// is the root at depth `0`, depth never jumps by more than one level down
/// and never returns to the root's level, and no path is reported twice.
pub open spec fn wf_walk(s: Seq<WalkEntryView>) -> bool {
    &&& (s.len() > 0 ==> s[0].depth == 0)
    &&& (forall|k: int| 1 <= k < s.len() ==> 1 <= #[trigger] s[k].depth <= s[k - 1].depth + 1)
    &&& (forall|i: int, j: int| 0 <= i < j < s.len() ==> s[i].path != s[j].path)
}

/// Entry `j` lies strictly inside the subtree rooted at entry `i`: every
/// entry after `i` up to and including `j` is deeper than `i`.
pub open spec fn subtree_of(s: Seq<WalkEntryView>, i: int, j: int) -> bool {
    &&& 0 <= i < j < s.len()
    &&& forall|k: int| i < k <= j ==> s[k].depth > s[i].depth
}

/// The entries of depth `d + 1` from position `j` onward, up to the first
/// position that leaves the subtree (depth at most `d`).
pub open spec fn children_from(s: Seq<WalkEntryView>, d: nat, j: int) -> Seq<WalkEntryView>
    decreases s.len() - j,
{
    if j < 0 || j >= s.len() || s[j].depth <= d {
        Seq::empty()
    } else if s[j].depth == d + 1 {
        seq![s[j]] + children_from(s, d, j + 1)
    } else {
        children_from(s, d, j + 1)
    }
}

/// The direct children of the directory at position `i`: in a depth-first
/// stream they are exactly the entries one level deeper that appear between
/// `i` and the next entry at `i`'s depth or above.
pub open spec fn children_of(s: Seq<WalkEntryView>, i: int) -> Seq<WalkEntryView> {
    children_from(s, s[i].depth, i + 1)
}

/// Compares an entry name with a marker name.
pub fn name_eq(name: &String, other: &str) -> (r: bool)
    ensures
        r == (name@ == other@),
{
    let o: String = other.to_owned();
    *name == o
}

/// Whether a directory of this name is skipped as hidden.
pub fn is_hidden_name(name: &String) -> (r: bool)
    ensures
        r == hidden_name(name@),
{
    let n = name.as_str().unicode_len();
    if n == 0 {
        return false;
    }
    let c = name.as_str().get_char(0);
    if c != '.' {
        return false;
    }
    !name_eq(name, ".git")
}

} // verus!
