//! The scanner's guarantees, proved once and for all over the reference
//! behaviour [`scan_from`]:
//!
//! - a directory whose listing holds a `.git` marker is reported with the
//!   `Git` category whenever the scan reaches it unsuppressed;
//! - nothing inside a directory classified as `Git` is ever reported;
//! - a directory that matches no detector is never reported;
//! - a directory matching several detectors is reported exactly once, with
//!   every matched category on its one record;
//! - a hidden directory and everything below it are never reported.

use vstd::prelude::*;

use crate::detectors::{
    lemma_matched_types_empty, lemma_matched_types_membership, lemma_matched_types_nodup,
    listing_has_marker, matched_types, ProjectDetector,
};
use crate::scanner::{emits, emitted_from, record_at, scan_from, skip_blocks, st_at, step_state};
use crate::types::{ProjectInfoView, ProjectType};
use crate::walk::{children_of, hidden_name, subtree_of, wf_walk, EntryKind, WalkEntryView};

verus! {

/// Whether the directory at position `k` closes its subtree to further
/// classification: it is hidden, is the `.git` metadata directory, or is
/// classified with the `Git` category.
pub open spec fn closes_subtree(s: Seq<WalkEntryView>, dets: Seq<ProjectDetector>, k: int) -> bool {
    s[k].kind == EntryKind::Dir && (hidden_name(s[k].name) || s[k].name == ".git"@ || matched_types(
        dets,
        children_of(s, k),
    ).contains(ProjectType::Git))
}

/// A sequence extended at the front holds an element exactly when it is the
/// new head or the tail holds it.
proof fn lemma_cons_contains<A>(x: A, rest: Seq<A>, y: A)
    ensures
        (seq![x] + rest).contains(y) <==> (y == x || rest.contains(y)),
{
    let s = seq![x] + rest;
    if s.contains(y) {
        let k = choose|k: int| 0 <= k < s.len() && s[k] == y;
        if k > 0 {
            assert(rest[k - 1] == y);
        }
    }
    if rest.contains(y) {
        let k = choose|k: int| 0 <= k < rest.len() && rest[k] == y;
        assert(s[k + 1] == y);
    }
    assert(s[0] == x);
}

/// Every record of the scan belongs to some emitting position at or after
/// the start.
pub proof fn lemma_emitted_members(
    s: Seq<WalkEntryView>,
    dets: Seq<ProjectDetector>,
    i: int,
    r: ProjectInfoView,
)
    requires
        0 <= i <= s.len(),
        emitted_from(s, dets, i).contains(r),
    ensures
        exists|j: int| i <= j < s.len() && #[trigger] emits(s, dets, j) && r == record_at(s, dets, j),
    decreases s.len() - i,
{
    if i < s.len() {
        if emits(s, dets, i) {
            lemma_cons_contains(record_at(s, dets, i), emitted_from(s, dets, i + 1), r);
            if r == record_at(s, dets, i) {
                assert(emits(s, dets, i) && r == record_at(s, dets, i));
            } else {
                lemma_emitted_members(s, dets, i + 1, r);
            }
        } else {
            lemma_emitted_members(s, dets, i + 1, r);
        }
    }
}

/// Every emitting position contributes its record to the scan.
pub proof fn lemma_emitted_contains(
    s: Seq<WalkEntryView>,
    dets: Seq<ProjectDetector>,
    i: int,
    j: int,
)
    requires
        0 <= i <= j < s.len(),
        emits(s, dets, j),
    ensures
        emitted_from(s, dets, i).contains(record_at(s, dets, j)),
    decreases j - i,
{
    if i == j {
        lemma_cons_contains(record_at(s, dets, i), emitted_from(s, dets, i + 1), record_at(s, dets, i));
    } else {
        lemma_emitted_contains(s, dets, i + 1, j);
        if emits(s, dets, i) {
            lemma_cons_contains(
                record_at(s, dets, i),
                emitted_from(s, dets, i + 1),
                record_at(s, dets, j),
            );
        }
    }
}

/// Once a subtree is closed at position `i` (the marker carries a depth no
/// greater than `i`'s), the marker survives to any position still inside
/// that subtree and suppresses it.
proof fn lemma_skip_persists(
    s: Seq<WalkEntryView>,
    dets: Seq<ProjectDetector>,
    i: int,
    j: int,
    d0: nat,
)
    requires
        0 <= i < j < s.len(),
        st_at(s, dets, i + 1) == Some(d0),
        d0 <= s[i].depth,
        forall|k: int| i < k <= j ==> #[trigger] s[k].depth > s[i].depth,
    ensures
        st_at(s, dets, j) == Some(d0),
        skip_blocks(st_at(s, dets, j), s[j]),
    decreases j - i,
{
    if j == i + 1 {
        assert(s[j].depth > s[i].depth >= d0);
    } else {
        lemma_skip_persists(s, dets, i, j - 1, d0);
        assert(skip_blocks(st_at(s, dets, j - 1), s[j - 1]));
        assert(st_at(s, dets, j) == step_state(s, dets, j - 1, st_at(s, dets, j - 1)));
        assert(s[j].depth > s[i].depth >= d0);
    }
}

/// Nothing strictly inside the subtree of a directory classified with the
/// `Git` category is ever classified, whatever markers it holds.
pub proof fn lemma_git_prunes_subtree(
    s: Seq<WalkEntryView>,
    dets: Seq<ProjectDetector>,
    i: int,
    j: int,
)
    requires
        emits(s, dets, i),
        record_at(s, dets, i).project_types.contains(ProjectType::Git),
        subtree_of(s, i, j),
    ensures
        !emits(s, dets, j),
{
    assert(st_at(s, dets, i + 1) == step_state(s, dets, i, st_at(s, dets, i)));
    assert(st_at(s, dets, i + 1) == Some(s[i].depth));
    lemma_skip_persists(s, dets, i, j, s[i].depth);
}

/// A hidden directory is never classified, and neither is anything
/// strictly inside its subtree.
pub proof fn lemma_hidden_never_classified(
    s: Seq<WalkEntryView>,
    dets: Seq<ProjectDetector>,
    i: int,
    j: int,
)
    requires
        0 <= i < s.len(),
        s[i].kind == EntryKind::Dir,
        hidden_name(s[i].name),
        j == i || subtree_of(s, i, j),
    ensures
        !emits(s, dets, j),
{
    if j != i {
        let st = st_at(s, dets, i);
        assert(st_at(s, dets, i + 1) == step_state(s, dets, i, st));
        if skip_blocks(st, s[i]) {
            let d0 = st->0;
            assert(st_at(s, dets, i + 1) == Some(d0));
            assert(d0 <= s[i].depth);
            lemma_skip_persists(s, dets, i, j, d0);
        } else {
            assert(st_at(s, dets, i + 1) == Some(s[i].depth));
            lemma_skip_persists(s, dets, i, j, s[i].depth);
        }
    }
}

/// Between the start of a well-formed walk whose root does not close its
/// subtree and any later position, the marker never carries depth zero: the
/// root is the only entry at depth zero, and it set no marker.
proof fn lemma_no_zero_skip(s: Seq<WalkEntryView>, dets: Seq<ProjectDetector>, m: int)
    requires
        wf_walk(s),
        s.len() > 0,
        !closes_subtree(s, dets, 0),
        1 <= m <= s.len(),
    ensures
        match st_at(s, dets, m) {
            Some(d) => d >= 1,
            None => true,
        },
    decreases m,
{
    if m == 1 {
        assert(st_at(s, dets, 1) == step_state(s, dets, 0, None));
        assert(!skip_blocks(None, s[0]));
    } else {
        lemma_no_zero_skip(s, dets, m - 1);
        assert(st_at(s, dets, m) == step_state(s, dets, m - 1, st_at(s, dets, m - 1)));
        assert(s[m - 1].depth >= 1);
    }
}

/// A direct child of the scan root whose listing holds a `.git` marker is
/// reported with the `Git` category, provided the registry carries the git
/// detector, the child is neither hidden nor itself named `.git`, and the
/// root does not close the whole tree (the root being a git repository
/// itself is exactly the case the pruning rule reserves for the root).
pub proof fn lemma_git_child_reported(s: Seq<WalkEntryView>, dets: Seq<ProjectDetector>, i: int)
    requires
        wf_walk(s),
        0 <= i < s.len(),
        s[i].depth == 1,
        s[i].kind == EntryKind::Dir,
        !hidden_name(s[i].name),
        s[i].name != ".git"@,
        listing_has_marker(ProjectType::Git, children_of(s, i)),
        dets.contains(ProjectDetector::Git),
        !closes_subtree(s, dets, 0),
    ensures
        emits(s, dets, i),
        record_at(s, dets, i).project_types.contains(ProjectType::Git),
        scan_from(s, dets, 0, None).contains(record_at(s, dets, i)),
{
    let ts = matched_types(dets, children_of(s, i));
    lemma_matched_types_membership(dets, children_of(s, i), ProjectType::Git);
    let k = choose|k: int| 0 <= k < dets.len() && dets[k] == ProjectDetector::Git;
    assert(dets[k].project_type_spec() == ProjectType::Git && dets[k].detects(children_of(s, i)));
    assert(ts.contains(ProjectType::Git));
    assert(ts.len() > 0);
    assert(i >= 1) by {
        if i == 0 {
            assert(s[0].depth == 0);
        }
    }
    lemma_no_zero_skip(s, dets, i);
    assert(!skip_blocks(st_at(s, dets, i), s[i]));
    assert(emits(s, dets, i));
    crate::scanner::lemma_scan_indexed(s, dets, 0);
    lemma_emitted_contains(s, dets, 0, i);
}

/// Every record the scan emits is a real classification: at least one
/// category, and no category twice.
pub proof fn lemma_records_well_formed(
    s: Seq<WalkEntryView>,
    dets: Seq<ProjectDetector>,
    r: ProjectInfoView,
)
    requires
        scan_from(s, dets, 0, None).contains(r),
    ensures
        r.project_types.len() > 0,
        r.types_nodup(),
{
    crate::scanner::lemma_scan_indexed(s, dets, 0);
    lemma_emitted_members(s, dets, 0, r);
    let j = choose|j: int|
        0 <= j < s.len() && #[trigger] emits(s, dets, j) && r == record_at(s, dets, j);
    assert forall|p: int, q: int| 0 <= p < q < r.project_types.len() implies r.project_types[p]
        != r.project_types[q] by {
        lemma_matched_types_nodup(dets, children_of(s, j), p, q);
    }
}

/// No two records of one scan of a well-formed walk share a path: every
/// classified directory appears exactly once in the result.
pub proof fn lemma_scan_paths_distinct(s: Seq<WalkEntryView>, dets: Seq<ProjectDetector>)
    requires
        wf_walk(s),
    ensures
        forall|p: int, q: int|
            0 <= p < q < scan_from(s, dets, 0, None).len() ==> #[trigger] scan_from(
                s,
                dets,
                0,
                None,
            )[p].path != #[trigger] scan_from(s, dets, 0, None)[q].path,
{
    crate::scanner::lemma_scan_indexed(s, dets, 0);
    lemma_record_paths_distinct(s, dets, 0);
}

/// No record position at or after `i` repeats a path of another.
proof fn lemma_record_paths_distinct(
    s: Seq<WalkEntryView>,
    dets: Seq<ProjectDetector>,
    i: int,
)
    requires
        wf_walk(s),
        0 <= i <= s.len(),
    ensures
        forall|p: int, q: int|
            0 <= p < q < emitted_from(s, dets, i).len() ==> #[trigger] emitted_from(s, dets, i)[p].path
                != #[trigger] emitted_from(s, dets, i)[q].path,
    decreases s.len() - i,
{
    if i < s.len() {
        lemma_record_paths_distinct(s, dets, i + 1);
        let rest = emitted_from(s, dets, i + 1);
        if emits(s, dets, i) {
            let e = emitted_from(s, dets, i);
            assert forall|p: int, q: int| 0 <= p < q < e.len() implies #[trigger] e[p].path
                != #[trigger] e[q].path by {
                if p == 0 {
                    assert(e[q] == rest[q - 1]);
                    assert(rest.contains(rest[q - 1]));
                    lemma_emitted_members(s, dets, i + 1, rest[q - 1]);
                    let j = choose|j: int|
                        i + 1 <= j < s.len() && #[trigger] emits(s, dets, j) && rest[q - 1]
                            == record_at(s, dets, j);
                    assert(s[i].path != s[j].path);
                    assert(e[0] == record_at(s, dets, i));
                } else {
                    assert(e[p] == rest[p - 1] && e[q] == rest[q - 1]);
                }
            }
        }
    }
}

/// A directory that matches no detector never appears in the result: no
/// record of the scan carries its path.
pub proof fn lemma_unmatched_never_reported(
    s: Seq<WalkEntryView>,
    dets: Seq<ProjectDetector>,
    i: int,
    r: ProjectInfoView,
)
    requires
        wf_walk(s),
        0 <= i < s.len(),
        forall|k: int| 0 <= k < dets.len() ==> !(#[trigger] dets[k].detects(children_of(s, i))),
        scan_from(s, dets, 0, None).contains(r),
    ensures
        r.path != s[i].path,
{
    lemma_matched_types_empty(dets, children_of(s, i));
    crate::scanner::lemma_scan_indexed(s, dets, 0);
    lemma_emitted_members(s, dets, 0, r);
    let j = choose|j: int|
        0 <= j < s.len() && #[trigger] emits(s, dets, j) && r == record_at(s, dets, j);
    assert(j != i);
}

/// A directory matching several detectors appears exactly once: the scan
/// holds one record with its path, that record carries every matched
/// category, and no category twice.
pub proof fn lemma_multi_marker_single_record(
    s: Seq<WalkEntryView>,
    dets: Seq<ProjectDetector>,
    i: int,
)
    requires
        wf_walk(s),
        emits(s, dets, i),
    ensures
        scan_from(s, dets, 0, None).contains(record_at(s, dets, i)),
        forall|t: ProjectType|
            matched_types(dets, children_of(s, i)).contains(t) <==> #[trigger] record_at(
                s,
                dets,
                i,
            ).project_types.contains(t),
        forall|r: ProjectInfoView|
            scan_from(s, dets, 0, None).contains(r) && r.path == s[i].path ==> r == record_at(
                s,
                dets,
                i,
            ),
        record_at(s, dets, i).types_nodup(),
{
    crate::scanner::lemma_scan_indexed(s, dets, 0);
    lemma_emitted_contains(s, dets, 0, i);
    assert forall|r: ProjectInfoView|
        scan_from(s, dets, 0, None).contains(r) && r.path == s[i].path implies r == record_at(
        s,
        dets,
        i,
    ) by {
        lemma_emitted_members(s, dets, 0, r);
        let j = choose|j: int|
            0 <= j < s.len() && #[trigger] emits(s, dets, j) && r == record_at(s, dets, j);
        assert(j == i) by {
            if j != i {
                assert(s[j].path != s[i].path);
            }
        }
    }
    assert forall|p: int, q: int|
        0 <= p < q < record_at(s, dets, i).project_types.len() implies record_at(
        s,
        dets,
        i,
    ).project_types[p] != record_at(s, dets, i).project_types[q] by {
        lemma_matched_types_nodup(dets, children_of(s, i), p, q);
    }
}

} // verus!
