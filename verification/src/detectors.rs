//! Marker detection: one rule per project category, applied to a directory
//! listing, plus the registry fold that unions the matched categories.
//!
//! A detector is a pure predicate over the direct children of a candidate
//! directory; it never looks at file contents and never recurses.

use vstd::prelude::*;

use crate::types::ProjectType;
use crate::walk::{EntryKind, WalkEntry, WalkEntryView};

verus! {

/// Whether one directory-listing entry is the marker of the given category.
///
/// - `Git`: a `.git` entry that is a directory or a regular file (standalone
///   repositories, and worktree or submodule link files).
/// - `Rust`: a `Cargo.toml` file.
/// - `Java`: a `pom.xml`, `build.gradle` or `build.gradle.kts` file.
/// - `Go`: a `go.mod` file.
pub open spec fn entry_is_marker(t: ProjectType, e: WalkEntryView) -> bool {
    match t {
        ProjectType::Git => e.name == ".git"@ && (e.kind == EntryKind::Dir || e.kind
            == EntryKind::File),
        ProjectType::Rust => e.name == "Cargo.toml"@ && e.kind == EntryKind::File,
        ProjectType::Java => (e.name == "pom.xml"@ || e.name == "build.gradle"@ || e.name
            == "build.gradle.kts"@) && e.kind == EntryKind::File,
        ProjectType::Go => e.name == "go.mod"@ && e.kind == EntryKind::File,
    }
}

/// Whether a listing holds a marker of the given category.
pub open spec fn listing_has_marker(t: ProjectType, listing: Seq<WalkEntryView>) -> bool {
    exists|j: int| 0 <= j < listing.len() && entry_is_marker(t, listing[j])
}

/// A detector: the marker rule of one category. The registry is a list of
/// these; the closed set of variants replaces open-ended detector plugins.
#[derive(Clone, Copy, Debug, PartialEq, Eq, Structural)]
pub enum ProjectDetector {
    Git,
    Rust,
    Java,
    Go,
}

impl ProjectDetector {
    /// The category this detector reports.
    pub open spec fn project_type_spec(self) -> ProjectType {
        match self {
            ProjectDetector::Git => ProjectType::Git,
            ProjectDetector::Rust => ProjectType::Rust,
            ProjectDetector::Java => ProjectType::Java,
            ProjectDetector::Go => ProjectType::Go,
        }
    }

    /// Whether this detector matches the given directory listing.
    pub open spec fn detects(self, listing: Seq<WalkEntryView>) -> bool {
        listing_has_marker(self.project_type_spec(), listing)
    }

    /// The category this detector reports.
    pub fn project_type(&self) -> (t: ProjectType)
        ensures
            t == self.project_type_spec(),
    {
        match self {
            ProjectDetector::Git => ProjectType::Git,
            ProjectDetector::Rust => ProjectType::Rust,
            ProjectDetector::Java => ProjectType::Java,
            ProjectDetector::Go => ProjectType::Go,
        }
    }

    /// Runs this detector against the direct children of a directory.
    pub fn detect(&self, listing: &Vec<WalkEntry>) -> (r: bool)
        ensures
            r == self.detects(listing@.map_values(|e: WalkEntry| e@)),
    {
        let t = self.project_type();
        let ghost lv = listing@.map_values(|e: WalkEntry| e@);
        let mut j: usize = 0;
        while j < listing.len()
            invariant
                0 <= j <= listing.len(),
                t == self.project_type_spec(),
                lv == listing@.map_values(|e: WalkEntry| e@),
                forall|k: int| 0 <= k < j ==> !entry_is_marker(t, #[trigger] lv[k]),
            decreases listing.len() - j,
        {
            if entry_matches(&t, &listing[j]) {
                assert(entry_is_marker(t, lv[j as int]));
                return true;
            }
            j = j + 1;
        }
        false
    }
}

/// Whether one listing entry is the marker of the given category.
fn entry_matches(t: &ProjectType, e: &WalkEntry) -> (r: bool)
    ensures
        r == entry_is_marker(*t, e@),
{
    match t {
        ProjectType::Git => crate::walk::name_eq(&e.name, ".git") && (e.kind == EntryKind::Dir
            || e.kind == EntryKind::File),
        ProjectType::Rust => crate::walk::name_eq(&e.name, "Cargo.toml") && e.kind
            == EntryKind::File,
        ProjectType::Java => (crate::walk::name_eq(&e.name, "pom.xml") || crate::walk::name_eq(
            &e.name,
            "build.gradle",
        ) || crate::walk::name_eq(&e.name, "build.gradle.kts")) && e.kind == EntryKind::File,
        ProjectType::Go => crate::walk::name_eq(&e.name, "go.mod") && e.kind == EntryKind::File,
    }
}

/// The categories a registry matches against a listing, in registry order,
/// each category at most once.
pub open spec fn matched_types(dets: Seq<ProjectDetector>, listing: Seq<WalkEntryView>) -> Seq<
    ProjectType,
>
    decreases dets.len(),
{
    if dets.len() == 0 {
        Seq::empty()
    } else {
        let rest = matched_types(dets.drop_last(), listing);
        let d = dets.last();
        if d.detects(listing) && !rest.contains(d.project_type_spec()) {
            rest.push(d.project_type_spec())
        } else {
            rest
        }
    }
}

/// Every category in the union comes from some matching detector of the
/// registry, and every matching detector's category is in the union.
pub proof fn lemma_matched_types_membership(
    dets: Seq<ProjectDetector>,
    listing: Seq<WalkEntryView>,
    t: ProjectType,
)
    ensures
        matched_types(dets, listing).contains(t) <==> exists|k: int|
            0 <= k < dets.len() && dets[k].project_type_spec() == t && dets[k].detects(listing),
    decreases dets.len(),
{
    if dets.len() == 0 {
    } else {
        let prefix = dets.drop_last();
        lemma_matched_types_membership(prefix, listing, t);
        let rest = matched_types(prefix, listing);
        let d = dets.last();
        if matched_types(dets, listing).contains(t) {
            if rest.contains(t) {
                let k = choose|k: int|
                    0 <= k < prefix.len() && prefix[k].project_type_spec() == t
                        && prefix[k].detects(listing);
                assert(dets[k].project_type_spec() == t && dets[k].detects(listing));
            } else {
                assert(d.detects(listing) && d.project_type_spec() == t) by {
                    if !(d.detects(listing) && !rest.contains(d.project_type_spec())) {
                        assert(matched_types(dets, listing) == rest);
                    } else {
                        seq_push_contains(rest, d.project_type_spec(), t);
                    }
                }
                assert(dets[dets.len() - 1].project_type_spec() == t && dets[dets.len()
                    - 1].detects(listing));
            }
        }
        if exists|k: int|
            0 <= k < dets.len() && dets[k].project_type_spec() == t && dets[k].detects(listing) {
            let k = choose|k: int|
                0 <= k < dets.len() && dets[k].project_type_spec() == t && dets[k].detects(listing);
            if k < dets.len() - 1 {
                assert(prefix[k].project_type_spec() == t && prefix[k].detects(listing));
                assert(rest.contains(t));
                if d.detects(listing) && !rest.contains(d.project_type_spec()) {
                    seq_push_contains(rest, d.project_type_spec(), t);
                }
            } else {
                if !rest.contains(t) {
                    seq_push_contains(rest, t, t);
                }
            }
        }
    }
}

/// A pushed sequence holds exactly the old elements and the new one.
proof fn seq_push_contains<A>(s: Seq<A>, x: A, y: A)
    ensures
        s.push(x).contains(y) <==> (y == x || s.contains(y)),
{
    if s.push(x).contains(y) {
        let k = choose|k: int| 0 <= k < s.push(x).len() && s.push(x)[k] == y;
        if k < s.len() {
            assert(s[k] == y);
        }
    }
    if s.contains(y) {
        let k = choose|k: int| 0 <= k < s.len() && s[k] == y;
        assert(s.push(x)[k] == y);
    }
    if y == x {
        assert(s.push(x)[s.len() as int] == y);
    }
}

/// The union never repeats a category.
pub proof fn lemma_matched_types_nodup(
    dets: Seq<ProjectDetector>,
    listing: Seq<WalkEntryView>,
    i: int,
    j: int,
)
    requires
        0 <= i < j < matched_types(dets, listing).len(),
    ensures
        matched_types(dets, listing)[i] != matched_types(dets, listing)[j],
    decreases dets.len(),
{
    if dets.len() > 0 {
        let prefix = dets.drop_last();
        let rest = matched_types(prefix, listing);
        let d = dets.last();
        if d.detects(listing) && !rest.contains(d.project_type_spec()) {
            if j < rest.len() {
                lemma_matched_types_nodup(prefix, listing, i, j);
            } else {
                assert(matched_types(dets, listing)[j] == d.project_type_spec());
                assert(rest[i] == matched_types(dets, listing)[i]);
                assert(rest.contains(rest[i]));
            }
        } else {
            lemma_matched_types_nodup(prefix, listing, i, j);
        }
    }
}

/// The union is empty exactly when no detector of the registry matches.
pub proof fn lemma_matched_types_empty(dets: Seq<ProjectDetector>, listing: Seq<WalkEntryView>)
    ensures
        matched_types(dets, listing).len() == 0 <==> forall|k: int|
            0 <= k < dets.len() ==> !dets[k].detects(listing),
    decreases dets.len(),
{
    if dets.len() > 0 {
        let prefix = dets.drop_last();
        lemma_matched_types_empty(prefix, listing);
        let rest = matched_types(prefix, listing);
        let d = dets.last();
        if d.detects(listing) && !rest.contains(d.project_type_spec()) {
        } else {
            assert(forall|k: int| 0 <= k < prefix.len() ==> prefix[k] == dets[k]);
            if rest.len() > 0 {
                assert(exists|k: int| 0 <= k < prefix.len() && prefix[k].detects(listing));
            }
        }
    }
}

/// The default registry: the four built-in detectors, in the fixed order
/// git, rust, java, go.
pub fn default_detectors() -> (r: Vec<ProjectDetector>)
    ensures
        r@ == seq![
            ProjectDetector::Git,
            ProjectDetector::Rust,
            ProjectDetector::Java,
            ProjectDetector::Go,
        ],
{
    let mut v: Vec<ProjectDetector> = Vec::new();
    v.push(ProjectDetector::Git);
    v.push(ProjectDetector::Rust);
    v.push(ProjectDetector::Java);
    v.push(ProjectDetector::Go);
    proof {
        assert(v@ =~= seq![
            ProjectDetector::Git,
            ProjectDetector::Rust,
            ProjectDetector::Java,
            ProjectDetector::Go,
        ]);
    }
    v
}

} // verus!
