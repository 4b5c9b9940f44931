//! The scanner: classifies every directory of a depth-first walk snapshot
//! and prunes the subtrees of classified git repositories.
//!
//! The reference behaviour is the spec function [`scan_from`]: it consumes
//! the entry sequence in order, carrying a "skip everything deeper than
//! this" marker. A directory is classified by the registry against its
//! direct children; a hidden directory, the `.git` metadata directory, and
//! everything inside a directory classified as `Git` are never classified.
//! [`ProjectManager::scan_projects`] is proved to return exactly this.

use vstd::prelude::*;

use crate::config::Config;
use crate::detectors::{default_detectors, matched_types, ProjectDetector};
use crate::errors::ScError;
use crate::types::{ProjectInfo, ProjectInfoView, ProjectType};
use crate::walk::{
    children_of, first_error_at, hidden_name, item_error_msg, stream_ok, stream_views, views_of,
    EntryKind, WalkEntry, WalkEntryView, WalkItem,
};

verus! {

/// The pruning marker as a mathematical value.
pub open spec fn skip_view(s: Option<usize>) -> Option<nat> {
    match s {
        Some(d) => Some(d as nat),
        None => None,
    }
}

/// Whether the pruning marker suppresses an entry: it does while the walk
/// stays strictly deeper than the depth that set the marker.
pub open spec fn skip_blocks(skip: Option<nat>, e: WalkEntryView) -> bool {
    match skip {
        Some(d) => e.depth > d,
        None => false,
    }
}

/// The records of a scan of `s` from position `i` onward, starting with the
/// pruning marker `skip`. This is the scan's reference behaviour:
///
/// - an entry still covered by the marker is passed over unchanged;
/// - otherwise the marker is spent, and a directory entry is handled:
///   a hidden directory or a `.git` directory is not classified and its
///   subtree is marked to be skipped; any other directory is classified by
///   the registry against its direct children, a record is emitted when at
///   least one category matched, and a `Git` match marks the subtree;
/// - files and other non-directories are never classified.
pub open spec fn scan_from(
    s: Seq<WalkEntryView>,
    dets: Seq<ProjectDetector>,
    i: int,
    skip: Option<nat>,
) -> Seq<ProjectInfoView>
    decreases s.len() - i,
{
    if i < 0 || i >= s.len() {
        Seq::empty()
    } else {
        let e = s[i];
        if skip_blocks(skip, e) {
            scan_from(s, dets, i + 1, skip)
        } else if e.kind == EntryKind::Dir {
            if hidden_name(e.name) || e.name == ".git"@ {
                scan_from(s, dets, i + 1, Some(e.depth))
            } else {
                let ts = matched_types(dets, children_of(s, i));
                if ts.len() > 0 {
                    let rec = ProjectInfoView { path: e.path, project_types: ts };
                    let nskip: Option<nat> = if ts.contains(ProjectType::Git) {
                        Some(e.depth)
                    } else {
                        None
                    };
                    seq![rec] + scan_from(s, dets, i + 1, nskip)
                } else {
                    scan_from(s, dets, i + 1, None)
                }
            }
        } else {
            scan_from(s, dets, i + 1, None)
        }
    }
}

/// The pruning marker after entry `k` has been handled, given the marker
/// before it.
pub open spec fn step_state(
    s: Seq<WalkEntryView>,
    dets: Seq<ProjectDetector>,
    k: int,
    st: Option<nat>,
) -> Option<nat> {
    let e = s[k];
    if skip_blocks(st, e) {
        st
    } else if e.kind == EntryKind::Dir {
        if hidden_name(e.name) || e.name == ".git"@ {
            Some(e.depth)
        } else if matched_types(dets, children_of(s, k)).contains(ProjectType::Git) {
            Some(e.depth)
        } else {
            None
        }
    } else {
        None
    }
}

/// The pruning marker on arrival at position `i` of a scan started at the
/// beginning of `s`.
pub open spec fn st_at(s: Seq<WalkEntryView>, dets: Seq<ProjectDetector>, i: int) -> Option<nat>
    decreases i,
{
    if i <= 0 {
        None
    } else {
        step_state(s, dets, i - 1, st_at(s, dets, i - 1))
    }
}

/// Whether the scan emits a record for position `i`: the entry is an
/// unsuppressed directory, neither hidden nor named `.git`, and at least
/// one registry category matches its direct children.
pub open spec fn emits(s: Seq<WalkEntryView>, dets: Seq<ProjectDetector>, i: int) -> bool {
    &&& 0 <= i < s.len()
    &&& !skip_blocks(st_at(s, dets, i), s[i])
    &&& s[i].kind == EntryKind::Dir
    &&& !hidden_name(s[i].name)
    &&& s[i].name != ".git"@
    &&& matched_types(dets, children_of(s, i)).len() > 0
}

/// The record the scan emits for position `i`.
pub open spec fn record_at(s: Seq<WalkEntryView>, dets: Seq<ProjectDetector>, i: int) -> ProjectInfoView {
    ProjectInfoView { path: s[i].path, project_types: matched_types(dets, children_of(s, i)) }
}

/// The records of the scan, described position by position: one record for
/// every emitting position, in stream order.
pub open spec fn emitted_from(s: Seq<WalkEntryView>, dets: Seq<ProjectDetector>, i: int) -> Seq<
    ProjectInfoView,
>
    decreases s.len() - i,
{
    if i < 0 || i >= s.len() {
        Seq::empty()
    } else if emits(s, dets, i) {
        seq![record_at(s, dets, i)] + emitted_from(s, dets, i + 1)
    } else {
        emitted_from(s, dets, i + 1)
    }
}

/// The two descriptions of the scan agree: the fold [`scan_from`], resumed
/// at any position with the marker the scan carries there, yields exactly
/// the records of the emitting positions from there on.
pub proof fn lemma_scan_indexed(s: Seq<WalkEntryView>, dets: Seq<ProjectDetector>, i: int)
    requires
        0 <= i <= s.len(),
    ensures
        scan_from(s, dets, i, st_at(s, dets, i)) == emitted_from(s, dets, i),
    decreases s.len() - i,
{
    if i == s.len() {
        assert(scan_from(s, dets, i, st_at(s, dets, i)) =~= emitted_from(s, dets, i));
    } else {
        lemma_scan_indexed(s, dets, i + 1);
        let st = st_at(s, dets, i);
        let e = s[i];
        assert(st_at(s, dets, i + 1) == step_state(s, dets, i, st));
        if skip_blocks(st, e) {
            assert(step_state(s, dets, i, st) == st);
            assert(!emits(s, dets, i));
            assert(scan_from(s, dets, i, st) =~= emitted_from(s, dets, i));
        } else if e.kind == EntryKind::Dir {
            if hidden_name(e.name) || e.name == ".git"@ {
                assert(step_state(s, dets, i, st) == Some(e.depth));
                assert(!emits(s, dets, i));
                assert(scan_from(s, dets, i, st) =~= emitted_from(s, dets, i));
            } else {
                let ts = matched_types(dets, children_of(s, i));
                if ts.len() > 0 {
                    assert(emits(s, dets, i));
                    assert(scan_from(s, dets, i, st) =~= emitted_from(s, dets, i));
                } else {
                    assert(!emits(s, dets, i));
                    assert(step_state(s, dets, i, st) == None::<nat>);
                    assert(scan_from(s, dets, i, st) =~= emitted_from(s, dets, i));
                }
            }
        } else {
            assert(!emits(s, dets, i));
            assert(step_state(s, dets, i, st) == None::<nat>);
            assert(scan_from(s, dets, i, st) =~= emitted_from(s, dets, i));
        }
    }
}

/// Gathers the direct children of the directory at position `i`.
fn collect_children(entries: &Vec<WalkEntry>, i: usize) -> (r: Vec<WalkEntry>)
    requires
        i < entries@.len(),
    ensures
        r@.map_values(|e: WalkEntry| e@) == children_of(views_of(entries@), i as int),
{
    let ghost s = views_of(entries@);
    let n = entries.len();
    assert(i < n);
    let d = entries[i].depth;
    assert(s[i as int] == entries@[i as int]@);
    let mut out: Vec<WalkEntry> = Vec::new();
    let mut j: usize = i + 1;
    while j < entries.len() && entries[j].depth > d
        invariant
            i < j <= entries@.len(),
            d as nat == s[i as int].depth,
            s == views_of(entries@),
            crate::walk::children_from(s, d as nat, i as int + 1) == out@.map_values(
                |e: WalkEntry| e@,
            ) + crate::walk::children_from(s, d as nat, j as int),
        decreases entries@.len() - j,
    {
        let e = &entries[j];
        assert(s[j as int] == entries@[j as int]@);
        let ghost old_map = out@.map_values(|x: WalkEntry| x@);
        if e.depth - 1 == d {
            out.push(
                WalkEntry {
                    path: e.path.clone(),
                    name: e.name.clone(),
                    depth: e.depth,
                    kind: e.kind,
                },
            );
            proof {
                assert(out@.map_values(|x: WalkEntry| x@) =~= old_map.push(s[j as int]));
                assert(crate::walk::children_from(s, d as nat, j as int) == seq![s[j as int]]
                    + crate::walk::children_from(s, d as nat, j as int + 1));
                assert(old_map + (seq![s[j as int]] + crate::walk::children_from(
                    s,
                    d as nat,
                    j as int + 1,
                )) =~= old_map.push(s[j as int]) + crate::walk::children_from(
                    s,
                    d as nat,
                    j as int + 1,
                ));
            }
        } else {
            proof {
                assert(crate::walk::children_from(s, d as nat, j as int)
                    == crate::walk::children_from(s, d as nat, j as int + 1));
            }
        }
        j = j + 1;
    }
    proof {
        assert(crate::walk::children_from(s, d as nat, j as int) =~= Seq::<WalkEntryView>::empty());
        assert(out@.map_values(|e: WalkEntry| e@) =~= children_of(s, i as int));
    }
    out
}

/// Drives scans: holds the configuration and the detector registry, walks a
/// reported snapshot and returns the classified projects.
pub struct ProjectManager {
    /// The configuration the manager was built with.
    pub config: Config,
    /// The registry: every detector is applied to every visited directory.
    pub detectors: Vec<ProjectDetector>,
}

impl ProjectManager {
    /// A manager over the default four-detector registry.
    pub fn new(config: Config) -> (r: ProjectManager)
        ensures
            r.config == config,
            r.detectors@ == seq![
                ProjectDetector::Git,
                ProjectDetector::Rust,
                ProjectDetector::Java,
                ProjectDetector::Go,
            ],
    {
        ProjectManager { config, detectors: default_detectors() }
    }

    /// A manager over a caller-supplied registry.
    pub fn with_detectors(config: Config, detectors: Vec<ProjectDetector>) -> (r: ProjectManager)
        ensures
            r.config == config,
            r.detectors == detectors,
    {
        ProjectManager { config, detectors }
    }

    /// The root directory this manager scans.
    pub fn projects_path(&self) -> (r: &String)
        ensures
            r@ == self.config.projects_path@,
    {
        &self.config.projects_path
    }

    /// Classifies one directory: applies every detector of the registry to
    /// the directory's listing and unions the matched categories into one
    /// record, or yields nothing when no detector matched.
    pub fn detect_project(&self, path: &String, listing: &Vec<WalkEntry>) -> (r: Option<
        ProjectInfo,
    >)
        ensures
            ({
                let ts = matched_types(self.detectors@, listing@.map_values(|e: WalkEntry| e@));
                match r {
                    Some(info) => ts.len() > 0 && info@.path == path@ && info@.project_types == ts,
                    None => ts.len() == 0,
                }
            }),
    {
        let ghost lv = listing@.map_values(|e: WalkEntry| e@);
        let mut project_info = ProjectInfo::new(path.clone());
        let mut found_any = false;
        let mut i: usize = 0;
        while i < self.detectors.len()
            invariant
                0 <= i <= self.detectors@.len(),
                lv == listing@.map_values(|e: WalkEntry| e@),
                project_info@.path == path@,
                project_info@.project_types == matched_types(self.detectors@.take(i as int), lv),
                found_any == (matched_types(self.detectors@.take(i as int), lv).len() > 0),
            decreases self.detectors@.len() - i,
        {
            let ghost prefix1 = self.detectors@.take(i as int + 1);
            proof {
                assert(prefix1.drop_last() =~= self.detectors@.take(i as int));
                assert(prefix1.last() == self.detectors@[i as int]);
            }
            let d = self.detectors[i];
            if d.detect(listing) {
                project_info.add_type(d.project_type());
                found_any = true;
                proof {
                    if matched_types(self.detectors@.take(i as int), lv).contains(
                        d.project_type_spec(),
                    ) {
                        assert(matched_types(self.detectors@.take(i as int), lv).len() > 0);
                    }
                }
            }
            i = i + 1;
        }
        proof {
            assert(self.detectors@.take(self.detectors@.len() as int) =~= self.detectors@);
        }
        if found_any {
            Some(project_info)
        } else {
            None
        }
    }

    /// Whether a freshly classified directory closes its subtree to further
    /// classification: it does exactly when it was classified as `Git`.
    pub fn should_skip_recursion(&self, project_info: &ProjectInfo) -> (r: bool)
        ensures
            r == project_info@.project_types.contains(ProjectType::Git),
    {
        project_info.has_type(&ProjectType::Git)
    }

    /// Scans an error-free walk snapshot: returns exactly the records that
    /// [`scan_from`] describes, in discovery order.
    pub fn scan_entries(&self, entries: &Vec<WalkEntry>) -> (r: Vec<ProjectInfo>)
        ensures
            r@.map_values(|p: ProjectInfo| p@) == scan_from(
                views_of(entries@),
                self.detectors@,
                0,
                None,
            ),
    {
        let ghost s = views_of(entries@);
        let ghost dets = self.detectors@;
        let mut projects: Vec<ProjectInfo> = Vec::new();
        let mut skip_depth: Option<usize> = None;
        let mut i: usize = 0;
        proof {
            assert(Seq::<ProjectInfoView>::empty() + scan_from(s, dets, 0, None) =~= scan_from(
                s,
                dets,
                0,
                None,
            ));
            assert(projects@.map_values(|p: ProjectInfo| p@) =~= Seq::<ProjectInfoView>::empty());
        }
        while i < entries.len()
            invariant
                0 <= i <= entries@.len(),
                s == views_of(entries@),
                dets == self.detectors@,
                scan_from(s, dets, 0, None) == projects@.map_values(|p: ProjectInfo| p@)
                    + scan_from(s, dets, i as int, skip_view(skip_depth)),
            decreases entries@.len() - i,
        {
            let ghost sv = skip_view(skip_depth);
            let ghost old_map = projects@.map_values(|p: ProjectInfo| p@);
            let e = &entries[i];
            assert(s[i as int] == entries@[i as int]@);
            let mut blocked_now = false;
            if let Some(d) = skip_depth {
                if e.depth > d {
                    blocked_now = true;
                } else {
                    skip_depth = None;
                }
            }
            if blocked_now {
                proof {
                    assert(scan_from(s, dets, i as int, sv) == scan_from(
                        s,
                        dets,
                        i as int + 1,
                        skip_view(skip_depth),
                    ));
                }
            } else {
                assert(!skip_blocks(sv, s[i as int]));
                if e.kind == EntryKind::Dir {
                    if crate::walk::is_hidden_name(&e.name) || crate::walk::name_eq(
                        &e.name,
                        ".git",
                    ) {
                        skip_depth = Some(e.depth);
                        proof {
                            assert(scan_from(s, dets, i as int, sv) == scan_from(
                                s,
                                dets,
                                i as int + 1,
                                skip_view(skip_depth),
                            ));
                        }
                    } else {
                        let listing = collect_children(entries, i);
                        let ghost ts = matched_types(dets, children_of(s, i as int));
                        match self.detect_project(&e.path, &listing) {
                            Some(info) => {
                                if self.should_skip_recursion(&info) {
                                    skip_depth = Some(e.depth);
                                } else {
                                    skip_depth = None;
                                }
                                let ghost rec = ProjectInfoView {
                                    path: s[i as int].path,
                                    project_types: ts,
                                };
                                proof {
                                    assert(info@ == rec);
                                    assert(scan_from(s, dets, i as int, sv) == seq![rec]
                                        + scan_from(s, dets, i as int + 1, skip_view(skip_depth)));
                                }
                                projects.push(info);
                                proof {
                                    assert(projects@.map_values(|p: ProjectInfo| p@)
                                        =~= old_map.push(rec));
                                    assert(old_map + (seq![rec] + scan_from(
                                        s,
                                        dets,
                                        i as int + 1,
                                        skip_view(skip_depth),
                                    )) =~= old_map.push(rec) + scan_from(
                                        s,
                                        dets,
                                        i as int + 1,
                                        skip_view(skip_depth),
                                    ));
                                }
                            },
                            None => {
                                skip_depth = None;
                                proof {
                                    assert(scan_from(s, dets, i as int, sv) == scan_from(
                                        s,
                                        dets,
                                        i as int + 1,
                                        skip_view(skip_depth),
                                    ));
                                }
                            },
                        }
                    }
                } else {
                    skip_depth = None;
                    proof {
                        assert(scan_from(s, dets, i as int, sv) == scan_from(
                            s,
                            dets,
                            i as int + 1,
                            skip_view(skip_depth),
                        ));
                    }
                }
            }
            i = i + 1;
        }
        proof {
            assert(scan_from(s, dets, i as int, skip_view(skip_depth))
                =~= Seq::<ProjectInfoView>::empty());
            assert(projects@.map_values(|p: ProjectInfo| p@) + Seq::<ProjectInfoView>::empty()
                =~= projects@.map_values(|p: ProjectInfo| p@));
        }
        projects
    }

    /// Scans a walk snapshot. A stream with a traversal error fails
    /// wholesale with that first error and no partial results; an
    /// error-free stream yields exactly the records of [`scan_from`].
    pub fn scan_projects(&self, walk: &Vec<WalkItem>) -> (r: Result<Vec<ProjectInfo>, ScError>)
        ensures
            r is Ok <==> stream_ok(walk@),
            ({
                match r {
                    Ok(projects) => projects@.map_values(|p: ProjectInfo| p@) == scan_from(
                        stream_views(walk@),
                        self.detectors@,
                        0,
                        None,
                    ),
                    Err(e) => exists|k: int|
                        #[trigger] first_error_at(walk@, k) && (match e {
                            ScError::Traversal(m) => m@ == item_error_msg(walk@[k]),
                            _ => false,
                        }),
                }
            }),
    {
        let mut entries: Vec<WalkEntry> = Vec::new();
        let mut i: usize = 0;
        while i < walk.len()
            invariant
                0 <= i <= walk@.len(),
                entries@.len() == i,
                forall|k: int| 0 <= k < i ==> walk@[k] is Entry,
                entries@.map_values(|e: WalkEntry| e@) == stream_views(walk@).take(i as int),
            decreases walk@.len() - i,
        {
            let ghost old_map = entries@.map_values(|e: WalkEntry| e@);
            match &walk[i] {
                WalkItem::Entry(e) => {
                    entries.push(
                        WalkEntry {
                            path: e.path.clone(),
                            name: e.name.clone(),
                            depth: e.depth,
                            kind: e.kind,
                        },
                    );
                    proof {
                        assert(entries@.map_values(|x: WalkEntry| x@) =~= stream_views(
                            walk@,
                        ).take(i as int + 1));
                    }
                },
                WalkItem::Error(m) => {
                    proof {
                        assert(first_error_at(walk@, i as int));
                        assert(!stream_ok(walk@));
                    }
                    return Err(ScError::Traversal(m.clone()));
                },
            }
            i = i + 1;
        }
        proof {
            assert(stream_ok(walk@));
            assert(stream_views(walk@).take(walk@.len() as int) =~= stream_views(walk@));
            assert(views_of(entries@) == stream_views(walk@));
        }
        let projects = self.scan_entries(&entries);
        Ok(projects)
    }
}

} // verus!
