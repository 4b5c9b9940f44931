//! The output vocabulary of the scanner: project categories and the record
//! emitted for each directory that was classified as a project.

use vstd::prelude::*;

verus! {

/// A closed enumeration of the marker categories the scanner recognises.
#[derive(Clone, Copy, Debug, PartialEq, Eq, Hash, Structural)]
pub enum ProjectType {
    Git,
    Rust,
    Java,
    Go,
}

impl ProjectType {
    /// The stable human-readable label of this category.
    pub open spec fn label_spec(self) -> Seq<char> {
        match self {
            ProjectType::Git => "Git"@,
            ProjectType::Rust => "Rust"@,
            ProjectType::Java => "Java"@,
            ProjectType::Go => "Go"@,
        }
    }

    /// Renders the label; the presentation layer prints it.
    pub fn label(&self) -> (r: String)
        ensures
            r@ == self.label_spec(),
    {
        match self {
            ProjectType::Git => "Git".to_owned(),
            ProjectType::Rust => "Rust".to_owned(),
            ProjectType::Java => "Java".to_owned(),
            ProjectType::Go => "Go".to_owned(),
        }
    }
}

/// The mathematical value of a [`ProjectInfo`]: a path and the sequence of
/// matched categories, in the order the registry matched them.
pub struct ProjectInfoView {
    pub path: Seq<char>,
    pub project_types: Seq<ProjectType>,
}

impl ProjectInfoView {
    /// The category list behaves as a set: no category appears twice.
    pub open spec fn types_nodup(self) -> bool {
        forall|i: int, j: int|
            0 <= i < j < self.project_types.len() ==> self.project_types[i] != self.project_types[j]
    }
}

/// One directory classified as a project: its path together with every
/// category whose marker was found directly inside it.
#[derive(Clone, Debug)]
pub struct ProjectInfo {
    pub path: String,
    pub project_types: Vec<ProjectType>,
}

impl View for ProjectInfo {
    type V = ProjectInfoView;

    open spec fn view(&self) -> ProjectInfoView {
        ProjectInfoView { path: self.path@, project_types: self.project_types@ }
    }
}

impl ProjectInfo {
    /// A fresh record for `path` with no categories yet.
    pub fn new(path: String) -> (r: ProjectInfo)
        ensures
            r@.path == path@,
            r@.project_types == Seq::<ProjectType>::empty(),
    {
        ProjectInfo { path, project_types: Vec::new() }
    }

    /// Adds a category, keeping the list duplicate-free.
    pub fn add_type(&mut self, project_type: ProjectType)
        ensures
            final(self)@.path == old(self)@.path,
            old(self)@.project_types.contains(project_type) ==> final(self)@.project_types
                == old(self)@.project_types,
            !old(self)@.project_types.contains(project_type) ==> final(self)@.project_types
                == old(self)@.project_types.push(project_type),
            old(self)@.types_nodup() ==> final(self)@.types_nodup(),
    {
        if !self.has_type(&project_type) {
            self.project_types.push(project_type);
        }
    }

    /// Whether this record carries the given category.
    pub fn has_type(&self, project_type: &ProjectType) -> (r: bool)
        ensures
            r == self@.project_types.contains(*project_type),
    {
        let mut i: usize = 0;
        while i < self.project_types.len()
            invariant
                0 <= i <= self.project_types.len(),
                forall|k: int| 0 <= k < i ==> self.project_types[k] != *project_type,
            decreases self.project_types.len() - i,
        {
            if self.project_types[i] == *project_type {
                return true;
            }
            i = i + 1;
        }
        false
    }
}

} // verus!
