//! Which file events mean that the shader under edit changed. The parent
//! directory is watched, not the file: editors save through a temporary file
//! and a rename.

use vstd::prelude::*;
use vstd::string::*;

use crate::paths::{file_name, file_name_of, parent, parent_of};
use crate::text::same;

verus! {

/// What a file event reports.
#[derive(Clone, Copy, Debug, PartialEq, Eq, Structural)]
pub enum EventKind {
    Create,
    Modify,
    Other,
}

/// What to watch for a shader: a directory, and the name of a file in it.
#[derive(Debug)]
pub struct ShaderWatch {
    pub dir: String,
    pub target: String,
}

/// The directory to watch for a path.
pub open spec fn watched_dir(path: Seq<char>) -> Seq<char> {
    match parent_of(path) {
        Some(p) => if p.len() == 0 {
            "."@
        } else {
            p
        },
        None => "."@,
    }
}

/// Whether a path ends in the file name `target`.
pub open spec fn ends_in(path: Seq<char>, target: Seq<char>) -> bool {
    file_name_of(path) == Some(target)
}

/// Whether an event means that the shader changed: something was created or
/// written under its name.
pub open spec fn concerns(target: Seq<char>, kind: EventKind, paths: Seq<String>) -> bool {
    kind != EventKind::Other && exists|i: int| 0 <= i < paths.len() && ends_in(#[trigger] paths[i]@, target)
}

impl ShaderWatch {
    /// What to watch for the shader at `path`; nothing when the path has no
    /// file name.
    pub fn new(path: &str) -> (r: Option<ShaderWatch>)
        ensures
            match r {
                Some(w) => file_name_of(path@) == Some(w.target@) && w.dir@ == watched_dir(path@),
                None => file_name_of(path@) is None,
            },
    {
        match file_name(path) {
            Some(target) => {
                let dir = match parent(path) {
                    Some(p) => if p.as_str().unicode_len() == 0 {
                        ".".to_owned()
                    } else {
                        p
                    },
                    None => ".".to_owned(),
                };
                Some(ShaderWatch { dir, target })
            },
            None => None,
        }
    }

    /// Whether an event means that the shader changed: something was created
    /// or written under its name.
    pub fn relevant(&self, kind: EventKind, paths: &Vec<String>) -> (r: bool)
        ensures
            r == concerns(self.target@, kind, paths@),
    {
        if kind == EventKind::Other {
            return false;
        }
        let mut i: usize = 0;
        while i < paths.len()
            invariant
                i <= paths@.len(),
                kind != EventKind::Other,
                forall|j: int| 0 <= j < i ==> !ends_in(#[trigger] paths@[j]@, self.target@),
            decreases paths@.len() - i,
        {
            let hit = match file_name(paths[i].as_str()) {
                Some(name) => same(name.as_str(), self.target.as_str()),
                None => false,
            };
            assert(hit == ends_in(paths@[i as int]@, self.target@));
            if hit {
                return true;
            }
            i += 1;
        }
        false
    }
}

} // verus!
