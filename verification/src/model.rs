//! In-memory model of a directory tree, and the tree navigator that
//! classifies a directory's position in the component tree.
//!
//! A [`Dir`] holds named files with their text and named subdirectories.  The
//! lifecycle operations work on this model; a front end mirrors it to the
//! real filesystem.

use vstd::prelude::*;
use crate::metadata::{descriptor_top_of, is_descriptor_text, parse_descriptor};

verus! {

/// A file: its name and its full text.
pub struct FileEntry {
    pub name: String,
    pub content: String,
}

/// A named subdirectory.
pub struct DirEntry {
    pub name: String,
    pub dir: Dir,
}

/// A directory: named files and named subdirectories.
pub struct Dir {
    pub files: Vec<FileEntry>,
    pub dirs: Vec<DirEntry>,
}

impl Dir {
    /// An empty directory.
    pub fn new_empty() -> (r: Dir)
        ensures
            r.files@.len() == 0,
            r.dirs@.len() == 0,
            r.wf(),
    {
        Dir { files: Vec::new(), dirs: Vec::new() }
    }

    /// Whether a file of this name exists here.
    pub open spec fn has_file(&self, name: Seq<char>) -> bool {
        exists|i: int| 0 <= i < self.files@.len() && self.files@[i].name@ == name
    }

    /// Index of the file of this name (unique when `wf()` holds).
    pub open spec fn file_index(&self, name: Seq<char>) -> int {
        choose|i: int| 0 <= i < self.files@.len() && self.files@[i].name@ == name
    }

    /// The text of the file of this name.
    pub open spec fn file_content(&self, name: Seq<char>) -> Seq<char> {
        self.files@[self.file_index(name)].content@
    }

    /// Whether a subdirectory of this name exists here.
    pub open spec fn has_dir(&self, name: Seq<char>) -> bool {
        exists|i: int| 0 <= i < self.dirs@.len() && self.dirs@[i].name@ == name
    }

    /// Index of the subdirectory of this name (unique when `wf()` holds).
    pub open spec fn dir_index(&self, name: Seq<char>) -> int {
        choose|i: int| 0 <= i < self.dirs@.len() && self.dirs@[i].name@ == name
    }

    /// The subdirectory of this name.
    pub open spec fn subdir(&self, name: Seq<char>) -> Dir {
        self.dirs@[self.dir_index(name)].dir
    }

    /// Entry names are unique: no two files, no two subdirectories, and no
    /// file and subdirectory share a name.
    pub open spec fn wf(&self) -> bool {
        &&& (forall|i: int, j: int|
            0 <= i < j < self.files@.len() ==> self.files@[i].name@ != self.files@[j].name@)
        &&& (forall|i: int, j: int|
            0 <= i < j < self.dirs@.len() ==> self.dirs@[i].name@ != self.dirs@[j].name@)
        &&& (forall|i: int, j: int|
            0 <= i < self.files@.len() && 0 <= j < self.dirs@.len() ==> self.files@[i].name@
                != self.dirs@[j].name@)
    }

    /// Finds the file of the given name.
    pub fn find_file(&self, name: &str) -> (r: Option<usize>)
        ensures
            match r {
                Some(i) => i < self.files@.len() && self.files@[i as int].name@ == name@
                    && self.has_file(name@),
                None => !self.has_file(name@),
            },
    {
        let key = String::from_str(name);
        let mut i: usize = 0;
        while i < self.files.len()
            invariant
                i <= self.files@.len(),
                key@ == name@,
                forall|j: int| 0 <= j < i ==> self.files@[j].name@ != name@,
            decreases self.files@.len() - i,
        {
            if self.files[i].name == key {
                return Some(i);
            }
            i += 1;
        }
        None
    }

    /// Finds the subdirectory of the given name.
    pub fn find_dir(&self, name: &str) -> (r: Option<usize>)
        ensures
            match r {
                Some(i) => i < self.dirs@.len() && self.dirs@[i as int].name@ == name@
                    && self.has_dir(name@),
                None => !self.has_dir(name@),
            },
    {
        let key = String::from_str(name);
        let mut i: usize = 0;
        while i < self.dirs.len()
            invariant
                i <= self.dirs@.len(),
                key@ == name@,
                forall|j: int| 0 <= j < i ==> self.dirs@[j].name@ != name@,
            decreases self.dirs@.len() - i,
        {
            if self.dirs[i].name == key {
                return Some(i);
            }
            i += 1;
        }
        None
    }

    /// A directory is a component exactly when it holds both a `components/`
    /// subdirectory and a bill-of-materials file.
    pub open spec fn is_component_spec(&self) -> bool {
        self.has_dir("components"@) && self.has_file("bom_data.yaml"@)
    }

    /// Tests whether this directory is a component.
    pub fn is_component(&self) -> (r: bool)
        ensures
            r == self.is_component_spec(),
    {
        match self.find_dir("components") {
            Some(_) => match self.find_file("bom_data.yaml") {
                Some(_) => true,
                None => false,
            },
            None => false,
        }
    }
}

/// In a well-formed directory, any file index whose name matches is the
/// chosen one, so first-match search and the spec index agree.
pub proof fn lemma_file_index_unique(d: &Dir, name: Seq<char>, i: int)
    requires
        d.wf(),
        0 <= i < d.files@.len(),
        d.files@[i].name@ == name,
    ensures
        d.file_index(name) == i,
        d.file_content(name) == d.files@[i].content@,
{
    let k = d.file_index(name);
    assert(0 <= k < d.files@.len() && d.files@[k].name@ == name);
    if k < i {
        assert(d.files@[k].name@ != d.files@[i].name@);
    } else if i < k {
        assert(d.files@[i].name@ != d.files@[k].name@);
    }
}

/// In a well-formed directory, any subdirectory index whose name matches is
/// the chosen one.
pub proof fn lemma_dir_index_unique(d: &Dir, name: Seq<char>, i: int)
    requires
        d.wf(),
        0 <= i < d.dirs@.len(),
        d.dirs@[i].name@ == name,
    ensures
        d.dir_index(name) == i,
        d.subdir(name) == d.dirs@[i].dir,
{
    let k = d.dir_index(name);
    assert(0 <= k < d.dirs@.len() && d.dirs@[k].name@ == name);
    if k < i {
        assert(d.dirs@[k].name@ != d.dirs@[i].name@);
    } else if i < k {
        assert(d.dirs@[i].name@ != d.dirs@[k].name@);
    }
}

/// Appending a subdirectory entry adds exactly that name.
pub proof fn lemma_push_dir_entry(d0: Dir, d1: Dir, e: DirEntry, x: Seq<char>)
    requires
        d1.dirs@ == d0.dirs@.push(e),
    ensures
        d1.has_dir(x) <==> (d0.has_dir(x) || e.name@ == x),
{
    if d1.has_dir(x) {
        let i = choose|i: int| 0 <= i < d1.dirs@.len() && d1.dirs@[i].name@ == x;
        if i < d0.dirs@.len() {
            assert(d0.dirs@[i].name@ == x);
        } else {
            assert(d1.dirs@[i] == e);
        }
    }
    if d0.has_dir(x) {
        let i = choose|i: int| 0 <= i < d0.dirs@.len() && d0.dirs@[i].name@ == x;
        assert(d1.dirs@[i].name@ == x);
    }
    if e.name@ == x {
        assert(d1.dirs@[d0.dirs@.len() as int].name@ == x);
    }
}

/// Appending a file entry adds exactly that name.
pub proof fn lemma_push_file_entry(d0: Dir, d1: Dir, e: FileEntry, x: Seq<char>)
    requires
        d1.files@ == d0.files@.push(e),
    ensures
        d1.has_file(x) <==> (d0.has_file(x) || e.name@ == x),
{
    if d1.has_file(x) {
        let i = choose|i: int| 0 <= i < d1.files@.len() && d1.files@[i].name@ == x;
        if i < d0.files@.len() {
            assert(d0.files@[i].name@ == x);
        } else {
            assert(d1.files@[i] == e);
        }
    }
    if d0.has_file(x) {
        let i = choose|i: int| 0 <= i < d0.files@.len() && d0.files@[i].name@ == x;
        assert(d1.files@[i].name@ == x);
    }
    if e.name@ == x {
        assert(d1.files@[d0.files@.len() as int].name@ == x);
    }
}

/// Where a directory stands in the component tree.
#[derive(Clone, Copy, Debug, PartialEq, Eq, Structural)]
pub enum TreeClass {
    /// A component whose descriptor marks it as a project root.
    TopLevel,
    /// A component that sits inside another component's tree.
    Nested,
    /// Not a component at all.
    NotAComponent,
}

/// A directory is top-level exactly when its descriptor file is well formed
/// and states so.
pub open spec fn top_level_spec(d: &Dir) -> bool {
    d.has_file(".sr"@) && is_descriptor_text(d.file_content(".sr"@)) && descriptor_top_of(
        d.file_content(".sr"@),
    )
}

/// Classifies a directory: a component is `TopLevel` exactly when its
/// descriptor says so, and a directory is a component exactly when it holds
/// both a `components/` entry and a bill-of-materials file.
pub fn classify(d: &Dir) -> (r: TreeClass)
    requires
        d.wf(),
    ensures
        r is NotAComponent <==> !d.is_component_spec(),
        d.is_component_spec() ==> ((r is TopLevel) <==> top_level_spec(d)),
        d.is_component_spec() ==> ((r is Nested) <==> !top_level_spec(d)),
{
    if !d.is_component() {
        return TreeClass::NotAComponent;
    }
    match d.find_file(".sr") {
        Some(i) => {
            proof {
                lemma_file_index_unique(d, ".sr"@, i as int);
            }
            match parse_descriptor(d.files[i].content.as_str()) {
                Some(desc) => {
                    if desc.is_top_level {
                        TreeClass::TopLevel
                    } else {
                        TreeClass::Nested
                    }
                },
                None => TreeClass::Nested,
            }
        },
        None => TreeClass::Nested,
    }
}

/// Resolves a named subcomponent under `components/`: reports the indices of
/// the `components/` entry and of the child inside it, without creating
/// anything.
pub fn resolve_child(d: &Dir, name: &str) -> (r: Option<(usize, usize)>)
    requires
        d.wf(),
    ensures
        r is Some <==> (d.has_dir("components"@) && d.subdir("components"@).has_dir(name@)),
        match r {
            Some(p) => p.0 < d.dirs@.len() && d.dirs@[p.0 as int].name@ == "components"@
                && p.1 < d.dirs@[p.0 as int].dir.dirs@.len()
                && d.dirs@[p.0 as int].dir.dirs@[p.1 as int].name@ == name@,
            None => true,
        },
{
    match d.find_dir("components") {
        Some(ci) => {
            proof {
                lemma_dir_index_unique(d, "components"@, ci as int);
            }
            match d.dirs[ci].dir.find_dir(name) {
                Some(ni) => Some((ci, ni)),
                None => None,
            }
        },
        None => None,
    }
}

} // verus!
