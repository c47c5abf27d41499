//! Scaffolding engine: creates the canonical directory layout and the
//! initial metadata and documentation files of a component.
//!
//! Every step is guarded: a directory or file that already exists is left
//! untouched and reported as skipped, never overwritten.  Re-running the
//! scaffolding on a partially populated directory therefore only fills the
//! gaps, and running it twice is the same as running it once.

use vstd::prelude::*;
use crate::metadata::{bom_text, descriptor_text, manifest_text, readme_text};
use crate::model::{
    Dir,
    DirEntry,
    FileEntry,
    lemma_dir_index_unique,
    lemma_file_index_unique,
    lemma_push_dir_entry,
    lemma_push_file_entry,
};
use crate::outcome::{SROutput, STATUS_FILESYSTEM};

verus! {

/// Note reported when a standard directory already exists.
pub open spec fn dir_skip_note(name: Seq<char>) -> Seq<char> {
    "Directory "@ + name + " already exists, skipping."@
}

/// Note reported when a standard directory was created.
pub open spec fn dir_made_note(name: Seq<char>) -> Seq<char> {
    "Created directory "@ + name + "."@
}

/// Note reported when a metadata file already exists.
pub open spec fn file_skip_note(name: Seq<char>) -> Seq<char> {
    "File "@ + name + " already exists, skipping."@
}

/// Note reported when a metadata file was written.
pub open spec fn file_made_note(name: Seq<char>) -> Seq<char> {
    "Created file "@ + name + "."@
}

/// Builds `a + b + c` as one string.
fn join3(a: &str, b: &str, c: &str) -> (r: String)
    ensures
        r@ == a@ + b@ + c@,
{
    let mut r = String::from_str(a);
    r.append(b);
    r.append(c);
    proof {
        assert(r@ =~= a@ + b@ + c@);
    }
    r
}

/// A name of one of the four standard subdirectories.
pub open spec fn is_standard_dir_name(x: Seq<char>) -> bool {
    x == "components"@ || x == "dist"@ || x == "docs"@ || x == "source"@
}

/// A name of one of the four generated metadata files.
pub open spec fn is_standard_file_name(x: Seq<char>) -> bool {
    x == "README.md"@ || x == "bom_data.yaml"@ || x == "package.json"@ || x == ".sr"@
}

/// The eight standard names are pairwise distinct, and no directory name is
/// a file name.
pub proof fn lemma_standard_names_distinct()
    ensures
        forall|x: Seq<char>| is_standard_dir_name(x) ==> !is_standard_file_name(x),
        "components"@ != "dist"@ && "components"@ != "docs"@ && "components"@ != "source"@,
        "dist"@ != "docs"@ && "dist"@ != "source"@ && "docs"@ != "source"@,
        "README.md"@ != "bom_data.yaml"@ && "README.md"@ != "package.json"@ && "README.md"@
            != ".sr"@,
        "bom_data.yaml"@ != "package.json"@ && "bom_data.yaml"@ != ".sr"@ && "package.json"@
            != ".sr"@,
        "components"@ != "README.md"@ && "components"@ != "bom_data.yaml"@ && "components"@
            != "package.json"@ && "components"@ != ".sr"@,
        "dist"@ != "README.md"@ && "dist"@ != "bom_data.yaml"@ && "dist"@ != "package.json"@
            && "dist"@ != ".sr"@,
        "docs"@ != "README.md"@ && "docs"@ != "bom_data.yaml"@ && "docs"@ != "package.json"@
            && "docs"@ != ".sr"@,
        "source"@ != "README.md"@ && "source"@ != "bom_data.yaml"@ && "source"@
            != "package.json"@ && "source"@ != ".sr"@,
{
    reveal_strlit("components");
    reveal_strlit("dist");
    reveal_strlit("docs");
    reveal_strlit("source");
    reveal_strlit("README.md");
    reveal_strlit("bom_data.yaml");
    reveal_strlit("package.json");
    reveal_strlit(".sr");
    assert("components"@.len() == 10);
    assert("dist"@.len() == 4);
    assert("docs"@.len() == 4);
    assert("source"@.len() == 6);
    assert("README.md"@.len() == 9);
    assert("bom_data.yaml"@.len() == 13);
    assert("package.json"@.len() == 12);
    assert(".sr"@.len() == 3);
    assert("dist"@[1] != "docs"@[1]);
}

/// A target of the scaffolding already exists under the wrong kind: a file
/// where a standard directory belongs, or a directory where a metadata file
/// belongs.  Scaffolding refuses to touch such a tree.
pub open spec fn scaffold_collision(d: Dir) -> bool {
    ||| d.has_file("components"@)
    ||| d.has_file("dist"@)
    ||| d.has_file("docs"@)
    ||| d.has_file("source"@)
    ||| d.has_dir("README.md"@)
    ||| d.has_dir("bom_data.yaml"@)
    ||| d.has_dir("package.json"@)
    ||| d.has_dir(".sr"@)
}

/// A component directory with its full canonical layout: the four standard
/// subdirectories and the four metadata files all present.
pub open spec fn component_complete(d: Dir) -> bool {
    &&& d.has_dir("components"@)
    &&& d.has_dir("dist"@)
    &&& d.has_dir("docs"@)
    &&& d.has_dir("source"@)
    &&& d.has_file("README.md"@)
    &&& d.has_file("bom_data.yaml"@)
    &&& d.has_file("package.json"@)
    &&& d.has_file(".sr"@)
}

/// How many of the four metadata files are missing.
pub open spec fn missing_file_count(d: Dir) -> int {
    (if d.has_file("README.md"@) {
        0int
    } else {
        1int
    }) + (if d.has_file("bom_data.yaml"@) {
        0int
    } else {
        1int
    }) + (if d.has_file("package.json"@) {
        0int
    } else {
        1int
    }) + (if d.has_file(".sr"@) {
        0int
    } else {
        1int
    })
}

/// How many of the four standard subdirectories are missing.
pub open spec fn missing_dir_count(d: Dir) -> int {
    (if d.has_dir("components"@) {
        0int
    } else {
        1int
    }) + (if d.has_dir("dist"@) {
        0int
    } else {
        1int
    }) + (if d.has_dir("docs"@) {
        0int
    } else {
        1int
    }) + (if d.has_dir("source"@) {
        0int
    } else {
        1int
    })
}

/// After scaffolding, the file of this name exists; a pre-existing file kept
/// its old text, a created one holds exactly the rendered text.
pub open spec fn file_outcome(old_d: Dir, new_d: Dir, fname: Seq<char>, text: Seq<char>) -> bool {
    &&& new_d.has_file(fname)
    &&& new_d.file_content(fname) == if old_d.has_file(fname) {
        old_d.file_content(fname)
    } else {
        text
    }
}

/// After scaffolding, the subdirectory of this name exists; a pre-existing
/// one is untouched, a created one is empty.
pub open spec fn dir_outcome(old_d: Dir, new_d: Dir, dname: Seq<char>) -> bool {
    &&& new_d.has_dir(dname)
    &&& if old_d.has_dir(dname) {
        new_d.subdir(dname) == old_d.subdir(dname)
    } else {
        new_d.subdir(dname).files@.len() == 0 && new_d.subdir(dname).dirs@.len() == 0
    }
}

/// The full contract of the scaffolding engine.
pub open spec fn scaffold_post(
    old_d: Dir,
    new_d: Dir,
    out: SROutput,
    name: Seq<char>,
    src: Seq<char>,
    doc: Seq<char>,
    eff: Seq<char>,
    top: bool,
) -> bool {
    if scaffold_collision(old_d) {
        &&& new_d == old_d
        &&& out.status == STATUS_FILESYSTEM
        &&& out.stdout@.len() == 0
        &&& out.stderr@.len() == 1
    } else {
        &&& new_d.wf()
        &&& component_complete(new_d)
        // nothing is overwritten: every pre-existing entry is untouched,
        // at its old position
        &&& new_d.files@.len() == old_d.files@.len() + missing_file_count(old_d)
        &&& new_d.dirs@.len() == old_d.dirs@.len() + missing_dir_count(old_d)
        &&& (forall|i: int| 0 <= i < old_d.files@.len() ==> new_d.files@[i] == old_d.files@[i])
        &&& (forall|i: int| 0 <= i < old_d.dirs@.len() ==> new_d.dirs@[i] == old_d.dirs@[i])
        // everything added is one of the standard entries
        &&& (forall|j: int|
            old_d.files@.len() <= j < new_d.files@.len() ==> is_standard_file_name(
                new_d.files@[j].name@,
            ))
        &&& (forall|j: int|
            old_d.dirs@.len() <= j < new_d.dirs@.len() ==> is_standard_dir_name(
                new_d.dirs@[j].name@,
            ))
        // the four standard directories and four metadata files
        &&& dir_outcome(old_d, new_d, "components"@)
        &&& dir_outcome(old_d, new_d, "dist"@)
        &&& dir_outcome(old_d, new_d, "docs"@)
        &&& dir_outcome(old_d, new_d, "source"@)
        &&& file_outcome(old_d, new_d, "README.md"@, readme_text(name))
        &&& file_outcome(old_d, new_d, "bom_data.yaml"@, bom_text(name))
        &&& file_outcome(old_d, new_d, "package.json"@, manifest_text(name, eff))
        &&& file_outcome(old_d, new_d, ".sr"@, descriptor_text(src, doc, top))
        // one note per target, in canonical order
        &&& out.status == 0
        &&& out.stderr@.len() == 0
        &&& out.stdout@.len() == 8
        &&& out.stdout@[0]@ == if old_d.has_dir("components"@) {
            dir_skip_note("components"@)
        } else {
            dir_made_note("components"@)
        }
        &&& out.stdout@[1]@ == if old_d.has_dir("dist"@) {
            dir_skip_note("dist"@)
        } else {
            dir_made_note("dist"@)
        }
        &&& out.stdout@[2]@ == if old_d.has_dir("docs"@) {
            dir_skip_note("docs"@)
        } else {
            dir_made_note("docs"@)
        }
        &&& out.stdout@[3]@ == if old_d.has_dir("source"@) {
            dir_skip_note("source"@)
        } else {
            dir_made_note("source"@)
        }
        &&& out.stdout@[4]@ == if old_d.has_file("README.md"@) {
            file_skip_note("README.md"@)
        } else {
            file_made_note("README.md"@)
        }
        &&& out.stdout@[5]@ == if old_d.has_file("bom_data.yaml"@) {
            file_skip_note("bom_data.yaml"@)
        } else {
            file_made_note("bom_data.yaml"@)
        }
        &&& out.stdout@[6]@ == if old_d.has_file("package.json"@) {
            file_skip_note("package.json"@)
        } else {
            file_made_note("package.json"@)
        }
        &&& out.stdout@[7]@ == if old_d.has_file(".sr"@) {
            file_skip_note(".sr"@)
        } else {
            file_made_note(".sr"@)
        }
    }
}

/// A component scaffolded into a previously empty directory: exactly the
/// four empty standard subdirectories and the four metadata files with their
/// rendered template texts.
pub open spec fn fresh_component(
    d: Dir,
    name: Seq<char>,
    src: Seq<char>,
    doc: Seq<char>,
    eff: Seq<char>,
    top: bool,
) -> bool {
    &&& d.wf()
    &&& component_complete(d)
    &&& d.files@.len() == 4
    &&& d.dirs@.len() == 4
    &&& d.subdir("components"@).files@.len() == 0 && d.subdir("components"@).dirs@.len() == 0
    &&& d.subdir("dist"@).files@.len() == 0 && d.subdir("dist"@).dirs@.len() == 0
    &&& d.subdir("docs"@).files@.len() == 0 && d.subdir("docs"@).dirs@.len() == 0
    &&& d.subdir("source"@).files@.len() == 0 && d.subdir("source"@).dirs@.len() == 0
    &&& d.file_content("README.md"@) == readme_text(name)
    &&& d.file_content("bom_data.yaml"@) == bom_text(name)
    &&& d.file_content("package.json"@) == manifest_text(name, eff)
    &&& d.file_content(".sr"@) == descriptor_text(src, doc, top)
}

/// The notes of a scaffold run that created all eight standard entries.
pub open spec fn fresh_scaffold_notes(out: SROutput) -> bool {
    &&& out.status == 0
    &&& out.stderr@.len() == 0
    &&& out.stdout@.len() == 8
    &&& out.stdout@[0]@ == dir_made_note("components"@)
    &&& out.stdout@[1]@ == dir_made_note("dist"@)
    &&& out.stdout@[2]@ == dir_made_note("docs"@)
    &&& out.stdout@[3]@ == dir_made_note("source"@)
    &&& out.stdout@[4]@ == file_made_note("README.md"@)
    &&& out.stdout@[5]@ == file_made_note("bom_data.yaml"@)
    &&& out.stdout@[6]@ == file_made_note("package.json"@)
    &&& out.stdout@[7]@ == file_made_note(".sr"@)
}

/// A fresh component holds exactly the four metadata files and the four
/// standard subdirectories, so no standard name sits under the wrong kind:
/// scaffolding it again finds nothing in the way.
pub proof fn lemma_fresh_component_stable(
    d: Dir,
    name: Seq<char>,
    src: Seq<char>,
    doc: Seq<char>,
    eff: Seq<char>,
    top: bool,
)
    requires
        fresh_component(d, name, src, doc, eff, top),
    ensures
        !scaffold_collision(d),
        component_complete(d),
{
    lemma_standard_names_distinct();
    let a = d.file_index("README.md"@);
    let b = d.file_index("bom_data.yaml"@);
    let c = d.file_index("package.json"@);
    let e = d.file_index(".sr"@);
    assert(0 <= a < 4 && d.files@[a].name@ == "README.md"@);
    assert(0 <= b < 4 && d.files@[b].name@ == "bom_data.yaml"@);
    assert(0 <= c < 4 && d.files@[c].name@ == "package.json"@);
    assert(0 <= e < 4 && d.files@[e].name@ == ".sr"@);
    assert forall|x: Seq<char>| d.has_file(x) implies is_standard_file_name(x) by {
        let i = choose|i: int| 0 <= i < d.files@.len() && d.files@[i].name@ == x;
        assert(i == a || i == b || i == c || i == e);
    }
    let w = d.dir_index("components"@);
    let x = d.dir_index("dist"@);
    let y = d.dir_index("docs"@);
    let z = d.dir_index("source"@);
    assert(0 <= w < 4 && d.dirs@[w].name@ == "components"@);
    assert(0 <= x < 4 && d.dirs@[x].name@ == "dist"@);
    assert(0 <= y < 4 && d.dirs@[y].name@ == "docs"@);
    assert(0 <= z < 4 && d.dirs@[z].name@ == "source"@);
    assert forall|n: Seq<char>| d.has_dir(n) implies is_standard_dir_name(n) by {
        let i = choose|i: int| 0 <= i < d.dirs@.len() && d.dirs@[i].name@ == n;
        assert(i == w || i == x || i == y || i == z);
    }
}

/// A freshly scaffolded component classifies by the flag its descriptor was
/// written with: it is a component, and the tree navigator sees it as
/// top-level exactly when it was created top-level — a fresh subcomponent
/// therefore classifies as nested.
pub proof fn lemma_fresh_component_classification(
    d: Dir,
    name: Seq<char>,
    src: Seq<char>,
    doc: Seq<char>,
    eff: Seq<char>,
    top: bool,
)
    requires
        fresh_component(d, name, src, doc, eff, top),
        crate::metadata::wf_descriptor_fields(src, doc),
    ensures
        d.is_component_spec(),
        crate::model::top_level_spec(&d) <==> top,
{
    crate::metadata::lemma_descriptor_text_parses(src, doc, top);
}

/// Scaffolding an empty directory yields exactly the fresh component layout.
pub proof fn lemma_scaffold_fresh(
    e: Dir,
    d: Dir,
    out: SROutput,
    name: Seq<char>,
    src: Seq<char>,
    doc: Seq<char>,
    eff: Seq<char>,
    top: bool,
)
    requires
        e.files@.len() == 0,
        e.dirs@.len() == 0,
        scaffold_post(e, d, out, name, src, doc, eff, top),
    ensures
        fresh_component(d, name, src, doc, eff, top),
        fresh_scaffold_notes(out),
{
    assert(!e.has_file("components"@));
    assert(!e.has_file("dist"@));
    assert(!e.has_file("docs"@));
    assert(!e.has_file("source"@));
    assert(!e.has_dir("README.md"@));
    assert(!e.has_dir("bom_data.yaml"@));
    assert(!e.has_dir("package.json"@));
    assert(!e.has_dir(".sr"@));
    assert(!e.has_file("README.md"@));
    assert(!e.has_file("bom_data.yaml"@));
    assert(!e.has_file("package.json"@));
    assert(!e.has_file(".sr"@));
    assert(!e.has_dir("components"@));
    assert(!e.has_dir("dist"@));
    assert(!e.has_dir("docs"@));
    assert(!e.has_dir("source"@));
    assert(!scaffold_collision(e));
    assert(missing_file_count(e) == 4);
    assert(missing_dir_count(e) == 4);
}

/// Ensures the subdirectory exists: creates it empty when absent, otherwise
/// leaves the tree untouched, and reports either way.
fn ensure_dir(d: &mut Dir, dname: &str, out: &mut SROutput)
    requires
        old(d).wf(),
        !old(d).has_file(dname@),
    ensures
        final(d).wf(),
        final(d).files@ == old(d).files@,
        final(d).has_dir(dname@),
        dir_outcome(*old(d), *final(d), dname@),
        old(d).has_dir(dname@) ==> final(d).dirs@ == old(d).dirs@,
        !old(d).has_dir(dname@) ==> final(d).dirs@.len() == old(d).dirs@.len() + 1
            && final(d).dirs@[old(d).dirs@.len() as int].name@ == dname@,
        forall|i: int| 0 <= i < old(d).dirs@.len() ==> final(d).dirs@[i] == old(d).dirs@[i],
        forall|x: Seq<char>| final(d).has_dir(x) <==> (old(d).has_dir(x) || x == dname@),
        final(out).status == old(out).status,
        final(out).stderr@ == old(out).stderr@,
        final(out).stdout@.len() == old(out).stdout@.len() + 1,
        forall|i: int| 0 <= i < old(out).stdout@.len() ==> final(out).stdout@[i]
            == old(out).stdout@[i],
        final(out).stdout@[old(out).stdout@.len() as int]@ == if old(d).has_dir(dname@) {
            dir_skip_note(dname@)
        } else {
            dir_made_note(dname@)
        },
{
    match d.find_dir(dname) {
        Some(i) => {
            proof {
                lemma_dir_index_unique(d, dname@, i as int);
                assert forall|x: Seq<char>| d.has_dir(x) <==> (d.has_dir(x) || x == dname@) by {
                    if x == dname@ {
                        assert(d.has_dir(x));
                    }
                }
            }
            out.log(join3("Directory ", dname, " already exists, skipping."));
        },
        None => {
            let ghost d0 = *d;
            let entry = DirEntry { name: String::from_str(dname), dir: Dir::new_empty() };
            let ghost e = entry;
            d.dirs.push(entry);
            proof {
                assert forall|x: Seq<char>| d.has_dir(x) <==> (d0.has_dir(x) || x == dname@) by {
                    lemma_push_dir_entry(d0, *d, e, x);
                }
                assert(d.has_dir(dname@));
                lemma_dir_index_unique(d, dname@, d0.dirs@.len() as int);
                assert(d.wf()) by {
                    assert(forall|i: int|
                        0 <= i < d0.dirs@.len() ==> d.dirs@[i] == d0.dirs@[i]);
                }
            }
            out.log(join3("Created directory ", dname, "."));
        },
    }
}

/// Ensures the file exists: writes the rendered text when absent, otherwise
/// leaves the pre-existing file untouched, and reports either way.
fn ensure_file(d: &mut Dir, fname: &str, text: String, out: &mut SROutput)
    requires
        old(d).wf(),
        !old(d).has_dir(fname@),
    ensures
        final(d).wf(),
        final(d).dirs@ == old(d).dirs@,
        final(d).has_file(fname@),
        file_outcome(*old(d), *final(d), fname@, text@),
        old(d).has_file(fname@) ==> final(d).files@ == old(d).files@,
        !old(d).has_file(fname@) ==> final(d).files@.len() == old(d).files@.len() + 1
            && final(d).files@[old(d).files@.len() as int].name@ == fname@,
        forall|i: int| 0 <= i < old(d).files@.len() ==> final(d).files@[i] == old(d).files@[i],
        forall|x: Seq<char>| final(d).has_file(x) <==> (old(d).has_file(x) || x == fname@),
        final(out).status == old(out).status,
        final(out).stderr@ == old(out).stderr@,
        final(out).stdout@.len() == old(out).stdout@.len() + 1,
        forall|i: int| 0 <= i < old(out).stdout@.len() ==> final(out).stdout@[i]
            == old(out).stdout@[i],
        final(out).stdout@[old(out).stdout@.len() as int]@ == if old(d).has_file(fname@) {
            file_skip_note(fname@)
        } else {
            file_made_note(fname@)
        },
{
    match d.find_file(fname) {
        Some(i) => {
            proof {
                lemma_file_index_unique(d, fname@, i as int);
                assert forall|x: Seq<char>| d.has_file(x) <==> (d.has_file(x) || x == fname@) by {
                    if x == fname@ {
                        assert(d.has_file(x));
                    }
                }
            }
            out.log(join3("File ", fname, " already exists, skipping."));
        },
        None => {
            let ghost d0 = *d;
            let entry = FileEntry { name: String::from_str(fname), content: text };
            let ghost e = entry;
            d.files.push(entry);
            proof {
                assert forall|x: Seq<char>| d.has_file(x) <==> (d0.has_file(x) || x == fname@) by {
                    lemma_push_file_entry(d0, *d, e, x);
                }
                assert(d.has_file(fname@));
                lemma_file_index_unique(d, fname@, d0.files@.len() as int);
                assert(d.wf()) by {
                    assert(forall|i: int|
                        0 <= i < d0.files@.len() ==> d.files@[i] == d0.files@[i]);
                }
            }
            out.log(join3("Created file ", fname, "."));
        },
    }
}

/// Scaffolds a component in `d`: ensures the four standard subdirectories
/// and writes the README, bill-of-materials, dependency manifest and
/// descriptor from their templates, with the component's `name`, declared
/// licenses and `effective` license string substituted.  Pre-existing
/// entries are reported and left untouched, so the operation is idempotent;
/// a tree where a standard name exists under the wrong kind is refused
/// unchanged.
#[verifier::rlimit(100)]
pub fn scaffold(
    d: Dir,
    name: &str,
    source_license: &str,
    documentation_license: &str,
    effective: &str,
    top_level: bool,
) -> (r: (Dir, SROutput))
    requires
        d.wf(),
    ensures
        scaffold_post(
            d,
            r.0,
            r.1,
            name@,
            source_license@,
            documentation_license@,
            effective@,
            top_level,
        ),
{
    let collision = d.find_file("components").is_some() || d.find_file("dist").is_some()
        || d.find_file("docs").is_some() || d.find_file("source").is_some() || d.find_dir(
        "README.md",
    ).is_some() || d.find_dir("bom_data.yaml").is_some() || d.find_dir("package.json").is_some()
        || d.find_dir(".sr").is_some();
    if collision {
        let out = SROutput::new_error(
            STATUS_FILESYSTEM,
            String::from_str(
                "A standard component entry already exists with the wrong kind; refusing to touch this directory.",
            ),
        );
        return (d, out);
    }
    proof {
        lemma_standard_names_distinct();
    }
    let mut out = SROutput::new_ok();
    let mut nd = d;
    ensure_dir(&mut nd, "components", &mut out);
    ensure_dir(&mut nd, "dist", &mut out);
    ensure_dir(&mut nd, "docs", &mut out);
    ensure_dir(&mut nd, "source", &mut out);
    ensure_file(&mut nd, "README.md", crate::metadata::render_readme(name), &mut out);
    ensure_file(&mut nd, "bom_data.yaml", crate::metadata::render_bom(name), &mut out);
    ensure_file(
        &mut nd,
        "package.json",
        crate::metadata::render_manifest(name, effective),
        &mut out,
    );
    let descriptor = crate::metadata::Descriptor {
        source_license: String::from_str(source_license),
        documentation_license: String::from_str(documentation_license),
        is_top_level: top_level,
    };
    ensure_file(&mut nd, ".sr", crate::metadata::render_descriptor(&descriptor), &mut out);
    (nd, out)
}

/// Scaffolding is idempotent: a second run on the result of a first run
/// leaves every file and directory exactly as it was and only reports
/// "already exists" skips.
pub proof fn lemma_scaffold_idempotent(
    d0: Dir,
    d1: Dir,
    out1: SROutput,
    d2: Dir,
    out2: SROutput,
    name: Seq<char>,
    src: Seq<char>,
    doc: Seq<char>,
    eff: Seq<char>,
    top: bool,
)
    requires
        !scaffold_collision(d0),
        scaffold_post(d0, d1, out1, name, src, doc, eff, top),
        scaffold_post(d1, d2, out2, name, src, doc, eff, top),
    ensures
        d2.files@ == d1.files@,
        d2.dirs@ == d1.dirs@,
        out2.status == 0,
        out2.stdout@.len() == 8,
        out2.stdout@[0]@ == dir_skip_note("components"@),
        out2.stdout@[1]@ == dir_skip_note("dist"@),
        out2.stdout@[2]@ == dir_skip_note("docs"@),
        out2.stdout@[3]@ == dir_skip_note("source"@),
        out2.stdout@[4]@ == file_skip_note("README.md"@),
        out2.stdout@[5]@ == file_skip_note("bom_data.yaml"@),
        out2.stdout@[6]@ == file_skip_note("package.json"@),
        out2.stdout@[7]@ == file_skip_note(".sr"@),
{
    lemma_standard_names_distinct();
    assert(!scaffold_collision(d1)) by {
        if d1.has_file("components"@) {
            let i = choose|i: int|
                0 <= i < d1.files@.len() && d1.files@[i].name@ == "components"@;
            if i < d0.files@.len() {
                assert(d0.files@[i].name@ == "components"@);
            } else {
                assert(is_standard_file_name(d1.files@[i].name@));
            }
        }
        if d1.has_file("dist"@) {
            let i = choose|i: int| 0 <= i < d1.files@.len() && d1.files@[i].name@ == "dist"@;
            if i < d0.files@.len() {
                assert(d0.files@[i].name@ == "dist"@);
            } else {
                assert(is_standard_file_name(d1.files@[i].name@));
            }
        }
        if d1.has_file("docs"@) {
            let i = choose|i: int| 0 <= i < d1.files@.len() && d1.files@[i].name@ == "docs"@;
            if i < d0.files@.len() {
                assert(d0.files@[i].name@ == "docs"@);
            } else {
                assert(is_standard_file_name(d1.files@[i].name@));
            }
        }
        if d1.has_file("source"@) {
            let i = choose|i: int| 0 <= i < d1.files@.len() && d1.files@[i].name@ == "source"@;
            if i < d0.files@.len() {
                assert(d0.files@[i].name@ == "source"@);
            } else {
                assert(is_standard_file_name(d1.files@[i].name@));
            }
        }
        if d1.has_dir("README.md"@) {
            let i = choose|i: int| 0 <= i < d1.dirs@.len() && d1.dirs@[i].name@ == "README.md"@;
            if i < d0.dirs@.len() {
                assert(d0.dirs@[i].name@ == "README.md"@);
            } else {
                assert(is_standard_dir_name(d1.dirs@[i].name@));
            }
        }
        if d1.has_dir("bom_data.yaml"@) {
            let i = choose|i: int|
                0 <= i < d1.dirs@.len() && d1.dirs@[i].name@ == "bom_data.yaml"@;
            if i < d0.dirs@.len() {
                assert(d0.dirs@[i].name@ == "bom_data.yaml"@);
            } else {
                assert(is_standard_dir_name(d1.dirs@[i].name@));
            }
        }
        if d1.has_dir("package.json"@) {
            let i = choose|i: int|
                0 <= i < d1.dirs@.len() && d1.dirs@[i].name@ == "package.json"@;
            if i < d0.dirs@.len() {
                assert(d0.dirs@[i].name@ == "package.json"@);
            } else {
                assert(is_standard_dir_name(d1.dirs@[i].name@));
            }
        }
        if d1.has_dir(".sr"@) {
            let i = choose|i: int| 0 <= i < d1.dirs@.len() && d1.dirs@[i].name@ == ".sr"@;
            if i < d0.dirs@.len() {
                assert(d0.dirs@[i].name@ == ".sr"@);
            } else {
                assert(is_standard_dir_name(d1.dirs@[i].name@));
            }
        }
    }
    assert(missing_file_count(d1) == 0);
    assert(missing_dir_count(d1) == 0);
    assert(d2.files@ =~= d1.files@);
    assert(d2.dirs@ =~= d1.dirs@);
}

} // verus!
