//! Tests of the tree model, the scaffolding engine and the lifecycle
//! operations over the in-memory directory model.

use sliderule::licenses::LicensePair;
use sliderule::metadata::extract_manifest_license;
use sliderule::model::{classify, Dir, FileEntry, TreeClass};
use sliderule::ops::{change_licenses, create_component, get_licenses, list_licenses, remove_component};
use sliderule::scaffold::scaffold;

fn file_content(d: &Dir, name: &str) -> String {
    let i = d.find_file(name).expect("file missing");
    d.files[i].content.clone()
}

fn subdir<'a>(d: &'a Dir, name: &str) -> &'a Dir {
    let i = d.find_dir(name).expect("directory missing");
    &d.dirs[i].dir
}

fn has_dir(d: &Dir, name: &str) -> bool {
    d.find_dir(name).is_some()
}

fn has_file(d: &Dir, name: &str) -> bool {
    d.find_file(name).is_some()
}

/// Creates the project of the end-to-end scenario: `widget` with source
/// license MIT and documentation license CC-BY-4.0, holding subcomponent
/// `gizmo` created with no explicit licenses.
fn widget_with_gizmo() -> Dir {
    let cwd = Dir::new_empty();
    let r = create_component(cwd, &vec![], "widget", "MIT", "CC-BY-4.0");
    assert_eq!(r.output.status, 0);
    let mut root = r.dir;
    let wi = root.find_dir("widget").expect("widget exists");
    let widget = root.dirs.remove(wi).dir;
    let r2 = create_component(widget, &vec![], "gizmo", "", "");
    assert_eq!(r2.output.status, 0);
    r2.dir
}

#[test]
fn scaffold_creates_the_canonical_layout() {
    let (d, out) = scaffold(Dir::new_empty(), "test_top", "TestSourceLicense", "TestDocLicense", "(TestSourceLicense AND TestDocLicense)", true);
    assert_eq!(out.status, 0);
    for dir in ["components", "dist", "docs", "source"] {
        assert!(has_dir(&d, dir), "missing directory {dir}");
    }
    for file in ["README.md", "bom_data.yaml", "package.json", ".sr"] {
        assert!(has_file(&d, file), "missing file {file}");
    }
    let sr = file_content(&d, ".sr");
    let lines: Vec<&str> = sr.lines().collect();
    assert_eq!(lines[0], "source_license: TestSourceLicense,");
    assert_eq!(lines[1], "documentation_license: TestDocLicense");
}

#[test]
fn scaffold_twice_changes_nothing_and_reports_skips() {
    let (d1, _) = scaffold(Dir::new_empty(), "widget", "MIT", "CC-BY-4.0", "(MIT AND CC-BY-4.0)", true);
    let before: Vec<(String, String)> = d1
        .files
        .iter()
        .map(|f| (f.name.clone(), f.content.clone()))
        .collect();
    let (d2, out2) = scaffold(d1, "widget", "MIT", "CC-BY-4.0", "(MIT AND CC-BY-4.0)", true);
    assert_eq!(out2.status, 0);
    let after: Vec<(String, String)> = d2
        .files
        .iter()
        .map(|f| (f.name.clone(), f.content.clone()))
        .collect();
    assert_eq!(before, after, "no file may change on the second run");
    assert_eq!(out2.stdout.len(), 8);
    for line in &out2.stdout {
        assert!(line.contains("already exists, skipping."), "unexpected note: {line}");
    }
}

#[test]
fn scaffold_fills_gaps_without_overwriting() {
    let mut d = Dir::new_empty();
    d.files.push(FileEntry {
        name: String::from("README.md"),
        content: String::from("hand-written readme"),
    });
    let (d2, out) = scaffold(d, "widget", "MIT", "CC-BY-4.0", "(MIT AND CC-BY-4.0)", true);
    assert_eq!(out.status, 0);
    assert_eq!(file_content(&d2, "README.md"), "hand-written readme");
    assert!(has_file(&d2, ".sr"));
    assert!(has_dir(&d2, "components"));
}

#[test]
fn scaffold_refuses_a_collision() {
    let mut d = Dir::new_empty();
    d.files.push(FileEntry {
        name: String::from("components"),
        content: String::from("a file where a directory belongs"),
    });
    let files_before = d.files.len();
    let (d2, out) = scaffold(d, "widget", "MIT", "CC-BY-4.0", "(MIT AND CC-BY-4.0)", true);
    assert_ne!(out.status, 0);
    assert_eq!(d2.files.len(), files_before);
    assert!(d2.dirs.is_empty());
}

#[test]
fn classification_of_the_tree() {
    // an arbitrary empty directory is not a component
    let empty = Dir::new_empty();
    assert_eq!(classify(&empty), TreeClass::NotAComponent);

    // a freshly created top-level component classifies as top level
    let (top, _) = scaffold(Dir::new_empty(), "widget", "MIT", "CC-BY-4.0", "(MIT AND CC-BY-4.0)", true);
    assert_eq!(classify(&top), TreeClass::TopLevel);

    // a directory under its components/ subtree classifies as nested
    let tree = widget_with_gizmo();
    let gizmo = subdir(subdir(&tree, "components"), "gizmo");
    assert_eq!(classify(gizmo), TreeClass::Nested);
}

#[test]
fn create_top_level_component_structure() {
    let r = create_component(Dir::new_empty(), &vec![], "widget", "MIT", "CC-BY-4.0");
    assert_eq!(r.output.status, 0);
    let widget = subdir(&r.dir, "widget");
    for dir in ["components", "dist", "docs", "source"] {
        assert!(has_dir(widget, dir), "missing directory {dir}");
    }
    for file in ["README.md", "bom_data.yaml", "package.json", ".sr"] {
        assert!(has_file(widget, file), "missing file {file}");
    }
    let manifest = file_content(widget, "package.json");
    assert_eq!(
        extract_manifest_license(&manifest).expect("license field"),
        "(MIT AND CC-BY-4.0)"
    );
    // a fresh top-level component gets version control planned for it
    assert_eq!(r.plan.len(), 1);
}

#[test]
fn create_child_inherits_the_effective_license() {
    let tree = widget_with_gizmo();
    let gizmo = subdir(subdir(&tree, "components"), "gizmo");
    let manifest = file_content(gizmo, "package.json");
    assert_eq!(
        extract_manifest_license(&manifest).expect("license field"),
        "(MIT AND CC-BY-4.0)"
    );
    let sr = file_content(gizmo, ".sr");
    let lines: Vec<&str> = sr.lines().collect();
    assert_eq!(lines[0], "source_license: MIT,");
    assert_eq!(lines[1], "documentation_license: CC-BY-4.0");
    assert_eq!(lines[2], "is_top_level: false");
}

#[test]
fn create_grandchild_extends_the_chain() {
    let mut tree = widget_with_gizmo();
    let ci = tree.find_dir("components").unwrap();
    let gi = tree.dirs[ci].dir.find_dir("gizmo").unwrap();
    let gizmo = tree.dirs[ci].dir.dirs.remove(gi).dir;
    // gizmo's ancestors: the widget project root
    let ancestors = vec![LicensePair {
        source: String::from("MIT"),
        documentation: String::from("CC-BY-4.0"),
    }];
    let r = create_component(gizmo, &ancestors, "cog", "C", "D");
    assert_eq!(r.output.status, 0);
    let cog = subdir(subdir(&r.dir, "components"), "cog");
    let manifest = file_content(cog, "package.json");
    assert_eq!(
        extract_manifest_license(&manifest).expect("license field"),
        "(MIT AND CC-BY-4.0 AND C AND D)"
    );
}

#[test]
fn create_twice_is_idempotent() {
    let r1 = create_component(Dir::new_empty(), &vec![], "widget", "MIT", "CC-BY-4.0");
    let r2 = create_component(r1.dir, &vec![], "widget", "MIT", "CC-BY-4.0");
    assert_eq!(r2.output.status, 0);
    let widget = subdir(&r2.dir, "widget");
    assert!(has_file(widget, ".sr"));
    for line in &r2.output.stdout {
        assert!(line.contains("already exists, skipping."), "unexpected note: {line}");
    }
}

#[test]
fn create_refuses_a_name_taken_by_a_file() {
    let mut cwd = Dir::new_empty();
    cwd.files.push(FileEntry {
        name: String::from("widget"),
        content: String::from("already a file"),
    });
    let r = create_component(cwd, &vec![], "widget", "MIT", "CC-BY-4.0");
    assert_eq!(r.output.status, 1, "a path collision is a filesystem error");
    assert!(r.plan.is_empty());
    assert_eq!(r.dir.files.len(), 1);
    assert!(r.dir.dirs.is_empty());
}

#[test]
fn create_inside_component_without_descriptor_fails() {
    let r = create_component(Dir::new_empty(), &vec![], "widget", "MIT", "CC-BY-4.0");
    let mut root = r.dir;
    let wi = root.find_dir("widget").unwrap();
    let mut widget = root.dirs.remove(wi).dir;
    let si = widget.find_file(".sr").unwrap();
    widget.files.remove(si);
    let r2 = create_component(widget, &vec![], "gizmo", "", "");
    assert_eq!(r2.output.status, 1, "a partial tree is surfaced as an error");
}

#[test]
fn default_licenses_come_from_the_descriptor_or_the_globals() {
    let empty = Dir::new_empty();
    let defaults = get_licenses(&empty);
    assert_eq!(defaults.source, "Unlicense");
    assert_eq!(defaults.documentation, "CC-BY-4.0");

    let tree = widget_with_gizmo();
    let own = get_licenses(&tree);
    assert_eq!(own.source, "MIT");
    assert_eq!(own.documentation, "CC-BY-4.0");
}

#[test]
fn create_requires_a_name() {
    let r = create_component(Dir::new_empty(), &vec![], "", "", "");
    assert_eq!(r.output.status, 3);
    assert!(r.plan.is_empty());
}

#[test]
fn remove_local_component_leaves_siblings() {
    let tree = widget_with_gizmo();
    let tree = {
        let r = create_component(tree, &vec![], "doodad", "", "");
        assert_eq!(r.output.status, 0);
        r.dir
    };
    let r = remove_component(tree, "gizmo");
    assert_eq!(r.output.status, 0);
    assert!(r.output.stderr.is_empty(), "a local removal reports no error");
    assert!(r.plan.is_empty(), "a local removal needs no external tool");
    let comp = subdir(&r.dir, "components");
    assert!(comp.find_dir("gizmo").is_none(), "gizmo must be gone");
    assert!(comp.find_dir("doodad").is_some(), "doodad must survive");
}

#[test]
fn remove_unknown_name_delegates_to_the_dependency_manager() {
    let tree = widget_with_gizmo();
    let dirs_before = tree.dirs.len();
    let r = remove_component(tree, "not_here");
    assert_eq!(r.output.status, 0);
    assert!(r.output.stderr.is_empty());
    assert_eq!(r.dir.dirs.len(), dirs_before, "the tree is untouched");
    assert_eq!(r.plan.len(), 1, "uninstall is delegated");
}

#[test]
fn relicense_updates_only_this_component() {
    let tree = widget_with_gizmo();
    let (tree2, out) = change_licenses(tree, &vec![], "Apache-2.0", "CC0-1.0");
    assert_eq!(out.status, 0);
    assert!(out.stderr.is_empty(), "a successful relicense reports no error");
    let manifest = file_content(&tree2, "package.json");
    assert_eq!(
        extract_manifest_license(&manifest).expect("license field"),
        "(Apache-2.0 AND CC0-1.0)"
    );
    let sr = file_content(&tree2, ".sr");
    let lines: Vec<&str> = sr.lines().collect();
    assert_eq!(lines[0], "source_license: Apache-2.0,");
    assert_eq!(lines[1], "documentation_license: CC0-1.0");
    // the subcomponent's stored manifest still reflects the old value:
    // propagation is lazy, ancestors are read at component read time
    let gizmo = subdir(subdir(&tree2, "components"), "gizmo");
    let gm = file_content(gizmo, "package.json");
    assert_eq!(
        extract_manifest_license(&gm).expect("license field"),
        "(MIT AND CC-BY-4.0)"
    );
}

#[test]
fn relicense_fails_on_a_directory_without_metadata() {
    let empty = Dir::new_empty();
    let (d, out) = change_licenses(empty, &vec![], "MIT", "CC0-1.0");
    assert_ne!(out.status, 0);
    assert!(d.files.is_empty() && d.dirs.is_empty());
}

#[test]
fn relicense_rejects_licenses_with_line_breaks() {
    let tree = widget_with_gizmo();
    let (_, out) = change_licenses(tree, &vec![], "MIT\nevil", "CC0-1.0");
    assert_eq!(out.status, 3);
}

#[test]
fn list_licenses_reports_the_current_component() {
    let (top, _) = scaffold(
        Dir::new_empty(),
        "toplevel",
        "NotASourceLicense",
        "NotADocLicense",
        "(NotASourceLicense AND NotADocLicense)",
        true,
    );
    let listing = list_licenses(&top);
    assert!(listing.contains("Licenses Specified In This Component:"));
    assert!(listing.contains(
        "Source License: NotASourceLicense, Documentation License: NotADocLicense"
    ));
    assert!(listing.contains("Manifest License: (NotASourceLicense AND NotADocLicense)"));
}
