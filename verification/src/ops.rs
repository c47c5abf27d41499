//! Lifecycle operations: create, add, download, upload, remove, refactor and
//! the license commands, composed from the tree navigator, license resolver,
//! scaffolding engine and tool orchestrator.
//!
//! Each operation is pure: it takes the model of the directory it works in
//! (plus the license pairs of that directory's strict ancestors, root first,
//! where inheritance matters) and returns the new model, a structured
//! outcome, and the external tool requests the front end must run.

use vstd::prelude::*;
use crate::licenses::{
    LicensePair,
    amalgamate_licenses,
    clone_pairs,
    effective_license,
    pairs_view,
    resolve_license_pair,
};
use crate::metadata::{
    Descriptor,
    descriptor_doc_of,
    descriptor_source_of,
    descriptor_text,
    descriptor_top_of,
    extract_manifest_license,
    is_descriptor_text,
    manifest_has_license,
    manifest_license_of,
    manifest_with_license,
    parse_descriptor,
    render_descriptor,
    update_manifest_license,
};
use crate::model::{
    Dir,
    DirEntry,
    FileEntry,
    lemma_dir_index_unique,
    lemma_file_index_unique,
    resolve_child,
};
use crate::scaffold::{
    fresh_component,
    fresh_scaffold_notes,
    lemma_scaffold_fresh,
    scaffold,
    scaffold_post,
};
use crate::outcome::{SROutput, STATUS_FILESYSTEM, STATUS_TOOL_FAILED, STATUS_USER_INPUT};
use crate::orchestrator::{Tool, ToolAction, ToolRequest, all_steps_ok, steps_ok};
use crate::text::{
    find_char_from,
    find_char_from_spec,
    lemma_find_char_from_spec,
    no_newline,
    no_quote,
    check_prefix_at,
    prefix_at,
    replace_first,
    replace_first_spec,
    substring_copy,
};

verus! {

/// The result of a lifecycle operation: the updated directory model, the
/// structured outcome, and the external tool requests still to run.
pub struct OpResult {
    pub dir: Dir,
    pub output: SROutput,
    pub plan: Vec<ToolRequest>,
}

/// Index of the last `/` in `s`, or `-1`.
pub open spec fn last_slash(s: Seq<char>) -> int
    decreases s.len(),
{
    if s.len() == 0 {
        -1
    } else if s[s.len() - 1] == '/' {
        s.len() - 1
    } else {
        last_slash(s.drop_last())
    }
}

/// What `last_slash` returns: the greatest index of `/`, or `-1`.
pub proof fn lemma_last_slash(s: Seq<char>)
    ensures
        ({
            let k = last_slash(s);
            &&& (k == -1 ==> forall|j: int| 0 <= j < s.len() ==> s[j] != '/')
            &&& (k != -1 ==> 0 <= k < s.len() && s[k] == '/' && (forall|j: int|
                k < j < s.len() ==> s[j] != '/'))
        }),
    decreases s.len(),
{
    if s.len() == 0 {
    } else if s[s.len() - 1] == '/' {
    } else {
        lemma_last_slash(s.drop_last());
        let k = last_slash(s);
        if k != -1 {
            assert(s.drop_last()[k] == s[k]);
            assert forall|j: int| k < j < s.len() implies s[j] != '/' by {
                if j < s.len() - 1 {
                    assert(s.drop_last()[j] == s[j]);
                }
            }
        } else {
            assert forall|j: int| 0 <= j < s.len() implies s[j] != '/' by {
                if j < s.len() - 1 {
                    assert(s.drop_last()[j] == s[j]);
                }
            }
        }
    }
}

/// The directory name a cloned repository gets: the last path segment of the
/// URL, stripped of a `.git` suffix.
pub open spec fn repo_name_spec(url: Seq<char>) -> Seq<char> {
    let base = url.subrange(last_slash(url) + 1, url.len() as int);
    if base.len() >= 4 && base.subrange(base.len() - 4, base.len() as int) == ".git"@ {
        base.subrange(0, base.len() - 4)
    } else {
        base
    }
}

/// Derives the local directory name from a component URL: the final path
/// segment, stripped of a `.git` suffix.
pub fn repo_name_from_url(url: &str) -> (r: String)
    ensures
        r@ == repo_name_spec(url@),
{
    let n = url.unicode_len();
    let mut j: usize = n;
    while j > 0
        invariant
            j <= n,
            n == url@.len(),
            forall|l: int| j <= l < n ==> url@[l] != '/',
        ensures
            j <= n,
            forall|l: int| j <= l < n ==> url@[l] != '/',
            j > 0 ==> url@[j - 1] == '/',
        decreases j,
    {
        if url.get_char(j - 1) == '/' {
            break;
        }
        j -= 1;
    }
    proof {
        lemma_last_slash(url@);
        let k = last_slash(url@);
        if j > 0 {
            assert(url@[j - 1] == '/');
            if k < j - 1 {
                assert(url@[j - 1] != '/');
            }
            if k > j - 1 {
                assert(url@[k] != '/');
            }
            assert(k == j - 1);
        } else {
            if k != -1 {
                assert(url@[k] != '/');
            }
        }
        assert(k + 1 == j);
    }
    let base = substring_copy(url, j, n);
    let bn = base.as_str().unicode_len();
    if bn >= 4 && check_prefix_at(base.as_str(), bn - 4, ".git") {
        proof {
            reveal_strlit(".git");
            assert(base@.subrange(bn - 4, bn as int) =~= base@.subrange(bn - 4, bn - 4
                + ".git"@.len() as int));
        }
        let r = substring_copy(base.as_str(), 0, bn - 4);
        proof {
            assert(r@ =~= repo_name_spec(url@));
        }
        r
    } else {
        proof {
            if base@.len() >= 4 && base@.subrange(base@.len() - 4, base@.len() as int)
                == ".git"@ {
                reveal_strlit(".git");
                assert(prefix_at(base@, bn - 4, ".git"@));
            }
            assert(base@ =~= repo_name_spec(url@));
        }
        base
    }
}

/// Builds one tool request.
fn make_request(tool: Tool, action: ToolAction, arg: Option<String>, subdir: Option<String>) -> (r:
    ToolRequest)
    ensures
        r.tool == tool,
        r.action == action,
        r.arg == arg,
        r.subdir == subdir,
{
    ToolRequest { tool, action, arg, subdir }
}

/// The result of an operation that only plans tool runs and does not touch
/// the tree.
pub struct OpResult2 {
    pub output: SROutput,
    pub plan: Vec<ToolRequest>,
}

/// Adds a remote component: the dependency manager installs the URL and
/// records it in the manifest.  No scaffolding happens, the installed
/// component already carries its own metadata.
pub fn add_remote_component(url: &str) -> (r: OpResult2)
    ensures
        r.output.status == 0,
        r.output.stderr@.len() == 0,
        r.output.stdout@.len() == 1,
        r.output.stdout@[0]@
            == "Component add planned: the dependency manager will install it."@,
        r.plan@.len() == 1,
        r.plan@[0].tool is DependencyManager,
        r.plan@[0].action is InstallSave,
        r.plan@[0].arg is Some && r.plan@[0].arg->0@ == url@,
        r.plan@[0].subdir is None,
{
    let mut plan: Vec<ToolRequest> = Vec::new();
    plan.push(
        make_request(
            Tool::DependencyManager,
            ToolAction::InstallSave,
            Some(String::from_str(url)),
            None,
        ),
    );
    let mut output = SROutput::new_ok();
    output.log(String::from_str("Component add planned: the dependency manager will install it."));
    OpResult2 { output, plan }
}

/// What the download operation decided.
pub struct DownloadResult {
    /// The local directory the clone will appear in, for a URL download.
    pub target: Option<String>,
    pub output: SROutput,
    pub plan: Vec<ToolRequest>,
}

/// Downloads a component or refreshes the tree: a URL is cloned recursively
/// into a directory named from its last path segment; `all` pulls the
/// current repository and then updates the dependencies; `dependencies`
/// updates the dependencies only; anything else is rejected.
pub fn download_component(subcommand: &str) -> (r: DownloadResult)
    ensures
        find_char_from_spec(subcommand@, '/', 0) != -1 ==> {
            &&& r.output.status == 0
            &&& r.output.stderr@.len() == 0
            &&& r.output.stdout@.len() == 1
            &&& r.output.stdout@[0]@
                == "Unless you have write access to the downloaded repository, this copy will be read-only."@
            &&& r.plan@.len() == 1
            &&& r.plan@[0].tool is VersionControl
            &&& r.plan@[0].action is CloneRecursive
            &&& r.plan@[0].arg is Some && r.plan@[0].arg->0@ == subcommand@
            &&& r.target is Some && r.target->0@ == repo_name_spec(subcommand@)
        },
        find_char_from_spec(subcommand@, '/', 0) == -1 && subcommand@ == "all"@ ==> {
            &&& r.output.status == 0
            &&& r.output.stderr@.len() == 0 && r.output.stdout@.len() == 0
            &&& r.plan@.len() == 2
            &&& r.plan@[0].tool is VersionControl && r.plan@[0].action is Pull
            &&& r.plan@[1].tool is DependencyManager && r.plan@[1].action is Update
            &&& r.target is None
        },
        find_char_from_spec(subcommand@, '/', 0) == -1 && subcommand@ == "dependencies"@ ==> {
            &&& r.output.status == 0
            &&& r.output.stderr@.len() == 0 && r.output.stdout@.len() == 0
            &&& r.plan@.len() == 1
            &&& r.plan@[0].tool is DependencyManager && r.plan@[0].action is Update
            &&& r.target is None
        },
        find_char_from_spec(subcommand@, '/', 0) == -1 && subcommand@ != "all"@ && subcommand@
            != "dependencies"@ ==> {
            &&& r.output.status == STATUS_USER_INPUT
            &&& r.output.stdout@.len() == 0
            &&& r.output.stderr@.len() == 1
            &&& r.output.stderr@[0]@ == "ERROR: Subcommand of download not recognized."@
            &&& r.plan@.len() == 0
            &&& r.target is None
        },
{
    let mut plan: Vec<ToolRequest> = Vec::new();
    match find_char_from(subcommand, '/', 0) {
        Some(_) => {
            let name = repo_name_from_url(subcommand);
            plan.push(
                make_request(
                    Tool::VersionControl,
                    ToolAction::CloneRecursive,
                    Some(String::from_str(subcommand)),
                    None,
                ),
            );
            let mut output = SROutput::new_ok();
            output.log(
                String::from_str(
                    "Unless you have write access to the downloaded repository, this copy will be read-only.",
                ),
            );
            DownloadResult { target: Some(name), output, plan }
        },
        None => {
            proof {
                reveal_strlit("all");
                reveal_strlit("dependencies");
                assert("all"@.len() == 3);
                assert("dependencies"@.len() == 12);
            }
            let key = String::from_str(subcommand);
            if key == String::from_str("all") {
                plan.push(make_request(Tool::VersionControl, ToolAction::Pull, None, None));
                plan.push(make_request(Tool::DependencyManager, ToolAction::Update, None, None));
                DownloadResult { target: None, output: SROutput::new_ok(), plan }
            } else if key == String::from_str("dependencies") {
                plan.push(make_request(Tool::DependencyManager, ToolAction::Update, None, None));
                DownloadResult { target: None, output: SROutput::new_ok(), plan }
            } else {
                let output = SROutput::new_error(
                    STATUS_USER_INPUT,
                    String::from_str("ERROR: Subcommand of download not recognized."),
                );
                DownloadResult { target: None, output, plan }
            }
        },
    }
}

/// Uploads the tree: initializes version control toward the given remote
/// when the tree is not under version control yet, then stages, commits with
/// the message, and pushes.  The front end runs the steps in order and halts
/// at the first failure.
pub fn upload_plan(has_repository: bool, url: &str, message: &str) -> (plan: Vec<ToolRequest>)
    ensures
        has_repository ==> plan@.len() == 3,
        !has_repository ==> plan@.len() == 5 && plan@[0].tool is VersionControl
            && plan@[0].action is Init && plan@[0].arg is None && plan@[1].tool
            is VersionControl && plan@[1].action is SetRemote && plan@[1].arg is Some
            && plan@[1].arg->0@ == url@,
        ({
            let k = plan@.len() as int;
            &&& plan@[k - 3].tool is VersionControl && plan@[k - 3].action is StageAll
            &&& plan@[k - 2].tool is VersionControl && plan@[k - 2].action is Commit && plan@[k
                - 2].arg is Some && plan@[k - 2].arg->0@ == message@
            &&& plan@[k - 1].tool is VersionControl && plan@[k - 1].action is Push
        }),
        forall|i: int| 0 <= i < plan@.len() ==> plan@[i].subdir is None,
{
    let mut plan: Vec<ToolRequest> = Vec::new();
    if !has_repository {
        plan.push(make_request(Tool::VersionControl, ToolAction::Init, None, None));
        plan.push(
            make_request(
                Tool::VersionControl,
                ToolAction::SetRemote,
                Some(String::from_str(url)),
                None,
            ),
        );
    }
    plan.push(make_request(Tool::VersionControl, ToolAction::StageAll, None, None));
    plan.push(
        make_request(
            Tool::VersionControl,
            ToolAction::Commit,
            Some(String::from_str(message)),
            None,
        ),
    );
    plan.push(make_request(Tool::VersionControl, ToolAction::Push, None, None));
    plan
}

/// Points the tree's repository at a remote, for storing login information.
/// An empty URL is rejected: it would corrupt the repository configuration.
pub fn remote_login(url: &str) -> (r: OpResult2)
    ensures
        url@.len() == 0 ==> r.output.status == STATUS_USER_INPUT && r.output.stdout@.len() == 0
            && r.output.stderr@.len() == 1 && r.output.stderr@[0]@
            == "URL cannot be empty when logging into a repository."@ && r.plan@.len() == 0,
        url@.len() > 0 ==> r.output.status == 0 && r.output.stdout@.len() == 0
            && r.output.stderr@.len() == 0 && r.plan@.len() == 1 && r.plan@[0].tool
            is VersionControl && r.plan@[0].action is SetRemote && r.plan@[0].arg is Some
            && r.plan@[0].arg->0@ == url@,
{
    if url.unicode_len() == 0 {
        let output = SROutput::new_error(
            STATUS_USER_INPUT,
            String::from_str("URL cannot be empty when logging into a repository."),
        );
        return OpResult2 { output, plan: Vec::new() };
    }
    let mut plan: Vec<ToolRequest> = Vec::new();
    plan.push(
        make_request(
            Tool::VersionControl,
            ToolAction::SetRemote,
            Some(String::from_str(url)),
            None,
        ),
    );
    OpResult2 { output: SROutput::new_ok(), plan }
}

/// Plans a listing of the pending changes.
pub fn list_changes_plan() -> (plan: Vec<ToolRequest>)
    ensures
        plan@.len() == 1,
        plan@[0].tool is VersionControl,
        plan@[0].action is Status,
        plan@[0].arg is None,
        plan@[0].subdir is None,
{
    let mut plan: Vec<ToolRequest> = Vec::new();
    plan.push(make_request(Tool::VersionControl, ToolAction::Status, None, None));
    plan
}

/// Removes a component.  A name that exists under `components/` is a local
/// component: its subtree is deleted and every sibling is left untouched.
/// Any other name is delegated to the dependency manager's uninstall.
pub fn remove_component(cwd: Dir, name: &str) -> (r: OpResult)
    requires
        cwd.wf(),
        cwd.has_dir("components"@) ==> cwd.subdir("components"@).wf(),
    ensures
        (cwd.has_dir("components"@) && cwd.subdir("components"@).has_dir(name@)) ==> {
            let ci = cwd.dir_index("components"@);
            let comp = cwd.subdir("components"@);
            let ni = comp.dir_index(name@);
            &&& r.dir.files@ == cwd.files@
            &&& r.dir.dirs@.len() == cwd.dirs@.len()
            &&& (forall|j: int|
                0 <= j < cwd.dirs@.len() && j != ci ==> r.dir.dirs@[j] == cwd.dirs@[j])
            &&& r.dir.dirs@[ci].name == cwd.dirs@[ci].name
            &&& r.dir.dirs@[ci].dir.files@ == comp.files@
            &&& r.dir.dirs@[ci].dir.dirs@ == comp.dirs@.remove(ni)
            &&& r.output.status == 0
            &&& r.output.stderr@.len() == 0
            &&& r.output.stdout@.len() == 1
            &&& r.output.stdout@[0]@ == "Component removed from the local tree."@
            &&& r.plan@.len() == 0
        },
        !(cwd.has_dir("components"@) && cwd.subdir("components"@).has_dir(name@)) ==> {
            &&& r.dir.files@ == cwd.files@
            &&& r.dir.dirs@ == cwd.dirs@
            &&& r.output.status == 0
            &&& r.output.stderr@.len() == 0
            &&& r.output.stdout@.len() == 1
            &&& r.output.stdout@[0]@
                == "No local component of that name; the dependency manager will uninstall it."@
            &&& r.plan@.len() == 1
            &&& r.plan@[0].tool is DependencyManager
            &&& r.plan@[0].action is Uninstall
            &&& r.plan@[0].arg is Some && r.plan@[0].arg->0@ == name@
            &&& r.plan@[0].subdir is None
        },
{
    match resolve_child(&cwd, name) {
        Some((ci, ni)) => {
            proof {
                lemma_dir_index_unique(&cwd, "components"@, ci as int);
                lemma_dir_index_unique(&cwd.dirs@[ci as int].dir, name@, ni as int);
            }
            let mut nd = cwd;
            let mut entry = nd.dirs.remove(ci);
            let _removed = entry.dir.dirs.remove(ni);
            nd.dirs.insert(ci, entry);
            proof {
                assert(nd.files@ == cwd.files@);
                assert(nd.dirs@ =~= cwd.dirs@.update(
                    ci as int,
                    nd.dirs@[ci as int],
                ));
                assert(forall|j: int|
                    0 <= j < cwd.dirs@.len() && j != ci ==> nd.dirs@[j] == cwd.dirs@[j]);
            }
            let mut output = SROutput::new_ok();
            output.log(String::from_str("Component removed from the local tree."));
            OpResult { dir: nd, output, plan: Vec::new() }
        },
        None => {
            let mut plan: Vec<ToolRequest> = Vec::new();
            plan.push(
                make_request(
                    Tool::DependencyManager,
                    ToolAction::Uninstall,
                    Some(String::from_str(name)),
                    None,
                ),
            );
            let mut output = SROutput::new_ok();
            output.log(
                String::from_str(
                    "No local component of that name; the dependency manager will uninstall it.",
                ),
            );
            OpResult { dir: cwd, output, plan }
        },
    }
}

/// The declared licenses of the component in `cwd`, or the global defaults
/// where no well-formed descriptor exists.  These are the defaults offered
/// when a new component asks for licenses.
pub fn get_licenses(cwd: &Dir) -> (r: LicensePair)
    requires
        cwd.wf(),
    ensures
        (cwd.has_file(".sr"@) && is_descriptor_text(cwd.file_content(".sr"@))) ==> r.source@
            == descriptor_source_of(cwd.file_content(".sr"@)) && r.documentation@
            == descriptor_doc_of(cwd.file_content(".sr"@)),
        !(cwd.has_file(".sr"@) && is_descriptor_text(cwd.file_content(".sr"@))) ==> r.source@
            == "Unlicense"@ && r.documentation@ == "CC-BY-4.0"@,
{
    match cwd.find_file(".sr") {
        Some(i) => {
            proof {
                lemma_file_index_unique(cwd, ".sr"@, i as int);
            }
            match parse_descriptor(cwd.files[i].content.as_str()) {
                Some(d) => LicensePair {
                    source: d.source_license,
                    documentation: d.documentation_license,
                },
                None => LicensePair {
                    source: String::from_str("Unlicense"),
                    documentation: String::from_str("CC-BY-4.0"),
                },
            }
        },
        None => LicensePair {
            source: String::from_str("Unlicense"),
            documentation: String::from_str("CC-BY-4.0"),
        },
    }
}

/// The license a new component declares: the explicitly requested one, or
/// the inherited default.
pub open spec fn chosen_license(requested: Seq<char>, inherited: Seq<char>) -> Seq<char> {
    if requested.len() > 0 {
        requested
    } else {
        inherited
    }
}

/// Validity of the trees the create operation touches: unique entry names in
/// the working directory, in its `components/` directory, and in the child
/// that will be scaffolded.
pub open spec fn create_pre(cwd: Dir, name: Seq<char>) -> bool {
    &&& cwd.wf()
    &&& (cwd.has_dir(name) ==> cwd.subdir(name).wf())
    &&& (cwd.has_dir("components"@) ==> {
        let comp = cwd.subdir("components"@);
        comp.wf() && (comp.has_dir(name) ==> comp.subdir(name).wf())
    })
}

/// A component was scaffolded under `p0` as child `name`: an existing child
/// directory was filled in place (or refused unchanged on a collision), a
/// missing one was created fresh, and every other entry of `p0` is
/// untouched.
pub open spec fn created_in(
    p0: Dir,
    p1: Dir,
    out: SROutput,
    name: Seq<char>,
    src: Seq<char>,
    doc: Seq<char>,
    eff: Seq<char>,
    top: bool,
) -> bool {
    &&& p1.files@ == p0.files@
    &&& if p0.has_dir(name) {
        let i = p0.dir_index(name);
        &&& p1.dirs@.len() == p0.dirs@.len()
        &&& (forall|j: int| 0 <= j < p0.dirs@.len() && j != i ==> p1.dirs@[j] == p0.dirs@[j])
        &&& p1.dirs@[i].name == p0.dirs@[i].name
        &&& scaffold_post(p0.subdir(name), p1.dirs@[i].dir, out, name, src, doc, eff, top)
    } else {
        &&& !p0.has_file(name)
        &&& p1.dirs@.len() == p0.dirs@.len() + 1
        &&& (forall|j: int| 0 <= j < p0.dirs@.len() ==> p1.dirs@[j] == p0.dirs@[j])
        &&& p1.dirs@[p0.dirs@.len() as int].name@ == name
        &&& fresh_component(p1.dirs@[p0.dirs@.len() as int].dir, name, src, doc, eff, top)
        &&& fresh_scaffold_notes(out)
    }
}

/// Scaffolds the child `name` of `p`: into the existing child directory of
/// that name, or into a fresh one.  A file of that name is a path collision
/// and is refused unchanged.
fn scaffold_child(p: Dir, name: &str, src: &str, doc: &str, eff: &str, top: bool) -> (r: (
    Dir,
    SROutput,
))
    requires
        p.wf(),
        p.has_dir(name@) ==> p.subdir(name@).wf(),
    ensures
        (!p.has_dir(name@) && p.has_file(name@)) ==> r.0.files@ == p.files@ && r.0.dirs@
            == p.dirs@ && r.1.status == STATUS_FILESYSTEM && r.1.stdout@.len() == 0
            && r.1.stderr@.len() == 1,
        (p.has_dir(name@) || !p.has_file(name@)) ==> created_in(
            p,
            r.0,
            r.1,
            name@,
            src@,
            doc@,
            eff@,
            top,
        ),
{
    match p.find_dir(name) {
        Some(i) => {
            proof {
                lemma_dir_index_unique(&p, name@, i as int);
            }
            let mut nd = p;
            let entry = nd.dirs.remove(i);
            let (child2, out) = scaffold(entry.dir, name, src, doc, eff, top);
            nd.dirs.insert(i, DirEntry { name: entry.name, dir: child2 });
            proof {
                assert(nd.dirs@ =~= p.dirs@.remove(i as int).insert(
                    i as int,
                    nd.dirs@[i as int],
                ));
                assert(forall|j: int|
                    0 <= j < p.dirs@.len() && j != i ==> nd.dirs@[j] == p.dirs@[j]);
                assert(nd.dirs@[i as int].name == p.dirs@[i as int].name);
                assert(nd.dirs@[i as int].dir == child2);
            }
            (nd, out)
        },
        None => {
            match p.find_file(name) {
                Some(_) => {
                    let out = SROutput::new_error(
                        STATUS_FILESYSTEM,
                        String::from_str(
                            "A file of the component's name already exists; refusing to touch it.",
                        ),
                    );
                    (p, out)
                },
                None => {
                    let mut nd = p;
                    let empty_child = Dir::new_empty();
                    let ghost e0 = empty_child;
                    let (child2, out) = scaffold(empty_child, name, src, doc, eff, top);
                    nd.dirs.push(DirEntry { name: String::from_str(name), dir: child2 });
                    proof {
                        lemma_scaffold_fresh(e0, child2, out, name@, src@, doc@, eff@, top);
                        assert(nd.dirs@[p.dirs@.len() as int].dir == child2);
                    }
                    (nd, out)
                },
            }
        },
    }
}

/// The result of the create operation.
pub struct CreateResult {
    pub dir: Dir,
    pub output: SROutput,
    pub plan: Vec<ToolRequest>,
}

/// Creates a component.  In a directory that is not a component, the new
/// component becomes the top-level child `<name>/`, its licenses default to
/// the global defaults, and version control is planned for it.  Inside a
/// component, the new component goes under `components/<name>/`, its
/// licenses default to the enclosing component's declared pair, and its
/// effective license extends the whole ancestor chain.  Scaffolding is
/// idempotent: existing entries are skipped, never overwritten.
#[verifier::rlimit(100)]
pub fn create_component(
    cwd: Dir,
    ancestors: &Vec<LicensePair>,
    name: &str,
    requested_source: &str,
    requested_documentation: &str,
) -> (r: CreateResult)
    requires
        create_pre(cwd, name@),
    ensures
        name@.len() == 0 ==> r.output.status == STATUS_USER_INPUT && r.output.stdout@.len() == 0
            && r.output.stderr@.len() == 1 && r.dir.files@ == cwd.files@ && r.dir.dirs@
            == cwd.dirs@ && r.plan@.len() == 0,
        (name@.len() > 0 && !cwd.is_component_spec()) ==> {
            let src = chosen_license(requested_source@, "Unlicense"@);
            let doc = chosen_license(requested_documentation@, "CC-BY-4.0"@);
            let eff = effective_license(seq![(src, doc)]);
            &&& ((!cwd.has_dir(name@) && cwd.has_file(name@)) ==> r.output.status
                == STATUS_FILESYSTEM && r.output.stdout@.len() == 0 && r.output.stderr@.len()
                == 1 && r.dir.files@ == cwd.files@ && r.dir.dirs@ == cwd.dirs@)
            &&& ((cwd.has_dir(name@) || !cwd.has_file(name@)) ==> created_in(
                cwd,
                r.dir,
                r.output,
                name@,
                src,
                doc,
                eff,
                true,
            ))
            &&& (r.output.status == 0 ==> r.plan@.len() == 1 && r.plan@[0].tool
                is VersionControl && r.plan@[0].action is Init && r.plan@[0].subdir is Some
                && r.plan@[0].subdir->0@ == name@)
            &&& (r.output.status != 0 ==> r.plan@.len() == 0)
        },
        (name@.len() > 0 && cwd.is_component_spec()) ==> {
            &&& r.plan@.len() == 0
            &&& (!(cwd.has_file(".sr"@) && is_descriptor_text(cwd.file_content(".sr"@)))
                ==> r.output.status == STATUS_FILESYSTEM && r.output.stdout@.len() == 0
                && r.output.stderr@.len() == 1 && r.dir.files@ == cwd.files@ && r.dir.dirs@
                == cwd.dirs@)
            &&& ((cwd.has_file(".sr"@) && is_descriptor_text(cwd.file_content(".sr"@))) ==> {
                let psrc = descriptor_source_of(cwd.file_content(".sr"@));
                let pdoc = descriptor_doc_of(cwd.file_content(".sr"@));
                let src = chosen_license(requested_source@, psrc);
                let doc = chosen_license(requested_documentation@, pdoc);
                let eff = effective_license(
                    pairs_view(ancestors@).push((psrc, pdoc)).push((src, doc)),
                );
                let ci = cwd.dir_index("components"@);
                let comp = cwd.subdir("components"@);
                &&& r.dir.files@ == cwd.files@
                &&& r.dir.dirs@.len() == cwd.dirs@.len()
                &&& (forall|j: int|
                    0 <= j < cwd.dirs@.len() && j != ci ==> r.dir.dirs@[j] == cwd.dirs@[j])
                &&& r.dir.dirs@[ci].name == cwd.dirs@[ci].name
                &&& ((!comp.has_dir(name@) && comp.has_file(name@)) ==> r.output.status
                    == STATUS_FILESYSTEM && r.output.stdout@.len() == 0
                    && r.output.stderr@.len() == 1 && r.dir.dirs@[ci].dir.files@ == comp.files@
                    && r.dir.dirs@[ci].dir.dirs@ == comp.dirs@)
                &&& ((comp.has_dir(name@) || !comp.has_file(name@)) ==> created_in(
                    comp,
                    r.dir.dirs@[ci].dir,
                    r.output,
                    name@,
                    src,
                    doc,
                    eff,
                    false,
                ))
            })
        },
{
    if name.unicode_len() == 0 {
        let output = SROutput::new_error(
            STATUS_USER_INPUT,
            String::from_str("ERROR: A component name must be supplied."),
        );
        return CreateResult { dir: cwd, output, plan: Vec::new() };
    }
    let rs = String::from_str(requested_source);
    let rd = String::from_str(requested_documentation);
    if !cwd.is_component() {
        let pair = resolve_license_pair(&rs, &rd, None);
        let src = pair.source.clone();
        let doc = pair.documentation.clone();
        let mut chain: Vec<LicensePair> = Vec::new();
        chain.push(pair);
        let eff = amalgamate_licenses(&chain);
        proof {
            assert(pairs_view(chain@) =~= seq![(src@, doc@)]);
        }
        let (nd, out) = scaffold_child(cwd, name, src.as_str(), doc.as_str(), eff.as_str(), true);
        let mut plan: Vec<ToolRequest> = Vec::new();
        if out.status == 0 {
            plan.push(
                make_request(
                    Tool::VersionControl,
                    ToolAction::Init,
                    None,
                    Some(String::from_str(name)),
                ),
            );
        }
        CreateResult { dir: nd, output: out, plan }
    } else {
        let si = match cwd.find_file(".sr") {
            Some(si) => si,
            None => {
                let output = SROutput::new_error(
                    STATUS_FILESYSTEM,
                    String::from_str(
                        "ERROR: The enclosing component has no descriptor file; the tree is in a partial state.",
                    ),
                );
                return CreateResult { dir: cwd, output, plan: Vec::new() };
            },
        };
        proof {
            lemma_file_index_unique(&cwd, ".sr"@, si as int);
        }
        let desc = match parse_descriptor(cwd.files[si].content.as_str()) {
            Some(desc) => desc,
            None => {
                let output = SROutput::new_error(
                    STATUS_FILESYSTEM,
                    String::from_str(
                        "ERROR: The enclosing component's descriptor file is malformed.",
                    ),
                );
                return CreateResult { dir: cwd, output, plan: Vec::new() };
            },
        };
        let parent_pair = LicensePair {
            source: desc.source_license,
            documentation: desc.documentation_license,
        };
        let pair = resolve_license_pair(&rs, &rd, Some(&parent_pair));
        let src = pair.source.clone();
        let doc = pair.documentation.clone();
        let mut chain = clone_pairs(ancestors);
        chain.push(parent_pair);
        chain.push(pair);
        let eff = amalgamate_licenses(&chain);
        proof {
            assert(pairs_view(chain@) =~= pairs_view(ancestors@).push(
                (
                    descriptor_source_of(cwd.file_content(".sr"@)),
                    descriptor_doc_of(cwd.file_content(".sr"@)),
                ),
            ).push((src@, doc@)));
        }
        let ci = match cwd.find_dir("components") {
            Some(ci) => ci,
            None => {
                proof {
                    assert(false);
                }
                unreached()
            },
        };
        proof {
            lemma_dir_index_unique(&cwd, "components"@, ci as int);
        }
        let mut nd = cwd;
        let entry = nd.dirs.remove(ci);
        let (ncomp, out) = scaffold_child(
            entry.dir,
            name,
            src.as_str(),
            doc.as_str(),
            eff.as_str(),
            false,
        );
        nd.dirs.insert(ci, DirEntry { name: entry.name, dir: ncomp });
        proof {
            assert(nd.files@ == cwd.files@);
            assert(nd.dirs@ =~= cwd.dirs@.remove(ci as int).insert(
                ci as int,
                nd.dirs@[ci as int],
            ));
            assert(forall|j: int|
                0 <= j < cwd.dirs@.len() && j != ci ==> nd.dirs@[j] == cwd.dirs@[j]);
            assert(nd.dirs@[ci as int].name == cwd.dirs@[ci as int].name);
            assert(nd.dirs@[ci as int].dir == ncomp);
        }
        CreateResult { dir: nd, output: out, plan: Vec::new() }
    }
}

/// Running create twice in the same location produces the same final file
/// set and license metadata as running it once: the second run changes no
/// file and no directory of the component, and its notes are only skips.
pub proof fn lemma_create_idempotent(
    p0: Dir,
    p1: Dir,
    out1: SROutput,
    p2: Dir,
    out2: SROutput,
    name: Seq<char>,
    src: Seq<char>,
    doc: Seq<char>,
    eff: Seq<char>,
    top: bool,
)
    requires
        p0.wf(),
        out1.status == 0,
        created_in(p0, p1, out1, name, src, doc, eff, top),
        created_in(p1, p2, out2, name, src, doc, eff, top),
    ensures
        out2.status == 0,
        p1.has_dir(name),
        p2.files@ == p1.files@,
        p2.dirs@.len() == p1.dirs@.len(),
        forall|j: int|
            0 <= j < p1.dirs@.len() && j != p1.dir_index(name) ==> p2.dirs@[j] == p1.dirs@[j],
        p2.dirs@[p1.dir_index(name)].dir.files@ == p1.subdir(name).files@,
        p2.dirs@[p1.dir_index(name)].dir.dirs@ == p1.subdir(name).dirs@,
{
    if p0.has_dir(name) {
        let i = p0.dir_index(name);
        assert(0 <= i < p0.dirs@.len() && p0.dirs@[i].name@ == name);
        assert(p1.dirs@[i].name@ == name);
        assert(p1.has_dir(name));
        assert(p1.wf()) by {
            assert(forall|j: int|
                0 <= j < p1.dirs@.len() ==> p1.dirs@[j].name@ == p0.dirs@[j].name@);
        }
        lemma_dir_index_unique(&p1, name, i);
        let child0 = p0.subdir(name);
        let child1 = p1.dirs@[i].dir;
        assert(!crate::scaffold::scaffold_collision(child0)) by {
            if crate::scaffold::scaffold_collision(child0) {
                assert(out1.status == crate::outcome::STATUS_FILESYSTEM);
            }
        }
        let child2 = p2.dirs@[i].dir;
        crate::scaffold::lemma_scaffold_idempotent(
            child0,
            child1,
            out1,
            child2,
            out2,
            name,
            src,
            doc,
            eff,
            top,
        );
    } else {
        let i = p0.dirs@.len() as int;
        assert(p1.dirs@[i].name@ == name);
        assert(p1.has_dir(name));
        assert(p1.wf()) by {
            assert(forall|j: int| 0 <= j < p0.dirs@.len() ==> !(p0.dirs@[j].name@ == name));
        }
        lemma_dir_index_unique(&p1, name, i);
        let child1 = p1.dirs@[i].dir;
        crate::scaffold::lemma_fresh_component_stable(child1, name, src, doc, eff, top);
        let child2 = p2.dirs@[i].dir;
        assert(crate::scaffold::scaffold_post(child1, child2, out2, name, src, doc, eff, top));
        assert(crate::scaffold::missing_file_count(child1) == 0);
        assert(crate::scaffold::missing_dir_count(child1) == 0);
        assert(child2.files@ =~= child1.files@);
        assert(child2.dirs@ =~= child1.dirs@);
    }
}

/// When relicensing can succeed: the new licenses hold no line break, and
/// the component carries a well-formed descriptor and a manifest with a
/// readable license field.
pub open spec fn relicense_ok(cwd: Dir, src: Seq<char>, doc: Seq<char>) -> bool {
    &&& no_newline(src)
    &&& no_newline(doc)
    &&& cwd.has_file(".sr"@)
    &&& is_descriptor_text(cwd.file_content(".sr"@))
    &&& cwd.has_file("package.json"@)
    &&& manifest_has_license(cwd.file_content("package.json"@))
}

/// A freshly created component can always be relicensed: its descriptor is
/// well formed and its manifest's license field is readable, so the
/// relicense operation succeeds for any new license pair without line
/// breaks.
pub proof fn lemma_fresh_component_relicensable(
    d: Dir,
    name: Seq<char>,
    src: Seq<char>,
    doc: Seq<char>,
    eff: Seq<char>,
    top: bool,
    new_src: Seq<char>,
    new_doc: Seq<char>,
)
    requires
        fresh_component(d, name, src, doc, eff, top),
        crate::metadata::wf_descriptor_fields(src, doc),
        no_quote(name),
        no_quote(eff),
        no_newline(new_src),
        no_newline(new_doc),
    ensures
        relicense_ok(d, new_src, new_doc),
{
    crate::metadata::lemma_descriptor_text_parses(src, doc, top);
    crate::metadata::lemma_manifest_text_license(name, eff);
}

/// Rewrites the current component's declared licenses: its descriptor gets
/// the new pair (the top-level flag is kept), and its manifest's license
/// field becomes the new effective license of this component alone.  No
/// descendant is touched: subcomponents compute their effective license
/// lazily from their ancestor chain at read time.
#[verifier::rlimit(50)]
pub fn change_licenses(
    cwd: Dir,
    ancestors: &Vec<LicensePair>,
    source: &str,
    documentation: &str,
) -> (r: (Dir, SROutput))
    requires
        cwd.wf(),
    ensures
        r.1.status == 0 <==> relicense_ok(cwd, source@, documentation@),
        !relicense_ok(cwd, source@, documentation@) ==> r.0.files@ == cwd.files@ && r.0.dirs@
            == cwd.dirs@ && r.1.stdout@.len() == 0 && r.1.stderr@.len() == 1,
        !(no_newline(source@) && no_newline(documentation@)) ==> r.1.status == STATUS_USER_INPUT,
        relicense_ok(cwd, source@, documentation@) ==> ({
            let eff = effective_license(pairs_view(ancestors@).push((source@, documentation@)));
            let si = cwd.file_index(".sr"@);
            let pi = cwd.file_index("package.json"@);
            &&& r.0.wf()
            &&& r.0.dirs@ == cwd.dirs@
            &&& r.0.files@.len() == cwd.files@.len()
            &&& (forall|j: int|
                0 <= j < cwd.files@.len() && j != si && j != pi ==> r.0.files@[j]
                    == cwd.files@[j])
            &&& r.0.files@[si].name@ == ".sr"@
            &&& r.0.files@[si].content@ == descriptor_text(
                source@,
                documentation@,
                descriptor_top_of(cwd.file_content(".sr"@)),
            )
            &&& r.0.files@[pi].name@ == "package.json"@
            &&& r.0.files@[pi].content@ == manifest_with_license(
                cwd.file_content("package.json"@),
                eff,
            )
            &&& r.1.stderr@.len() == 0
            &&& r.1.stdout@.len() == 1
            &&& r.1.stdout@[0]@ == "Component licenses updated."@
        }),
{
    let src_nl = match find_char_from(source, '\n', 0) {
        Some(_) => true,
        None => false,
    };
    let doc_nl = match find_char_from(documentation, '\n', 0) {
        Some(_) => true,
        None => false,
    };
    if src_nl || doc_nl {
        proof {
            lemma_find_char_from_spec(source@, '\n', 0);
            lemma_find_char_from_spec(documentation@, '\n', 0);
        }
        let output = SROutput::new_error(
            STATUS_USER_INPUT,
            String::from_str("ERROR: A license name must not span lines."),
        );
        return (cwd, output);
    }
    proof {
        lemma_find_char_from_spec(source@, '\n', 0);
        lemma_find_char_from_spec(documentation@, '\n', 0);
    }
    let si = match cwd.find_file(".sr") {
        Some(si) => si,
        None => {
            let output = SROutput::new_error(
                STATUS_FILESYSTEM,
                String::from_str("ERROR: This component has no descriptor file."),
            );
            return (cwd, output);
        },
    };
    proof {
        lemma_file_index_unique(&cwd, ".sr"@, si as int);
    }
    let desc = match parse_descriptor(cwd.files[si].content.as_str()) {
        Some(desc) => desc,
        None => {
            let output = SROutput::new_error(
                STATUS_FILESYSTEM,
                String::from_str("ERROR: This component's descriptor file is malformed."),
            );
            return (cwd, output);
        },
    };
    let pi = match cwd.find_file("package.json") {
        Some(pi) => pi,
        None => {
            let output = SROutput::new_error(
                STATUS_FILESYSTEM,
                String::from_str("ERROR: This component has no dependency manifest."),
            );
            return (cwd, output);
        },
    };
    proof {
        lemma_file_index_unique(&cwd, "package.json"@, pi as int);
        reveal_strlit(".sr");
        reveal_strlit("package.json");
        assert(".sr"@.len() == 3 && "package.json"@.len() == 12);
        assert(si != pi);
    }
    let mut chain = clone_pairs(ancestors);
    chain.push(
        LicensePair {
            source: String::from_str(source),
            documentation: String::from_str(documentation),
        },
    );
    let eff = amalgamate_licenses(&chain);
    proof {
        assert(pairs_view(chain@) =~= pairs_view(ancestors@).push((source@, documentation@)));
    }
    let new_pkg = match update_manifest_license(cwd.files[pi].content.as_str(), eff.as_str()) {
        Some(p) => p,
        None => {
            let output = SROutput::new_error(
                STATUS_FILESYSTEM,
                String::from_str(
                    "ERROR: This component's manifest has no readable license field.",
                ),
            );
            return (cwd, output);
        },
    };
    let new_sr = render_descriptor(
        &Descriptor {
            source_license: String::from_str(source),
            documentation_license: String::from_str(documentation),
            is_top_level: desc.is_top_level,
        },
    );
    let mut nd = cwd;
    nd.files.set(si, FileEntry { name: String::from_str(".sr"), content: new_sr });
    nd.files.set(pi, FileEntry { name: String::from_str("package.json"), content: new_pkg });
    proof {
        assert forall|i: int, j: int|
            0 <= i < j < nd.files@.len() implies nd.files@[i].name@ != nd.files@[j].name@ by {
            assert(nd.files@[i].name@ == cwd.files@[i].name@);
            assert(nd.files@[j].name@ == cwd.files@[j].name@);
        }
        assert forall|i: int, j: int|
            0 <= i < nd.files@.len() && 0 <= j < nd.dirs@.len() implies nd.files@[i].name@
            != nd.dirs@[j].name@ by {
            assert(nd.files@[i].name@ == cwd.files@[i].name@);
        }
    }
    let mut output = SROutput::new_ok();
    output.log(String::from_str("Component licenses updated."));
    (nd, output)
}

/// The license report of the component in `cwd`: its declared source and
/// documentation licenses and its manifest's effective license field.
pub open spec fn license_listing_text(d: Dir) -> Seq<char> {
    "Licenses Specified In This Component:\n"@ + (if d.has_file(".sr"@) && is_descriptor_text(
        d.file_content(".sr"@),
    ) {
        "Source License: "@ + descriptor_source_of(d.file_content(".sr"@))
            + ", Documentation License: "@ + descriptor_doc_of(d.file_content(".sr"@)) + "\n"@
    } else {
        "No well-formed descriptor file was found in this component.\n"@
    }) + (if d.has_file("package.json"@) && manifest_has_license(d.file_content("package.json"@)) {
        "Manifest License: "@ + manifest_license_of(d.file_content("package.json"@)) + "\n"@
    } else {
        Seq::<char>::empty()
    })
}

/// Reports the current component's declared licenses and its manifest's
/// license field.  Only this component is read: no subcomponent is walked,
/// since each computes its own effective license from its ancestor chain.
pub fn list_licenses(cwd: &Dir) -> (r: String)
    requires
        cwd.wf(),
    ensures
        r@ == license_listing_text(*cwd),
{
    let mut r = String::from_str("Licenses Specified In This Component:\n");
    let mut described = false;
    match cwd.find_file(".sr") {
        Some(si) => {
            proof {
                lemma_file_index_unique(cwd, ".sr"@, si as int);
            }
            match parse_descriptor(cwd.files[si].content.as_str()) {
                Some(desc) => {
                    r.append("Source License: ");
                    r.append(desc.source_license.as_str());
                    r.append(", Documentation License: ");
                    r.append(desc.documentation_license.as_str());
                    r.append("\n");
                    described = true;
                },
                None => {},
            }
        },
        None => {},
    }
    if !described {
        r.append("No well-formed descriptor file was found in this component.\n");
    }
    match cwd.find_file("package.json") {
        Some(pi) => {
            proof {
                lemma_file_index_unique(cwd, "package.json"@, pi as int);
            }
            match extract_manifest_license(cwd.files[pi].content.as_str()) {
                Some(lic) => {
                    r.append("Manifest License: ");
                    r.append(lic.as_str());
                    r.append("\n");
                },
                None => {},
            }
        },
        None => {},
    }
    proof {
        assert(r@ =~= license_listing_text(*cwd));
    }
    r
}

/// A line of the change listing, tidied for the user: the version-control
/// tool's staging hints are dropped and its wording for untracked files is
/// replaced.
pub open spec fn tidy_change_line_spec(line: Seq<char>) -> Seq<char> {
    replace_first_spec(
        replace_first_spec(
            replace_first_spec(
                line,
                "(use \"git add <file>...\" to include in what will be committed)"@,
                ""@,
            ),
            "nothing added to commit but untracked files present (use \"git add\" to track)"@,
            ""@,
        ),
        "Untracked files"@,
        "New files"@,
    )
}

/// Tidies one line of the change listing for display.
pub fn tidy_change_line(line: &str) -> (r: String)
    ensures
        r@ == tidy_change_line_spec(line@),
{
    let a = replace_first(
        line,
        "(use \"git add <file>...\" to include in what will be committed)",
        "",
    );
    let b = replace_first(
        a.as_str(),
        "nothing added to commit but untracked files present (use \"git add\" to track)",
        "",
    );
    replace_first(b.as_str(), "Untracked files", "New files")
}

/// Plans the upload half of a refactor: the named local subcomponent is
/// initialized as its own repository pointed at the caller's remote, and its
/// contents are staged, committed and pushed, all inside
/// `components/<name>/`.
pub fn refactor_plan(cwd: &Dir, name: &str, url: &str) -> (r: OpResult2)
    requires
        cwd.wf(),
        cwd.has_dir("components"@) ==> cwd.subdir("components"@).wf(),
    ensures
        (cwd.has_dir("components"@) && cwd.subdir("components"@).has_dir(name@)) ==> {
            &&& r.output.status == 0
            &&& r.output.stdout@.len() == 0 && r.output.stderr@.len() == 0
            &&& r.plan@.len() == 5
            &&& (forall|i: int|
                0 <= i < 5 ==> r.plan@[i].tool is VersionControl && r.plan@[i].subdir is Some
                    && r.plan@[i].subdir->0@ == name@)
            &&& r.plan@[0].action is Init
            &&& r.plan@[1].action is SetRemote && r.plan@[1].arg is Some && r.plan@[1].arg->0@
                == url@
            &&& r.plan@[2].action is StageAll
            &&& r.plan@[3].action is Commit && r.plan@[3].arg is Some
            &&& r.plan@[4].action is Push
        },
        !(cwd.has_dir("components"@) && cwd.subdir("components"@).has_dir(name@)) ==> {
            &&& r.output.status == STATUS_USER_INPUT
            &&& r.output.stdout@.len() == 0
            &&& r.output.stderr@.len() == 1
            &&& r.output.stderr@[0]@
                == "ERROR: No local component of that name exists to refactor."@
            &&& r.plan@.len() == 0
        },
{
    match resolve_child(cwd, name) {
        Some(_) => {
            let mut plan: Vec<ToolRequest> = Vec::new();
            plan.push(
                make_request(
                    Tool::VersionControl,
                    ToolAction::Init,
                    None,
                    Some(String::from_str(name)),
                ),
            );
            plan.push(
                make_request(
                    Tool::VersionControl,
                    ToolAction::SetRemote,
                    Some(String::from_str(url)),
                    Some(String::from_str(name)),
                ),
            );
            plan.push(
                make_request(
                    Tool::VersionControl,
                    ToolAction::StageAll,
                    None,
                    Some(String::from_str(name)),
                ),
            );
            plan.push(
                make_request(
                    Tool::VersionControl,
                    ToolAction::Commit,
                    Some(String::from_str("Initial commit of the refactored component.")),
                    Some(String::from_str(name)),
                ),
            );
            plan.push(
                make_request(
                    Tool::VersionControl,
                    ToolAction::Push,
                    None,
                    Some(String::from_str(name)),
                ),
            );
            OpResult2 { output: SROutput::new_ok(), plan }
        },
        None => {
            let output = SROutput::new_error(
                STATUS_USER_INPUT,
                String::from_str("ERROR: No local component of that name exists to refactor."),
            );
            OpResult2 { output, plan: Vec::new() }
        },
    }
}

/// Finishes a refactor after the front end ran the five upload steps.  The
/// local subcomponent is deleted, and its reinstallation through the
/// dependency manager is planned, only when every step of the upload chain
/// succeeded; any failure leaves the local tree exactly as it was, so a
/// failed push can never destroy the only copy.
pub fn refactor_finish(cwd: Dir, name: &str, url: &str, upload_results: &Vec<SROutput>) -> (r:
    OpResult)
    requires
        cwd.wf(),
        cwd.has_dir("components"@) ==> cwd.subdir("components"@).wf(),
    ensures
        !(upload_results@.len() == 5 && all_steps_ok(upload_results@)) ==> {
            &&& r.dir == cwd
            &&& r.output.status == STATUS_TOOL_FAILED
            &&& r.output.stdout@.len() == 0
            &&& r.output.stderr@.len() == 1
            &&& r.output.stderr@[0]@
                == "ERROR: The remote upload did not succeed; the local component is kept."@
            &&& r.plan@.len() == 0
        },
        (upload_results@.len() == 5 && all_steps_ok(upload_results@)) ==> {
            let ci = cwd.dir_index("components"@);
            let comp = cwd.subdir("components"@);
            let ni = comp.dir_index(name@);
            &&& ((cwd.has_dir("components"@) && comp.has_dir(name@)) ==> {
                &&& r.dir.files@ == cwd.files@
                &&& r.dir.dirs@.len() == cwd.dirs@.len()
                &&& (forall|j: int|
                    0 <= j < cwd.dirs@.len() && j != ci ==> r.dir.dirs@[j] == cwd.dirs@[j])
                &&& r.dir.dirs@[ci].name == cwd.dirs@[ci].name
                &&& r.dir.dirs@[ci].dir.files@ == comp.files@
                &&& r.dir.dirs@[ci].dir.dirs@ == comp.dirs@.remove(ni)
                &&& r.output.status == 0
                &&& r.output.stderr@.len() == 0
                &&& r.output.stdout@.len() == 1
                &&& r.output.stdout@[0]@
                    == "Remote upload confirmed; the local copy was removed and will be reinstalled as a dependency."@
                &&& r.plan@.len() == 1
                &&& r.plan@[0].tool is DependencyManager
                &&& r.plan@[0].action is InstallSave
                &&& r.plan@[0].arg is Some && r.plan@[0].arg->0@ == url@
                &&& r.plan@[0].subdir is None
            })
            &&& (!(cwd.has_dir("components"@) && comp.has_dir(name@)) ==> {
                &&& r.dir == cwd
                &&& r.output.status == STATUS_FILESYSTEM
                &&& r.output.stdout@.len() == 0
                &&& r.output.stderr@.len() == 1
                &&& r.plan@.len() == 0
            })
        },
{
    if !(upload_results.len() == 5 && steps_ok(upload_results)) {
        let output = SROutput::new_error(
            STATUS_TOOL_FAILED,
            String::from_str(
                "ERROR: The remote upload did not succeed; the local component is kept.",
            ),
        );
        return OpResult { dir: cwd, output, plan: Vec::new() };
    }
    match resolve_child(&cwd, name) {
        Some((ci, ni)) => {
            proof {
                lemma_dir_index_unique(&cwd, "components"@, ci as int);
                lemma_dir_index_unique(&cwd.dirs@[ci as int].dir, name@, ni as int);
            }
            let mut nd = cwd;
            let mut entry = nd.dirs.remove(ci);
            let _removed = entry.dir.dirs.remove(ni);
            nd.dirs.insert(ci, entry);
            proof {
                assert(nd.dirs@ =~= cwd.dirs@.remove(ci as int).insert(
                    ci as int,
                    nd.dirs@[ci as int],
                ));
                assert(forall|j: int|
                    0 <= j < cwd.dirs@.len() && j != ci ==> nd.dirs@[j] == cwd.dirs@[j]);
            }
            let mut plan: Vec<ToolRequest> = Vec::new();
            plan.push(
                make_request(
                    Tool::DependencyManager,
                    ToolAction::InstallSave,
                    Some(String::from_str(url)),
                    None,
                ),
            );
            let mut output = SROutput::new_ok();
            output.log(
                String::from_str(
                    "Remote upload confirmed; the local copy was removed and will be reinstalled as a dependency.",
                ),
            );
            OpResult { dir: nd, output, plan }
        },
        None => {
            let output = SROutput::new_error(
                STATUS_FILESYSTEM,
                String::from_str("ERROR: No local component of that name exists to refactor."),
            );
            OpResult { dir: cwd, output, plan: Vec::new() }
        },
    }
}

} // verus!
