//! Tests of the tool orchestrator, the planned operations and the outcome
//! type.

use sliderule::model::Dir;
use sliderule::ops::{
    add_remote_component, create_component, download_component, list_changes_plan, refactor_finish,
    refactor_plan, remote_login, remove_component, repo_name_from_url, tidy_change_line,
    upload_plan,
};
use sliderule::orchestrator::{
    absorb_run, chain_report, dependency_manager_command, step_failed, steps_ok, RunResult, Tool,
    ToolAction,
};
use sliderule::outcome::SROutput;

fn ok_output() -> SROutput {
    SROutput {
        status: 0,
        stdout: vec![],
        stderr: vec![],
    }
}

fn failed_output() -> SROutput {
    SROutput {
        status: 1,
        stdout: vec![],
        stderr: vec![String::from("fatal: unable to connect")],
    }
}

/// A project with one local subcomponent, for refactor tests.
fn widget_with_gizmo() -> Dir {
    let r = create_component(Dir::new_empty(), &vec![], "widget", "MIT", "CC-BY-4.0");
    let mut root = r.dir;
    let wi = root.find_dir("widget").expect("widget exists");
    let widget = root.dirs.remove(wi).dir;
    let r2 = create_component(widget, &vec![], "gizmo", "", "");
    assert_eq!(r2.output.status, 0);
    r2.dir
}

#[test]
fn version_string_is_reported() {
    assert_eq!(sliderule::engine_version(), "0.3.1");
}

#[test]
fn outcome_merge_keeps_the_first_failure() {
    let mut a = SROutput {
        status: 0,
        stdout: vec![String::from("one")],
        stderr: vec![],
    };
    a.merge(SROutput {
        status: 2,
        stdout: vec![String::from("two")],
        stderr: vec![String::from("bad")],
    });
    a.merge(ok_output());
    assert_eq!(a.status, 2);
    assert_eq!(a.stdout, vec![String::from("one"), String::from("two")]);
    assert_eq!(a.stderr, vec![String::from("bad")]);
}

#[test]
fn a_mutating_step_fails_on_stderr_even_with_exit_zero() {
    let quiet_failure = SROutput {
        status: 0,
        stdout: vec![],
        stderr: vec![String::from("error: remote rejected")],
    };
    assert!(step_failed(&quiet_failure));
    assert!(!step_failed(&ok_output()));
}

#[test]
fn tool_not_found_is_a_distinct_error_kind() {
    let env = absorb_run(Tool::DependencyManager, RunResult::NotFound);
    assert_eq!(env.status, 4, "environment errors have their own status");
    assert!(env.stderr[0].contains("not found"));
    let ran = absorb_run(Tool::VersionControl, RunResult::Ran(failed_output()));
    assert_eq!(ran.status, 1, "a tool that ran keeps its own outcome");
}

#[test]
fn dependency_manager_windows_fallback() {
    assert_eq!(dependency_manager_command(false, true), "npm");
    assert_eq!(dependency_manager_command(false, false), "npm");
    assert_eq!(dependency_manager_command(true, true), "npm");
    assert_eq!(
        dependency_manager_command(true, false),
        "C:\\Program Files\\nodejs\\npm.cmd"
    );
}

#[test]
fn chain_report_never_claims_success_after_a_failure() {
    let all_ok = vec![ok_output(), ok_output(), ok_output()];
    assert!(steps_ok(&all_ok));
    assert_eq!(chain_report(all_ok, 3).status, 0);

    let with_failure = vec![ok_output(), failed_output(), ok_output()];
    assert!(!steps_ok(&with_failure));
    assert_ne!(chain_report(with_failure, 3).status, 0);

    // a halted chain ran fewer steps than planned and is no success either
    let halted = vec![ok_output()];
    assert_ne!(chain_report(halted, 3).status, 0);
}

#[test]
fn repo_names_derive_from_urls() {
    assert_eq!(
        repo_name_from_url("https://github.com/jmwright/blink_firmware.git"),
        "blink_firmware"
    );
    assert_eq!(
        repo_name_from_url("https://github.com/jmwright/toplevel"),
        "toplevel"
    );
    assert_eq!(repo_name_from_url("bare_name"), "bare_name");
}

#[test]
fn download_a_url_plans_a_recursive_clone() {
    let r = download_component("https://github.com/jmwright/blink_firmware.git");
    assert_eq!(r.output.status, 0);
    assert_eq!(r.target.as_deref(), Some("blink_firmware"));
    assert_eq!(r.plan.len(), 1);
    assert_eq!(r.plan[0].tool, Tool::VersionControl);
    assert_eq!(r.plan[0].action, ToolAction::CloneRecursive);
}

#[test]
fn download_all_pulls_then_updates() {
    let r = download_component("all");
    assert_eq!(r.output.status, 0);
    assert_eq!(r.plan.len(), 2);
    assert_eq!(r.plan[0].action, ToolAction::Pull);
    assert_eq!(r.plan[1].action, ToolAction::Update);
}

#[test]
fn download_dependencies_only_updates() {
    let r = download_component("dependencies");
    assert_eq!(r.output.status, 0);
    assert_eq!(r.plan.len(), 1);
    assert_eq!(r.plan[0].action, ToolAction::Update);
}

#[test]
fn download_rejects_unknown_subcommands() {
    let r = download_component("sideways");
    assert_eq!(r.output.status, 3);
    assert!(r.plan.is_empty());
}

#[test]
fn add_plans_a_tracked_install() {
    let r = add_remote_component("https://github.com/jmwright/arduino-sr.git");
    assert_eq!(r.output.status, 0);
    assert_eq!(r.plan.len(), 1);
    assert_eq!(r.plan[0].tool, Tool::DependencyManager);
    assert_eq!(r.plan[0].action, ToolAction::InstallSave);
}

#[test]
fn upload_initializes_only_a_fresh_tree() {
    let fresh = upload_plan(false, "git://127.0.0.1/topcomp", "Initial commit");
    assert_eq!(fresh.len(), 5);
    assert_eq!(fresh[0].action, ToolAction::Init);
    assert_eq!(fresh[1].action, ToolAction::SetRemote);
    assert_eq!(fresh[2].action, ToolAction::StageAll);
    assert_eq!(fresh[3].action, ToolAction::Commit);
    assert_eq!(fresh[3].arg.as_deref(), Some("Initial commit"));
    assert_eq!(fresh[4].action, ToolAction::Push);

    let existing = upload_plan(true, "", "More changes");
    assert_eq!(existing.len(), 3);
    assert_eq!(existing[0].action, ToolAction::StageAll);
    assert_eq!(existing[2].action, ToolAction::Push);
}

#[test]
fn login_requires_a_url() {
    let r = remote_login("");
    assert_eq!(r.output.status, 3);
    assert!(r.plan.is_empty());
    let r2 = remote_login("https://example.com/repo.git");
    assert_eq!(r2.output.status, 0);
    assert_eq!(r2.plan.len(), 1);
    assert_eq!(r2.plan[0].action, ToolAction::SetRemote);
}

#[test]
fn changes_listing_is_planned_and_tidied() {
    let plan = list_changes_plan();
    assert_eq!(plan.len(), 1);
    assert_eq!(plan[0].action, ToolAction::Status);
    assert_eq!(
        tidy_change_line("Untracked files present"),
        "New files present"
    );
    assert_eq!(
        tidy_change_line("  (use \"git add <file>...\" to include in what will be committed)"),
        "  "
    );
}

#[test]
fn refactor_plans_the_upload_inside_the_subcomponent() {
    let tree = widget_with_gizmo();
    let r = refactor_plan(&tree, "gizmo", "git://127.0.0.1/remote");
    assert_eq!(r.output.status, 0);
    assert_eq!(r.plan.len(), 5);
    for req in &r.plan {
        assert_eq!(req.tool, Tool::VersionControl);
        assert_eq!(req.subdir.as_deref(), Some("gizmo"));
    }
    assert_eq!(r.plan[0].action, ToolAction::Init);
    assert_eq!(r.plan[4].action, ToolAction::Push);

    let missing = refactor_plan(&tree, "not_here", "git://127.0.0.1/remote");
    assert_ne!(missing.output.status, 0);
    assert!(missing.plan.is_empty());
}

#[test]
fn refactor_keeps_the_local_copy_when_the_push_fails() {
    let tree = widget_with_gizmo();
    let results = vec![
        ok_output(),
        ok_output(),
        ok_output(),
        ok_output(),
        failed_output(),
    ];
    let r = refactor_finish(tree, "gizmo", "git://127.0.0.1/remote", &results);
    assert_ne!(r.output.status, 0);
    assert!(
        !r.output.stderr.is_empty(),
        "the push failure must be surfaced on the error stream"
    );
    assert!(r.plan.is_empty());
    let ci = r.dir.find_dir("components").expect("components dir");
    assert!(
        r.dir.dirs[ci].dir.find_dir("gizmo").is_some(),
        "the local subcomponent must still exist after a failed push"
    );
}

#[test]
fn refactor_removes_the_local_copy_after_a_confirmed_upload() {
    let tree = widget_with_gizmo();
    let results = vec![ok_output(), ok_output(), ok_output(), ok_output(), ok_output()];
    let r = refactor_finish(tree, "gizmo", "git://127.0.0.1/remote", &results);
    assert_eq!(r.output.status, 0);
    let ci = r.dir.find_dir("components").expect("components dir");
    assert!(r.dir.dirs[ci].dir.find_dir("gizmo").is_none());
    assert_eq!(r.plan.len(), 1);
    assert_eq!(r.plan[0].tool, Tool::DependencyManager);
    assert_eq!(r.plan[0].action, ToolAction::InstallSave);
}

#[test]
fn refactor_with_a_halted_chain_changes_nothing() {
    let tree = widget_with_gizmo();
    let halted = vec![ok_output(), ok_output()];
    let r = refactor_finish(tree, "gizmo", "git://127.0.0.1/remote", &halted);
    assert_ne!(r.output.status, 0);
    let ci = r.dir.find_dir("components").expect("components dir");
    assert!(r.dir.dirs[ci].dir.find_dir("gizmo").is_some());
}

#[test]
fn remove_after_uninstall_delegation_keeps_the_tree() {
    let tree = widget_with_gizmo();
    let r = remove_component(tree, "arduino-sr");
    assert_eq!(r.plan.len(), 1);
    assert_eq!(r.plan[0].action, ToolAction::Uninstall);
    assert_eq!(r.plan[0].arg.as_deref(), Some("arduino-sr"));
}
