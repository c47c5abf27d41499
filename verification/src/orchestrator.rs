//! External tool orchestrator: the version-control client and the
//! dependency-manager client are driven as subprocesses by a thin front end.
//! This module holds the verified side of that boundary: the requests an
//! operation plans, how a raw run becomes a structured outcome, and how a
//! chain of outcomes is judged.

use vstd::prelude::*;
use crate::outcome::{SROutput, STATUS_ENVIRONMENT, STATUS_TOOL_FAILED};

verus! {

/// The two external tools the engine drives.
#[derive(Clone, Copy, Debug, PartialEq, Eq, Structural)]
pub enum Tool {
    VersionControl,
    DependencyManager,
}

/// One action of an external tool.
#[derive(Clone, Copy, Debug, PartialEq, Eq, Structural)]
pub enum ToolAction {
    /// Initialize a repository (version control).
    Init,
    /// Clone a repository with its subcomponents (version control).
    CloneRecursive,
    /// Pull the current repository (version control).
    Pull,
    /// Stage every change (version control).
    StageAll,
    /// Commit the staged changes with a message (version control).
    Commit,
    /// Push the committed changes (version control).
    Push,
    /// Point the repository at a remote (version control).
    SetRemote,
    /// Report pending changes (version control).
    Status,
    /// Install a remote component and record it (dependency manager).
    InstallSave,
    /// Install everything the manifest records (dependency manager).
    Install,
    /// Update the tracked dependencies (dependency manager).
    Update,
    /// Uninstall a tracked component (dependency manager).
    Uninstall,
}

/// One planned subprocess run: which tool, which action, an optional
/// argument (a URL, a component name or a commit message), and the
/// subdirectory under `components/` to run in, when not the operation's own
/// directory.
pub struct ToolRequest {
    pub tool: Tool,
    pub action: ToolAction,
    pub arg: Option<String>,
    pub subdir: Option<String>,
}

/// How one run of an external tool ended, as the front end reports it:
/// either the executable could not be found at all, or it ran and produced
/// an outcome.
pub enum RunResult {
    NotFound,
    Ran(SROutput),
}

/// A mutating step of an external tool counts as failed when it exits
/// non-zero or writes anything to its error stream.
pub open spec fn tool_step_failed(o: SROutput) -> bool {
    o.status != 0 || o.stderr@.len() > 0
}

/// Judges one mutating step's outcome.
pub fn step_failed(o: &SROutput) -> (b: bool)
    ensures
        b == tool_step_failed(*o),
{
    o.status != 0 || o.stderr.len() > 0
}

/// Turns a raw run into a structured outcome.  A missing executable is an
/// environment error, clearly told apart from a tool that ran and failed:
/// the former the user fixes by installing the tool, the latter is a state
/// problem inside the tree or the remote.
pub fn absorb_run(tool: Tool, r: RunResult) -> (o: SROutput)
    ensures
        r is NotFound ==> o.status == STATUS_ENVIRONMENT && o.stdout@.len() == 0
            && o.stderr@.len() == 1 && o.stderr@[0]@ == (if tool is VersionControl {
            "ERROR: The version control tool was not found; please install it."@
        } else {
            "ERROR: The dependency manager tool was not found; please install it."@
        }),
        forall|x: SROutput| r == RunResult::Ran(x) ==> o == x,
{
    match r {
        RunResult::NotFound => {
            let message = match tool {
                Tool::VersionControl => String::from_str(
                    "ERROR: The version control tool was not found; please install it.",
                ),
                Tool::DependencyManager => String::from_str(
                    "ERROR: The dependency manager tool was not found; please install it.",
                ),
            };
            SROutput::new_error(STATUS_ENVIRONMENT, message)
        },
        RunResult::Ran(o) => o,
    }
}

/// The command name for the dependency manager: the conventional name on
/// POSIX, and the documented install-path fallback on Windows when the
/// generic name does not resolve.
pub fn dependency_manager_command(on_windows: bool, generic_resolves: bool) -> (r: String)
    ensures
        r@ == if on_windows && !generic_resolves {
            "C:\\Program Files\\nodejs\\npm.cmd"@
        } else {
            "npm"@
        },
{
    if on_windows && !generic_resolves {
        String::from_str("C:\\Program Files\\nodejs\\npm.cmd")
    } else {
        String::from_str("npm")
    }
}

/// Index of the first failed step among a chain of outcomes, or `-1` when
/// every step succeeded.
pub open spec fn first_failure_from(outs: Seq<SROutput>, from: int) -> int
    decreases outs.len() - from,
{
    if from < 0 || from >= outs.len() {
        -1
    } else if tool_step_failed(outs[from]) {
        from
    } else {
        first_failure_from(outs, from + 1)
    }
}

/// Whether every outcome of a chain succeeded.
pub open spec fn all_steps_ok(outs: Seq<SROutput>) -> bool {
    first_failure_from(outs, 0) == -1
}

/// Judges a chain of mutating steps as a whole.
pub fn steps_ok(outs: &Vec<SROutput>) -> (b: bool)
    ensures
        b == all_steps_ok(outs@),
{
    let mut i: usize = 0;
    while i < outs.len()
        invariant
            i <= outs@.len(),
            first_failure_from(outs@, 0) == first_failure_from(outs@, i as int),
        decreases outs@.len() - i,
    {
        if step_failed(&outs[i]) {
            return false;
        }
        i += 1;
    }
    true
}

/// The output lines of a chain of outcomes, in order.
pub open spec fn chain_stdout(outs: Seq<SROutput>) -> Seq<String>
    decreases outs.len(),
{
    if outs.len() == 0 {
        Seq::empty()
    } else {
        outs[0].stdout@ + chain_stdout(outs.drop_first())
    }
}

/// The error lines of a chain of outcomes, in order.
pub open spec fn chain_stderr(outs: Seq<SROutput>) -> Seq<String>
    decreases outs.len(),
{
    if outs.len() == 0 {
        Seq::empty()
    } else {
        outs[0].stderr@ + chain_stderr(outs.drop_first())
    }
}

/// Folds the outcomes of an executed chain into one report for a pipeline
/// `planned` steps long.  The report carries every line the steps produced
/// and claims success exactly when every planned step ran and none failed:
/// a halted or failed chain can never be reported as a success.
pub fn chain_report(outs: Vec<SROutput>, planned: usize) -> (o: SROutput)
    ensures
        o.status == 0 <==> (outs@.len() == planned && all_steps_ok(outs@)),
        o.status == 0 || o.status == STATUS_TOOL_FAILED,
        o.stdout@ == chain_stdout(outs@),
        o.stderr@ == chain_stderr(outs@),
{
    let ghost all: Seq<SROutput> = outs@;
    let complete = outs.len() == planned;
    let ok = steps_ok(&outs);
    let mut o = SROutput::new_ok();
    let mut rest = outs;
    proof {
        assert(o.stdout@ + chain_stdout(rest@) =~= chain_stdout(all));
        assert(o.stderr@ + chain_stderr(rest@) =~= chain_stderr(all));
    }
    while rest.len() > 0
        invariant
            o.stdout@ + chain_stdout(rest@) == chain_stdout(all),
            o.stderr@ + chain_stderr(rest@) == chain_stderr(all),
        decreases rest@.len(),
    {
        let ghost rest0: Seq<SROutput> = rest@;
        let step = rest.remove(0);
        proof {
            assert(rest0.drop_first() =~= rest@);
            assert(chain_stdout(rest0) == step.stdout@ + chain_stdout(rest@));
            assert(chain_stderr(rest0) == step.stderr@ + chain_stderr(rest@));
        }
        let ghost o0: Seq<String> = o.stdout@;
        let ghost e0: Seq<String> = o.stderr@;
        o.merge(step);
        proof {
            assert(o.stdout@ + chain_stdout(rest@) =~= o0 + chain_stdout(rest0));
            assert(o.stderr@ + chain_stderr(rest@) =~= e0 + chain_stderr(rest0));
        }
    }
    proof {
        assert(chain_stdout(rest@) =~= Seq::<String>::empty());
        assert(chain_stderr(rest@) =~= Seq::<String>::empty());
        assert(o.stdout@ =~= chain_stdout(all));
        assert(o.stderr@ =~= chain_stderr(all));
    }
    if complete && ok {
        o.status = 0;
    } else {
        o.status = STATUS_TOOL_FAILED;
    }
    o
}

} // verus!
