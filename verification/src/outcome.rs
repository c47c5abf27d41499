//! Structured outcomes of lifecycle operations and external tool runs.

use vstd::prelude::*;

verus! {

/// Exit indicator used for filesystem failures (a path collision, a missing or
/// malformed metadata file).
pub const STATUS_FILESYSTEM: u64 = 1;

/// Exit indicator used when an external tool ran and reported a failure.
pub const STATUS_TOOL_FAILED: u64 = 2;

/// Exit indicator used for unrecognized commands or arguments.
pub const STATUS_USER_INPUT: u64 = 3;

/// Exit indicator used when a required external tool is not installed.
pub const STATUS_ENVIRONMENT: u64 = 4;

/// The uniform result of a lifecycle operation or of one external tool run:
/// an exit indicator (`0` means success) plus line-oriented standard output
/// and standard error streams.
pub struct SROutput {
    pub status: u64,
    pub stdout: Vec<String>,
    pub stderr: Vec<String>,
}

impl SROutput {
    /// Success, with nothing printed.
    pub fn new_ok() -> (r: SROutput)
        ensures
            r.status == 0,
            r.stdout@ =~= Seq::<String>::empty(),
            r.stderr@ =~= Seq::<String>::empty(),
    {
        SROutput { status: 0, stdout: Vec::new(), stderr: Vec::new() }
    }

    /// Failure with the given exit indicator and one line of error text.
    pub fn new_error(status: u64, message: String) -> (r: SROutput)
        requires
            status != 0,
        ensures
            r.status == status,
            r.stdout@ =~= Seq::<String>::empty(),
            r.stderr@.len() == 1,
            r.stderr@[0] == message,
    {
        let mut stderr: Vec<String> = Vec::new();
        stderr.push(message);
        SROutput { status, stdout: Vec::new(), stderr }
    }

    /// Appends one line to the standard output stream.
    pub fn log(&mut self, line: String)
        ensures
            final(self).status == old(self).status,
            final(self).stdout@ == old(self).stdout@.push(line),
            final(self).stderr@ == old(self).stderr@,
    {
        self.stdout.push(line);
    }

    /// Concatenates `other` onto `self`.  The combined status is the first
    /// non-zero one, so a failure is never masked by a later success.
    pub fn merge(&mut self, other: SROutput)
        ensures
            final(self).status == if old(self).status != 0 {
                old(self).status
            } else {
                other.status
            },
            final(self).stdout@ == old(self).stdout@ + other.stdout@,
            final(self).stderr@ == old(self).stderr@ + other.stderr@,
    {
        let SROutput { status, mut stdout, mut stderr } = other;
        if self.status == 0 {
            self.status = status;
        }
        self.stdout.append(&mut stdout);
        self.stderr.append(&mut stderr);
    }
}

} // verus!
