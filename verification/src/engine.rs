//! Build execution engine: one build moves through
//! `Sandboxing -> Running -> CleaningUp -> Done` (validation fails closed
//! before a run exists). While running, output lines are delivered to an
//! observer tagged with their stream, in arrival order per stream; the
//! terminal outcome is decided solely by the process exit status, and cleanup
//! never downgrades it. The outside work — spawning, draining, killing,
//! copying and removing directories — is the caller's; every decision about
//! it is made here.

use vstd::prelude::*;
use crate::security::{SecurityConfig, spec_validate, validate_command};
use crate::strutil::lemma_filter_push;
use crate::toolchain::{
    Toolchain, full_command, spec_full_command, spec_toolchain_for_platform, toolchain_for_platform,
};

verus! {

/// Which output stream a line arrived on.
#[derive(Clone, Copy, Debug, PartialEq, Eq, Structural)]
pub enum StreamTag {
    Stdout,
    Stderr,
}

/// One line delivered to the observer, tagged with its stream of origin.
pub struct OutputEvent {
    pub tag: StreamTag,
    pub line: String,
}

/// The observer's record of every delivery, in delivery order.
pub struct ObserverLog {
    pub events: Vec<OutputEvent>,
}

/// The lines delivered for one stream, in delivery order.
pub open spec fn lines_of(events: Seq<OutputEvent>, tag: StreamTag) -> Seq<Seq<char>> {
    events.filter(|e: OutputEvent| e.tag == tag).map_values(|e: OutputEvent| e.line@)
}

/// Why a build failed.
#[derive(Debug)]
pub enum BuildError {
    /// The command contained a blocked token.
    PolicyViolation,
    /// Creating or populating the sandbox failed.
    SandboxIo(String),
    /// The build process could not be spawned.
    Spawn(String),
    /// The build process exited with this non-zero status.
    Exit(i32),
    /// The build process was terminated without an exit status.
    Terminated,
    /// The build exceeded the configured maximum duration.
    Timeout,
}

/// The terminal outcome of one build, emitted exactly once.
#[derive(Debug)]
pub enum BuildOutcome {
    Succeeded,
    Failed(BuildError),
}

impl Clone for BuildError {
    fn clone(&self) -> (res: Self)
        ensures
            res == *self,
    {
        match self {
            BuildError::PolicyViolation => BuildError::PolicyViolation,
            BuildError::SandboxIo(m) => BuildError::SandboxIo(m.clone()),
            BuildError::Spawn(m) => BuildError::Spawn(m.clone()),
            BuildError::Exit(c) => BuildError::Exit(*c),
            BuildError::Terminated => BuildError::Terminated,
            BuildError::Timeout => BuildError::Timeout,
        }
    }
}

impl Clone for BuildOutcome {
    fn clone(&self) -> (res: Self)
        ensures
            res == *self,
    {
        match self {
            BuildOutcome::Succeeded => BuildOutcome::Succeeded,
            BuildOutcome::Failed(e) => BuildOutcome::Failed(e.clone()),
        }
    }
}

/// The resting states of one build invocation.
#[derive(Clone, Copy, Debug, PartialEq, Eq, Structural)]
pub enum BuildPhase {
    Sandboxing,
    Running,
    CleaningUp,
    Done,
}

/// One build invocation: its policy, the command actually executed, the
/// sandbox it runs in, the observer's log, and its outcome.
pub struct BuildRun {
    pub phase: BuildPhase,
    pub policy: SecurityConfig,
    pub command: String,
    pub full_command: String,
    pub project_dir: String,
    pub sandbox_dir: Option<String>,
    pub stdout_open: bool,
    pub stderr_open: bool,
    pub log: ObserverLog,
    pub outcome: Option<BuildOutcome>,
    pub cleanup_error: Option<String>,
    pub finished_emitted: bool,
}

/// The stream `tag` has not yet reached end of stream.
pub open spec fn stream_open(r: BuildRun, tag: StreamTag) -> bool {
    match tag {
        StreamTag::Stdout => r.stdout_open,
        StreamTag::Stderr => r.stderr_open,
    }
}

/// The fields a transition never touches.
pub open spec fn same_static(a: BuildRun, b: BuildRun) -> bool {
    b.policy == a.policy && b.command == a.command && b.full_command == a.full_command
        && b.project_dir == a.project_dir
}

/// The outcome decided by the process exit status alone: zero is success,
/// any other status fails with that code, and a termination without status
/// fails as terminated.
pub open spec fn exit_outcome(code: Option<i32>) -> BuildOutcome {
    match code {
        Some(c) => if c == 0 {
            BuildOutcome::Succeeded
        } else {
            BuildOutcome::Failed(BuildError::Exit(c))
        },
        None => BuildOutcome::Failed(BuildError::Terminated),
    }
}

/// Effect of learning the process exit status: cleanup begins and the
/// outcome is fixed by the status alone; nothing else changes.
pub open spec fn exited_rel(pre: BuildRun, post: BuildRun, code: Option<i32>) -> bool {
    same_static(pre, post) && post.phase == BuildPhase::CleaningUp && post.outcome == Some(
        exit_outcome(code),
    ) && post.sandbox_dir == pre.sandbox_dir && post.stdout_open == pre.stdout_open
        && post.stderr_open == pre.stderr_open && post.log == pre.log && post.cleanup_error
        == pre.cleanup_error && post.finished_emitted == pre.finished_emitted
}

/// Effect of finishing cleanup: the build is done, a cleanup failure is
/// recorded as a side observation, and the outcome is exactly what it was —
/// never downgraded.
pub open spec fn cleanup_rel(pre: BuildRun, post: BuildRun, error: Option<String>) -> bool {
    same_static(pre, post) && post.phase == BuildPhase::Done && post.outcome == pre.outcome
        && post.cleanup_error == error && post.sandbox_dir == pre.sandbox_dir && post.stdout_open
        == pre.stdout_open && post.stderr_open == pre.stderr_open && post.log == pre.log
        && post.finished_emitted == pre.finished_emitted
}

/// Starts a build: validates the command against the policy and resolves the
/// toolchain. A rejected command yields a policy violation and no run — so no
/// sandbox and no process. An accepted command yields a run awaiting its
/// sandbox, with the prefixed command fixed and the observer log empty.
pub fn begin_build(
    command: String,
    project_dir: String,
    platform: Option<&str>,
    policy: SecurityConfig,
) -> (r: Result<BuildRun, BuildError>)
    ensures
        match r {
            Ok(run) => {
                &&& spec_validate(
                    command@,
                    policy.enable_sandbox,
                    policy.blocked_commands.deep_view(),
                )
                &&& run.phase == BuildPhase::Sandboxing
                &&& run.policy == policy
                &&& run.command == command
                &&& run.full_command@ == spec_full_command(
                    command@,
                    spec_platform_toolchain(platform),
                )
                &&& run.project_dir == project_dir
                &&& run.sandbox_dir is None
                &&& !run.stdout_open
                &&& !run.stderr_open
                &&& run.log.events@ == Seq::<OutputEvent>::empty()
                &&& run.outcome is None
                &&& run.cleanup_error is None
                &&& !run.finished_emitted
            },
            Err(e) => e == BuildError::PolicyViolation && !spec_validate(
                command@,
                policy.enable_sandbox,
                policy.blocked_commands.deep_view(),
            ),
        },
{
    if !validate_command(command.as_str(), &policy) {
        return Err(BuildError::PolicyViolation);
    }
    let toolchain = match platform {
        Some(p) => toolchain_for_platform(p),
        None => Toolchain::Native,
    };
    let full = full_command(command.as_str(), &toolchain);
    Ok(
        BuildRun {
            phase: BuildPhase::Sandboxing,
            policy,
            command,
            full_command: full,
            project_dir,
            sandbox_dir: None,
            stdout_open: false,
            stderr_open: false,
            log: ObserverLog { events: Vec::new() },
            outcome: None,
            cleanup_error: None,
            finished_emitted: false,
        },
    )
}

/// The toolchain a build request resolves to: the platform's toolchain, or
/// native when no platform is given.
pub open spec fn spec_platform_toolchain(p: Option<&str>) -> Toolchain {
    match p {
        Some(s) => spec_toolchain_for_platform(s@),
        None => Toolchain::Native,
    }
}

impl BuildRun {
    /// The working directory is ready: the build starts running with both
    /// streams open and nothing delivered yet.
    pub fn sandbox_ready(&mut self, dir: String)
        requires
            old(self).phase == BuildPhase::Sandboxing,
        ensures
            same_static(*old(self), *final(self)),
            final(self).phase == BuildPhase::Running,
            final(self).sandbox_dir == Some(dir),
            final(self).stdout_open && final(self).stderr_open,
            final(self).log == old(self).log,
            final(self).outcome == old(self).outcome,
            final(self).cleanup_error == old(self).cleanup_error,
            final(self).finished_emitted == old(self).finished_emitted,
    {
        self.sandbox_dir = Some(dir);
        self.stdout_open = true;
        self.stderr_open = true;
        self.phase = BuildPhase::Running;
    }

    /// Sandbox materialization failed: the build is done with an I/O error;
    /// no process is spawned.
    pub fn sandbox_failed(&mut self, error: String)
        requires
            old(self).phase == BuildPhase::Sandboxing,
        ensures
            same_static(*old(self), *final(self)),
            final(self).phase == BuildPhase::Done,
            final(self).outcome == Some(BuildOutcome::Failed(BuildError::SandboxIo(error))),
            final(self).sandbox_dir == old(self).sandbox_dir,
            final(self).log == old(self).log,
            final(self).cleanup_error == old(self).cleanup_error,
            final(self).finished_emitted == old(self).finished_emitted,
    {
        self.outcome = Some(BuildOutcome::Failed(BuildError::SandboxIo(error)));
        self.phase = BuildPhase::Done;
    }

    /// Delivers one output line to the observer: it is appended to its
    /// stream's deliveries, and the other stream's deliveries are untouched.
    pub fn record_line(&mut self, tag: StreamTag, line: String)
        requires
            old(self).phase == BuildPhase::Running,
            stream_open(*old(self), tag),
        ensures
            same_static(*old(self), *final(self)),
            final(self).phase == BuildPhase::Running,
            final(self).log.events@ == old(self).log.events@.push(OutputEvent { tag, line }),
            lines_of(final(self).log.events@, tag) == lines_of(old(self).log.events@, tag).push(line@),
            forall|other: StreamTag|
                other != tag ==> lines_of(final(self).log.events@, other) == lines_of(
                    old(self).log.events@,
                    other,
                ),
            final(self).sandbox_dir == old(self).sandbox_dir,
            final(self).stdout_open == old(self).stdout_open,
            final(self).stderr_open == old(self).stderr_open,
            final(self).outcome == old(self).outcome,
            final(self).cleanup_error == old(self).cleanup_error,
            final(self).finished_emitted == old(self).finished_emitted,
    {
        let ghost pre = self.log.events@;
        let ghost ev = OutputEvent { tag, line };
        self.log.events.push(OutputEvent { tag, line });
        proof {
            assert forall|t: StreamTag| #[trigger] lines_of(pre.push(ev), t) == if t == tag {
                lines_of(pre, t).push(line@)
            } else {
                lines_of(pre, t)
            } by {
                lemma_filter_push(pre, |e: OutputEvent| e.tag == t, ev);
                if t == tag {
                    assert(pre.filter(|e: OutputEvent| e.tag == t).push(ev).map_values(
                        |e: OutputEvent| e.line@,
                    ) =~= lines_of(pre, t).push(line@));
                }
            }
        }
    }

    /// Delivers a batch of lines from one stream, in order: afterwards that
    /// stream's deliveries are exactly the old ones followed by the batch,
    /// and the other stream's deliveries are untouched.
    pub fn record_lines(&mut self, tag: StreamTag, lines: Vec<String>)
        requires
            old(self).phase == BuildPhase::Running,
            stream_open(*old(self), tag),
        ensures
            same_static(*old(self), *final(self)),
            final(self).phase == BuildPhase::Running,
            lines_of(final(self).log.events@, tag) == lines_of(old(self).log.events@, tag)
                + lines.deep_view(),
            forall|other: StreamTag|
                other != tag ==> lines_of(final(self).log.events@, other) == lines_of(
                    old(self).log.events@,
                    other,
                ),
            final(self).sandbox_dir == old(self).sandbox_dir,
            final(self).stdout_open == old(self).stdout_open,
            final(self).stderr_open == old(self).stderr_open,
            final(self).outcome == old(self).outcome,
            final(self).cleanup_error == old(self).cleanup_error,
            final(self).finished_emitted == old(self).finished_emitted,
    {
        let n = lines.len();
        let mut lines = lines;
        let ghost all = lines.deep_view();
        let mut i: usize = 0;
        proof {
            assert(lines_of(self.log.events@, tag) + all.take(0)
                =~= lines_of(self.log.events@, tag));
        }
        while i < n
            invariant
                n == lines@.len(),
                all == lines.deep_view(),
                i <= n,
                self.phase == BuildPhase::Running,
                stream_open(*self, tag),
                same_static(*old(self), *self),
                lines_of(self.log.events@, tag) == lines_of(old(self).log.events@, tag)
                    + all.take(i as int),
                forall|other: StreamTag|
                    other != tag ==> lines_of(self.log.events@, other) == lines_of(
                        old(self).log.events@,
                        other,
                    ),
                self.sandbox_dir == old(self).sandbox_dir,
                self.stdout_open == old(self).stdout_open,
                self.stderr_open == old(self).stderr_open,
                self.outcome == old(self).outcome,
                self.cleanup_error == old(self).cleanup_error,
                self.finished_emitted == old(self).finished_emitted,
            decreases n - i,
        {
            let line = lines[i].clone();
            proof {
                assert(line@ == all[i as int]);
                assert((lines_of(old(self).log.events@, tag) + all.take(i as int)).push(line@)
                    =~= lines_of(old(self).log.events@, tag) + all.take(i + 1));
            }
            self.record_line(tag, line);
            i += 1;
        }
        proof {
            assert(all.take(n as int) =~= all);
        }
    }

    /// One stream reached end of stream.
    pub fn close_stream(&mut self, tag: StreamTag)
        requires
            old(self).phase == BuildPhase::Running,
        ensures
            same_static(*old(self), *final(self)),
            final(self).phase == BuildPhase::Running,
            final(self).stdout_open == (old(self).stdout_open && tag != StreamTag::Stdout),
            final(self).stderr_open == (old(self).stderr_open && tag != StreamTag::Stderr),
            final(self).log == old(self).log,
            final(self).sandbox_dir == old(self).sandbox_dir,
            final(self).outcome == old(self).outcome,
            final(self).cleanup_error == old(self).cleanup_error,
            final(self).finished_emitted == old(self).finished_emitted,
    {
        match tag {
            StreamTag::Stdout => {
                self.stdout_open = false;
            },
            StreamTag::Stderr => {
                self.stderr_open = false;
            },
        }
    }

    /// The process exit status arrived. Both streams must have been drained
    /// to end of stream first. The outcome is decided by the status alone,
    /// and cleanup begins.
    pub fn process_exited(&mut self, code: Option<i32>)
        requires
            old(self).phase == BuildPhase::Running,
            !old(self).stdout_open,
            !old(self).stderr_open,
        ensures
            exited_rel(*old(self), *final(self), code),
    {
        let outcome = match code {
            Some(c) => if c == 0 {
                BuildOutcome::Succeeded
            } else {
                BuildOutcome::Failed(BuildError::Exit(c))
            },
            None => BuildOutcome::Failed(BuildError::Terminated),
        };
        self.outcome = Some(outcome);
        self.phase = BuildPhase::CleaningUp;
    }

    /// The process could not be spawned: the build has failed, and the
    /// sandbox is still cleaned up.
    pub fn spawn_failed(&mut self, error: String)
        requires
            old(self).phase == BuildPhase::Running,
        ensures
            same_static(*old(self), *final(self)),
            final(self).phase == BuildPhase::CleaningUp,
            final(self).outcome == Some(BuildOutcome::Failed(BuildError::Spawn(error))),
            final(self).sandbox_dir == old(self).sandbox_dir,
            final(self).log == old(self).log,
            final(self).cleanup_error == old(self).cleanup_error,
            final(self).finished_emitted == old(self).finished_emitted,
    {
        self.outcome = Some(BuildOutcome::Failed(BuildError::Spawn(error)));
        self.phase = BuildPhase::CleaningUp;
    }

    /// The build exceeded its configured maximum duration and the process
    /// was terminated: the build has failed with a timeout, and the sandbox
    /// is still cleaned up.
    pub fn timed_out(&mut self)
        requires
            old(self).phase == BuildPhase::Running,
        ensures
            same_static(*old(self), *final(self)),
            final(self).phase == BuildPhase::CleaningUp,
            final(self).outcome == Some(BuildOutcome::Failed(BuildError::Timeout)),
            final(self).sandbox_dir == old(self).sandbox_dir,
            final(self).log == old(self).log,
            final(self).cleanup_error == old(self).cleanup_error,
            final(self).finished_emitted == old(self).finished_emitted,
    {
        self.outcome = Some(BuildOutcome::Failed(BuildError::Timeout));
        self.phase = BuildPhase::CleaningUp;
    }

    /// Cleanup ran. A failure is recorded as a side observation and the
    /// outcome stands exactly as it was: a cleanup error never downgrades a
    /// successful build.
    pub fn cleanup_finished(&mut self, error: Option<String>)
        requires
            old(self).phase == BuildPhase::CleaningUp,
        ensures
            cleanup_rel(*old(self), *final(self), error),
    {
        self.cleanup_error = error;
        self.phase = BuildPhase::Done;
    }

    /// Takes the terminal notification, exactly once, after cleanup was
    /// attempted.
    pub fn take_finished(&mut self) -> (r: BuildOutcome)
        requires
            old(self).phase == BuildPhase::Done,
            !old(self).finished_emitted,
            old(self).outcome is Some,
        ensures
            same_static(*old(self), *final(self)),
            final(self).phase == BuildPhase::Done,
            final(self).finished_emitted,
            Some(r) == old(self).outcome,
            final(self).outcome == old(self).outcome,
            final(self).log == old(self).log,
            final(self).sandbox_dir == old(self).sandbox_dir,
            final(self).cleanup_error == old(self).cleanup_error,
    {
        self.finished_emitted = true;
        match &self.outcome {
            Some(o) => o.clone(),
            None => BuildOutcome::Succeeded,
        }
    }

    /// The configured maximum build duration, to be enforced by the caller.
    pub fn time_limit(&self) -> (r: Option<u32>)
        ensures
            r == self.policy.max_build_time,
    {
        self.policy.max_build_time
    }
}

/// A command that exits with status zero succeeds, and no error is surfaced;
/// a command that exits with any other status fails carrying that exit code —
/// and finishing cleanup, with or without a cleanup error, never changes the
/// outcome.
pub proof fn lemma_exit_status_decides_outcome(
    r0: BuildRun,
    r1: BuildRun,
    r2: BuildRun,
    code: Option<i32>,
    cleanup_error: Option<String>,
)
    requires
        exited_rel(r0, r1, code),
        cleanup_rel(r1, r2, cleanup_error),
    ensures
        r2.phase == BuildPhase::Done,
        r2.outcome == Some(exit_outcome(code)),
        code == Some(0i32) ==> r2.outcome == Some(BuildOutcome::Succeeded),
        forall|c: i32|
            code == Some(c) && c != 0 ==> r2.outcome == Some(
                BuildOutcome::Failed(BuildError::Exit(c)),
            ),
        r2.log == r0.log,
{
}

impl BuildError {
    /// A human-readable description of the failure.
    pub fn message(&self) -> (r: String)
        ensures
            self is PolicyViolation ==> r@ == "Command blocked by security policy"@,
            forall|m: String| *self == BuildError::SandboxIo(m) ==> r@
                == "Failed to create sandbox: "@ + m@,
            forall|m: String| *self == BuildError::Spawn(m) ==> r@
                == "Failed to execute command: "@ + m@,
            forall|c: i32| *self == BuildError::Exit(c) ==> r@ == "Command exited with status: "@
                + crate::strutil::spec_dec_i32(c),
            self is Terminated ==> r@ == "Command terminated by signal"@,
            self is Timeout ==> r@ == "Build exceeded maximum build time"@,
    {
        match self {
            BuildError::PolicyViolation => String::from_str("Command blocked by security policy"),
            BuildError::SandboxIo(m) => crate::strutil::concat2(
                "Failed to create sandbox: ",
                m.as_str(),
            ),
            BuildError::Spawn(m) => crate::strutil::concat2(
                "Failed to execute command: ",
                m.as_str(),
            ),
            BuildError::Exit(c) => {
                let code = crate::strutil::i32_to_dec_string(*c);
                crate::strutil::concat2("Command exited with status: ", code.as_str())
            },
            BuildError::Terminated => String::from_str("Command terminated by signal"),
            BuildError::Timeout => String::from_str("Build exceeded maximum build time"),
        }
    }
}

} // verus!
