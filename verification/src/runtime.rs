use vstd::prelude::*;

use crate::candidate::CandidateError;
use crate::command::{
    basename, file_name, file_name_of, AllowedCommand, CommandAllowlist, CommandOutcome,
    IsolatedCommand, IsolationError, ResourceBounds,
};
use crate::receipt::{outcome_label, outcome_name};
use crate::text::{spec_trim, trim};

verus! {

/// The OpenCode command-line tool, used as a runtime inside the product.
#[derive(Debug, Clone, PartialEq, Eq)]
pub struct OpenCodeBridge {
    executable: String,
}

impl OpenCodeBridge {
    pub closed spec fn spec_executable(&self) -> Seq<char> {
        self.executable@
    }

    /// The tool at a path; an empty path is refused.
    pub fn from_executable(executable: &str) -> (r: Result<Self, String>)
        ensures
            executable@.len() == 0 ==> (r matches Err(m) && m@ == "OpenCode CLI path is empty"@),
            executable@.len() > 0 ==> (r matches Ok(b) && b.spec_executable() == executable@),
    {
        if executable.is_empty() {
            return Err(String::from_str("OpenCode CLI path is empty"));
        }
        Ok(OpenCodeBridge { executable: executable.to_owned() })
    }

    /// The tool found as `opencode` on the search path.
    pub fn detect() -> (r: Option<Self>)
        ensures
            r matches Some(b) && b.spec_executable() == "opencode"@,
    {
        proof {
            reveal_strlit("opencode");
        }
        match Self::from_executable("opencode") {
            Ok(b) => Some(b),
            Err(_) => None,
        }
    }

    pub fn executable(&self) -> (r: &str)
        ensures
            r@ == self.spec_executable(),
    {
        self.executable.as_str()
    }
}

/// The optional OpenCode runtime; its absence is a first-class state.
#[derive(Debug, Clone, PartialEq, Eq)]
pub struct OpenCodeRuntime {
    bridge: Option<OpenCodeBridge>,
}

impl OpenCodeRuntime {
    pub closed spec fn spec_bridge(&self) -> Option<OpenCodeBridge> {
        self.bridge
    }

    pub fn none() -> (r: Self)
        ensures
            r.spec_bridge() is None,
    {
        OpenCodeRuntime { bridge: None }
    }

    pub fn detect() -> (r: Self)
        ensures
            r.spec_bridge() matches Some(b) && b.spec_executable() == "opencode"@,
    {
        OpenCodeRuntime { bridge: OpenCodeBridge::detect() }
    }

    pub fn from_bridge(bridge: OpenCodeBridge) -> (r: Self)
        ensures
            r.spec_bridge() == Some(bridge),
    {
        OpenCodeRuntime { bridge: Some(bridge) }
    }

    pub fn from_executable(executable: &str) -> (r: Result<Self, CandidateError>)
        ensures
            executable@.len() == 0 ==> (r matches Err(CandidateError::PreparationFailed(m)) && m@
                == "OpenCode CLI path is empty"@),
            executable@.len() > 0 ==> (r matches Ok(rt) && rt.spec_bridge() matches Some(b)
                && b.spec_executable() == executable@),
    {
        match OpenCodeBridge::from_executable(executable) {
            Ok(b) => Ok(Self::from_bridge(b)),
            Err(m) => Err(CandidateError::PreparationFailed(m)),
        }
    }

    pub fn is_available(&self) -> (r: bool)
        ensures
            r == self.spec_bridge() is Some,
    {
        self.bridge.is_some()
    }
}

/// Why preparation cannot start, and what the user can do next.
#[derive(Debug, Clone, PartialEq, Eq)]
pub struct UnavailableState {
    pub reason: String,
    pub next_verb: String,
}

impl UnavailableState {
    pub fn no_runtime() -> (r: Self)
        ensures
            r.reason@ == "OpenCode runtime is unavailable."@,
            r.next_verb@ == "Install OpenCode or connect a runtime in Connections to prepare a candidate."@,
    {
        UnavailableState {
            reason: String::from_str("OpenCode runtime is unavailable."),
            next_verb: String::from_str(
                "Install OpenCode or connect a runtime in Connections to prepare a candidate.",
            ),
        }
    }

    /// The reason and the next step, as one sentence pair.
    pub fn message(&self) -> (r: String)
        ensures
            r@ == self.reason@ + " "@ + self.next_verb@,
    {
        self.reason.clone().concat(" ").concat(self.next_verb.as_str())
    }
}

/// How the runtime is run in a disposable clone.
pub struct RuntimePlan {
    pub allowlist: CommandAllowlist,
    pub bounds: ResourceBounds,
    pub command: IsolatedCommand,
}

/// The plan for preparing a candidate through the runtime: the runtime's
/// program, allowed only with `run` and with network, under thirty-second
/// limits, one at a time, called with `run` and the prompt. Without a
/// runtime, the unavailable state.
pub fn runtime_plan(runtime: &OpenCodeRuntime, prompt: &str) -> (r: Result<RuntimePlan, UnavailableState>)
    ensures
        match runtime.spec_bridge() {
            None => r matches Err(u) && u.reason@ == "OpenCode runtime is unavailable."@,
            Some(b) => r matches Ok(p) && {
                &&& p.allowlist.spec_entries().len() == 1
                &&& p.allowlist.spec_entries()[0].program@ == match file_name(b.spec_executable()) {
                    Some(n) => n,
                    None => "opencode"@,
                }
                &&& p.allowlist.spec_entries()[0].arg_prefix@.len() == 1
                &&& p.allowlist.spec_entries()[0].arg_prefix@[0]@ == "run"@
                &&& p.allowlist.spec_entries()[0].network
                &&& p.bounds == ResourceBounds {
                    timeout_millis: 30_000,
                    max_output_bytes: 1_048_576,
                    max_cpu_millis: 30_000,
                    max_concurrency: 1,
                }
                &&& p.command.program@ == b.spec_executable()
                &&& p.command.args@.len() == 2
                &&& p.command.args@[0]@ == "run"@
                &&& p.command.args@[1]@ == prompt@
            },
        },
{
    let bridge = match &runtime.bridge {
        Some(b) => b,
        None => {
            return Err(UnavailableState::no_runtime());
        },
    };
    let name = match file_name_of(bridge.executable.as_str()) {
        Some(n) => n,
        None => String::from_str("opencode"),
    };
    let allowed = AllowedCommand::new(name.as_str()).with_arg_prefix(vec![String::from_str("run")]).with_network(
        true,
    );
    let allowlist = CommandAllowlist::new(vec![allowed]);
    let bounds = ResourceBounds {
        timeout_millis: 30_000,
        max_output_bytes: 1_048_576,
        max_cpu_millis: 30_000,
        max_concurrency: 1,
    };
    let command = IsolatedCommand::new(
        bridge.executable.as_str(),
        vec![String::from_str("run"), prompt.to_owned()],
    );
    Ok(RuntimePlan { allowlist, bounds, command })
}

/// How an isolation failure reads as a preparation failure.
pub fn isolation_to_candidate(error: IsolationError) -> (r: CandidateError)
    ensures
        match error {
            IsolationError::ProjectMutated => r == CandidateError::ProjectMutated,
            IsolationError::PathEscape(p) => r == CandidateError::PathEscape(p),
            IsolationError::GitError(m) => r == CandidateError::GitError(m),
            other => r matches CandidateError::PreparationFailed(m) && m@ == other.spec_message(),
        },
{
    match error {
        IsolationError::ProjectMutated => CandidateError::ProjectMutated,
        IsolationError::PathEscape(p) => CandidateError::PathEscape(p),
        IsolationError::GitError(m) => CandidateError::GitError(m),
        other => CandidateError::PreparationFailed(other.message()),
    }
}

/// The runtime's command must succeed; otherwise preparation failed with
/// its outcome and trimmed error output.
pub fn runtime_result(outcome: CommandOutcome, stderr: &str) -> (r: Result<(), CandidateError>)
    ensures
        outcome == CommandOutcome::Succeeded ==> r is Ok,
        outcome != CommandOutcome::Succeeded ==> (r matches Err(CandidateError::PreparationFailed(m))
            && m@ == "OpenCode runtime "@ + outcome_label(outcome) + ": "@ + spec_trim(stderr@)),
{
    if outcome == CommandOutcome::Succeeded {
        return Ok(());
    }
    Err(
        CandidateError::PreparationFailed(
            String::from_str("OpenCode runtime ").concat(outcome_name(outcome)).concat(": ").concat(
                trim(stderr).as_str(),
            ),
        ),
    )
}

} // verus!
