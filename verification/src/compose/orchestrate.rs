//! Starting a single service.
//!
//! A service that runs is left alone, one that is stopped is started, and one
//! that is not there is built where that is needed, and run.
use vstd::prelude::*;
use vstd::string::*;
use crate::compose::error::{ComposeError, Result};
use crate::compose::types::{ContainerHandle, ContainerInfo};
use crate::text::same;

verus! {

/// What starting a service waits for.
#[derive(Debug, Clone, Copy, PartialEq, Eq, Structural)]
pub enum OrchestratePhase {
    CheckingRunning,
    CheckingExists,
    Starting,
    Building,
    Running,
    Ended,
}

/// What to do next about a service.
#[derive(Debug)]
pub enum OrchestrateStep {
    Inspect,
    Start,
    Build,
    Run,
    /// Nothing more. There is a handle where a new container was run.
    Finish(Option<ContainerHandle>),
    Fail(ComposeError),
}

/// How a step turned out.
#[derive(Debug)]
pub enum OrchestrateReply {
    Inspected(Result<ContainerInfo>),
    Acted(Result<()>),
    Ran(Result<ContainerHandle>),
}

/// Whether an inspection shows a container that runs. A container that is not
/// there does not run; any other failure is one.
pub fn is_running(inspected: Result<ContainerInfo>) -> (r: Result<bool>)
    ensures
        match (inspected, r) {
            (Ok(info), Ok(b)) => b == (info.status@ == "running"@),
            (Err(e), Ok(b)) => e@ is NotFound && !b,
            (Err(e), Err(f)) => !(e@ is NotFound) && f == e,
            (Ok(_), Err(_)) => false,
        },
{
    match inspected {
        Ok(info) => Ok(same(info.status.as_str(), "running")),
        Err(ComposeError::NotFound(_)) => Ok(false),
        Err(e) => Err(e),
    }
}

/// Whether an inspection shows a container at all. No answer is no container.
pub fn is_present(inspected: &Result<ContainerInfo>) -> (r: bool)
    ensures
        r == (*inspected is Ok),
{
    inspected.is_ok()
}

/// The phase that a reply leads to.
pub open spec fn phase_after(
    needs_build: bool,
    phase: OrchestratePhase,
    reply: OrchestrateReply,
) -> OrchestratePhase {
    match (phase, reply) {
        (
            OrchestratePhase::CheckingRunning,
            OrchestrateReply::Inspected(Ok(info)),
        ) => if info.status@ == "running"@ {
            OrchestratePhase::Ended
        } else {
            OrchestratePhase::CheckingExists
        },
        (
            OrchestratePhase::CheckingRunning,
            OrchestrateReply::Inspected(Err(e)),
        ) => if e@ is NotFound {
            OrchestratePhase::CheckingExists
        } else {
            OrchestratePhase::Ended
        },
        (
            OrchestratePhase::CheckingExists,
            OrchestrateReply::Inspected(Ok(_)),
        ) => OrchestratePhase::Starting,
        (
            OrchestratePhase::CheckingExists,
            OrchestrateReply::Inspected(Err(_)),
        ) => if needs_build {
            OrchestratePhase::Building
        } else {
            OrchestratePhase::Running
        },
        (OrchestratePhase::Building, OrchestrateReply::Acted(Ok(_))) => OrchestratePhase::Running,
        _ => OrchestratePhase::Ended,
    }
}

/// Whether a step is the one that belongs to a phase, after a reply.
pub open spec fn step_for(
    phase: OrchestratePhase,
    reply: OrchestrateReply,
    step: OrchestrateStep,
) -> bool {
    match phase {
        OrchestratePhase::CheckingRunning | OrchestratePhase::CheckingExists => step is Inspect,
        OrchestratePhase::Starting => step is Start,
        OrchestratePhase::Building => step is Build,
        OrchestratePhase::Running => step is Run,
        OrchestratePhase::Ended => match reply {
            OrchestrateReply::Ran(Ok(h)) => step == OrchestrateStep::Finish(Some(h)),
            OrchestrateReply::Inspected(Err(e)) => step == OrchestrateStep::Fail(e),
            OrchestrateReply::Acted(Err(e)) => step == OrchestrateStep::Fail(e),
            OrchestrateReply::Ran(Err(e)) => step == OrchestrateStep::Fail(e),
            _ => step == OrchestrateStep::Finish(None),
        },
    }
}

/// Whether a reply answers what starting a service waits for.
pub open spec fn replies(phase: OrchestratePhase, reply: OrchestrateReply) -> bool {
    match phase {
        OrchestratePhase::CheckingRunning
        | OrchestratePhase::CheckingExists => reply is Inspected,
        OrchestratePhase::Starting | OrchestratePhase::Building => reply is Acted,
        OrchestratePhase::Running => reply is Ran,
        OrchestratePhase::Ended => false,
    }
}

/// Takes the reply to the last step for a service, and goes on. The first step
/// is to inspect the container.
pub fn orchestrate_service(
    needs_build: bool,
    phase: OrchestratePhase,
    reply: OrchestrateReply,
) -> (r: (OrchestratePhase, OrchestrateStep))
    requires
        replies(phase, reply),
    ensures
        r.0 == phase_after(needs_build, phase, reply),
        step_for(r.0, reply, r.1),
{
    match reply {
        OrchestrateReply::Inspected(inspected) => match phase {
            OrchestratePhase::CheckingRunning => match is_running(inspected) {
                Ok(true) => (OrchestratePhase::Ended, OrchestrateStep::Finish(None)),
                Ok(false) => (OrchestratePhase::CheckingExists, OrchestrateStep::Inspect),
                Err(e) => (OrchestratePhase::Ended, OrchestrateStep::Fail(e)),
            },
            _ => if is_present(&inspected) {
                (OrchestratePhase::Starting, OrchestrateStep::Start)
            } else if needs_build {
                (OrchestratePhase::Building, OrchestrateStep::Build)
            } else {
                (OrchestratePhase::Running, OrchestrateStep::Run)
            },
        },
        OrchestrateReply::Acted(done) => match done {
            Ok(_) => match phase {
                OrchestratePhase::Building => (OrchestratePhase::Running, OrchestrateStep::Run),
                _ => (OrchestratePhase::Ended, OrchestrateStep::Finish(None)),
            },
            Err(e) => (OrchestratePhase::Ended, OrchestrateStep::Fail(e)),
        },
        OrchestrateReply::Ran(ran) => match ran {
            Ok(h) => (OrchestratePhase::Ended, OrchestrateStep::Finish(Some(h))),
            Err(e) => (OrchestratePhase::Ended, OrchestrateStep::Fail(e)),
        },
    }
}

/// A build comes before the run that needs it, and only where it is needed; a
/// container that is there is never run anew.
pub proof fn lemma_build_precedes_run(
    needs_build: bool,
    phase: OrchestratePhase,
    reply: OrchestrateReply,
)
    requires
        replies(phase, reply),
    ensures
        phase_after(needs_build, phase, reply) is Running ==> if needs_build {
            phase is Building && reply->Acted_0 is Ok
        } else {
            phase is Building || (phase is CheckingExists && reply->Inspected_0 is Err)
        },
        phase_after(needs_build, phase, reply) is Building ==> needs_build,
        phase_after(needs_build, phase, reply) is Starting ==> reply->Inspected_0 is Ok,
{
}

} // verus!
