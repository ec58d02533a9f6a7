//! A backend that does nothing but take note of what it is asked to do.
use vstd::prelude::*;
use vstd::string::*;
use crate::compose::error::{ComposeError, ErrorView, Result};
use crate::compose::maps::OrderedMap;
use crate::compose::types::{
    text_opt, ContainerHandle, ContainerInfo, ContainerInfoView, ContainerSpec,
};
use crate::text::{join2, texts};

verus! {

/// What every inspection of a container finds.
#[derive(Debug, Clone, Copy, PartialEq, Eq, Structural)]
pub enum InspectMode {
    Running,
    Stopped,
    NotFound,
}

impl Default for InspectMode {
    fn default() -> (r: InspectMode)
        ensures
            r == InspectMode::Running,
    {
        InspectMode::Running
    }
}

/// A call that was made.
#[derive(Debug)]
pub enum RecordedCall {
    Run(ContainerSpec),
    Create(ContainerSpec),
    Start(String),
    Stop(String, Option<u32>),
    Remove(String, bool),
    List(bool),
    Inspect(String),
    Logs(String, Option<u32>),
    Exec(String, Vec<String>),
    Build(String),
    CreateNetwork(String),
    RemoveNetwork(String),
    CreateVolume(String),
    RemoveVolume(String),
    Wait(String),
}

/// A backend that takes note of its calls.
#[derive(Debug)]
pub struct MockBackend {
    pub name: String,
    pub calls: Vec<RecordedCall>,
    pub inspect_mode: InspectMode,
}

/// The container that an inspection finds.
pub open spec fn mock_info(id: Seq<char>, running: bool) -> ContainerInfoView {
    ContainerInfoView {
        id,
        name: id,
        image: "mock-image"@,
        status: if running {
            "running"@
        } else {
            "exited"@
        },
        ports: Seq::empty(),
        labels: Seq::empty(),
        created: "2024-01-01T00:00:00Z"@,
        ip_address: "172.17.0.2"@,
    }
}

impl MockBackend {
    /// A backend with a name.
    pub fn named(name: &str) -> (r: MockBackend)
        ensures
            r.name@ == name@,
            r.calls@ == Seq::<RecordedCall>::empty(),
            r.inspect_mode == InspectMode::Running,
    {
        MockBackend {
            name: name.to_owned(),
            calls: Vec::new(),
            inspect_mode: InspectMode::Running,
        }
    }

    /// A backend without a name of its own.
    pub fn new() -> (r: MockBackend)
        ensures
            r.name@ == "mock"@,
            r.calls@ == Seq::<RecordedCall>::empty(),
            r.inspect_mode == InspectMode::Running,
    {
        Self::named("mock")
    }

    /// The calls so far.
    pub fn recorded_calls(&self) -> (r: &Vec<RecordedCall>)
        ensures
            r == &self.calls,
    {
        &self.calls
    }

    /// Lets every inspection find a container that runs, or one that does not.
    pub fn set_inspect_running(&mut self, running: bool)
        ensures
            final(self).inspect_mode == if running {
                InspectMode::Running
            } else {
                InspectMode::Stopped
            },
            final(self).calls == old(self).calls,
            final(self).name == old(self).name,
    {
        self.inspect_mode = if running {
            InspectMode::Running
        } else {
            InspectMode::Stopped
        };
    }

    /// Lets every inspection find nothing.
    pub fn set_inspect_not_found(&mut self)
        ensures
            final(self).inspect_mode == InspectMode::NotFound,
            final(self).calls == old(self).calls,
            final(self).name == old(self).name,
    {
        self.inspect_mode = InspectMode::NotFound;
    }

    /// Takes note of a call.
    pub fn record(&mut self, call: RecordedCall)
        ensures
            final(self).calls@ == old(self).calls@.push(call),
            final(self).inspect_mode == old(self).inspect_mode,
            final(self).name == old(self).name,
    {
        self.calls.push(call);
    }

    /// What an inspection finds.
    pub fn inspect(&mut self, id: &str) -> (r: Result<ContainerInfo>)
        ensures
            final(self).inspect_mode == old(self).inspect_mode,
            final(self).name == old(self).name,
            final(self).calls@.len() == old(self).calls@.len() + 1,
            final(self).calls@.drop_last() == old(self).calls@,
            final(self).calls@.last() matches RecordedCall::Inspect(s) && s@ == id@,
            match r {
                Ok(info) => old(self).inspect_mode != InspectMode::NotFound && info@ == mock_info(
                    id@,
                    old(self).inspect_mode == InspectMode::Running,
                ),
                Err(e) => old(self).inspect_mode == InspectMode::NotFound && e@
                    == ErrorView::NotFound(id@),
            },
    {
        let ghost before = self.calls@;
        self.record(RecordedCall::Inspect(id.to_owned()));
        assert(self.calls@.drop_last() =~= before);
        let status = match self.inspect_mode {
            InspectMode::NotFound => {
                return Err(ComposeError::NotFound(id.to_owned()));
            },
            InspectMode::Running => "running".to_owned(),
            InspectMode::Stopped => "exited".to_owned(),
        };
        let ports: Vec<String> = Vec::new();
        let labels: OrderedMap<String> = OrderedMap::new();
        assert(texts(ports@) =~= Seq::<Seq<char>>::empty());
        assert(labels.pairs() =~= Seq::empty());
        Ok(
            ContainerInfo {
                id: id.to_owned(),
                name: id.to_owned(),
                image: "mock-image".to_owned(),
                status,
                ports,
                labels,
                created: "2024-01-01T00:00:00Z".to_owned(),
                ip_address: "172.17.0.2".to_owned(),
            },
        )
    }

    /// Runs a container.
    pub fn run(&mut self, spec: &ContainerSpec) -> (r: ContainerHandle)
        ensures
            final(self).inspect_mode == old(self).inspect_mode,
            final(self).name == old(self).name,
            final(self).calls@.len() == old(self).calls@.len() + 1,
            final(self).calls@.drop_last() == old(self).calls@,
            final(self).calls@.last() matches RecordedCall::Run(s) && s@ == spec@,
            r.id@ == "mock-"@ + match spec@.name {
                Some(n) => n,
                None => "id"@,
            },
            text_opt(r.name) == spec@.name,
    {
        let ghost before = self.calls@;
        self.record(RecordedCall::Run(spec.clone()));
        assert(self.calls@.drop_last() =~= before);
        match &spec.name {
            Some(n) => ContainerHandle { id: join2("mock-", n.as_str()), name: Some(n.clone()) },
            None => ContainerHandle { id: join2("mock-", "id"), name: None },
        }
    }
}

impl Default for MockBackend {
    fn default() -> (r: MockBackend)
        ensures
            r.name@ == "mock"@,
            r.calls@ == Seq::<RecordedCall>::empty(),
            r.inspect_mode == InspectMode::Running,
    {
        MockBackend::new()
    }
}

} // verus!
