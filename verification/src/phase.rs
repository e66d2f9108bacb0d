use vstd::prelude::*;

verus! {

/// The phase of a container as the renderers and the replicated component see it.
#[derive(PartialEq, Eq, Structural, Clone, Copy, Debug)]
pub enum ContainerPhase {
    Pending,
    PullingImage,
    Starting,
    Running,
    Stopping,
    Stopped,
    Failed,
}

/// The phase of a container as the daemon protocol carries it.
#[derive(PartialEq, Eq, Structural, Clone, Copy, Debug)]
pub enum Phase {
    Pending,
    PullingImage,
    Starting,
    Running,
    Stopping,
    Stopped,
    Failed,
}

/// Human-readable name of each phase.
pub open spec fn phase_label(p: ContainerPhase) -> Seq<char> {
    match p {
        ContainerPhase::Pending => "Pending"@,
        ContainerPhase::PullingImage => "Pulling image"@,
        ContainerPhase::Starting => "Starting"@,
        ContainerPhase::Running => "Running"@,
        ContainerPhase::Stopping => "Stopping"@,
        ContainerPhase::Stopped => "Stopped"@,
        ContainerPhase::Failed => "Failed"@,
    }
}

/// The protocol phase with the same name as a container phase.
pub open spec fn to_wire(p: ContainerPhase) -> Phase {
    match p {
        ContainerPhase::Pending => Phase::Pending,
        ContainerPhase::PullingImage => Phase::PullingImage,
        ContainerPhase::Starting => Phase::Starting,
        ContainerPhase::Running => Phase::Running,
        ContainerPhase::Stopping => Phase::Stopping,
        ContainerPhase::Stopped => Phase::Stopped,
        ContainerPhase::Failed => Phase::Failed,
    }
}

/// The container phase with the same name as a protocol phase.
pub open spec fn from_wire(p: Phase) -> ContainerPhase {
    match p {
        Phase::Pending => ContainerPhase::Pending,
        Phase::PullingImage => ContainerPhase::PullingImage,
        Phase::Starting => ContainerPhase::Starting,
        Phase::Running => ContainerPhase::Running,
        Phase::Stopping => ContainerPhase::Stopping,
        Phase::Stopped => ContainerPhase::Stopped,
        Phase::Failed => ContainerPhase::Failed,
    }
}

impl ContainerPhase {
    pub fn label(&self) -> (s: &'static str)
        ensures
            s@ == phase_label(*self),
    {
        match self {
            ContainerPhase::Pending => "Pending",
            ContainerPhase::PullingImage => "Pulling image",
            ContainerPhase::Starting => "Starting",
            ContainerPhase::Running => "Running",
            ContainerPhase::Stopping => "Stopping",
            ContainerPhase::Stopped => "Stopped",
            ContainerPhase::Failed => "Failed",
        }
    }
}

impl From<ContainerPhase> for Phase {
    fn from(p: ContainerPhase) -> (r: Phase) {
        match p {
            ContainerPhase::Pending => Phase::Pending,
            ContainerPhase::PullingImage => Phase::PullingImage,
            ContainerPhase::Starting => Phase::Starting,
            ContainerPhase::Running => Phase::Running,
            ContainerPhase::Stopping => Phase::Stopping,
            ContainerPhase::Stopped => Phase::Stopped,
            ContainerPhase::Failed => Phase::Failed,
        }
    }
}

impl vstd::std_specs::convert::FromSpecImpl<ContainerPhase> for Phase {
    open spec fn obeys_from_spec() -> bool {
        true
    }

    open spec fn from_spec(v: ContainerPhase) -> Phase {
        to_wire(v)
    }
}

impl From<Phase> for ContainerPhase {
    fn from(p: Phase) -> (r: ContainerPhase) {
        match p {
            Phase::Pending => ContainerPhase::Pending,
            Phase::PullingImage => ContainerPhase::PullingImage,
            Phase::Starting => ContainerPhase::Starting,
            Phase::Running => ContainerPhase::Running,
            Phase::Stopping => ContainerPhase::Stopping,
            Phase::Stopped => ContainerPhase::Stopped,
            Phase::Failed => ContainerPhase::Failed,
        }
    }
}

impl vstd::std_specs::convert::FromSpecImpl<Phase> for ContainerPhase {
    open spec fn obeys_from_spec() -> bool {
        true
    }

    open spec fn from_spec(v: Phase) -> ContainerPhase {
        from_wire(v)
    }
}

/// Converting a container phase to its wire form and back gives the phase unchanged.
pub proof fn lemma_wire_roundtrip(p: ContainerPhase)
    ensures
        from_wire(to_wire(p)) == p,
{
}

/// Converting a wire phase to a container phase and back gives the wire phase unchanged.
pub proof fn lemma_container_roundtrip(p: Phase)
    ensures
        to_wire(from_wire(p)) == p,
{
}

/// Different phases have different labels.
pub proof fn lemma_labels_distinct(p: ContainerPhase, q: ContainerPhase)
    ensures
        p != q ==> phase_label(p) != phase_label(q),
{
    reveal_strlit("Pending");
    reveal_strlit("Pulling image");
    reveal_strlit("Starting");
    reveal_strlit("Running");
    reveal_strlit("Stopping");
    reveal_strlit("Stopped");
    reveal_strlit("Failed");
    if p != q {
        let a = phase_label(p);
        let b = phase_label(q);
        if a.len() == b.len() {
            if a[0] == b[0] {
                assert(a[4] != b[4] || a[5] != b[5] || a[6] != b[6]);
            }
        }
    }
}

} // verus!
