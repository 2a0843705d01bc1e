use vstd::prelude::*;

verus! {

/// Where a deployment stands. Images are built, then the target is
/// attached, then the images are flashed, each in build order, and then
/// the program is started.
#[derive(Debug, Clone, Copy, PartialEq, Eq, Structural)]
pub enum Phase {
    Building(usize),
    Attaching,
    Flashing(usize),
    Starting,
    Running,
    Failed,
}

/// What the caller is to do next.
#[derive(Debug, Clone, Copy, PartialEq, Eq, Structural)]
pub enum Command {
    /// Build the image at this position of the build order.
    Build(usize),
    /// Open the one connection to the target.
    Attach,
    /// Write the image at this position of the build order to flash.
    Flash(usize),
    /// Start the program on the target.
    Start,
    /// Monitor the running program.
    Monitor,
    /// Stop: the deployment failed.
    Stop,
}

/// Why a deployment stopped before the program ran.
#[derive(Debug)]
pub enum DeployError {
    BuildFailed { image: String, cause: String },
    ProbeUnavailable { cause: String },
    FlashWriteFailed { image: String, cause: String },
    TargetUnresponsive { cause: String },
}

/// The first phase of a deployment of `n` images.
pub open spec fn start_phase(n: nat) -> Phase {
    if n == 0 {
        Phase::Attaching
    } else {
        Phase::Building(0)
    }
}

/// The phase after the current step succeeded (`ok`) or failed.
pub open spec fn advance(p: Phase, n: nat, ok: bool) -> Phase {
    match p {
        Phase::Building(i) => if !ok {
            Phase::Failed
        } else if i + 1 < n {
            Phase::Building((i + 1) as usize)
        } else {
            Phase::Attaching
        },
        Phase::Attaching => if !ok {
            Phase::Failed
        } else if n > 0 {
            Phase::Flashing(0)
        } else {
            Phase::Starting
        },
        Phase::Flashing(i) => if !ok {
            Phase::Failed
        } else if i + 1 < n {
            Phase::Flashing((i + 1) as usize)
        } else {
            Phase::Starting
        },
        Phase::Starting => if ok {
            Phase::Running
        } else {
            Phase::Failed
        },
        Phase::Running => Phase::Running,
        Phase::Failed => Phase::Failed,
    }
}

/// The command that a phase asks for.
pub open spec fn command_of(p: Phase) -> Command {
    match p {
        Phase::Building(i) => Command::Build(i),
        Phase::Attaching => Command::Attach,
        Phase::Flashing(i) => Command::Flash(i),
        Phase::Starting => Command::Start,
        Phase::Running => Command::Monitor,
        Phase::Failed => Command::Stop,
    }
}

/// The phase reached after the steps whose outcomes are `results`.
pub open spec fn phase_after(n: nat, results: Seq<bool>) -> Phase
    decreases results.len(),
{
    if results.len() == 0 {
        start_phase(n)
    } else {
        advance(phase_after(n, results.drop_last()), n, results.last())
    }
}

/// The phase is one that a deployment of `n` images can be in.
pub open spec fn phase_valid(p: Phase, n: nat) -> bool {
    match p {
        Phase::Building(i) => i < n,
        Phase::Flashing(i) => i < n,
        _ => true,
    }
}

/// The deployment of a set of images in build order.
pub struct Deployment {
    order: Vec<String>,
    phase: Phase,
    error: Option<DeployError>,
}

impl Deployment {
    pub closed spec fn order_view(&self) -> Seq<String> {
        self.order@
    }

    pub closed spec fn phase_view(&self) -> Phase {
        self.phase
    }

    pub closed spec fn error_view(&self) -> Option<DeployError> {
        self.error
    }

    pub closed spec fn wf(&self) -> bool {
        &&& phase_valid(self.phase, self.order@.len())
        &&& (self.phase is Failed <==> self.error is Some)
    }

    /// A deployment of the images in `order`, which is a build order.
    pub fn new(order: Vec<String>) -> (r: Self)
        ensures
            r.wf(),
            r.order_view() == order@,
            r.phase_view() == start_phase(order@.len()),
    {
        let phase = if order.len() == 0 {
            Phase::Attaching
        } else {
            Phase::Building(0)
        };
        Deployment { order, phase, error: None }
    }

    /// The images in build order.
    pub fn order(&self) -> (r: &Vec<String>)
        ensures
            r@ == self.order_view(),
    {
        &self.order
    }

    pub fn phase(&self) -> (r: Phase)
        ensures
            r == self.phase_view(),
    {
        self.phase
    }

    /// Why the deployment failed, once it has.
    pub fn error(&self) -> (r: &Option<DeployError>)
        ensures
            r == self.error_view(),
    {
        &self.error
    }

    /// What to do next.
    pub fn next_command(&self) -> (r: Command)
        ensures
            r == command_of(self.phase_view()),
    {
        match self.phase {
            Phase::Building(i) => Command::Build(i),
            Phase::Attaching => Command::Attach,
            Phase::Flashing(i) => Command::Flash(i),
            Phase::Starting => Command::Start,
            Phase::Running => Command::Monitor,
            Phase::Failed => Command::Stop,
        }
    }

    /// Records how the command last asked for went. A failure ends the
    /// deployment: nothing is built or flashed after it.
    pub fn record(&mut self, result: Result<(), String>)
        requires
            old(self).wf(),
        ensures
            final(self).wf(),
            final(self).order_view() == old(self).order_view(),
            final(self).phase_view() == advance(
                old(self).phase_view(),
                old(self).order_view().len(),
                result is Ok,
            ),
            old(self).phase_view() is Failed || old(self).phase_view() is Running ==> *final(self)
                == *old(self),
            match (old(self).phase_view(), result) {
                (Phase::Building(i), Err(cause)) => final(self).error_view() == Some(
                    DeployError::BuildFailed { image: old(self).order_view()[i as int], cause },
                ),
                (Phase::Attaching, Err(cause)) => final(self).error_view() == Some(
                    DeployError::ProbeUnavailable { cause },
                ),
                (Phase::Flashing(i), Err(cause)) => final(self).error_view() == Some(
                    DeployError::FlashWriteFailed { image: old(self).order_view()[i as int], cause },
                ),
                (Phase::Starting, Err(cause)) => final(self).error_view() == Some(
                    DeployError::TargetUnresponsive { cause },
                ),
                _ => true,
            },
    {
        let n = self.order.len();
        match self.phase {
            Phase::Building(i) => {
                match result {
                    Ok(()) => {
                        self.phase = if i + 1 < n {
                            Phase::Building(i + 1)
                        } else {
                            Phase::Attaching
                        };
                    },
                    Err(cause) => {
                        let image = self.order[i].clone();
                        self.error = Some(DeployError::BuildFailed { image, cause });
                        self.phase = Phase::Failed;
                    },
                }
            },
            Phase::Attaching => {
                match result {
                    Ok(()) => {
                        self.phase = if n > 0 {
                            Phase::Flashing(0)
                        } else {
                            Phase::Starting
                        };
                    },
                    Err(cause) => {
                        self.error = Some(DeployError::ProbeUnavailable { cause });
                        self.phase = Phase::Failed;
                    },
                }
            },
            Phase::Flashing(i) => {
                match result {
                    Ok(()) => {
                        self.phase = if i + 1 < n {
                            Phase::Flashing(i + 1)
                        } else {
                            Phase::Starting
                        };
                    },
                    Err(cause) => {
                        let image = self.order[i].clone();
                        self.error = Some(DeployError::FlashWriteFailed { image, cause });
                        self.phase = Phase::Failed;
                    },
                }
            },
            Phase::Starting => {
                match result {
                    Ok(()) => {
                        self.phase = Phase::Running;
                    },
                    Err(cause) => {
                        self.error = Some(DeployError::TargetUnresponsive { cause });
                        self.phase = Phase::Failed;
                    },
                }
            },
            Phase::Running => {},
            Phase::Failed => {},
        }
    }
}

/// Once a step fails, the deployment stays failed.
proof fn lemma_failed_stays(n: nat, results: Seq<bool>, m: int)
    requires
        0 <= m <= results.len(),
        phase_after(n, results.take(m)) is Failed,
    ensures
        phase_after(n, results) is Failed,
    decreases results.len() - m,
{
    if m < results.len() {
        let next = results.take(m + 1);
        assert(next.drop_last() =~= results.take(m));
        lemma_failed_stays(n, results, m + 1);
    } else {
        assert(results.take(m) =~= results);
    }
}

/// While every build so far succeeded, the images are built one after
/// another in build order.
proof fn lemma_builds_in_order(n: nat, results: Seq<bool>)
    requires
        n <= usize::MAX,
        results.len() < n,
        forall|j: int| 0 <= j < results.len() ==> results[j],
    ensures
        phase_after(n, results) == Phase::Building(results.len() as usize),
    decreases results.len(),
{
    if results.len() > 0 {
        lemma_builds_in_order(n, results.drop_last());
        assert(results.last());
    }
}

/// When the build of the image at position `i` of the build order fails,
/// after the images before it were built, no later image is ever built and
/// no image is ever flashed or started, whatever the later steps report.
pub proof fn lemma_build_failure_stops_deployment(n: nat, results: Seq<bool>, i: int)
    requires
        n <= usize::MAX,
        0 <= i < n,
        i < results.len(),
        forall|j: int| 0 <= j < i ==> results[j],
        !results[i],
    ensures
        forall|m: int|
            0 <= m <= i ==> #[trigger] phase_after(n, results.take(m)) == Phase::Building(
                m as usize,
            ),
        forall|m: int|
            i < m <= results.len() ==> #[trigger] phase_after(n, results.take(m)) is Failed,
        forall|m: int|
            0 <= m <= results.len() ==> match command_of(#[trigger] phase_after(n, results.take(m))) {
                Command::Build(j) => j <= i,
                Command::Flash(_) => false,
                Command::Attach => false,
                Command::Start => false,
                Command::Monitor => false,
                Command::Stop => true,
            },
{
    assert forall|m: int| 0 <= m <= i implies #[trigger] phase_after(n, results.take(m))
        == Phase::Building(m as usize) by {
        lemma_builds_in_order(n, results.take(m));
    }
    let failed_at = results.take(i + 1);
    assert(failed_at.drop_last() =~= results.take(i));
    assert(failed_at.last() == results[i]);
    assert(phase_after(n, results.take(i)) == Phase::Building(i as usize));
    assert(phase_after(n, failed_at) is Failed);
    assert forall|m: int| i < m <= results.len() implies #[trigger] phase_after(
        n,
        results.take(m),
    ) is Failed by {
        let r = results.take(m);
        assert(r.take(i + 1) =~= failed_at);
        lemma_failed_stays(n, r, i + 1);
    }
}

} // verus!
