//! The probes, what each reports on what it observed, and their evaluation
//! in order, stopping at the first that reports a container.

use vstd::prelude::*;

use crate::scan::{cgroup_qualifies, has_marker, mount_table_qualifies, mountinfo_qualifies};

verus! {

/// How many probes the detection runs.
pub const PROBE_COUNT: usize = 4;

/// One of the probes, each tied to a well-known path.
#[derive(Clone, Copy, Debug, PartialEq, Eq, Structural)]
pub enum Probe {
    /// The Docker marker file `/.dockerenv`: existence alone counts.
    DockerEnv,
    /// The marker file `/run/.containerenv` that engines such as Podman
    /// write: existence alone counts.
    ContainerEnv,
    /// The init process's mount table `/proc/1/mountinfo`: a line whose
    /// mount root holds `/docker/` or `/lxc/` counts.
    MountInfo,
    /// The init process's cgroup file `/proc/1/cgroup`: `/docker/` or
    /// `/lxc/` anywhere in it counts.
    CgroupV1,
}

/// What was found at a probe's path.
#[derive(Clone, Debug, PartialEq, Eq)]
pub enum Observation {
    /// The path could not be queried or read: missing, not permitted, or any
    /// other failure.
    Absent,
    /// The path exists; its contents were not read.
    Exists,
    /// The path was read; this is its text.
    Text(String),
}

/// The probes in the order in which they are evaluated.
pub open spec fn probe_order() -> Seq<Probe> {
    seq![Probe::DockerEnv, Probe::ContainerEnv, Probe::MountInfo, Probe::CgroupV1]
}

/// Whether `probe` reports a container on observing `obs`.
pub open spec fn signal(probe: Probe, obs: Observation) -> bool {
    match probe {
        Probe::DockerEnv | Probe::ContainerEnv => !(obs is Absent),
        Probe::MountInfo => match obs {
            Observation::Text(t) => mount_table_qualifies(t@),
            _ => false,
        },
        Probe::CgroupV1 => match obs {
            Observation::Text(t) => has_marker(t@),
            _ => false,
        },
    }
}

/// The answer for a complete set of observations, one per probe in
/// evaluation order: whether any probe reports a container.
pub open spec fn verdict(all: Seq<Observation>) -> bool {
    exists|i: int| 0 <= i < PROBE_COUNT && #[trigger] signal(probe_order()[i], all[i])
}

/// The answer once the first probes have been observed, or `None` while
/// more observations are needed: true as soon as one of them reports a
/// container, false once all have been observed and none did.
pub open spec fn decided(seen: Seq<Observation>) -> Option<bool> {
    if exists|i: int| 0 <= i < seen.len() && #[trigger] signal(probe_order()[i], seen[i]) {
        Some(true)
    } else if seen.len() >= PROBE_COUNT {
        Some(false)
    } else {
        None
    }
}

impl Probe {
    /// The path that this probe inspects.
    pub fn path(&self) -> (r: &'static str)
        ensures
            r@ == probe_path(*self),
    {
        match self {
            Probe::DockerEnv => "/.dockerenv",
            Probe::ContainerEnv => "/run/.containerenv",
            Probe::MountInfo => "/proc/1/mountinfo",
            Probe::CgroupV1 => "/proc/1/cgroup",
        }
    }

    /// Whether this probe needs the text at its path, rather than only
    /// whether the path exists.
    pub fn reads_text(&self) -> (r: bool)
        ensures
            r == (*self is MountInfo || *self is CgroupV1),
    {
        match self {
            Probe::DockerEnv | Probe::ContainerEnv => false,
            Probe::MountInfo | Probe::CgroupV1 => true,
        }
    }

    /// Whether this probe reports a container on observing `obs`.
    pub fn qualifies(&self, obs: &Observation) -> (r: bool)
        ensures
            r == signal(*self, *obs),
    {
        match self {
            Probe::DockerEnv | Probe::ContainerEnv => !matches!(obs, Observation::Absent),
            Probe::MountInfo => match obs {
                Observation::Text(t) => mountinfo_qualifies(t.as_str()),
                _ => false,
            },
            Probe::CgroupV1 => match obs {
                Observation::Text(t) => cgroup_qualifies(t.as_str()),
                _ => false,
            },
        }
    }
}

/// The path that `probe` inspects.
pub open spec fn probe_path(probe: Probe) -> Seq<char> {
    match probe {
        Probe::DockerEnv => "/.dockerenv"@,
        Probe::ContainerEnv => "/run/.containerenv"@,
        Probe::MountInfo => "/proc/1/mountinfo"@,
        Probe::CgroupV1 => "/proc/1/cgroup"@,
    }
}

/// The probe at `index` in evaluation order.
pub fn probe_at(index: usize) -> (r: Probe)
    requires
        index < PROBE_COUNT,
    ensures
        r == probe_order()[index as int],
{
    if index == 0 {
        Probe::DockerEnv
    } else if index == 1 {
        Probe::ContainerEnv
    } else if index == 2 {
        Probe::MountInfo
    } else {
        Probe::CgroupV1
    }
}

/// A detection in progress: the probes run one at a time, in evaluation
/// order, and the first that reports a container settles the answer, so
/// the later ones are never run.
pub struct Detection {
    seen: Ghost<Seq<Observation>>,
    evaluated: usize,
    outcome: Option<bool>,
}

impl Detection {
    /// The observations recorded so far, in evaluation order.
    pub closed spec fn observed(&self) -> Seq<Observation> {
        self.seen@
    }

    /// Every recorded observation but the last reported no container, the
    /// count and the answer agree with what was recorded.
    pub closed spec fn wf(&self) -> bool {
        &&& self.evaluated == self.seen@.len()
        &&& self.evaluated <= PROBE_COUNT
        &&& self.outcome == decided(self.seen@)
        &&& forall|i: int|
            0 <= i < self.seen@.len() - 1 ==> !#[trigger] signal(probe_order()[i], self.seen@[i])
    }

    /// A detection before any probe has run.
    pub fn new() -> (r: Detection)
        ensures
            r.wf(),
            r.observed() == Seq::<Observation>::empty(),
    {
        Detection { seen: Ghost(Seq::empty()), evaluated: 0, outcome: None }
    }

    /// The answer, or `None` while more probes must run.
    pub fn outcome(&self) -> (r: Option<bool>)
        requires
            self.wf(),
        ensures
            r == decided(self.observed()),
    {
        self.outcome
    }

    /// The probe to run next, or `None` once the answer is settled.
    pub fn next_probe(&self) -> (r: Option<Probe>)
        requires
            self.wf(),
        ensures
            decided(self.observed()) is None ==> r == Some(
                probe_order()[self.observed().len() as int],
            ),
            decided(self.observed()) is Some ==> r is None,
    {
        if self.outcome.is_some() {
            None
        } else {
            Some(probe_at(self.evaluated))
        }
    }

    /// Records what the next probe observed, and returns the answer if it is
    /// now settled.
    pub fn record(&mut self, obs: Observation) -> (r: Option<bool>)
        requires
            old(self).wf(),
            decided(old(self).observed()) is None,
        ensures
            final(self).wf(),
            final(self).observed() == old(self).observed().push(obs),
            r == decided(final(self).observed()),
            r == (if signal(probe_order()[old(self).observed().len() as int], obs) {
                Some(true)
            } else if old(self).observed().len() + 1 == PROBE_COUNT {
                Some(false)
            } else {
                None
            }),
    {
        let probe = probe_at(self.evaluated);
        let hit = probe.qualifies(&obs);
        let ghost prev = self.seen@;
        let ghost next = prev.push(obs);
        self.seen = Ghost(next);
        self.evaluated = self.evaluated + 1;
        assert(forall|i: int| 0 <= i < prev.len() ==> next[i] == prev[i]);
        if hit {
            assert(signal(probe_order()[prev.len() as int], next[prev.len() as int]));
            self.outcome = Some(true);
        } else if self.evaluated == PROBE_COUNT {
            self.outcome = Some(false);
        } else {
            self.outcome = None;
        }
        self.outcome
    }
}

/// Stopping early gives the full answer: whenever the observations of the
/// first probes settle the answer, it is the verdict of every complete set
/// of observations that begins with them.
pub proof fn lemma_settled_answer_is_verdict(seen: Seq<Observation>, all: Seq<Observation>)
    requires
        all.len() == PROBE_COUNT,
        seen.len() <= all.len(),
        seen == all.take(seen.len() as int),
        decided(seen) is Some,
    ensures
        decided(seen) == Some(verdict(all)),
{
    if exists|i: int| 0 <= i < seen.len() && #[trigger] signal(probe_order()[i], seen[i]) {
        let i = choose|i: int| 0 <= i < seen.len() && #[trigger] signal(probe_order()[i], seen[i]);
        assert(seen[i] == all[i]);
        assert(signal(probe_order()[i], all[i]));
    } else {
        assert(seen =~= all);
    }
}

/// Where `/.dockerenv` exists, whatever it holds, the answer is true, and
/// it is settled by the first probe alone.
pub proof fn lemma_docker_marker_detects(all: Seq<Observation>)
    requires
        all.len() == PROBE_COUNT,
        !(all[0] is Absent),
    ensures
        verdict(all),
        decided(all.take(1)) == Some(true),
{
    assert(signal(probe_order()[0], all[0]));
    assert(signal(probe_order()[0], all.take(1)[0]));
}

/// Where `/run/.containerenv` exists, whatever it holds, the answer is
/// true.
pub proof fn lemma_container_marker_detects(all: Seq<Observation>)
    requires
        all.len() == PROBE_COUNT,
        !(all[1] is Absent),
    ensures
        verdict(all),
{
    assert(signal(probe_order()[1], all[1]));
}

/// Where neither marker file exists and neither text qualifies (or could
/// not be read), the answer is false.
pub proof fn lemma_no_signal_means_host(all: Seq<Observation>)
    requires
        all.len() == PROBE_COUNT,
        all[0] is Absent,
        all[1] is Absent,
        all[2] is Text ==> !mount_table_qualifies(all[2]->Text_0@),
        all[3] is Text ==> !has_marker(all[3]->Text_0@),
    ensures
        !verdict(all),
        decided(all) == Some(false),
{
    assert(forall|i: int| 0 <= i < PROBE_COUNT ==> !#[trigger] signal(probe_order()[i], all[i]));
}

/// Where none of the four paths can be queried, the answer is false.
pub proof fn lemma_nothing_readable_means_host(all: Seq<Observation>)
    requires
        all.len() == PROBE_COUNT,
        forall|i: int| 0 <= i < PROBE_COUNT ==> #[trigger] all[i] is Absent,
    ensures
        !verdict(all),
        decided(all) == Some(false),
{
    lemma_no_signal_means_host(all);
}

} // verus!
