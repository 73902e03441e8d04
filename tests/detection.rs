use is_container::detection::{probe_at, Detection, Observation, Probe, PROBE_COUNT};

fn run(all: Vec<Observation>) -> (Option<bool>, Vec<Probe>) {
    let mut detection = Detection::new();
    let mut asked = Vec::new();
    let mut all = all.into_iter();
    while let Some(probe) = detection.next_probe() {
        asked.push(probe);
        detection.record(all.next().unwrap());
    }
    (detection.outcome(), asked)
}

fn text(s: &str) -> Observation {
    Observation::Text(s.to_string())
}

#[test]
fn probes_run_in_order() {
    assert_eq!(PROBE_COUNT, 4);
    assert_eq!(probe_at(0), Probe::DockerEnv);
    assert_eq!(probe_at(1), Probe::ContainerEnv);
    assert_eq!(probe_at(2), Probe::MountInfo);
    assert_eq!(probe_at(3), Probe::CgroupV1);
}

#[test]
fn probe_paths() {
    assert_eq!(Probe::DockerEnv.path(), "/.dockerenv");
    assert_eq!(Probe::ContainerEnv.path(), "/run/.containerenv");
    assert_eq!(Probe::MountInfo.path(), "/proc/1/mountinfo");
    assert_eq!(Probe::CgroupV1.path(), "/proc/1/cgroup");
    assert!(!Probe::DockerEnv.reads_text());
    assert!(!Probe::ContainerEnv.reads_text());
    assert!(Probe::MountInfo.reads_text());
    assert!(Probe::CgroupV1.reads_text());
}

#[test]
fn docker_marker_settles_at_once() {
    let (outcome, asked) = run(vec![Observation::Exists]);
    assert_eq!(outcome, Some(true));
    assert_eq!(asked, vec![Probe::DockerEnv]);
}

#[test]
fn docker_marker_counts_whatever_it_holds() {
    assert!(Probe::DockerEnv.qualifies(&text("")));
    assert!(Probe::DockerEnv.qualifies(&text("anything")));
    assert!(!Probe::DockerEnv.qualifies(&Observation::Absent));
}

#[test]
fn container_marker_detects() {
    let (outcome, asked) = run(vec![Observation::Absent, Observation::Exists]);
    assert_eq!(outcome, Some(true));
    assert_eq!(asked, vec![Probe::DockerEnv, Probe::ContainerEnv]);
}

#[test]
fn nothing_readable_means_host() {
    let (outcome, asked) = run(vec![
        Observation::Absent,
        Observation::Absent,
        Observation::Absent,
        Observation::Absent,
    ]);
    assert_eq!(outcome, Some(false));
    assert_eq!(asked.len(), 4);
}

#[test]
fn nothing_qualifies_means_host() {
    let (outcome, _) = run(vec![
        Observation::Absent,
        Observation::Absent,
        text("36 35 98:0 /mnt1 /mnt2 rw - ext3 /dev/docker rw\n"),
        text("0::/init.scope\n"),
    ]);
    assert_eq!(outcome, Some(false));
}

#[test]
fn only_mountinfo_with_docker_root() {
    let (outcome, asked) = run(vec![
        Observation::Absent,
        Observation::Absent,
        text("123 1 0:1 /docker/xyz / rw shared:1 - overlay none rw"),
    ]);
    assert_eq!(outcome, Some(true));
    assert_eq!(asked, vec![Probe::DockerEnv, Probe::ContainerEnv, Probe::MountInfo]);
}

#[test]
fn only_cgroup_with_docker() {
    let (outcome, asked) = run(vec![
        Observation::Absent,
        Observation::Absent,
        Observation::Absent,
        text("11:pids:/docker/abc123"),
    ]);
    assert_eq!(outcome, Some(true));
    assert_eq!(asked.len(), 4);
}

#[test]
fn text_probe_needs_text() {
    assert!(!Probe::MountInfo.qualifies(&Observation::Exists));
    assert!(!Probe::CgroupV1.qualifies(&Observation::Exists));
}

#[test]
fn record_reports_settled_answer() {
    let mut detection = Detection::new();
    assert_eq!(detection.outcome(), None);
    assert_eq!(detection.record(Observation::Absent), None);
    assert_eq!(detection.next_probe(), Some(Probe::ContainerEnv));
    assert_eq!(detection.record(Observation::Exists), Some(true));
    assert_eq!(detection.next_probe(), None);
    assert_eq!(detection.outcome(), Some(true));
}
