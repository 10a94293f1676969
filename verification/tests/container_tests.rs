use all_smi::container::ContainerInfo;

#[test]
fn test_parse_cpuset_range() {
    // Test single CPU
    let result = ContainerInfo::parse_cpuset_range("0");
    assert_eq!(result, Some(vec![0]));

    // Test CPU range
    let result = ContainerInfo::parse_cpuset_range("0-3");
    assert_eq!(result, Some(vec![0, 1, 2, 3]));

    // Test multiple CPUs
    let result = ContainerInfo::parse_cpuset_range("0,2,4");
    assert_eq!(result, Some(vec![0, 2, 4]));

    // Test mixed range and individual CPUs
    let result = ContainerInfo::parse_cpuset_range("0-2,5,7-8");
    assert_eq!(result, Some(vec![0, 1, 2, 5, 7, 8]));

    // Test empty string
    let result = ContainerInfo::parse_cpuset_range("");
    assert_eq!(result, None);

    // Test invalid input
    let result = ContainerInfo::parse_cpuset_range("invalid");
    assert_eq!(result, None);
}

#[test]
fn test_parse_cpuset_range_edges() {
    assert_eq!(ContainerInfo::parse_cpuset_range(" 1 , 3 "), Some(vec![1, 3]));
    assert_eq!(ContainerInfo::parse_cpuset_range("5-3"), None);
    assert_eq!(ContainerInfo::parse_cpuset_range("1-2-3,4"), Some(vec![4]));
    assert_eq!(ContainerInfo::parse_cpuset_range("x,2"), Some(vec![2]));
}

#[test]
fn test_parse_cpu_max() {
    assert_eq!(ContainerInfo::parse_cpu_max("200000 100000\n"), (Some(200000), Some(100000)));
    assert_eq!(ContainerInfo::parse_cpu_max("max 100000"), (None, Some(100000)));
    assert_eq!(ContainerInfo::parse_cpu_max("-1 100000"), (Some(-1), Some(100000)));
    assert_eq!(ContainerInfo::parse_cpu_max("max"), (None, None));
    assert_eq!(ContainerInfo::parse_cpu_max("a b"), (None, None));
}

#[test]
fn test_container_markers_and_shares() {
    assert!(ContainerInfo::cgroup_line_marks_container("0::/docker/abc"));
    assert!(ContainerInfo::cgroup_line_marks_container("1:cpu:/kubepods/pod1"));
    assert!(!ContainerInfo::cgroup_line_marks_container("0::/user.slice"));
    assert_eq!(ContainerInfo::shares_from_weight(100), 1024);
    assert_eq!(ContainerInfo::shares_from_weight(1), 10);
}

fn files(
    cpu_max: Option<&str>,
    quota: Option<&str>,
    period: Option<&str>,
    weight: Option<&str>,
    shares: Option<&str>,
) -> all_smi::container::CgroupCpuFiles {
    all_smi::container::CgroupCpuFiles {
        cpu_max: cpu_max.map(|s| s.to_string()),
        cfs_quota_us: quota.map(|s| s.to_string()),
        cfs_period_us: period.map(|s| s.to_string()),
        cpu_weight: weight.map(|s| s.to_string()),
        cpu_shares: shares.map(|s| s.to_string()),
    }
}

#[test]
fn cgroup_v2_limits() {
    let f = files(Some("50000 100000\n"), None, None, Some("100\n"), None);
    assert_eq!(ContainerInfo::get_cpu_limits(&f), (Some(50000), Some(100000), Some(1024)));
}

#[test]
fn cgroup_v2_max_quota_falls_back_to_v1() {
    let f = files(Some("max 100000\n"), Some("-1\n"), Some("50000\n"), None, Some("512\n"));
    assert_eq!(ContainerInfo::get_cpu_limits(&f), (Some(-1), Some(100000), Some(512)));
}

#[test]
fn cgroup_v1_limits() {
    let f = files(None, Some("25000\n"), Some("100000\n"), None, Some("2048\n"));
    assert_eq!(ContainerInfo::get_cpu_limits(&f), (Some(25000), Some(100000), Some(2048)));
}

#[test]
fn unreadable_weight_number_gives_no_shares() {
    let f = files(None, None, None, Some("x\n"), Some("2048\n"));
    assert_eq!(ContainerInfo::get_cpu_limits(&f), (None, None, None));
}
