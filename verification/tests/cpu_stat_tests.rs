use all_smi::cpu_stat::{
    allowed_cpus, container_stat_cores, core_ticks_from_stat, parse_cpu_stat, CoreTicks, StatTicks,
};

const STAT: &str = "cpu  100 0 50 800 50 0 0 0 0 0\n\
cpu1 10 0 5 80 5 0 0\n\
cpu10 7 0 0 1 0 0 0\n\
cpu0 20 0 10 160 10 0 0 0\n\
intr 123 4 5\n\
ctxt 99\n";

#[test]
fn overall_counters_from_summary_line() {
    let r = parse_cpu_stat(STAT);
    assert_eq!(r.overall, Some(StatTicks { total: 1000, active: 150 }));
}

#[test]
fn cores_sorted_by_id() {
    let r = parse_cpu_stat(STAT);
    assert_eq!(
        r.cores,
        vec![
            CoreTicks { core_id: 0, total: 200, active: 30 },
            CoreTicks { core_id: 1, total: 100, active: 15 },
            CoreTicks { core_id: 10, total: 8, active: 7 },
        ]
    );
}

#[test]
fn short_lines_are_skipped() {
    let r = parse_cpu_stat("cpu  1 2 3\ncpu0 1 2 3 4 5 6\ncpu1 1 1 1 1 1 1 1\n");
    assert_eq!(r.overall, None);
    assert_eq!(r.cores, vec![CoreTicks { core_id: 1, total: 7, active: 5 }]);
}

#[test]
fn bad_counters_read_as_zero() {
    let r = parse_cpu_stat("cpu  x 1 1 1 1 1 1\n");
    assert_eq!(r.overall, Some(StatTicks { total: 6, active: 4 }));
}

#[test]
fn equal_ids_keep_text_order() {
    let r = parse_cpu_stat("cpu2 1 0 0 0 0 0 0\ncpu1 2 0 0 0 0 0 0\ncpu2 3 0 0 0 0 0 0\n");
    let ids: Vec<(u32, u128)> = r.cores.iter().map(|c| (c.core_id, c.total)).collect();
    assert_eq!(ids, vec![(1, 2), (2, 1), (2, 3)]);
}

#[test]
fn empty_stat() {
    let r = parse_cpu_stat("");
    assert_eq!(r.overall, None);
    assert!(r.cores.is_empty());
}

#[test]
fn one_core_by_label() {
    assert_eq!(core_ticks_from_stat(STAT, 1), Some(StatTicks { total: 100, active: 15 }));
    assert_eq!(core_ticks_from_stat(STAT, 10), Some(StatTicks { total: 8, active: 7 }));
    assert_eq!(core_ticks_from_stat(STAT, 0), Some(StatTicks { total: 200, active: 30 }));
    assert_eq!(core_ticks_from_stat(STAT, 3), None);
}

#[test]
fn allowed_cpus_from_cpuset_or_count() {
    assert_eq!(allowed_cpus(&Some(vec![2, 5]), 8), vec![2, 5]);
    assert_eq!(allowed_cpus(&None, 4), vec![0, 1, 2, 3]);
    assert_eq!(allowed_cpus(&None, 0), Vec::<u32>::new());
}

#[test]
fn container_cores_follow_allowed_list() {
    assert_eq!(container_stat_cores(STAT, &vec![1, 0]), vec![1, 0]);
    assert_eq!(container_stat_cores(STAT, &vec![10]), vec![10]);
    assert_eq!(container_stat_cores(STAT, &vec![]), Vec::<u32>::new());
}

const FOUR_CPU_STAT: &str = "cpu  1000 0 2000 7000 0 0 0 0 0 0
cpu0 250 0 500 1750 0 0 0 0 0 0
cpu1 250 0 500 1750 0 0 0 0 0 0
cpu2 250 0 500 1750 0 0 0 0 0 0
cpu3 250 0 500 1750 0 0 0 0 0 0";

fn overall_percent(stat: &str) -> f64 {
    let t = parse_cpu_stat(stat).overall.unwrap();
    t.active as f64 / t.total as f64 * 100.0
}

#[test]
fn test_parse_cpu_stat_with_container_limits() {
    // Without container limits: all four cores, (1000 + 2000) / 10000.
    let utilization = overall_percent(FOUR_CPU_STAT);
    let active_cores = container_stat_cores(FOUR_CPU_STAT, &allowed_cpus(&None, 4));
    assert_eq!(utilization, 30.0);
    assert_eq!(active_cores.len(), 4);

    // A cpuset of cpu0 and cpu1 with two effective CPUs: scale 2 / 2.
    let allowed = allowed_cpus(&Some(vec![0, 1]), 4);
    let active_cores = container_stat_cores(FOUR_CPU_STAT, &allowed);
    let utilization = (overall_percent(FOUR_CPU_STAT) * (2.0 / allowed.len() as f64)).min(100.0);
    assert_eq!(utilization, 30.0);
    assert_eq!(active_cores, vec![0, 1]);

    // A quota of half a CPU over four CPUs: 30.0 * (0.5 / 4.0).
    let allowed = allowed_cpus(&None, 4);
    let utilization = (overall_percent(FOUR_CPU_STAT) * (0.5 / allowed.len() as f64)).min(100.0);
    assert!((utilization - 3.75).abs() < 0.01);
}

#[test]
fn test_proc_stat_parsing_with_cpuset() {
    let stat_content = "cpu  1000 0 2000 7000 0 0 0 0 0 0
cpu0 250 0 500 1750 0 0 0 0 0 0
cpu1 250 0 500 1750 0 0 0 0 0 0
cpu2 250 0 500 1750 0 0 0 0 0 0
cpu3 250 0 500 1750 0 0 0 0 0 0
cpu4 250 0 500 1750 0 0 0 0 0 0
cpu5 250 0 500 1750 0 0 0 0 0 0";
    let allowed = allowed_cpus(&Some(vec![0, 1]), 6);
    let active_cores = container_stat_cores(stat_content, &allowed);
    assert_eq!(active_cores, vec![0, 1]);
    let utilization = (overall_percent(stat_content) * (2.0 / allowed.len() as f64)).min(100.0);
    assert!(utilization >= 0.0 && utilization <= 100.0);
}
