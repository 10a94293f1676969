//! Container CPU limits: the CPU list of a cpuset, the quota and period of
//! `cpu.max`, shares from a cgroup weight, and the cgroup paths that mark a
//! container.
use vstd::prelude::*;
use crate::number::{parse_i64_seq, parse_unsigned};
use crate::text::{
    chars_of, contains_seq, span_contains, span_eq, split_seq, split_spans, split_ws_seq,
    spans_view, spans_within, trim_seq, trim_span, ws_token_spans,
};
use crate::number::{parse_i64_span, parse_u32_span, parse_u64_span};

verus! {

/// Quota and period that the text of `cpu.max` gives.
pub open spec fn cpu_max_spec(content: Seq<char>) -> (Option<i64>, Option<u64>) {
    let w = split_ws_seq(trim_seq(content));
    if w.len() == 2 {
        (
            if w[0] == "max"@ {
                None
            } else {
                match parse_i64_seq(w[0]) {
                    Some(q) => Some(q as i64),
                    None => None,
                }
            },
            match parse_unsigned(w[1], 10, u64::MAX as nat) {
                Some(p) => Some(p as u64),
                None => None,
            },
        )
    } else {
        (None, None)
    }
}

/// A trimmed file text read as an `i64`.
pub open spec fn trimmed_i64(t: Seq<char>) -> Option<i64> {
    match parse_i64_seq(trim_seq(t)) {
        Some(q) => Some(q as i64),
        None => None,
    }
}

/// A trimmed file text read as a `u64`.
pub open spec fn trimmed_u64(t: Seq<char>) -> Option<u64> {
    match parse_unsigned(trim_seq(t), 10, u64::MAX as nat) {
        Some(v) => Some(v as u64),
        None => None,
    }
}

/// The texts of the cgroup files that give CPU limits, `None` for a file
/// that could not be read: `cpu.max`, `cpu.weight` (cgroup v2) and
/// `cpu.cfs_quota_us`, `cpu.cfs_period_us`, `cpu.shares` (cgroup v1).
pub struct CgroupCpuFiles {
    pub cpu_max: Option<String>,
    pub cfs_quota_us: Option<String>,
    pub cfs_period_us: Option<String>,
    pub cpu_weight: Option<String>,
    pub cpu_shares: Option<String>,
}

/// Quota, period and shares from the cgroup files: `cpu.max` first, the
/// cgroup v1 quota and period for what it does not give; shares from the
/// weight when `cpu.weight` could be read, else from `cpu.shares`.
pub open spec fn cpu_limits_spec(f: CgroupCpuFiles) -> (Option<i64>, Option<u64>, Option<u64>) {
    let (q2, p2) = match f.cpu_max {
        Some(c) => cpu_max_spec(c@),
        None => (None, None),
    };
    (
        if q2 is Some {
            q2
        } else {
            match f.cfs_quota_us {
                Some(t) => trimmed_i64(t@),
                None => None,
            }
        },
        if p2 is Some {
            p2
        } else {
            match f.cfs_period_us {
                Some(t) => trimmed_u64(t@),
                None => None,
            }
        },
        match f.cpu_weight {
            Some(w) => match trimmed_u64(w@) {
                Some(x) => Some((x * 1024 / 100) as u64),
                None => None,
            },
            None => match f.cpu_shares {
                Some(t) => trimmed_u64(t@),
                None => None,
            },
        },
    )
}

fn trimmed_i64_of(t: &String) -> (r: Option<i64>)
    ensures
        r == trimmed_i64(t@),
{
    let v = chars_of(t.as_str());
    let n = v.len();
    assert(v@.subrange(0, n as int) =~= v@);
    let (a, b) = trim_span(&v, 0, n);
    parse_i64_span(&v, a, b)
}

fn trimmed_u64_of(t: &String) -> (r: Option<u64>)
    ensures
        r == trimmed_u64(t@),
{
    let v = chars_of(t.as_str());
    let n = v.len();
    assert(v@.subrange(0, n as int) =~= v@);
    let (a, b) = trim_span(&v, 0, n);
    parse_u64_span(&v, a, b)
}

/// CPU limits of the container the program runs in.
pub struct ContainerInfo {
    pub is_container: bool,
    pub cpu_quota: Option<i64>,
    pub cpu_period: Option<u64>,
    pub cpu_shares: Option<u64>,
    pub cpuset_cpus: Option<Vec<u32>>,
}

/// The CPUs `start..=end`.
pub open spec fn cpu_range(start: u32, end: u32) -> Seq<u32> {
    if start <= end {
        Seq::new((end - start + 1) as nat, |i: int| (start + i) as u32)
    } else {
        Seq::empty()
    }
}

/// A `u32` in decimal.
pub open spec fn u32_of(s: Seq<char>) -> Option<u32> {
    match parse_unsigned(s, 10, u32::MAX as nat) {
        Some(v) => Some(v as u32),
        None => None,
    }
}

/// The CPUs of one comma-separated part of a cpuset: `a-b` for a range,
/// else a single CPU; nothing for a part that is neither.
pub open spec fn cpuset_part(p: Seq<char>) -> Seq<u32> {
    let t = trim_seq(p);
    if contains_seq(t, seq!['-']) {
        let r = split_seq(t, '-');
        if r.len() == 2 {
            match (u32_of(r[0]), u32_of(r[1])) {
                (Some(a), Some(b)) => cpu_range(a, b),
                _ => Seq::empty(),
            }
        } else {
            Seq::empty()
        }
    } else {
        match u32_of(t) {
            Some(c) => seq![c],
            None => Seq::empty(),
        }
    }
}

/// The CPUs of the first `n` parts, in order.
pub open spec fn cpuset_parts(ps: Seq<Seq<char>>, n: nat) -> Seq<u32>
    decreases n,
{
    if n == 0 {
        Seq::empty()
    } else {
        cpuset_parts(ps, (n - 1) as nat) + cpuset_part(ps[n - 1])
    }
}

/// The CPUs of a cpuset list such as `0-3,8`, or `None` when it names none.
pub open spec fn cpuset_spec(s: Seq<char>) -> Option<Seq<u32>> {
    let ps = split_seq(s, ',');
    let cpus = cpuset_parts(ps, ps.len());
    if cpus.len() == 0 {
        None
    } else {
        Some(cpus)
    }
}

fn push_range(out: &mut Vec<u32>, start: u32, end: u32)
    ensures
        final(out)@ == old(out)@ + cpu_range(start, end),
{
    if start > end {
        assert(old(out)@ + cpu_range(start, end) =~= old(out)@);
        return;
    }
    let mut c: u64 = start as u64;
    while c <= end as u64
        invariant
            start <= end,
            start <= c <= end as u64 + 1,
            out@ == old(out)@ + cpu_range(start, end).subrange(0, c - start),
        decreases end as u64 + 1 - c,
    {
        out.push(c as u32);
        assert(cpu_range(start, end).subrange(0, c + 1 - start) =~= cpu_range(start, end).subrange(
            0,
            c - start,
        ).push(c as u32));
        c = c + 1;
    }
    assert(cpu_range(start, end).subrange(0, end - start + 1) =~= cpu_range(start, end));
}

fn u32_span(v: &Vec<char>, lo: usize, hi: usize) -> (r: Option<u32>)
    requires
        lo <= hi <= v@.len(),
    ensures
        r == u32_of(v@.subrange(lo as int, hi as int)),
{
    parse_u32_span(v, lo, hi)
}

impl ContainerInfo {
    /// The CPUs of a cpuset list such as `0-3,8`: ranges expanded in order,
    /// parts that are no number or range skipped; `None` when no CPU is
    /// named.
    pub fn parse_cpuset_range(cpuset_str: &str) -> (r: Option<Vec<u32>>)
        ensures
            match r {
                Some(v) => cpuset_spec(cpuset_str@) == Some(v@),
                None => cpuset_spec(cpuset_str@) is None,
            },
    {
        let v = chars_of(cpuset_str);
        let n = v.len();
        assert(v@.subrange(0, n as int) =~= v@);
        let parts = split_spans(&v, 0, n, ',');
        let ghost ps = split_seq(cpuset_str@, ',');
        let mut cpus: Vec<u32> = Vec::new();
        let dash = vec!['-'];
        assert(dash@ =~= seq!['-']);
        let mut i: usize = 0;
        while i < parts.len()
            invariant
                i <= parts@.len(),
                n == v@.len(),
                v@ == cpuset_str@,
                dash@ == seq!['-'],
                spans_view(v@, parts@) == ps,
                spans_within(parts@, 0, n as int),
                cpus@ == cpuset_parts(ps, i as nat),
            decreases parts.len() - i,
        {
            let (plo, phi) = parts[i];
            assert(ps[i as int] == v@.subrange(plo as int, phi as int));
            let (a, b) = trim_span(&v, plo, phi);
            let ghost t = v@.subrange(a as int, b as int);
            if span_contains(&v, a, b, &dash) {
                let r = split_spans(&v, a, b, '-');
                if r.len() == 2 {
                    let (l0, h0) = r[0];
                    let (l1, h1) = r[1];
                    assert(spans_view(v@, r@)[0] == v@.subrange(l0 as int, h0 as int));
                    assert(spans_view(v@, r@)[1] == v@.subrange(l1 as int, h1 as int));
                    match (u32_span(&v, l0, h0), u32_span(&v, l1, h1)) {
                        (Some(s), Some(e)) => {
                            push_range(&mut cpus, s, e);
                        },
                        _ => {
                            assert(cpus@ + Seq::<u32>::empty() =~= cpus@);
                        },
                    }
                } else {
                    assert(cpus@ + Seq::<u32>::empty() =~= cpus@);
                }
            } else {
                match u32_span(&v, a, b) {
                    Some(c) => {
                        let ghost before = cpus@;
                        cpus.push(c);
                        assert(cpus@ =~= before + seq![c]);
                    },
                    None => {
                        assert(cpus@ + Seq::<u32>::empty() =~= cpus@);
                    },
                }
            }
            i = i + 1;
        }
        if cpus.len() == 0 {
            None
        } else {
            Some(cpus)
        }
    }

    /// Whether a line of `/proc/self/cgroup` marks a container: it names a
    /// docker, lxc, kubepods, containerd or podman cgroup.
    pub fn cgroup_line_marks_container(line: &str) -> (r: bool)
        ensures
            r == (contains_seq(line@, "/docker/"@) || contains_seq(line@, "/lxc/"@) || contains_seq(
                line@,
                "/kubepods/"@,
            ) || contains_seq(line@, "/containerd/"@) || contains_seq(line@, "/podman/"@)),
    {
        let v = chars_of(line);
        let n = v.len();
        assert(v@.subrange(0, n as int) =~= line@);
        span_contains(&v, 0, n, &chars_of("/docker/")) || span_contains(&v, 0, n, &chars_of("/lxc/"))
            || span_contains(&v, 0, n, &chars_of("/kubepods/")) || span_contains(
            &v,
            0,
            n,
            &chars_of("/containerd/"),
        ) || span_contains(&v, 0, n, &chars_of("/podman/"))
    }

    /// Quota and period from the text of `cpu.max`: with exactly two words,
    /// the quota is the first unless it is `max`, and the period the second;
    /// each `None` when it is no number.
    pub fn parse_cpu_max(content: &str) -> (r: (Option<i64>, Option<u64>))
        ensures
            r == cpu_max_spec(content@),
    {
        let v = chars_of(content);
        let n = v.len();
        assert(v@.subrange(0, n as int) =~= content@);
        let (a, b) = trim_span(&v, 0, n);
        let w = ws_token_spans(&v, a, b);
        if w.len() != 2 {
            return (None, None);
        }
        let (l0, h0) = w[0];
        let (l1, h1) = w[1];
        assert(spans_view(v@, w@)[0] == v@.subrange(l0 as int, h0 as int));
        assert(spans_view(v@, w@)[1] == v@.subrange(l1 as int, h1 as int));
        let quota = if span_eq(&v, l0, h0, &chars_of("max")) {
            None
        } else {
            parse_i64_span(&v, l0, h0)
        };
        let period = parse_u64_span(&v, l1, h1);
        (quota, period)
    }

    /// Shares from a cgroup v2 weight: `weight * 1024 / 100`.
    pub fn shares_from_weight(weight: u64) -> (r: u64)
        requires
            weight * 1024 <= u64::MAX,
        ensures
            r == weight * 1024 / 100,
    {
        (weight * 1024) / 100
    }

    /// Quota, period and shares from the texts of the cgroup files. A weight
    /// must not overflow when multiplied by 1024.
    pub fn get_cpu_limits(files: &CgroupCpuFiles) -> (r: (Option<i64>, Option<u64>, Option<u64>))
        requires
            files.cpu_weight matches Some(w) ==> (trimmed_u64(w@) matches Some(x) ==> x * 1024
                <= u64::MAX),
        ensures
            r == cpu_limits_spec(*files),
    {
        let (mut quota, mut period) = match &files.cpu_max {
            Some(c) => Self::parse_cpu_max(c.as_str()),
            None => (None, None),
        };
        if quota.is_none() {
            quota = match &files.cfs_quota_us {
                Some(t) => trimmed_i64_of(t),
                None => None,
            };
        }
        if period.is_none() {
            period = match &files.cfs_period_us {
                Some(t) => trimmed_u64_of(t),
                None => None,
            };
        }
        let shares = match &files.cpu_weight {
            Some(w) => match trimmed_u64_of(w) {
                Some(x) => Some(Self::shares_from_weight(x)),
                None => None,
            },
            None => match &files.cpu_shares {
                Some(t) => trimmed_u64_of(t),
                None => None,
            },
        };
        (quota, period, shares)
    }
}

} // verus!
