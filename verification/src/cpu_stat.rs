//! The text of `/proc/stat`: CPU time counters of the summary `cpu` line and
//! of each `cpuN` line, and the cores that a container may use.
use vstd::prelude::*;
use crate::cpuinfo::u32_of;
use crate::number::{decimal_string, is_digit, parse_unsigned, parse_u32_span, parse_u64_span, radix_string};
use crate::text::{
    chars_of, line_spans, lines_seq, span_starts_with, spans_view, spans_within, split_ws_seq,
    starts_with_seq, strip_prefix_seq, ws_token_spans,
};

verus! {

/// Total and busy CPU time of one line of `/proc/stat`, in clock ticks.
#[derive(Debug, Clone, Copy, PartialEq, Eq)]
pub struct StatTicks {
    pub total: u128,
    pub active: u128,
}

/// The CPU time counters of one core.
#[derive(Debug, Clone, Copy, PartialEq, Eq)]
pub struct CoreTicks {
    pub core_id: u32,
    pub total: u128,
    pub active: u128,
}

/// What `/proc/stat` says of CPU time: the summary line and each core,
/// cores in ascending order of id.
pub struct CpuStatTicks {
    pub overall: Option<StatTicks>,
    pub cores: Vec<CoreTicks>,
}

/// A counter field: its value as a `u64`, or 0 when it is no such number.
pub open spec fn tick(f: Seq<char>) -> nat {
    match parse_unsigned(f, 10, u64::MAX as nat) {
        Some(v) => v,
        None => 0,
    }
}

/// user + nice + system + idle + iowait + irq + softirq.
pub open spec fn line_total(fs: Seq<Seq<char>>) -> nat {
    tick(fs[1]) + tick(fs[2]) + tick(fs[3]) + tick(fs[4]) + tick(fs[5]) + tick(fs[6]) + tick(fs[7])
}

/// The total less idle and iowait time.
pub open spec fn line_active(fs: Seq<Seq<char>>) -> nat {
    tick(fs[1]) + tick(fs[2]) + tick(fs[3]) + tick(fs[6]) + tick(fs[7])
}

/// Total and busy time of a line whose fields are `fs`, when it has at
/// least eight fields.
pub open spec fn ticks_of(fs: Seq<Seq<char>>) -> Option<(nat, nat)> {
    if fs.len() >= 8 {
        Some((line_total(fs), line_active(fs)))
    } else {
        None
    }
}

pub open spec fn cpu_word() -> Seq<char> {
    seq!['c', 'p', 'u']
}

pub open spec fn cpu_space() -> Seq<char> {
    seq!['c', 'p', 'u', ' ']
}

/// The first line from index `i` on that begins with `cpu `.
pub open spec fn first_total_line(ls: Seq<Seq<char>>, i: nat) -> Option<Seq<char>>
    decreases ls.len() - i,
{
    if i >= ls.len() {
        None
    } else if starts_with_seq(ls[i as int], cpu_space()) {
        Some(ls[i as int])
    } else {
        first_total_line(ls, i + 1)
    }
}

/// The counters of the first line that begins with `cpu `, if it has them.
pub open spec fn overall_ticks(content: Seq<char>) -> Option<(nat, nat)> {
    match first_total_line(lines_seq(content), 0) {
        Some(l) => ticks_of(split_ws_seq(l)),
        None => None,
    }
}

/// The core id of a `cpuN` line: its first word less `cpu`, as a `u32`.
pub open spec fn core_label(l: Seq<char>) -> Option<u32> {
    if starts_with_seq(l, cpu_word()) && !starts_with_seq(l, cpu_space()) {
        let fs = split_ws_seq(l);
        if fs.len() > 0 {
            match strip_prefix_seq(fs[0], cpu_word()) {
                Some(rest) => u32_of(rest),
                None => None,
            }
        } else {
            None
        }
    } else {
        None
    }
}

/// The counters of a core line with at least eight fields.
pub open spec fn core_line(l: Seq<char>) -> Option<CoreTicks> {
    match core_label(l) {
        Some(id) => match ticks_of(split_ws_seq(l)) {
            Some((t, a)) => Some(CoreTicks { core_id: id, total: t as u128, active: a as u128 }),
            None => None,
        },
        None => None,
    }
}

/// The core lines of `ls`, in the order of the text.
pub open spec fn core_lines(ls: Seq<Seq<char>>) -> Seq<CoreTicks>
    decreases ls.len(),
{
    if ls.len() == 0 {
        Seq::empty()
    } else {
        let prev = core_lines(ls.drop_last());
        match core_line(ls.last()) {
            Some(c) => prev.push(c),
            None => prev,
        }
    }
}

/// Where an item with core id `key` goes into `s`: after the last item, from
/// the end, whose id is not larger.
pub open spec fn upper_bound(s: Seq<CoreTicks>, key: u32) -> nat
    decreases s.len(),
{
    if s.len() == 0 {
        0
    } else if s.last().core_id <= key {
        s.len()
    } else {
        upper_bound(s.drop_last(), key)
    }
}

/// `x` put into `s` after every item whose id is not larger.
pub open spec fn sorted_insert(s: Seq<CoreTicks>, x: CoreTicks) -> Seq<CoreTicks> {
    s.insert(upper_bound(s, x.core_id) as int, x)
}

/// A stable sort by core id.
pub open spec fn sort_by_core(s: Seq<CoreTicks>) -> Seq<CoreTicks>
    decreases s.len(),
{
    if s.len() == 0 {
        Seq::empty()
    } else {
        sorted_insert(sort_by_core(s.drop_last()), s.last())
    }
}

/// Core ids never decrease along `s`.
pub open spec fn sorted_by_core(s: Seq<CoreTicks>) -> bool {
    forall|i: int, j: int| 0 <= i <= j < s.len() ==> s[i].core_id <= s[j].core_id
}

/// Where `upper_bound` stops: items before it are not larger than `key` when
/// `s` is sorted, items from it on are larger.
pub proof fn lemma_upper_bound(s: Seq<CoreTicks>, key: u32)
    ensures
        upper_bound(s, key) <= s.len(),
        forall|k: int| upper_bound(s, key) <= k < s.len() ==> s[k].core_id > key,
        sorted_by_core(s) ==> forall|k: int| 0 <= k < upper_bound(s, key) ==> s[k].core_id <= key,
    decreases s.len(),
{
    if s.len() > 0 && s.last().core_id > key {
        lemma_upper_bound(s.drop_last(), key);
        assert forall|k: int| upper_bound(s, key) <= k < s.len() implies s[k].core_id > key by {
            if k < s.len() - 1 {
                assert(s[k] == s.drop_last()[k]);
            }
        }
        if sorted_by_core(s) {
            assert(sorted_by_core(s.drop_last()));
            assert forall|k: int| 0 <= k < upper_bound(s, key) implies s[k].core_id <= key by {
                assert(s[k] == s.drop_last()[k]);
            }
        }
    }
}

/// Inserting at `upper_bound` keeps a sorted sequence sorted.
pub proof fn lemma_sorted_insert(s: Seq<CoreTicks>, x: CoreTicks)
    requires
        sorted_by_core(s),
    ensures
        sorted_by_core(sorted_insert(s, x)),
        sorted_insert(s, x).to_multiset() == s.to_multiset().insert(x),
{
    lemma_upper_bound(s, x.core_id);
    let p = upper_bound(s, x.core_id) as int;
    let r = sorted_insert(s, x);
    assert forall|i: int, j: int| 0 <= i <= j < r.len() implies r[i].core_id <= r[j].core_id by {
        if i < p && j < p {
        } else if i < p && j == p {
        } else if i < p {
            assert(r[j] == s[j - 1]);
        } else if i == p && j > p {
            assert(r[j] == s[j - 1]);
        } else if i > p {
            assert(r[i] == s[i - 1]);
            assert(r[j] == s[j - 1]);
        }
    }
    vstd::seq_lib::to_multiset_insert(s, p, x);
}

/// A stable sort by core id gives a sorted permutation of its input.
pub proof fn lemma_sort_by_core(s: Seq<CoreTicks>)
    ensures
        sorted_by_core(sort_by_core(s)),
        sort_by_core(s).to_multiset() == s.to_multiset(),
    decreases s.len(),
{
    broadcast use vstd::seq_lib::group_to_multiset_ensures;

    if s.len() == 0 {
        assert(sort_by_core(s) =~= Seq::<CoreTicks>::empty());
        assert(s =~= Seq::<CoreTicks>::empty());
    } else {
        lemma_sort_by_core(s.drop_last());
        lemma_sorted_insert(sort_by_core(s.drop_last()), s.last());
        assert(s =~= s.drop_last().push(s.last()));
        vstd::seq_lib::to_multiset_build(s.drop_last(), s.last());
    }
}

fn tick_at(v: &Vec<char>, toks: &Vec<(usize, usize)>, lo: usize, hi: usize, k: usize) -> (r: u64)
    requires
        hi <= v.len(),
        spans_within(toks@, lo as int, hi as int),
        k < toks.len(),
    ensures
        r == tick(spans_view(v@, toks@)[k as int]),
{
    let (a, b) = toks[k];
    assert(spans_view(v@, toks@)[k as int] == v@.subrange(a as int, b as int));
    match parse_u64_span(v, a, b) {
        Some(x) => x,
        None => 0,
    }
}

/// Total and busy time of the span `[lo, hi)` of `v`, when it has at least
/// eight fields.
fn span_ticks(v: &Vec<char>, lo: usize, hi: usize) -> (r: Option<StatTicks>)
    requires
        lo <= hi <= v.len(),
    ensures
        match r {
            Some(t) => ticks_of(split_ws_seq(v@.subrange(lo as int, hi as int))) == Some(
                (t.total as nat, t.active as nat),
            ),
            None => ticks_of(split_ws_seq(v@.subrange(lo as int, hi as int))) is None,
        },
        r matches Some(t) ==> t.active <= t.total,
{
    let toks = ws_token_spans(v, lo, hi);
    if toks.len() < 8 {
        return None;
    }
    let user = tick_at(v, &toks, lo, hi, 1) as u128;
    let nice = tick_at(v, &toks, lo, hi, 2) as u128;
    let system = tick_at(v, &toks, lo, hi, 3) as u128;
    let idle = tick_at(v, &toks, lo, hi, 4) as u128;
    let iowait = tick_at(v, &toks, lo, hi, 5) as u128;
    let irq = tick_at(v, &toks, lo, hi, 6) as u128;
    let softirq = tick_at(v, &toks, lo, hi, 7) as u128;
    let active = user + nice + system + irq + softirq;
    let total = active + idle + iowait;
    Some(StatTicks { total, active })
}

/// The core counters of the line `[lo, hi)` of `v`, if it is a core line.
fn span_core(v: &Vec<char>, lo: usize, hi: usize) -> (r: Option<CoreTicks>)
    requires
        lo <= hi <= v.len(),
    ensures
        r == core_line(v@.subrange(lo as int, hi as int)),
        r matches Some(c) ==> c.active <= c.total,
{
    match span_label(v, lo, hi) {
        Some(id) => match span_ticks(v, lo, hi) {
            Some(t) => Some(CoreTicks { core_id: id, total: t.total, active: t.active }),
            None => None,
        },
        None => None,
    }
}

/// Inserts `x` into the sorted `out` after every item whose id is not larger.
fn insert_by_core(out: &mut Vec<CoreTicks>, x: CoreTicks)
    ensures
        final(out)@ == sorted_insert(old(out)@, x),
{
    let mut j = out.len();
    assert(out@.take(j as int) =~= out@);
    while j > 0 && out[j - 1].core_id > x.core_id
        invariant
            j <= out.len(),
            upper_bound(out@, x.core_id) == upper_bound(out@.take(j as int), x.core_id),
        decreases j,
    {
        assert(out@.take(j as int).drop_last() =~= out@.take(j - 1));
        j = j - 1;
    }
    assert(out@.take(out.len() as int) =~= out@);
    if j > 0 {
        assert(out@.take(j as int).last() == out@[j - 1]);
    }
    out.insert(j, x);
}

/// The CPU time counters of `/proc/stat`: those of the first line that
/// begins with `cpu ` (when it has the seven counters), and those of each
/// `cpuN` line with the seven counters, in a stable sort by core id.
pub fn parse_cpu_stat(content: &str) -> (r: CpuStatTicks)
    ensures
        match r.overall {
            Some(t) => overall_ticks(content@) == Some((t.total as nat, t.active as nat)),
            None => overall_ticks(content@) is None,
        },
        r.cores@ == sort_by_core(core_lines(lines_seq(content@))),
        sorted_by_core(r.cores@),
        r.cores@.to_multiset() == core_lines(lines_seq(content@)).to_multiset(),
        r.overall matches Some(t) ==> t.active <= t.total,
        forall|k: int| 0 <= k < r.cores@.len() ==> #[trigger] r.cores@[k].active <= r.cores@[k].total,
{
    let v = chars_of(content);
    let n = v.len();
    assert(v@.subrange(0, n as int) =~= v@);
    let lines = line_spans(&v, 0, n);
    let ghost ls = lines_seq(content@);
    let cpu_sp = vec!['c', 'p', 'u', ' '];
    assert(cpu_sp@ =~= cpu_space());
    let mut overall: Option<StatTicks> = None;
    let mut found = false;
    let mut cores: Vec<CoreTicks> = Vec::new();
    let mut i: usize = 0;
    while i < lines.len()
        invariant
            i <= lines.len(),
            n == v.len(),
            v@ == content@,
            cpu_sp@ == cpu_space(),
            spans_view(v@, lines@) == ls,
            ls == lines_seq(content@),
            spans_within(lines@, 0, n as int),
            !found ==> first_total_line(ls, 0) == first_total_line(ls, i as nat),
            !found ==> overall is None,
            found ==> match overall {
                Some(t) => overall_ticks(content@) == Some((t.total as nat, t.active as nat)),
                None => overall_ticks(content@) is None,
            },
            cores@ == sort_by_core(core_lines(ls.take(i as int))),
            overall matches Some(t) ==> t.active <= t.total,
            forall|k: int| 0 <= k < cores@.len() ==> #[trigger] cores@[k].active <= cores@[k].total,
        decreases lines.len() - i,
    {
        let (a, b) = lines[i];
        assert(ls[i as int] == v@.subrange(a as int, b as int));
        if !found {
            if span_starts_with(&v, a, b, &cpu_sp) {
                assert(first_total_line(ls, i as nat) == Some(ls[i as int]));
                assert(overall_ticks(content@) == ticks_of(split_ws_seq(ls[i as int])));
                overall = span_ticks(&v, a, b);
                found = true;
            } else {
                assert(first_total_line(ls, i as nat) == first_total_line(ls, (i + 1) as nat));
            }
        }
        let ghost prev = ls.take(i as int);
        assert(ls.take(i + 1).drop_last() =~= prev);
        assert(ls.take(i + 1).last() == ls[i as int]);
        match span_core(&v, a, b) {
            Some(c) => {
                let ghost before = cores@;
                insert_by_core(&mut cores, c);
                proof {
                    lemma_upper_bound(before, c.core_id);
                    let q = upper_bound(before, c.core_id) as int;
                    assert forall|k: int| 0 <= k < cores@.len() implies #[trigger] cores@[k].active
                        <= cores@[k].total by {
                        if k < q {
                            assert(cores@[k] == before[k]);
                        } else if k > q {
                            assert(cores@[k] == before[k - 1]);
                        }
                    }
                }
                assert(core_lines(ls.take(i + 1)) == core_lines(prev).push(c));
                assert(core_lines(prev).push(c).drop_last() =~= core_lines(prev));
            },
            None => {
                assert(core_lines(ls.take(i + 1)) == core_lines(prev));
            },
        }
        i = i + 1;
    }
    assert(ls.take(i as int) =~= ls);
    if !found {
        assert(first_total_line(ls, i as nat) is None);
    }
    proof {
        lemma_sort_by_core(core_lines(ls));
    }
    CpuStatTicks { overall, cores }
}

/// The label of core `core_id` in `/proc/stat`: `cpu` and the id in decimal.
pub open spec fn core_prefix(core_id: u32) -> Seq<char> {
    cpu_word() + radix_string(core_id as nat, 10)
}

/// `l` begins with the label `p` and no further digit follows it.
pub open spec fn labelled(l: Seq<char>, p: Seq<char>) -> bool {
    starts_with_seq(l, p) && !(l.len() > p.len() && is_digit(l[p.len() as int]))
}

/// The first line from index `i` on that carries the label `p`.
pub open spec fn first_labelled(ls: Seq<Seq<char>>, p: Seq<char>, i: nat) -> Option<Seq<char>>
    decreases ls.len() - i,
{
    if i >= ls.len() {
        None
    } else if labelled(ls[i as int], p) {
        Some(ls[i as int])
    } else {
        first_labelled(ls, p, i + 1)
    }
}

/// The counters of the first line of core `core_id`, if it has them.
pub open spec fn core_ticks_spec(content: Seq<char>, core_id: u32) -> Option<(nat, nat)> {
    match first_labelled(lines_seq(content), core_prefix(core_id), 0) {
        Some(l) => ticks_of(split_ws_seq(l)),
        None => None,
    }
}

/// The counters of core `core_id`: those of the first line labelled
/// `cpu<core_id>` (not followed by a further digit), when it has the seven
/// counters; `None` when there is no such line or it has fewer.
pub fn core_ticks_from_stat(stat_content: &str, core_id: u32) -> (r: Option<StatTicks>)
    ensures
        match r {
            Some(t) => core_ticks_spec(stat_content@, core_id) == Some(
                (t.total as nat, t.active as nat),
            ),
            None => core_ticks_spec(stat_content@, core_id) is None,
        },
{
    let v = chars_of(stat_content);
    let n = v.len();
    assert(v@.subrange(0, n as int) =~= v@);
    let lines = line_spans(&v, 0, n);
    let ghost ls = lines_seq(stat_content@);
    let digits = decimal_string(core_id as u64);
    let mut prefix = vec!['c', 'p', 'u'];
    let dv = chars_of(digits.as_str());
    let mut k: usize = 0;
    while k < dv.len()
        invariant
            k <= dv.len(),
            dv@ == radix_string(core_id as nat, 10),
            prefix@ == cpu_word() + dv@.take(k as int),
        decreases dv.len() - k,
    {
        assert(dv@.take(k + 1) =~= dv@.take(k as int).push(dv@[k as int]));
        prefix.push(dv[k]);
        k = k + 1;
    }
    assert(dv@.take(k as int) =~= dv@);
    let plen = prefix.len();
    let mut i: usize = 0;
    while i < lines.len()
        invariant
            i <= lines.len(),
            n == v.len(),
            v@ == stat_content@,
            ls == lines_seq(stat_content@),
            prefix@ == core_prefix(core_id),
            plen == prefix.len(),
            spans_view(v@, lines@) == ls,
            spans_within(lines@, 0, n as int),
            first_labelled(ls, prefix@, 0) == first_labelled(ls, prefix@, i as nat),
        decreases lines.len() - i,
    {
        let (a, b) = lines[i];
        assert(ls[i as int] == v@.subrange(a as int, b as int));
        if span_starts_with(&v, a, b, &prefix) {
            let more = if b - a > plen {
                let c = v[a + plen];
                assert(v@.subrange(a as int, b as int)[plen as int] == c);
                '0' <= c && c <= '9'
            } else {
                false
            };
            if !more {
                assert(first_labelled(ls, prefix@, i as nat) == Some(ls[i as int]));
                return span_ticks(&v, a, b);
            }
        }
        assert(first_labelled(ls, prefix@, i as nat) == first_labelled(ls, prefix@, (i + 1) as nat));
        i = i + 1;
    }
    assert(first_labelled(ls, prefix@, i as nat) is None);
    None
}

/// The ids of the core lines of `ls` that occur in `allowed`, in the order of
/// the text.
pub open spec fn allowed_cores(ls: Seq<Seq<char>>, allowed: Seq<u32>) -> Seq<u32>
    decreases ls.len(),
{
    if ls.len() == 0 {
        Seq::empty()
    } else {
        let prev = allowed_cores(ls.drop_last(), allowed);
        match core_label(ls.last()) {
            Some(id) => if allowed.contains(id) {
                prev.push(id)
            } else {
                prev
            },
            None => prev,
        }
    }
}

/// The core label of the line `[lo, hi)` of `v`, if it is a core line.
fn span_label(v: &Vec<char>, lo: usize, hi: usize) -> (r: Option<u32>)
    requires
        lo <= hi <= v.len(),
    ensures
        r == core_label(v@.subrange(lo as int, hi as int)),
{
    let cpu = vec!['c', 'p', 'u'];
    let cpu_sp = vec!['c', 'p', 'u', ' '];
    assert(cpu@ =~= cpu_word());
    assert(cpu_sp@ =~= cpu_space());
    if !span_starts_with(v, lo, hi, &cpu) || span_starts_with(v, lo, hi, &cpu_sp) {
        return None;
    }
    let toks = ws_token_spans(v, lo, hi);
    if toks.len() == 0 {
        return None;
    }
    let (a, b) = toks[0];
    assert(spans_view(v@, toks@)[0] == v@.subrange(a as int, b as int));
    if !span_starts_with(v, a, b, &cpu) {
        return None;
    }
    assert(v@.subrange(a as int, b as int).subrange(3, b - a) =~= v@.subrange(a + 3, b as int));
    parse_u32_span(v, a + 3, b)
}

fn contains_u32(s: &Vec<u32>, x: u32) -> (r: bool)
    ensures
        r == s@.contains(x),
{
    let mut i: usize = 0;
    while i < s.len()
        invariant
            i <= s.len(),
            forall|k: int| 0 <= k < i ==> s@[k] != x,
        decreases s.len() - i,
    {
        if s[i] == x {
            return true;
        }
        i = i + 1;
    }
    false
}

/// The CPUs a container may use: those of its cpuset, else `0..cpu_count`.
pub fn allowed_cpus(cpuset_cpus: &Option<Vec<u32>>, cpu_count: u32) -> (r: Vec<u32>)
    ensures
        match cpuset_cpus {
            Some(c) => r@ == c@,
            None => r@ == Seq::new(cpu_count as nat, |i: int| i as u32),
        },
{
    match cpuset_cpus {
        Some(c) => {
            let mut out: Vec<u32> = Vec::new();
            let mut i: usize = 0;
            while i < c.len()
                invariant
                    i <= c.len(),
                    out@ == c@.take(i as int),
                decreases c.len() - i,
            {
                assert(c@.take(i + 1) =~= c@.take(i as int).push(c@[i as int]));
                out.push(c[i]);
                i = i + 1;
            }
            assert(c@.take(i as int) =~= c@);
            out
        },
        None => {
            let mut out: Vec<u32> = Vec::new();
            let mut i: u32 = 0;
            while i < cpu_count
                invariant
                    i <= cpu_count,
                    out@ =~= Seq::new(i as nat, |k: int| k as u32),
                decreases cpu_count - i,
            {
                out.push(i);
                i = i + 1;
            }
            out
        },
    }
}

/// The ids of the `cpuN` lines of `/proc/stat` whose core is in `allowed`,
/// in the order of the text.
pub fn container_stat_cores(stat_content: &str, allowed: &Vec<u32>) -> (r: Vec<u32>)
    ensures
        r@ == allowed_cores(lines_seq(stat_content@), allowed@),
{
    let v = chars_of(stat_content);
    let n = v.len();
    assert(v@.subrange(0, n as int) =~= v@);
    let lines = line_spans(&v, 0, n);
    let ghost ls = lines_seq(stat_content@);
    let mut out: Vec<u32> = Vec::new();
    let mut i: usize = 0;
    while i < lines.len()
        invariant
            i <= lines.len(),
            n == v.len(),
            v@ == stat_content@,
            ls == lines_seq(stat_content@),
            spans_view(v@, lines@) == ls,
            spans_within(lines@, 0, n as int),
            out@ == allowed_cores(ls.take(i as int), allowed@),
        decreases lines.len() - i,
    {
        let (a, b) = lines[i];
        assert(ls[i as int] == v@.subrange(a as int, b as int));
        assert(ls.take(i + 1).drop_last() =~= ls.take(i as int));
        assert(ls.take(i + 1).last() == ls[i as int]);
        match span_label(&v, a, b) {
            Some(id) => {
                if contains_u32(allowed, id) {
                    out.push(id);
                }
            },
            None => {},
        }
        i = i + 1;
    }
    assert(ls.take(i as int) =~= ls);
    out
}

} // verus!
