//! Helpers for the repeated text patterns of vendor tool output and of
//! Prometheus samples: `Key: Value <unit>` lines and label maps.
use vstd::prelude::*;
use crate::labels::LabelMap;
use crate::metrics::{labels_text, sample_line};
use crate::number::{parse_u32_span, parse_u64_span, parse_unsigned};
use crate::number::is_digit;
use crate::text::{
    after_colon_seq, after_colon_span, chars_of, find_char, first_index, is_ws, lemma_first_index_at,
    span_starts_with,
    span_to_string, spans_view, split_ws_seq, starts_with_seq, string_of, trim_end_matches_seq,
    trim_end_matches_span, trim_seq, trim_span, ws_token_spans,
};

verus! {

/// The numeric text of a `Key: Value <unit>` line: the first white space
/// separated token after the first `:`, with every trailing `suffix` and then
/// every trailing `%` removed.
pub open spec fn metric_token_seq(line: Seq<char>, suffix: Seq<char>) -> Option<Seq<char>> {
    match after_colon_seq(line) {
        Some(rest) => {
            let toks = split_ws_seq(rest);
            if toks.len() > 0 {
                Some(trim_end_matches_seq(trim_end_matches_seq(toks[0], suffix), seq!['%']))
            } else {
                None
            }
        },
        None => None,
    }
}

fn metric_token_span(v: &Vec<char>, suffix: &Vec<char>) -> (r: Option<(usize, usize)>)
    ensures
        match r {
            Some(p) => p.0 <= p.1 <= v@.len() && metric_token_seq(v@, suffix@) == Some(
                v@.subrange(p.0 as int, p.1 as int),
            ),
            None => metric_token_seq(v@, suffix@) is None,
        },
{
    let n = v.len();
    assert(v@.subrange(0, n as int) =~= v@);
    match after_colon_span(v, 0, n) {
        Some((a, b)) => {
            let toks = ws_token_spans(v, a, b);
            if toks.len() == 0 {
                return None;
            }
            let (t0, t1) = toks[0];
            assert(spans_view(v@, toks@)[0] == v@.subrange(t0 as int, t1 as int));
            assert(toks@[0].0 <= toks@[0].1);
            let e1 = trim_end_matches_span(v, t0, t1, suffix);
            let pct = vec!['%'];
            assert(pct@ == seq!['%']);
            let e2 = trim_end_matches_span(v, t0, e1, &pct);
            Some((t0, e2))
        },
        None => None,
    }
}

/// The numeric text of a `Key: Value <unit>` line, e.g. `"444"` for
/// `"GPU HW active frequency: 444 MHz"` with suffix `"MHz"`, or `"64.29"` for
/// `"E-Cluster HW active residency:  64.29% (details omitted)"` with suffix
/// `"%"`. The caller converts it to the number type it needs.
pub fn parse_metric_token(line: &str, suffix: &str) -> (r: Option<String>)
    ensures
        match r {
            Some(t) => metric_token_seq(line@, suffix@) == Some(t@),
            None => metric_token_seq(line@, suffix@) is None,
        },
{
    let v = chars_of(line);
    let sv = chars_of(suffix);
    match metric_token_span(&v, &sv) {
        Some((a, b)) => Some(span_to_string(&v, a, b)),
        None => None,
    }
}

/// `parse_metric!(line, suffix, u32)`: the value of a `Key: Value <unit>`
/// line as a `u32`.
pub fn parse_metric_u32(line: &str, suffix: &str) -> (r: Option<u32>)
    ensures
        match metric_token_seq(line@, suffix@) {
            Some(t) => match parse_unsigned(t, 10, u32::MAX as nat) {
                Some(x) => r == Some(x as u32),
                None => r is None,
            },
            None => r is None,
        },
{
    let v = chars_of(line);
    let sv = chars_of(suffix);
    match metric_token_span(&v, &sv) {
        Some((a, b)) => parse_u32_span(&v, a, b),
        None => None,
    }
}

/// `parse_metric!(line, suffix, u64)`: the value of a `Key: Value <unit>`
/// line as a `u64`.
pub fn parse_metric_u64(line: &str, suffix: &str) -> (r: Option<u64>)
    ensures
        match metric_token_seq(line@, suffix@) {
            Some(t) => match parse_unsigned(t, 10, u64::MAX as nat) {
                Some(x) => r == Some(x as u64),
                None => r is None,
            },
            None => r is None,
        },
{
    let v = chars_of(line);
    let sv = chars_of(suffix);
    match metric_token_span(&v, &sv) {
        Some((a, b)) => parse_u64_span(&v, a, b),
        None => None,
    }
}

/// Copies the value of `label_key` from `labels` into `detail` under
/// `detail_key`; nothing changes when the label is absent.
pub fn extract_label_to_detail(
    labels: &LabelMap,
    label_key: &str,
    detail: &mut LabelMap,
    detail_key: &str,
)
    requires
        labels.wf(),
        old(detail).wf(),
    ensures
        final(detail).wf(),
        final(detail)@ == if labels@.contains_key(label_key@) {
            old(detail)@.insert(detail_key@, labels@[label_key@])
        } else {
            old(detail)@
        },
{
    if let Some(value) = labels.get(label_key) {
        detail.insert(string_of(detail_key), value.clone());
    }
}

/// The detail map after copying each of `keys` that `labels` holds, in order.
pub open spec fn batch_result(
    labels: Map<Seq<char>, Seq<char>>,
    detail: Map<Seq<char>, Seq<char>>,
    keys: Seq<Seq<char>>,
) -> Map<Seq<char>, Seq<char>>
    decreases keys.len(),
{
    if keys.len() == 0 {
        detail
    } else {
        let prev = batch_result(labels, detail, keys.drop_last());
        if labels.contains_key(keys.last()) {
            prev.insert(keys.last(), labels[keys.last()])
        } else {
            prev
        }
    }
}

/// Copies each listed label that is present into the detail map under the
/// same key.
pub fn extract_labels_batch(labels: &LabelMap, detail: &mut LabelMap, keys: &[&str])
    requires
        labels.wf(),
        old(detail).wf(),
    ensures
        final(detail).wf(),
        final(detail)@ == batch_result(labels@, old(detail)@, keys@.map_values(|k: &str| k@)),
{
    let ghost ks = keys@.map_values(|k: &str| k@);
    let ghost start = detail@;
    let mut i: usize = 0;
    assert(ks.take(0) =~= Seq::<Seq<char>>::empty());
    while i < keys.len()
        invariant
            i <= keys@.len(),
            ks == keys@.map_values(|k: &str| k@),
            labels.wf(),
            detail.wf(),
            detail@ == batch_result(labels@, start, ks.take(i as int)),
        decreases keys@.len() - i,
    {
        assert(ks.take(i + 1).drop_last() =~= ks.take(i as int));
        assert(ks.take(i + 1).last() == keys@[i as int]@);
        extract_label_to_detail(labels, keys[i], detail, keys[i]);
        i = i + 1;
    }
    assert(ks.take(keys@.len() as int) =~= ks);
}

/// The value of a label, or the empty string when absent.
pub fn get_label_or_default(labels: &LabelMap, key: &str) -> (r: String)
    requires
        labels.wf(),
    ensures
        r@ == if labels@.contains_key(key@) {
            labels@[key@]
        } else {
            Seq::<char>::empty()
        },
{
    match labels.get(key) {
        Some(v) => v.clone(),
        None => String::new(),
    }
}

/// The value of a label, or `default` when absent.
pub fn get_label_or(labels: &LabelMap, key: &str, default: &str) -> (r: String)
    requires
        labels.wf(),
    ensures
        r@ == if labels@.contains_key(key@) {
            labels@[key@]
        } else {
            default@
        },
{
    match labels.get(key) {
        Some(v) => v.clone(),
        None => string_of(default),
    }
}


/// The characters that the class `\d` of the `regex` crate matches in its
/// default Unicode mode: the decimal digits of Unicode (category Nd).
pub uninterp spec fn regex_digit(c: char) -> bool;

/// Calls `regex::Regex::is_match` with the pattern `\A\d\z` on the text
/// of the one character `c`: whether `c` is in the class `\d`, which the
/// crate documents as Unicode's decimal digits (`\p{Nd}`). The result is
/// given a name; which characters are in the class is left unsaid.
#[verifier::external_body]
fn is_regex_digit(c: char) -> (r: bool)
    ensures
        r == regex_digit(c),
{
    match regex::Regex::new(r"\A\d\z") {
        Ok(re) => re.is_match(&c.to_string()),
        Err(_) => false,
    }
}

/// A sample value as the pattern `[\d\.]+` of the reader takes it: one or
/// more characters, each an ASCII digit, a dot, or another Unicode decimal
/// digit.
pub open spec fn is_sample_value(v: Seq<char>) -> bool {
    v.len() > 0 && forall|k: int|
        0 <= k < v.len() ==> (is_digit(#[trigger] v[k]) || v[k] == '.' || regex_digit(v[k]))
}

/// A sample value as the exporter writes it: one or more ASCII digits and
/// dots.
pub open spec fn is_written_sample_value(v: Seq<char>) -> bool {
    v.len() > 0 && forall|k: int| 0 <= k < v.len() ==> (is_digit(#[trigger] v[k]) || v[k] == '.')
}

/// The parts of an exporter sample line `all_smi_<name>{<labels>} <value>`
/// (after trimming): the name up to the first `{`, the labels up to the
/// first `}` after it, and the value, each at least one character long.
pub open spec fn prometheus_parts(line: Seq<char>) -> Option<(Seq<char>, Seq<char>, Seq<char>)> {
    let t = trim_seq(line);
    let prefix = "all_smi_"@;
    if !starts_with_seq(t, prefix) {
        None
    } else {
        let rest = t.subrange(prefix.len() as int, t.len() as int);
        match first_index(rest, '{') {
            None => None,
            Some(i) => {
                let after = rest.subrange(i + 1, rest.len() as int);
                match first_index(after, '}') {
                    None => None,
                    Some(j) => {
                        let tail = after.subrange(j + 1, after.len() as int);
                        let value = tail.subrange(1, tail.len() as int);
                        if i >= 1 && j >= 1 && tail.len() >= 1 && tail[0] == ' ' && is_sample_value(
                            value,
                        ) {
                            Some((rest.subrange(0, i), after.subrange(0, j), value))
                        } else {
                            None
                        }
                    },
                }
            },
        }
    }
}

fn sample_value_span(v: &Vec<char>, lo: usize, hi: usize) -> (r: bool)
    requires
        lo <= hi <= v.len(),
    ensures
        r == is_sample_value(v@.subrange(lo as int, hi as int)),
{
    if lo == hi {
        return false;
    }
    let mut k = lo;
    while k < hi
        invariant
            lo <= k <= hi,
            hi <= v.len(),
            forall|q: int| lo <= q < k ==> (is_digit(#[trigger] v@[q]) || v@[q] == '.' || regex_digit(v@[q])),
        decreases hi - k,
    {
        let c = v[k];
        if !(('0' <= c && c <= '9') || c == '.' || is_regex_digit(c)) {
            assert(v@.subrange(lo as int, hi as int)[k - lo] == c);
            return false;
        }
        k = k + 1;
    }
    assert forall|q: int| 0 <= q < hi - lo implies (is_digit(
        #[trigger] v@.subrange(lo as int, hi as int)[q],
    ) || v@.subrange(lo as int, hi as int)[q] == '.' || regex_digit(v@.subrange(lo as int, hi as int)[q])) by {
        assert(v@.subrange(lo as int, hi as int)[q] == v@[lo + q]);
    }
    true
}

/// Splits an exporter sample line such as
/// `all_smi_gpu_utilization{gpu="RTX", uuid="GPU-1"} 25.5` into the metric
/// name without its `all_smi_` prefix, the text between the braces, and the
/// value text; `None` for a line of another shape. The caller reads the
/// value as a number, and takes 0 for a value that does not read as one
/// (such as one of non-ASCII digits).
pub fn parse_prometheus(line: &str) -> (r: Option<(String, String, String)>)
    ensures
        match r {
            Some((name, labels, value)) => prometheus_parts(line@) == Some(
                (name@, labels@, value@),
            ),
            None => prometheus_parts(line@) is None,
        },
{
    let v = chars_of(line);
    let n = v.len();
    assert(v@.subrange(0, n as int) =~= v@);
    let (a, b) = trim_span(&v, 0, n);
    let ghost t = v@.subrange(a as int, b as int);
    let prefix = chars_of("all_smi_");
    proof {
        reveal_strlit("all_smi_");
    }
    assert(t == trim_seq(line@));
    if !span_starts_with(&v, a, b, &prefix) {
        return None;
    }
    let p = a + prefix.len();
    let ghost rest = t.subrange(prefix@.len() as int, t.len() as int);
    assert(rest =~= v@.subrange(p as int, b as int));
    let i = match find_char(&v, p, b, '{') {
        Some(i) => i,
        None => {
            return None;
        },
    };
    assert(first_index(rest, '{') == Some(i - p));
    let ghost after = rest.subrange(i - p + 1, rest.len() as int);
    assert(after =~= v@.subrange(i + 1, b as int));
    assert(rest.subrange(0, i - p) =~= v@.subrange(p as int, i as int));
    let j = match find_char(&v, i + 1, b, '}') {
        Some(j) => j,
        None => {
            return None;
        },
    };
    assert(first_index(after, '}') == Some(j - (i + 1)));
    let ghost tail = after.subrange(j - (i + 1) + 1, after.len() as int);
    assert(tail =~= v@.subrange(j + 1, b as int));
    assert(after.subrange(0, j - (i + 1)) =~= v@.subrange(i + 1, j as int));
    if i == p || j == i + 1 || j + 1 >= b || v[j + 1] != ' ' {
        proof {
            if j + 1 < b {
                assert(tail[0] == v@[j + 1]);
            }
        }
        return None;
    }
    assert(tail[0] == v@[j + 1]);
    assert(tail.subrange(1, tail.len() as int) =~= v@.subrange(j + 2, b as int));
    if !sample_value_span(&v, j + 2, b) {
        return None;
    }
    assert(prometheus_parts(line@) == Some(
        (v@.subrange(p as int, i as int), v@.subrange(i + 1, j as int), v@.subrange(j + 2, b as int)),
    ));
    let name = span_to_string(&v, p, i);
    let labels = span_to_string(&v, i + 1, j);
    let value = span_to_string(&v, j + 2, b);
    Some((name, labels, value))
}


/// A sample line that the exporter writes for a metric `all_smi_<n>` with
/// labels is read back as the name `n`, the label text and the value, when
/// `n` holds no `{`, the label text no `}`, and the value is ASCII digits
/// and dots.
pub proof fn law_exported_sample_read_back(
    n: Seq<char>,
    ls: Seq<(Seq<char>, Seq<char>)>,
    value: Seq<char>,
)
    requires
        n.len() > 0,
        forall|k: int| 0 <= k < n.len() ==> n[k] != '{',
        ls.len() > 0,
        forall|k: int| 0 <= k < labels_text(ls).len() ==> labels_text(ls)[k] != '}',
        is_written_sample_value(value),
    ensures
        prometheus_parts(sample_line("all_smi_"@ + n, ls, value)) == Some(
            (n, labels_text(ls), value),
        ),
{
    reveal_strlit("all_smi_");
    let prefix = "all_smi_"@;
    let lt = labels_text(ls);
    assert(lt.len() > 0) by {
        if ls.len() == 1 {
        } else {
        }
    }
    let body = n + seq!['{'] + lt + seq!['}', ' '] + value;
    let x = prefix + body;
    let line = sample_line(prefix + n, ls, value);
    assert(line =~= x.push('\n'));
    assert(!is_digit(' ') && !is_ws(value.last())) by {
        assert(is_digit(value[value.len() - 1]) || value[value.len() - 1] == '.');
    }
    assert(x.last() == value.last());
    assert(trim_seq(line) == x) by {
        assert(line[0] == 'a');
        assert(crate::text::trim_start_seq(line) == line);
        assert(line.drop_last() =~= x);
        assert(crate::text::trim_end_seq(x) == x);
    }
    assert(x.subrange(0, prefix.len() as int) =~= prefix);
    let rest = x.subrange(prefix.len() as int, x.len() as int);
    assert(rest =~= body);
    lemma_first_index_at(rest, '{', n.len() as int);
    let after = rest.subrange(n.len() as int + 1, rest.len() as int);
    assert(after =~= lt + seq!['}', ' '] + value);
    lemma_first_index_at(after, '}', lt.len() as int);
    let tail = after.subrange(lt.len() as int + 1, after.len() as int);
    assert(tail =~= seq![' '] + value);
    assert(tail.subrange(1, tail.len() as int) =~= value);
    assert(rest.subrange(0, n.len() as int) =~= n);
    assert(after.subrange(0, lt.len() as int) =~= lt);
}

} // verus!
