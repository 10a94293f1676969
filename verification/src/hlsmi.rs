//! Parser for the CSV table that `hl-smi` prints for Intel Gaudi accelerators:
//! `index, uuid, name, memory.total, memory.used, memory.free, power.draw,
//! power.max, temperature.aip, utilization.aip`.
use vstd::prelude::*;
use crate::text::{
    chars_of, line_spans, lines_seq, split_seq, split_spans, spans_view, spans_within, span_ok,
    span_to_string, trim_end_matches_seq, trim_end_matches_span, trim_seq, trim_span,
};
use crate::number::{float_text_span, is_float_text, parse_u32_span, parse_u64_span, parse_unsigned};

verus! {

/// Per-device row of `hl-smi` output. Power and utilization are decimal
/// fractions; they are checked to be text that `f64::from_str` reads and
/// kept as that text, with the unit removed, for the caller to convert.
#[derive(Debug)]
pub struct GaudiDeviceMetrics {
    /// Device index.
    pub index: u32,
    /// Device UUID.
    pub uuid: String,
    /// Device name (e.g. "HL-325L").
    pub name: String,
    /// Total memory in MiB.
    pub memory_total: u64,
    /// Used memory in MiB.
    pub memory_used: u64,
    /// Free memory in MiB.
    pub memory_free: u64,
    /// Current power draw in watts, as text without the `W` unit.
    pub power_draw_text: String,
    /// Maximum power limit in watts, as text without the `W` unit.
    pub power_max_text: String,
    /// Temperature in degrees Celsius.
    pub temperature: u32,
    /// Utilization percentage, as text without the `%` sign.
    pub utilization_text: String,
}

/// All device rows of one `hl-smi` run.
#[derive(Debug)]
pub struct GaudiMetricsData {
    /// Per-device metrics, in the order of the output.
    pub devices: Vec<GaudiDeviceMetrics>,
}

impl Default for GaudiDeviceMetrics {
    fn default() -> (r: Self)
        ensures
            r.index == 0 && r.uuid@.len() == 0 && r.name@.len() == 0 && r.memory_total == 0
                && r.memory_used == 0 && r.memory_free == 0 && r.power_draw_text@.len() == 0
                && r.power_max_text@.len() == 0 && r.temperature == 0
                && r.utilization_text@.len() == 0,
    {
        GaudiDeviceMetrics {
            index: 0,
            uuid: String::new(),
            name: String::new(),
            memory_total: 0,
            memory_used: 0,
            memory_free: 0,
            power_draw_text: String::new(),
            power_max_text: String::new(),
            temperature: 0,
            utilization_text: String::new(),
        }
    }
}

impl Default for GaudiMetricsData {
    fn default() -> (r: Self)
        ensures
            r.devices@.len() == 0,
    {
        GaudiMetricsData { devices: Vec::new() }
    }
}

/// Which column of an `hl-smi` row could not be read.
#[derive(Debug, Clone, Copy, PartialEq, Eq)]
pub enum HlsmiField {
    Index,
    Memory,
    Power,
    Temperature,
    Utilization,
}

/// A column of an `hl-smi` row that is not a number of the expected type;
/// `text` is the value as it was parsed.
#[derive(Debug)]
pub struct HlsmiParseError {
    pub field: HlsmiField,
    pub text: String,
}

/// Text of an index column as it is parsed: surrounding white space removed.
pub open spec fn index_text(s: Seq<char>) -> Seq<char> {
    trim_seq(s)
}

/// Text of a memory column as it is parsed: `"131072 MiB"` gives `"131072"`.
pub open spec fn memory_text(s: Seq<char>) -> Seq<char> {
    trim_seq(trim_end_matches_seq(trim_seq(s), seq!['M', 'i', 'B']))
}

/// Text of a column with a one-character unit, as it is parsed: `"36 C"`
/// with unit `'C'` gives `"36"`.
pub open spec fn unit_text(s: Seq<char>, unit: char) -> Seq<char> {
    trim_seq(trim_end_matches_seq(trim_seq(s), seq![unit]))
}

/// Applies `trim` and `trim_end_matches(unit)` and `trim` to a span.
fn unit_span(v: &Vec<char>, lo: usize, hi: usize, unit: &Vec<char>) -> (r: (usize, usize))
    requires
        span_ok(v@, lo as int, hi as int),
    ensures
        lo <= r.0 <= r.1 <= hi,
        v@.subrange(r.0 as int, r.1 as int) == trim_seq(
            trim_end_matches_seq(trim_seq(v@.subrange(lo as int, hi as int)), unit@),
        ),
{
    let (a, b) = trim_span(v, lo, hi);
    let b2 = trim_end_matches_span(v, a, b, unit);
    trim_span(v, a, b2)
}

fn parse_index_span(v: &Vec<char>, lo: usize, hi: usize) -> (r: Result<u32, HlsmiParseError>)
    requires
        span_ok(v@, lo as int, hi as int),
    ensures
        match r {
            Ok(x) => parse_unsigned(index_text(v@.subrange(lo as int, hi as int)), 10, u32::MAX as nat)
                == Some(x as nat),
            Err(e) => parse_unsigned(index_text(v@.subrange(lo as int, hi as int)), 10, u32::MAX as nat)
                is None && e.field == HlsmiField::Index && e.text@ == v@.subrange(lo as int, hi as int),
        },
{
    let (a, b) = trim_span(v, lo, hi);
    match parse_u32_span(v, a, b) {
        Some(x) => Ok(x),
        None => Err(HlsmiParseError { field: HlsmiField::Index, text: span_to_string(v, lo, hi) }),
    }
}

fn parse_memory_span(v: &Vec<char>, lo: usize, hi: usize) -> (r: Result<u64, HlsmiParseError>)
    requires
        span_ok(v@, lo as int, hi as int),
    ensures
        match r {
            Ok(x) => parse_unsigned(memory_text(v@.subrange(lo as int, hi as int)), 10, u64::MAX as nat)
                == Some(x as nat),
            Err(e) => parse_unsigned(memory_text(v@.subrange(lo as int, hi as int)), 10, u64::MAX as nat)
                is None && e.field == HlsmiField::Memory && e.text@ == memory_text(
                v@.subrange(lo as int, hi as int),
            ),
        },
{
    let unit = vec!['M', 'i', 'B'];
    assert(unit@ == seq!['M', 'i', 'B']);
    let (a, b) = unit_span(v, lo, hi, &unit);
    match parse_u64_span(v, a, b) {
        Some(x) => Ok(x),
        None => Err(HlsmiParseError { field: HlsmiField::Memory, text: span_to_string(v, a, b) }),
    }
}

fn parse_temperature_span(v: &Vec<char>, lo: usize, hi: usize) -> (r: Result<u32, HlsmiParseError>)
    requires
        span_ok(v@, lo as int, hi as int),
    ensures
        match r {
            Ok(x) => parse_unsigned(unit_text(v@.subrange(lo as int, hi as int), 'C'), 10, u32::MAX as nat)
                == Some(x as nat),
            Err(e) => parse_unsigned(unit_text(v@.subrange(lo as int, hi as int), 'C'), 10, u32::MAX as nat)
                is None && e.field == HlsmiField::Temperature && e.text@ == unit_text(
                v@.subrange(lo as int, hi as int),
                'C',
            ),
        },
{
    let unit = vec!['C'];
    assert(unit@ == seq!['C']);
    let (a, b) = unit_span(v, lo, hi, &unit);
    match parse_u32_span(v, a, b) {
        Some(x) => Ok(x),
        None => Err(
            HlsmiParseError { field: HlsmiField::Temperature, text: span_to_string(v, a, b) },
        ),
    }
}

/// A column holding a decimal fraction with a one-character unit: the text
/// without the unit when `f64::from_str` reads it, else an error naming the
/// column.
fn parse_fraction_span(v: &Vec<char>, lo: usize, hi: usize, unit: char, field: HlsmiField) -> (r:
    Result<String, HlsmiParseError>)
    requires
        span_ok(v@, lo as int, hi as int),
    ensures
        match r {
            Ok(t) => is_float_text(unit_text(v@.subrange(lo as int, hi as int), unit)) && t@
                == unit_text(v@.subrange(lo as int, hi as int), unit),
            Err(e) => !is_float_text(unit_text(v@.subrange(lo as int, hi as int), unit)) && e.field
                == field && e.text@ == unit_text(v@.subrange(lo as int, hi as int), unit),
        },
{
    let u = vec![unit];
    assert(u@ == seq![unit]);
    let (a, b) = unit_span(v, lo, hi, &u);
    if float_text_span(v, a, b) {
        Ok(span_to_string(v, a, b))
    } else {
        Err(HlsmiParseError { field, text: span_to_string(v, a, b) })
    }
}

/// Power column in watts, e.g. `"226 W"`: the text `"226"` once it is known
/// to read as a number.
pub fn parse_power(s: &str) -> (r: Result<String, HlsmiParseError>)
    ensures
        match r {
            Ok(t) => is_float_text(unit_text(s@, 'W')) && t@ == unit_text(s@, 'W'),
            Err(e) => !is_float_text(unit_text(s@, 'W')) && e.field == HlsmiField::Power && e.text@
                == unit_text(s@, 'W'),
        },
{
    let v = chars_of(s);
    let n = v.len();
    assert(v@.subrange(0, n as int) =~= s@);
    parse_fraction_span(&v, 0, n, 'W', HlsmiField::Power)
}

/// Utilization column in percent, e.g. `"0 %"`: the text `"0"` once it is
/// known to read as a number.
pub fn parse_utilization(s: &str) -> (r: Result<String, HlsmiParseError>)
    ensures
        match r {
            Ok(t) => is_float_text(unit_text(s@, '%')) && t@ == unit_text(s@, '%'),
            Err(e) => !is_float_text(unit_text(s@, '%')) && e.field == HlsmiField::Utilization
                && e.text@ == unit_text(s@, '%'),
        },
{
    let v = chars_of(s);
    let n = v.len();
    assert(v@.subrange(0, n as int) =~= s@);
    parse_fraction_span(&v, 0, n, '%', HlsmiField::Utilization)
}

/// Device index column, e.g. `"0"`.
pub fn parse_index(s: &str) -> (r: Result<u32, HlsmiParseError>)
    ensures
        match r {
            Ok(x) => parse_unsigned(index_text(s@), 10, u32::MAX as nat) == Some(x as nat),
            Err(e) => parse_unsigned(index_text(s@), 10, u32::MAX as nat) is None && e.field
                == HlsmiField::Index && e.text@ == s@,
        },
{
    let v = chars_of(s);
    let n = v.len();
    assert(v@.subrange(0, n as int) =~= s@);
    parse_index_span(&v, 0, n)
}

/// Memory column in MiB, e.g. `"131072 MiB"` gives 131072.
pub fn parse_memory_mib(s: &str) -> (r: Result<u64, HlsmiParseError>)
    ensures
        match r {
            Ok(x) => parse_unsigned(memory_text(s@), 10, u64::MAX as nat) == Some(x as nat),
            Err(e) => parse_unsigned(memory_text(s@), 10, u64::MAX as nat) is None && e.field
                == HlsmiField::Memory && e.text@ == memory_text(s@),
        },
{
    let v = chars_of(s);
    let n = v.len();
    assert(v@.subrange(0, n as int) =~= s@);
    parse_memory_span(&v, 0, n)
}

/// Temperature column in degrees Celsius, e.g. `"36 C"` gives 36.
pub fn parse_temperature(s: &str) -> (r: Result<u32, HlsmiParseError>)
    ensures
        match r {
            Ok(x) => parse_unsigned(unit_text(s@, 'C'), 10, u32::MAX as nat) == Some(x as nat),
            Err(e) => parse_unsigned(unit_text(s@, 'C'), 10, u32::MAX as nat) is None && e.field
                == HlsmiField::Temperature && e.text@ == unit_text(s@, 'C'),
        },
{
    let v = chars_of(s);
    let n = v.len();
    assert(v@.subrange(0, n as int) =~= s@);
    parse_temperature_span(&v, 0, n)
}


/// The trimmed comma separated fields of a line.
pub open spec fn line_fields(l: Seq<char>) -> Seq<Seq<char>> {
    split_seq(trim_seq(l), ',').map_values(|p: Seq<char>| trim_seq(p))
}

/// A line holds a device row: it is not blank and has at least ten fields.
/// Other lines are skipped.
pub open spec fn is_row(l: Seq<char>) -> bool {
    trim_seq(l).len() > 0 && line_fields(l).len() >= 10
}

/// The field lists of the device rows among `ls`, in order.
pub open spec fn rows_of(ls: Seq<Seq<char>>) -> Seq<Seq<Seq<char>>>
    decreases ls.len(),
{
    if ls.len() == 0 {
        Seq::empty()
    } else {
        let prev = rows_of(ls.drop_last());
        if is_row(ls.last()) {
            prev.push(line_fields(ls.last()))
        } else {
            prev
        }
    }
}

/// The rows of a prefix of the lines are a prefix of the rows of all lines.
pub proof fn lemma_rows_prefix(ls: Seq<Seq<char>>, m: int)
    requires
        0 <= m <= ls.len(),
    ensures
        rows_of(ls.take(m)).len() <= rows_of(ls).len(),
        forall|i: int| 0 <= i < rows_of(ls.take(m)).len() ==> rows_of(ls.take(m))[i] == rows_of(ls)[i],
    decreases ls.len(),
{
    if m == ls.len() {
        assert(ls.take(m) =~= ls);
    } else {
        assert(ls.drop_last().take(m) =~= ls.take(m));
        lemma_rows_prefix(ls.drop_last(), m);
    }
}

/// Every numeric field of a row can be read.
pub open spec fn row_ok(f: Seq<Seq<char>>) -> bool {
    &&& parse_unsigned(index_text(f[0]), 10, u32::MAX as nat) is Some
    &&& parse_unsigned(memory_text(f[3]), 10, u64::MAX as nat) is Some
    &&& parse_unsigned(memory_text(f[4]), 10, u64::MAX as nat) is Some
    &&& parse_unsigned(memory_text(f[5]), 10, u64::MAX as nat) is Some
    &&& is_float_text(unit_text(f[6], 'W'))
    &&& is_float_text(unit_text(f[7], 'W'))
    &&& parse_unsigned(unit_text(f[8], 'C'), 10, u32::MAX as nat) is Some
    &&& is_float_text(unit_text(f[9], '%'))
}

/// The first column of a row that cannot be read, in the order the row is
/// read, with its text as it was parsed; `None` when every column reads.
pub open spec fn row_error(f: Seq<Seq<char>>) -> Option<(HlsmiField, Seq<char>)> {
    if parse_unsigned(index_text(f[0]), 10, u32::MAX as nat) is None {
        Some((HlsmiField::Index, f[0]))
    } else if parse_unsigned(memory_text(f[3]), 10, u64::MAX as nat) is None {
        Some((HlsmiField::Memory, memory_text(f[3])))
    } else if parse_unsigned(memory_text(f[4]), 10, u64::MAX as nat) is None {
        Some((HlsmiField::Memory, memory_text(f[4])))
    } else if parse_unsigned(memory_text(f[5]), 10, u64::MAX as nat) is None {
        Some((HlsmiField::Memory, memory_text(f[5])))
    } else if !is_float_text(unit_text(f[6], 'W')) {
        Some((HlsmiField::Power, unit_text(f[6], 'W')))
    } else if !is_float_text(unit_text(f[7], 'W')) {
        Some((HlsmiField::Power, unit_text(f[7], 'W')))
    } else if parse_unsigned(unit_text(f[8], 'C'), 10, u32::MAX as nat) is None {
        Some((HlsmiField::Temperature, unit_text(f[8], 'C')))
    } else if !is_float_text(unit_text(f[9], '%')) {
        Some((HlsmiField::Utilization, unit_text(f[9], '%')))
    } else {
        None
    }
}

/// The device record holds the values of a row.
pub open spec fn device_of_row(d: GaudiDeviceMetrics, f: Seq<Seq<char>>) -> bool {
    &&& parse_unsigned(index_text(f[0]), 10, u32::MAX as nat) == Some(d.index as nat)
    &&& d.uuid@ == f[1]
    &&& d.name@ == f[2]
    &&& parse_unsigned(memory_text(f[3]), 10, u64::MAX as nat) == Some(d.memory_total as nat)
    &&& parse_unsigned(memory_text(f[4]), 10, u64::MAX as nat) == Some(d.memory_used as nat)
    &&& parse_unsigned(memory_text(f[5]), 10, u64::MAX as nat) == Some(d.memory_free as nat)
    &&& d.power_draw_text@ == unit_text(f[6], 'W')
    &&& d.power_max_text@ == unit_text(f[7], 'W')
    &&& parse_unsigned(unit_text(f[8], 'C'), 10, u32::MAX as nat) == Some(d.temperature as nat)
    &&& d.utilization_text@ == unit_text(f[9], '%')
}

/// Reads the values of a row from its ten trimmed field spans.
fn parse_row(v: &Vec<char>, tf: &Vec<(usize, usize)>, Ghost(fields): Ghost<Seq<Seq<char>>>) -> (r:
    Result<GaudiDeviceMetrics, HlsmiParseError>)
    requires
        tf@.len() == 10,
        fields.len() >= 10,
        forall|q: int| #![trigger tf@[q]] 0 <= q < 10 ==> tf@[q].0 <= tf@[q].1 <= v@.len() && v@.subrange(
            tf@[q].0 as int,
            tf@[q].1 as int,
        ) == fields[q],
    ensures
        match r {
            Ok(d) => row_ok(fields) && row_error(fields) is None && device_of_row(d, fields),
            Err(e) => !row_ok(fields) && row_error(fields) == Some((e.field, e.text@)),
        },
{
    assert(v@.subrange(tf@[0].0 as int, tf@[0].1 as int) == fields[0]);
    assert(v@.subrange(tf@[1].0 as int, tf@[1].1 as int) == fields[1]);
    assert(v@.subrange(tf@[2].0 as int, tf@[2].1 as int) == fields[2]);
    assert(v@.subrange(tf@[3].0 as int, tf@[3].1 as int) == fields[3]);
    assert(v@.subrange(tf@[4].0 as int, tf@[4].1 as int) == fields[4]);
    assert(v@.subrange(tf@[5].0 as int, tf@[5].1 as int) == fields[5]);
    assert(v@.subrange(tf@[6].0 as int, tf@[6].1 as int) == fields[6]);
    assert(v@.subrange(tf@[7].0 as int, tf@[7].1 as int) == fields[7]);
    assert(v@.subrange(tf@[8].0 as int, tf@[8].1 as int) == fields[8]);
    assert(v@.subrange(tf@[9].0 as int, tf@[9].1 as int) == fields[9]);
    let index = parse_index_span(v, tf[0].0, tf[0].1)?;
    let memory_total = parse_memory_span(v, tf[3].0, tf[3].1)?;
    let memory_used = parse_memory_span(v, tf[4].0, tf[4].1)?;
    let memory_free = parse_memory_span(v, tf[5].0, tf[5].1)?;
    let power_draw_text = parse_fraction_span(v, tf[6].0, tf[6].1, 'W', HlsmiField::Power)?;
    let power_max_text = parse_fraction_span(v, tf[7].0, tf[7].1, 'W', HlsmiField::Power)?;
    let temperature = parse_temperature_span(v, tf[8].0, tf[8].1)?;
    let utilization_text = parse_fraction_span(v, tf[9].0, tf[9].1, '%', HlsmiField::Utilization)?;
    let (u0, u1) = tf[1];
    let (n0, n1) = tf[2];
    Ok(GaudiDeviceMetrics {
        index,
        uuid: span_to_string(v, u0, u1),
        name: span_to_string(v, n0, n1),
        memory_total,
        memory_used,
        memory_free,
        power_draw_text,
        power_max_text,
        temperature,
        utilization_text,
    })
}

/// Parses the CSV output of `hl-smi`. Blank lines and lines with fewer than
/// ten fields are skipped; a row whose index, memory or temperature column is
/// not an unsigned number, or whose power or utilization column is not text
/// that `f64::from_str` reads, makes the whole output an error: that of the
/// first such column of the first such row.
#[verifier::rlimit(50)]
pub fn parse_hlsmi_output(output: &str) -> (r: Result<GaudiMetricsData, HlsmiParseError>)
    ensures
        ({
            let rows = rows_of(lines_seq(output@));
            match r {
                Ok(data) => (forall|i: int| 0 <= i < rows.len() ==> #[trigger] row_ok(rows[i]))
                    && data.devices@.len() == rows.len() && forall|i: int|
                    0 <= i < rows.len() ==> device_of_row(#[trigger] data.devices@[i], rows[i]),
                Err(e) => exists|i: int|
                    0 <= i < rows.len() && (forall|j: int| 0 <= j < i ==> row_ok(#[trigger] rows[j]))
                        && #[trigger] row_error(rows[i]) == Some((e.field, e.text@)),
            }
        }),
{
    let v = chars_of(output);
    let n = v.len();
    assert(v@.subrange(0, n as int) =~= output@);
    let lines = line_spans(&v, 0, n);
    let ghost ls = lines_seq(output@);
    let mut devices: Vec<GaudiDeviceMetrics> = Vec::new();
    let mut k: usize = 0;
    assert(ls.take(0) =~= Seq::<Seq<char>>::empty());
    while k < lines.len()
        invariant
            k <= lines.len(),
            n == v.len(),
            spans_within(lines@, 0, n as int),
            spans_view(v@, lines@) == ls,
            ls == lines_seq(output@),
            ({
                let rows = rows_of(ls.take(k as int));
                &&& forall|i: int| 0 <= i < rows.len() ==> #[trigger] row_ok(rows[i])
                &&& devices@.len() == rows.len()
                &&& forall|i: int| 0 <= i < rows.len() ==> device_of_row(#[trigger] devices@[i], rows[i])
            }),
        decreases lines.len() - k,
    {
        let ghost prev_rows = rows_of(ls.take(k as int));
        assert(ls.take(k + 1).drop_last() =~= ls.take(k as int));
        let (lo, hi) = lines[k];
        assert(lines@[k as int].0 <= lines@[k as int].1 <= n);
        assert(spans_view(v@, lines@)[k as int] == v@.subrange(lo as int, hi as int));
        let ghost line = v@.subrange(lo as int, hi as int);
        assert(ls.take(k + 1).last() == line);
        let (a, b) = trim_span(&v, lo, hi);
        if a == b {
            assert(!is_row(line));
            assert(rows_of(ls.take(k + 1)) == prev_rows);
            k = k + 1;
            continue;
        }
        let parts = split_spans(&v, a, b, ',');
        let ghost raw = split_seq(trim_seq(line), ',');
        let ghost fields = line_fields(line);
        assert(spans_view(v@, parts@).len() == parts.len());
        assert(fields.len() == raw.len());
        if parts.len() < 10 {
            assert(!is_row(line));
            assert(rows_of(ls.take(k + 1)) == prev_rows);
            k = k + 1;
            continue;
        }
        assert(is_row(line));
        assert(rows_of(ls.take(k + 1)) == prev_rows.push(fields));
        let ghost new_rows = prev_rows.push(fields);
        assert(forall|j: int| #![trigger parts@[j]] 0 <= j < parts.len() ==> fields[j] == trim_seq(
            v@.subrange(parts@[j].0 as int, parts@[j].1 as int),
        )) by {
            assert forall|j: int| #![trigger parts@[j]] 0 <= j < parts.len() implies fields[j] == trim_seq(
                v@.subrange(parts@[j].0 as int, parts@[j].1 as int),
            ) by {
                assert(spans_view(v@, parts@)[j] == v@.subrange(parts@[j].0 as int, parts@[j].1 as int));
            }
        }
        assert forall|q: int| #![trigger parts@[q]] 0 <= q < parts.len() implies parts@[q].0 <= parts@[q].1 <= n by {
            assert(a <= parts@[q].0 <= parts@[q].1 <= b);
        }
        let mut tf: Vec<(usize, usize)> = Vec::new();
        let mut j: usize = 0;
        while j < 10
            invariant
                j <= 10,
                parts.len() >= 10,
                n == v.len(),
                tf@.len() == j,
                forall|q: int| #![trigger parts@[q]] 0 <= q < parts.len() ==> parts@[q].0 <= parts@[q].1 <= n,
                forall|q: int| #![trigger tf@[q]] 0 <= q < j ==> tf@[q].0 <= tf@[q].1 <= n && v@.subrange(
                    tf@[q].0 as int,
                    tf@[q].1 as int,
                ) == trim_seq(v@.subrange(parts@[q].0 as int, parts@[q].1 as int)),
            decreases 10 - j,
        {
            assert(parts@[j as int].0 <= parts@[j as int].1 <= n);
            let t = trim_span(&v, parts[j].0, parts[j].1);
            tf.push(t);
            j = j + 1;
        }
        assert(forall|q: int| #![trigger tf@[q]] 0 <= q < 10 ==> v@.subrange(tf@[q].0 as int, tf@[q].1 as int) == fields[q]);
        let device = match parse_row(&v, &tf, Ghost(fields)) {
            Ok(d) => d,
            Err(e) => {
                proof {
                    lemma_rows_prefix(ls, k + 1);
                    let w = new_rows.len() - 1;
                    assert(rows_of(ls.take(k + 1)) == new_rows);
                    assert(rows_of(ls)[w] == fields);
                    assert(!row_ok(rows_of(ls)[w]));
                    assert forall|j: int| 0 <= j < w implies row_ok(#[trigger] rows_of(ls)[j]) by {
                        assert(new_rows[j] == prev_rows[j]);
                        assert(rows_of(ls.take(k + 1))[j] == rows_of(ls)[j]);
                    }
                    assert(row_error(rows_of(ls)[w]) == Some((e.field, e.text@)));
                }
                return Err(e);
            },
        };
        assert(device_of_row(device, fields));
        devices.push(device);
        k = k + 1;
    }
    assert(ls.take(lines.len() as int) =~= ls);
    Ok(GaudiMetricsData { devices })
}

} // verus!
