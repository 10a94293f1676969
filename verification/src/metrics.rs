//! Prometheus text exposition: a builder of `# HELP`, `# TYPE` and sample
//! lines, and the reading of the numeric and register values that device
//! details carry as text.
use vstd::prelude::*;
use crate::number::{all_digits, digits_value, is_hex_digit, parse_unsigned, radix_string};
use crate::text::{
    lemma_first_index_absent, chars_of, first_index, is_ws, push_char, push_span, trim_seq, trim_span, trim_start_matches_seq,
    trim_start_matches_span, span_ok,
};

verus! {

/// A label value with `\`, `"` and newlines escaped.
pub open spec fn escape_label(s: Seq<char>) -> Seq<char>
    decreases s.len(),
{
    if s.len() == 0 {
        Seq::empty()
    } else {
        escape_label(s.drop_last()) + escape_char(s.last())
    }
}

/// The escape of one character of a label value.
pub open spec fn escape_char(c: char) -> Seq<char> {
    if c == '\\' {
        seq!['\\', '\\']
    } else if c == '"' {
        seq!['\\', '"']
    } else if c == '\n' {
        seq!['\\', 'n']
    } else {
        seq![c]
    }
}

/// `key="value"` with the value escaped.
pub open spec fn label_pair(l: (Seq<char>, Seq<char>)) -> Seq<char> {
    l.0 + seq!['=', '"'] + escape_label(l.1) + seq!['"']
}

/// The labels of a sample, comma-separated.
pub open spec fn labels_text(ls: Seq<(Seq<char>, Seq<char>)>) -> Seq<char>
    decreases ls.len(),
{
    if ls.len() == 0 {
        Seq::empty()
    } else if ls.len() == 1 {
        label_pair(ls[0])
    } else {
        labels_text(ls.drop_last()) + seq![','] + label_pair(ls.last())
    }
}

/// The texts of a list of labels.
pub open spec fn label_views(ls: Seq<(String, String)>) -> Seq<(Seq<char>, Seq<char>)> {
    Seq::new(ls.len(), |i: int| (ls[i].0@, ls[i].1@))
}

/// `# HELP name help`.
pub open spec fn help_line(name: Seq<char>, help: Seq<char>) -> Seq<char> {
    "# HELP "@ + name + seq![' '] + help + seq!['\n']
}

/// `# TYPE name type`.
pub open spec fn type_line(name: Seq<char>, ty: Seq<char>) -> Seq<char> {
    "# TYPE "@ + name + seq![' '] + ty + seq!['\n']
}

/// A sample line: `name value`, or `name{labels} value` when it has labels.
pub open spec fn sample_line(name: Seq<char>, ls: Seq<(Seq<char>, Seq<char>)>, value: Seq<char>) -> Seq<
    char,
> {
    if ls.len() == 0 {
        name + seq![' '] + value + seq!['\n']
    } else {
        name + seq!['{'] + labels_text(ls) + seq!['}', ' '] + value + seq!['\n']
    }
}

/// A metric with its help and type lines and one sample.
pub open spec fn metric_block(
    name: Seq<char>,
    help: Seq<char>,
    ty: Seq<char>,
    ls: Seq<(Seq<char>, Seq<char>)>,
    value: Seq<char>,
) -> Seq<char> {
    help_line(name, help) + type_line(name, ty) + sample_line(name, ls, value)
}

/// Text of the Prometheus exposition format, built line by line.
pub struct MetricBuilder {
    output: String,
}

impl View for MetricBuilder {
    type V = Seq<char>;

    closed spec fn view(&self) -> Seq<char> {
        self.output@
    }
}

impl MetricBuilder {
    /// An empty text.
    pub fn new() -> (r: Self)
        ensures
            r@ == Seq::<char>::empty(),
    {
        MetricBuilder { output: String::new() }
    }

    /// Appends `# HELP name help`.
    pub fn help(&mut self, name: &str, help: &str)
        ensures
            final(self)@ == old(self)@ + help_line(name@, help@),
    {
        self.output.append("# HELP ");
        self.output.append(name);
        push_char(&mut self.output, ' ');
        self.output.append(help);
        push_char(&mut self.output, '\n');
        assert(old(self)@ + "# HELP "@ + name@ + seq![' '] + help@ + seq!['\n'] =~= old(self)@
            + help_line(name@, help@));
    }

    /// Appends `# TYPE name type`.
    pub fn type_(&mut self, name: &str, ty: &str)
        ensures
            final(self)@ == old(self)@ + type_line(name@, ty@),
    {
        self.output.append("# TYPE ");
        self.output.append(name);
        push_char(&mut self.output, ' ');
        self.output.append(ty);
        push_char(&mut self.output, '\n');
        assert(old(self)@ + "# TYPE "@ + name@ + seq![' '] + ty@ + seq!['\n'] =~= old(self)@
            + type_line(name@, ty@));
    }

    fn push_escaped(&mut self, s: &str)
        ensures
            final(self)@ == old(self)@ + escape_label(s@),
    {
        let v = chars_of(s);
        let mut i: usize = 0;
        while i < v.len()
            invariant
                i <= v@.len(),
                v@ == s@,
                self@ == old(self)@ + escape_label(v@.subrange(0, i as int)),
            decreases v.len() - i,
        {
            let c = v[i];
            if c == '\\' {
                push_char(&mut self.output, '\\');
                push_char(&mut self.output, '\\');
            } else if c == '"' {
                push_char(&mut self.output, '\\');
                push_char(&mut self.output, '"');
            } else if c == '\n' {
                push_char(&mut self.output, '\\');
                push_char(&mut self.output, 'n');
            } else {
                push_char(&mut self.output, c);
            }
            assert(v@.subrange(0, i as int + 1).drop_last() =~= v@.subrange(0, i as int));
            assert(self@ =~= old(self)@ + escape_label(v@.subrange(0, i as int + 1)));
            i = i + 1;
        }
        assert(v@.subrange(0, v@.len() as int) =~= s@);
    }

    /// Appends a sample line; label values are escaped.
    pub fn metric(&mut self, name: &str, labels: &Vec<(String, String)>, value: &str)
        ensures
            final(self)@ == old(self)@ + sample_line(name@, label_views(labels@), value@),
    {
        let ghost ls = label_views(labels@);
        self.output.append(name);
        if labels.len() > 0 {
            push_char(&mut self.output, '{');
            let ghost start = self@;
            let mut i: usize = 0;
            while i < labels.len()
                invariant
                    i <= labels@.len(),
                    ls == label_views(labels@),
                    self@ == start + labels_text(ls.subrange(0, i as int)),
                decreases labels.len() - i,
            {
                if i > 0 {
                    push_char(&mut self.output, ',');
                }
                self.output.append(labels[i].0.as_str());
                push_char(&mut self.output, '=');
                push_char(&mut self.output, '"');
                self.push_escaped(labels[i].1.as_str());
                push_char(&mut self.output, '"');
                proof {
                    let pre = ls.subrange(0, i as int);
                    let next = ls.subrange(0, i as int + 1);
                    assert(next.drop_last() =~= pre);
                    assert(next.last() == ls[i as int]);
                    if i == 0 {
                        assert(pre.len() == 0);
                        assert(self@ =~= start + labels_text(next));
                    } else {
                        assert(self@ =~= start + labels_text(next));
                    }
                }
                i = i + 1;
            }
            assert(ls.subrange(0, ls.len() as int) =~= ls);
            push_char(&mut self.output, '}');
            push_char(&mut self.output, ' ');
            self.output.append(value);
            push_char(&mut self.output, '\n');
            assert(self@ =~= old(self)@ + sample_line(name@, ls, value@));
        } else {
            push_char(&mut self.output, ' ');
            self.output.append(value);
            push_char(&mut self.output, '\n');
            assert(self@ =~= old(self)@ + sample_line(name@, ls, value@));
        }
    }

    /// Appends a metric with its help and type lines and one sample.
    pub fn block(
        &mut self,
        name: &str,
        help: &str,
        ty: &str,
        labels: &Vec<(String, String)>,
        value: &str,
    )
        ensures
            final(self)@ == old(self)@ + metric_block(name@, help@, ty@, label_views(labels@), value@),
    {
        self.help(name, help);
        self.type_(name, ty);
        self.metric(name, labels, value);
        assert(old(self)@ + help_line(name@, help@) + type_line(name@, ty@) + sample_line(
            name@,
            label_views(labels@),
            value@,
        ) =~= old(self)@ + metric_block(name@, help@, ty@, label_views(labels@), value@));
    }

    /// The text built so far.
    pub fn build(self) -> (r: String)
        ensures
            r@ == self@,
    {
        self.output
    }
}

/// `s` without leading `'0'`s.
pub open spec fn strip_leading_zeros(s: Seq<char>) -> Seq<char>
    decreases s.len(),
{
    if s.len() > 0 && s[0] == '0' {
        strip_leading_zeros(s.drop_first())
    } else {
        s
    }
}

/// `s` without trailing `'0'`s.
pub open spec fn strip_trailing_zeros(s: Seq<char>) -> Seq<char>
    decreases s.len(),
{
    if s.len() > 0 && s.last() == '0' {
        strip_trailing_zeros(s.drop_last())
    } else {
        s
    }
}

/// Length of a leading `+` or `-`.
pub open spec fn sign_len(s: Seq<char>) -> int {
    if s.len() > 0 && (s[0] == '+' || s[0] == '-') {
        1
    } else {
        0
    }
}

/// The integer and fraction digit strings of a plain decimal number (an
/// optional sign, digits, an optional `.` and digits, at least one digit in
/// all), if `s` is one.
pub open spec fn decimal_digits(s: Seq<char>) -> Option<(Seq<char>, Seq<char>)> {
    let body = s.subrange(sign_len(s), s.len() as int);
    let (ip, fp) = match first_index(body, '.') {
        Some(d) => (body.subrange(0, d), body.subrange(d + 1, body.len() as int)),
        None => (body, Seq::empty()),
    };
    if all_digits(ip, 10) && all_digits(fp, 10) && ip.len() + fp.len() > 0 {
        Some((ip, fp))
    } else {
        None
    }
}

/// The shortest text of a number as a float prints it, from its sign and
/// its integer and fraction digits: a `-` kept, no leading zeros of the
/// integer part (at least `0`), no trailing zeros of the fraction, and no
/// `.` without a fraction.
pub open spec fn format_parts(neg: bool, ip: Seq<char>, fp: Seq<char>) -> Seq<char> {
    let i = strip_leading_zeros(ip);
    let f = strip_trailing_zeros(fp);
    (if neg {
        seq!['-']
    } else {
        Seq::empty()
    }) + (if i.len() == 0 {
        seq!['0']
    } else {
        i
    }) + (if f.len() == 0 {
        Seq::empty()
    } else {
        seq!['.'] + f
    })
}

/// The index of the first exponent mark (`e` or `E`) of `s`, if any.
pub open spec fn exp_index(s: Seq<char>) -> Option<int> {
    match (first_index(s, 'e'), first_index(s, 'E')) {
        (Some(a), Some(b)) => Some(if a < b { a } else { b }),
        (Some(a), None) => Some(a),
        (None, Some(b)) => Some(b),
        (None, None) => None,
    }
}

/// The digits `all` with the point moved to after the first `p` of them:
/// the integer and fraction digits, with zeros added where `p` lies outside.
pub open spec fn shift_point(all: Seq<char>, p: int) -> (Seq<char>, Seq<char>) {
    if p >= all.len() {
        (all + Seq::new((p - all.len()) as nat, |j: int| '0'), Seq::empty())
    } else if p <= 0 {
        (Seq::empty(), Seq::new((-p) as nat, |j: int| '0') + all)
    } else {
        (all.subrange(0, p), all.subrange(p, all.len() as int))
    }
}

/// The exponent of a number in exponent form: an optional sign, then at
/// least one decimal digit.
pub open spec fn exponent_value(t: Seq<char>) -> Option<int> {
    let d = t.subrange(sign_len(t), t.len() as int);
    if d.len() > 0 && all_digits(d, 10) {
        Some(
            if t[0] == '-' {
                -(digits_value(d, 10) as int)
            } else {
                digits_value(d, 10) as int
            },
        )
    } else {
        None
    }
}

/// The decimal digits of 2^1024 - 2^970, the least number that a float
/// reads as infinity.
pub open spec fn infinity_threshold() -> Seq<char> {
    "179769313486231580793728971405303415079934132710037826936173778980444968292764750946649017977587207096330286416692887910946555547851940402630657488671505820681908902000708383676273854845817711531764475730270069855571366959622842914819860834936475292719074168444365510704342711559699508093042880177904174497792"@
}

/// Of two digit strings of the same length, the first is at least the second.
pub open spec fn digits_at_least(a: Seq<char>, b: Seq<char>) -> bool
    decreases a.len(),
{
    if a.len() == 0 || b.len() == 0 {
        true
    } else if a[0] != b[0] {
        a[0] > b[0]
    } else {
        digits_at_least(a.drop_first(), b.drop_first())
    }
}

/// Integer digits (no leading zeros) of a number that a float reads as
/// infinity.
pub open spec fn reads_as_infinity(i: Seq<char>) -> bool {
    i.len() > 309 || (i.len() == 309 && digits_at_least(i, infinity_threshold()))
}

/// The text that a float prints for the number with sign `neg`, digits
/// `ip`.`fp` and decimal exponent `e`: `None` when the float is infinite;
/// zero when the number is below the smallest float by more than a factor
/// of ten; `None` also for the numbers of the range below the normal floats,
/// which a float holds with fewer digits; else the digits with the point
/// moved by the exponent.
pub open spec fn float_text(neg: bool, ip: Seq<char>, fp: Seq<char>, e: int) -> Option<Seq<char>> {
    let all = ip + fp;
    let sig = strip_leading_zeros(all);
    if sig.len() == 0 {
        Some(format_parts(neg, Seq::empty(), Seq::empty()))
    } else {
        let q = ip.len() + e - (all.len() - sig.len());
        if q > 309 {
            None
        } else if q < -323 {
            Some(format_parts(neg, Seq::empty(), Seq::empty()))
        } else if q < -306 {
            None
        } else {
            let (i, f) = shift_point(all, ip.len() + e);
            if reads_as_infinity(strip_leading_zeros(i)) {
                None
            } else {
                Some(format_parts(neg, i, f))
            }
        }
    }
}

/// The text of a number as a float prints it: a plain decimal number or one
/// in exponent form (`<decimal>e<exponent>`, either case), as
/// [`float_text`] gives it; `None` for any other text.
pub open spec fn numeric_text_spec(raw: Seq<char>) -> Option<Seq<char>> {
    let s = trim_seq(raw);
    let (m, e) = match exp_index(s) {
        None => (s, Some(0int)),
        Some(k) => (s.subrange(0, k), exponent_value(s.subrange(k + 1, s.len() as int))),
    };
    match (decimal_digits(m), e) {
        (Some((ip, fp)), Some(e)) => float_text(m[0] == '-', ip, fp, e),
        _ => None,
    }
}

fn skip_zeros(v: &Vec<char>, lo: usize, hi: usize) -> (a: usize)
    requires
        span_ok(v@, lo as int, hi as int),
    ensures
        lo <= a <= hi,
        v@.subrange(a as int, hi as int) == strip_leading_zeros(v@.subrange(lo as int, hi as int)),
{
    let mut a = lo;
    while a < hi && v[a] == '0'
        invariant
            lo <= a <= hi,
            hi <= v@.len(),
            strip_leading_zeros(v@.subrange(a as int, hi as int)) == strip_leading_zeros(
                v@.subrange(lo as int, hi as int),
            ),
        decreases hi - a,
    {
        assert(v@.subrange(a as int, hi as int).drop_first() =~= v@.subrange(a as int + 1, hi as int));
        a = a + 1;
    }
    a
}

fn drop_trailing_zeros(v: &Vec<char>, lo: usize, hi: usize) -> (b: usize)
    requires
        span_ok(v@, lo as int, hi as int),
    ensures
        lo <= b <= hi,
        v@.subrange(lo as int, b as int) == strip_trailing_zeros(v@.subrange(lo as int, hi as int)),
{
    let mut b = hi;
    while b > lo && v[b - 1] == '0'
        invariant
            lo <= b <= hi,
            hi <= v@.len(),
            strip_trailing_zeros(v@.subrange(lo as int, b as int)) == strip_trailing_zeros(
                v@.subrange(lo as int, hi as int),
            ),
        decreases b - lo,
    {
        assert(v@.subrange(lo as int, b as int).drop_last() =~= v@.subrange(lo as int, b as int - 1));
        b = b - 1;
    }
    b
}

fn span_all_digits(v: &Vec<char>, lo: usize, hi: usize) -> (r: bool)
    requires
        span_ok(v@, lo as int, hi as int),
    ensures
        r == all_digits(v@.subrange(lo as int, hi as int), 10),
{
    let mut i = lo;
    while i < hi
        invariant
            lo <= i <= hi,
            hi <= v@.len(),
            forall|k: int| lo <= k < i ==> '0' <= #[trigger] v@[k] <= '9',
        decreases hi - i,
    {
        if !('0' <= v[i] && v[i] <= '9') {
            assert(v@.subrange(lo as int, hi as int)[i - lo] == v@[i as int]);
            return false;
        }
        i = i + 1;
    }
    assert forall|k: int| 0 <= k < hi - lo implies '0' <= #[trigger] v@.subrange(
        lo as int,
        hi as int,
    )[k] <= '9' by {
        assert(v@.subrange(lo as int, hi as int)[k] == v@[lo + k]);
    }
    true
}

/// Appends the characters of a span.
fn push_range(out: &mut Vec<char>, v: &Vec<char>, lo: usize, hi: usize)
    requires
        span_ok(v@, lo as int, hi as int),
    ensures
        final(out)@ == old(out)@ + v@.subrange(lo as int, hi as int),
{
    let mut i = lo;
    while i < hi
        invariant
            lo <= i <= hi <= v@.len(),
            out@ == old(out)@ + v@.subrange(lo as int, i as int),
        decreases hi - i,
    {
        out.push(v[i]);
        assert(v@.subrange(lo as int, i + 1) =~= v@.subrange(lo as int, i as int).push(v@[i as int]));
        i = i + 1;
    }
}

/// Appends `n` zeros.
fn push_zeros(out: &mut Vec<char>, n: usize)
    ensures
        final(out)@ == old(out)@ + Seq::new(n as nat, |j: int| '0'),
{
    let mut i: usize = 0;
    while i < n
        invariant
            i <= n,
            out@ == old(out)@ + Seq::new(i as nat, |j: int| '0'),
        decreases n - i,
    {
        out.push('0');
        assert(Seq::new((i + 1) as nat, |j: int| '0') =~= Seq::new(i as nat, |j: int| '0').push('0'));
        i = i + 1;
    }
}

/// The numeric text of a number from its sign and digits.
fn format_output(neg: bool, ints: &Vec<char>, fracs: &Vec<char>) -> (r: String)
    ensures
        r@ == format_parts(neg, ints@, fracs@),
{
    assert(ints@.subrange(0, ints@.len() as int) =~= ints@);
    assert(fracs@.subrange(0, fracs@.len() as int) =~= fracs@);
    let a = skip_zeros(ints, 0, ints.len());
    let b = drop_trailing_zeros(fracs, 0, fracs.len());
    let mut out = String::new();
    if neg {
        push_char(&mut out, '-');
    }
    if a == ints.len() {
        push_char(&mut out, '0');
    } else {
        push_span(&mut out, ints, a, ints.len());
    }
    if b > 0 {
        push_char(&mut out, '.');
        push_span(&mut out, fracs, 0, b);
    }
    proof {
        let i = ints@.subrange(a as int, ints@.len() as int);
        let f = fracs@.subrange(0, b as int);
        let sign = if neg {
            seq!['-']
        } else {
            Seq::<char>::empty()
        };
        let ipart = if i.len() == 0 {
            seq!['0']
        } else {
            i
        };
        let fpart = if f.len() == 0 {
            Seq::<char>::empty()
        } else {
            seq!['.'] + f
        };
        assert(out@ =~= sign + ipart + fpart);
    }
    out
}

/// The exponent in a span, clamped: its value when that is at most `bound`
/// either way, else `bound + 1` with its sign.
fn exponent_clamped(v: &Vec<char>, lo: usize, hi: usize, bound: u128) -> (r: Option<i128>)
    requires
        span_ok(v@, lo as int, hi as int),
        bound < 0x1_0000_0000_0000_0000_0000_0000,
    ensures
        match r {
            Some(x) => exponent_value(v@.subrange(lo as int, hi as int)) matches Some(e) && x == (if e
                > bound {
                bound + 1
            } else if e < -bound {
                -(bound + 1)
            } else {
                e
            }),
            None => exponent_value(v@.subrange(lo as int, hi as int)) is None,
        },
{
    let ghost t = v@.subrange(lo as int, hi as int);
    let start = if lo < hi && (v[lo] == '+' || v[lo] == '-') {
        lo + 1
    } else {
        lo
    };
    let ghost d = v@.subrange(start as int, hi as int);
    assert(t.subrange(sign_len(t), t.len() as int) =~= d);
    if start == hi || !span_all_digits(v, start, hi) {
        return None;
    }
    let mut acc: u128 = 0;
    let mut j = start;
    assert(v@.subrange(start as int, start as int) =~= Seq::<char>::empty());
    while j < hi
        invariant
            start <= j <= hi <= v@.len(),
            bound < 0x1_0000_0000_0000_0000_0000_0000,
            all_digits(d, 10),
            d == v@.subrange(start as int, hi as int),
            acc == (if digits_value(v@.subrange(start as int, j as int), 10) > bound {
                bound + 1
            } else {
                digits_value(v@.subrange(start as int, j as int), 10) as int
            }),
        decreases hi - j,
    {
        let ghost pre = v@.subrange(start as int, j as int);
        let ghost next = v@.subrange(start as int, j + 1);
        assert(next.drop_last() =~= pre);
        assert(next.last() == v@[j as int]);
        assert(d[j - start] == v@[j as int]);
        let c = v[j];
        let digit = ((c as u32) - 48) as u128;
        assert(digit == crate::number::radix_digit_val(c, 10));
        if acc <= bound {
            let x = acc * 10 + digit;
            acc = if x > bound {
                bound + 1
            } else {
                x
            };
        }
        j = j + 1;
    }
    assert(v@.subrange(start as int, hi as int) == d);
    let neg = v[lo] == '-';
    assert(t[0] == v@[lo as int]);
    if neg {
        Some(-(acc as i128))
    } else {
        Some(acc as i128)
    }
}

/// Whether the digits `v[a..]` (no leading zeros) are a number that a float
/// reads as infinity.
fn exceeds_float(v: &Vec<char>, a: usize) -> (r: bool)
    requires
        a <= v@.len(),
    ensures
        r == reads_as_infinity(v@.subrange(a as int, v@.len() as int)),
{
    let len = v.len() - a;
    if len != 309 {
        return len > 309;
    }
    let t = chars_of("179769313486231580793728971405303415079934132710037826936173778980444968292764750946649017977587207096330286416692887910946555547851940402630657488671505820681908902000708383676273854845817711531764475730270069855571366959622842914819860834936475292719074168444365510704342711559699508093042880177904174497792");
    proof {
        reveal_strlit("179769313486231580793728971405303415079934132710037826936173778980444968292764750946649017977587207096330286416692887910946555547851940402630657488671505820681908902000708383676273854845817711531764475730270069855571366959622842914819860834936475292719074168444365510704342711559699508093042880177904174497792");
    }
    assert(t@ == infinity_threshold());
    let ghost x = v@.subrange(a as int, v@.len() as int);
    assert(x.subrange(0, 309) =~= x);
    assert(t@.subrange(0, 309) =~= t@);
    let mut j: usize = 0;
    while j < 309
        invariant
            j <= 309,
            len == 309,
            a + 309 == v.len(),
            v.len() == v@.len(),
            t@.len() == 309,
            t@ == infinity_threshold(),
            x == v@.subrange(a as int, v@.len() as int),
            digits_at_least(x, t@) == digits_at_least(x.subrange(j as int, 309), t@.subrange(j as int, 309)),
        decreases 309 - j,
    {
        let c = v[a + j];
        let d = t[j];
        assert(x[j as int] == v@[(a + j) as int]);
        assert(x.subrange(j as int, 309)[0] == c);
        assert(t@.subrange(j as int, 309)[0] == d);
        assert(x.subrange(j as int, 309).drop_first() =~= x.subrange(j + 1, 309));
        assert(t@.subrange(j as int, 309).drop_first() =~= t@.subrange(j + 1, 309));
        if c != d {
            return c > d;
        }
        j = j + 1;
    }
    assert(x.subrange(309, 309).len() == 0);
    true
}

proof fn lemma_strip_leading_len(s: Seq<char>)
    ensures
        strip_leading_zeros(s).len() <= s.len(),
    decreases s.len(),
{
    if s.len() > 0 && s[0] == '0' {
        lemma_strip_leading_len(s.drop_first());
    }
}

proof fn lemma_clamp_exponent(neg: bool, ip: Seq<char>, fp: Seq<char>, e: int, bound: int)
    requires
        bound >= ip.len() + fp.len() + 1000,
    ensures
        float_text(neg, ip, fp, e) == float_text(
            neg,
            ip,
            fp,
            if e > bound {
                bound + 1
            } else if e < -bound {
                -(bound + 1)
            } else {
                e
            },
        ),
{
    lemma_strip_leading_len(ip + fp);
}

/// The sign and the spans of the integer and fraction digits of the plain
/// decimal number in `v[lo..hi]`, if it is one.
fn mantissa_span(v: &Vec<char>, lo: usize, hi: usize) -> (r: Option<(bool, usize, usize, usize, usize)>)
    requires
        span_ok(v@, lo as int, hi as int),
    ensures
        match r {
            Some((neg, ilo, ihi, flo, fhi)) => {
                &&& lo <= ilo <= ihi <= flo <= fhi <= hi
                &&& decimal_digits(v@.subrange(lo as int, hi as int)) == Some(
                    (v@.subrange(ilo as int, ihi as int), v@.subrange(flo as int, fhi as int)),
                )
                &&& lo < hi
                &&& neg == (v@.subrange(lo as int, hi as int)[0] == '-')
            },
            None => decimal_digits(v@.subrange(lo as int, hi as int)) is None,
        },
{
    let ghost m = v@.subrange(lo as int, hi as int);
    let neg = lo < hi && v[lo] == '-';
    let start = if lo < hi && (v[lo] == '+' || v[lo] == '-') {
        lo + 1
    } else {
        lo
    };
    let ghost body = v@.subrange(start as int, hi as int);
    assert(m.subrange(sign_len(m), m.len() as int) =~= body);
    let (ilo, ihi, flo, fhi) = match crate::text::find_char(v, start, hi, '.') {
        Some(d) => (start, d, d + 1, hi),
        None => (start, hi, hi, hi),
    };
    proof {
        match first_index(body, '.') {
            Some(d) => {
                assert(body.subrange(0, d) =~= v@.subrange(ilo as int, ihi as int));
                assert(body.subrange(d + 1, body.len() as int) =~= v@.subrange(flo as int, fhi as int));
            },
            None => {
                assert(body =~= v@.subrange(ilo as int, ihi as int));
                assert(v@.subrange(flo as int, fhi as int) =~= Seq::<char>::empty());
            },
        }
    }
    if !(span_all_digits(v, ilo, ihi) && span_all_digits(v, flo, fhi) && (ihi - ilo) + (fhi - flo) > 0) {
        return None;
    }
    assert(m.len() > 0);
    assert(m[0] == v@[lo as int]);
    Some((neg, ilo, ihi, flo, fhi))
}

/// The value of a numeric device detail as a float prints it (surrounding
/// whitespace allowed): see [`numeric_text_spec`]. Two kinds of number are
/// not printed here as a float prints them: those below the normal floats
/// (from about 1e-308 down to 1e-323), which give `None`, and those with
/// more significant digits than a float holds (over fifteen), whose digits
/// are kept as written.
#[verifier::rlimit(60)]
pub fn numeric_value_text(raw: &str) -> (r: Option<String>)
    ensures
        match r {
            Some(t) => numeric_text_spec(raw@) == Some(t@),
            None => numeric_text_spec(raw@) is None,
        },
{
    let v = chars_of(raw);
    let n = v.len();
    let (lo, hi) = trim_span(&v, 0, n);
    assert(v@.subrange(0, n as int) =~= raw@);
    let ghost s = v@.subrange(lo as int, hi as int);
    let small = crate::text::find_char(&v, lo, hi, 'e');
    let large = crate::text::find_char(&v, lo, hi, 'E');
    let mark = match (small, large) {
        (Some(a), Some(b)) => Some(if a < b { a } else { b }),
        (Some(a), None) => Some(a),
        (None, Some(b)) => Some(b),
        (None, None) => None,
    };
    let mk = match mark {
        Some(k) => k,
        None => hi,
    };
    let ghost m = s.subrange(0, mk - lo);
    assert(m =~= v@.subrange(lo as int, mk as int));
    let bound: u128 = (hi - lo) as u128 + 1000;
    let e: i128 = match mark {
        None => 0,
        Some(k) => {
            assert(s.subrange(k - lo + 1, s.len() as int) =~= v@.subrange(k + 1, hi as int));
            match exponent_clamped(&v, k + 1, hi, bound) {
                Some(x) => x,
                None => {
                    return None;
                },
            }
        },
    };
    let ghost ex: int = match mark {
        None => 0,
        Some(k) => exponent_value(s.subrange(k - lo + 1, s.len() as int))->0,
    };
    let (neg, ilo, ihi, flo, fhi) = match mantissa_span(&v, lo, mk) {
        Some(x) => x,
        None => {
            return None;
        },
    };
    let ghost ip = v@.subrange(ilo as int, ihi as int);
    let ghost fp = v@.subrange(flo as int, fhi as int);
    assert(m.len() > 0);
    assert(m[0] == v@[lo as int]);
    proof {
        lemma_clamp_exponent(neg, ip, fp, ex, bound as int);
    }
    assert(numeric_text_spec(raw@) == float_text(neg, ip, fp, e as int));
    let mut all: Vec<char> = Vec::new();
    push_range(&mut all, &v, ilo, ihi);
    push_range(&mut all, &v, flo, fhi);
    assert(all@ =~= ip + fp);
    assert(all@.subrange(0, ip.len() as int) =~= ip);
    assert(all@.subrange(ip.len() as int, all@.len() as int) =~= fp);
    float_text_exec(neg, &all, ihi - ilo, e)
}

/// The text that a float prints for the number with sign `neg`, digits
/// `all` with the point after `il` of them, and decimal exponent `e`.
#[verifier::rlimit(40)]
fn float_text_exec(neg: bool, all: &Vec<char>, il: usize, e: i128) -> (r: Option<String>)
    requires
        il <= all@.len(),
        -0x1_0000_0000_0000_0000_0000 < e < 0x1_0000_0000_0000_0000_0000,
    ensures
        match r {
            Some(t) => float_text(
                neg,
                all@.subrange(0, il as int),
                all@.subrange(il as int, all@.len() as int),
                e as int,
            ) == Some(t@),
            None => float_text(
                neg,
                all@.subrange(0, il as int),
                all@.subrange(il as int, all@.len() as int),
                e as int,
            ) is None,
        },
{
    let ghost ip = all@.subrange(0, il as int);
    let ghost fp = all@.subrange(il as int, all@.len() as int);
    assert(ip + fp =~= all@);
    assert(all@.subrange(0, all@.len() as int) =~= all@);
    let z = skip_zeros(all, 0, all.len());
    let empty: Vec<char> = Vec::new();
    if z == all.len() {
        return Some(format_output(neg, &empty, &empty));
    }
    let alen = all.len() as i128;
    let p: i128 = il as i128 + e;
    let q: i128 = p - z as i128;
    if q > 309 {
        return None;
    }
    if q < -323 {
        return Some(format_output(neg, &empty, &empty));
    }
    if q < -306 {
        return None;
    }
    let mut ints: Vec<char> = Vec::new();
    let mut fracs: Vec<char> = Vec::new();
    if p >= alen {
        push_range(&mut ints, all, 0, all.len());
        push_zeros(&mut ints, (p - alen) as usize);
    } else if p <= 0 {
        push_zeros(&mut fracs, (0 - p) as usize);
        push_range(&mut fracs, all, 0, all.len());
    } else {
        push_range(&mut ints, all, 0, p as usize);
        push_range(&mut fracs, all, p as usize, all.len());
    }
    assert(ints@ =~= shift_point(all@, ip.len() + e).0);
    assert(fracs@ =~= shift_point(all@, ip.len() + e).1);
    assert(ints@.subrange(0, ints@.len() as int) =~= ints@);
    let ia = skip_zeros(&ints, 0, ints.len());
    if exceeds_float(&ints, ia) {
        return None;
    }
    Some(format_output(neg, &ints, &fracs))
}

/// A register value written in hexadecimal: any leading `0x`s removed, then
/// surrounding whitespace, then one to eight hexadecimal digits.
pub open spec fn hex_register_spec(raw: Seq<char>) -> Option<u32> {
    let t = trim_seq(trim_start_matches_seq(raw, seq!['0', 'x']));
    if 1 <= t.len() <= 8 && (forall|i: int| 0 <= i < t.len() ==> is_hex_digit(#[trigger] t[i])) {
        match parse_unsigned(t, 16, u32::MAX as nat) {
            Some(v) => Some(v as u32),
            None => None,
        }
    } else {
        None
    }
}

/// Reads a hexadecimal register value from a device detail.
pub fn hex_register_value(raw: &str) -> (r: Option<u32>)
    ensures
        r == hex_register_spec(raw@),
{
    let v = chars_of(raw);
    let n = v.len();
    assert(v@.subrange(0, n as int) =~= raw@);
    let prefix = vec!['0', 'x'];
    assert(prefix@ =~= seq!['0', 'x']);
    let a = trim_start_matches_span(&v, 0, n, &prefix);
    let (lo, hi) = trim_span(&v, a, n);
    let ghost t = v@.subrange(lo as int, hi as int);
    if hi - lo < 1 || hi - lo > 8 {
        return None;
    }
    let mut i = lo;
    while i < hi
        invariant
            lo <= i <= hi,
            hi <= v@.len(),
            t == v@.subrange(lo as int, hi as int),
            t == trim_seq(trim_start_matches_seq(raw@, seq!['0', 'x'])),
            forall|k: int| lo <= k < i ==> is_hex_digit(#[trigger] v@[k]),
        decreases hi - i,
    {
        let c = v[i];
        if !(('0' <= c && c <= '9') || ('a' <= c && c <= 'f') || ('A' <= c && c <= 'F')) {
            assert(t[i - lo] == v@[i as int]);
            assert(!is_hex_digit(t[i - lo]));
            return None;
        }
        i = i + 1;
    }
    assert forall|k: int| 0 <= k < t.len() implies is_hex_digit(#[trigger] t[k]) by {
        assert(t[k] == v@[lo + k]);
    }
    crate::number::parse_hex_u32_span(&v, lo, hi)
}


proof fn lemma_trim_digits(s: Seq<char>, radix: nat)
    requires
        all_digits(s, radix),
        s.len() >= 1,
        radix == 10 || radix == 16,
    ensures
        trim_seq(s) == s,
{
    assert(!is_ws(s[0]));
    assert(!is_ws(s.last()));
}

/// A count that a reader writes in decimal is exported as the same digits:
/// the numeric text of `n` written in decimal is that text, for every count
/// with at most fifteen digits (beyond which a float rounds).
pub proof fn law_decimal_detail_exported(n: nat)
    requires
        n < 1_000_000_000_000_000,
    ensures
        numeric_text_spec(radix_string(n, 10)) == Some(radix_string(n, 10)),
{
    let s = radix_string(n, 10);
    crate::number::lemma_radix_string(n, 10);
    assert(crate::tenstorrent::chip::pow10(15) == 1_000_000_000_000_000) by {
        reveal_with_fuel(crate::tenstorrent::chip::pow10, 16);
    }
    crate::tenstorrent::chip::lemma_dec_len(n, 15);
    lemma_trim_digits(s, 10);
    assert(sign_len(s) == 0);
    assert(s.subrange(0, s.len() as int) =~= s);
    lemma_first_index_absent(s, '.');
    lemma_first_index_absent(s, 'e');
    lemma_first_index_absent(s, 'E');
    assert(exp_index(s) is None);
    let empty = Seq::<char>::empty();
    assert(decimal_digits(s) == Some((s, empty)));
    assert(s + empty =~= s);
    assert(strip_trailing_zeros(empty) == empty);
    assert(s[0] != '-');
    if n == 0 {
        assert(s == seq![crate::number::digit_char(0)]);
        assert(crate::number::digit_char(0) == '0');
        assert(s.drop_first() =~= empty);
        assert(strip_leading_zeros(empty) == empty);
        assert(strip_leading_zeros(s) == strip_leading_zeros(s.drop_first()));
        assert(strip_leading_zeros(s) =~= empty);
        assert(float_text(false, s, empty, 0) == Some(format_parts(false, empty, empty)));
        assert(format_parts(false, empty, empty) =~= s);
    } else {
        assert(strip_leading_zeros(s) == s);
        let sh = shift_point(s, s.len() as int);
        assert(sh.0 =~= s);
        assert(sh.1 =~= empty);
        assert(float_text(false, s, empty, 0) == Some(format_parts(false, s, empty)));
        assert(format_parts(false, s, empty) =~= s);
    }
}

/// A register that a reader writes as `0x` and eight hexadecimal digits is
/// read back by the exporter as the same value.
pub proof fn law_register_detail_roundtrip(v: u32)
    ensures
        hex_register_spec(
            "0x"@ + crate::number::zero_pad(radix_string(v as nat, 16), 8),
        ) == Some(v),
{
    reveal_strlit("0x");
    let d = crate::number::zero_pad(radix_string(v as nat, 16), 8);
    let h = "0x"@ + d;
    crate::number::lemma_zero_pad(v as nat, 16, 8);
    assert(crate::number::pow16(8) == 0x1_0000_0000) by {
        reveal_with_fuel(crate::number::pow16, 9);
    }
    crate::number::lemma_hex_len(v as nat, 8);
    assert(d.len() == 8);
    assert(crate::text::starts_with_seq(h, seq!['0', 'x'])) by {
        assert(h.subrange(0, 2) =~= seq!['0', 'x']);
    }
    assert(h.subrange(2, h.len() as int) =~= d);
    assert(!crate::text::starts_with_seq(d, seq!['0', 'x'])) by {
        if crate::text::starts_with_seq(d, seq!['0', 'x']) {
            assert(d.subrange(0, 2)[1] == 'x');
            assert(is_hex_digit(d[1]));
        }
    }
    assert(trim_start_matches_seq(d, seq!['0', 'x']) == d);
    assert(trim_start_matches_seq(h, seq!['0', 'x']) == d);
    lemma_trim_digits(d, 16);
    crate::number::law_radix_roundtrip(v as nat, 16, 8, u32::MAX as nat);
    assert forall|i: int| 0 <= i < d.len() implies is_hex_digit(#[trigger] d[i]) by {}
}

} // verus!
