//! Remote hosts: the host part of a host URL, the host list read from a
//! file, and the builder of the remote collector.
use vstd::prelude::*;
use crate::text::{
    chars_of, first_index, find_char, line_spans, lines_seq, span_starts_with, span_to_string,
    spans_view, starts_with_seq, ends_with_seq, trim_seq, trim_span, string_of,
};

verus! {

/// The host (and port) of a host URL: after an `http://` or `https://`
/// scheme, up to the first `/`; any other text as it is.
pub open spec fn hostname_spec(url: Seq<char>) -> Seq<char> {
    if starts_with_seq(url, "http://"@) || starts_with_seq(url, "https://"@) {
        let rest = if starts_with_seq(url, "http://"@) {
            url.subrange(7, url.len() as int)
        } else {
            url.subrange(8, url.len() as int)
        };
        match first_index(rest, '/') {
            Some(e) => rest.subrange(0, e),
            None => rest,
        }
    } else {
        url
    }
}

/// The host (and port) of a host URL.
pub fn extract_hostname_from_url(url: &str) -> (r: String)
    ensures
        r@ == hostname_spec(url@),
{
    proof {
        reveal_strlit("http://");
        reveal_strlit("https://");
    }
    let v = chars_of(url);
    let n = v.len();
    assert(v@.subrange(0, n as int) =~= url@);
    let http = chars_of("http://");
    let https = chars_of("https://");
    let is_http = span_starts_with(&v, 0, n, &http);
    let is_https = span_starts_with(&v, 0, n, &https);
    if !is_http && !is_https {
        return span_to_string(&v, 0, n);
    }
    let start: usize = if is_http {
        7
    } else {
        8
    };
    assert(v@.subrange(start as int, n as int) =~= url@.subrange(start as int, url@.len() as int));
    match find_char(&v, start, n, '/') {
        Some(e) => {
            assert(v@.subrange(start as int, e as int) =~= v@.subrange(start as int, n as int).subrange(
                0,
                e - start,
            ));
            span_to_string(&v, start, e)
        },
        None => span_to_string(&v, start, n),
    }
}

/// The identifier of a host: its host and port.
pub fn extract_host_identifier(url: &str) -> (r: String)
    ensures
        r@ == hostname_spec(url@),
{
    extract_hostname_from_url(url)
}

/// A host line without its `http://` or `https://` scheme.
pub open spec fn strip_scheme(t: Seq<char>) -> Seq<char> {
    if starts_with_seq(t, "http://"@) {
        t.subrange(7, t.len() as int)
    } else if starts_with_seq(t, "https://"@) {
        t.subrange(8, t.len() as int)
    } else {
        t
    }
}

/// The host of one line of a host file: the trimmed line without scheme,
/// unless the line is blank or a `#` comment.
pub open spec fn host_of_line(l: Seq<char>) -> Option<Seq<char>> {
    let t = trim_seq(l);
    if t.len() == 0 || t[0] == '#' {
        None
    } else {
        Some(strip_scheme(t))
    }
}

/// The hosts of a list of lines, in order.
pub open spec fn hosts_of_lines(ls: Seq<Seq<char>>) -> Seq<Seq<char>>
    decreases ls.len(),
{
    if ls.len() == 0 {
        Seq::empty()
    } else {
        let prev = hosts_of_lines(ls.drop_last());
        match host_of_line(ls.last()) {
            Some(h) => prev.push(h),
            None => prev,
        }
    }
}

/// The texts of a list of strings.
pub open spec fn string_views(v: Seq<String>) -> Seq<Seq<char>> {
    Seq::new(v.len(), |i: int| v[i]@)
}

/// The hosts listed in the text of a host file: one per line, blank lines
/// and `#` comments skipped, schemes removed.
pub fn parse_hosts_content(content: &str) -> (r: Vec<String>)
    ensures
        string_views(r@) == hosts_of_lines(lines_seq(content@)),
{
    proof {
        reveal_strlit("http://");
        reveal_strlit("https://");
    }
    let v = chars_of(content);
    let n = v.len();
    assert(v@.subrange(0, n as int) =~= content@);
    let lines = line_spans(&v, 0, n);
    let ghost ls = lines_seq(content@);
    assert(spans_view(v@, lines@) == ls);
    let http = chars_of("http://");
    let https = chars_of("https://");
    let mut out: Vec<String> = Vec::new();
    let mut i: usize = 0;
    while i < lines.len()
        invariant
            i <= lines@.len(),
            http@ == "http://"@,
            https@ == "https://"@,
            spans_view(v@, lines@) == ls,
            crate::text::spans_within(lines@, 0, n as int),
            n == v@.len(),
            string_views(out@) == hosts_of_lines(ls.subrange(0, i as int)),
        decreases lines.len() - i,
    {
        let (lo, hi) = lines[i];
        assert(lines@[i as int] == (lo, hi));
        assert(ls[i as int] == v@.subrange(lo as int, hi as int));
        let ghost pre = ls.subrange(0, i as int);
        assert(ls.subrange(0, i as int + 1).drop_last() =~= pre);
        assert(ls.subrange(0, i as int + 1).last() == ls[i as int]);
        let (a, b) = trim_span(&v, lo, hi);
        proof {
            reveal_strlit("http://");
            reveal_strlit("https://");
        }
        let ghost t = v@.subrange(a as int, b as int);
        if a < b && v[a] != '#' {
            assert(t[0] == v@[a as int]);
            let s = if span_starts_with(&v, a, b, &http) {
                assert(t.subrange(7, t.len() as int) =~= v@.subrange(a + 7, b as int));
                span_to_string(&v, a + 7, b)
            } else if span_starts_with(&v, a, b, &https) {
                assert(t.subrange(8, t.len() as int) =~= v@.subrange(a + 8, b as int));
                span_to_string(&v, a + 8, b)
            } else {
                span_to_string(&v, a, b)
            };
            let ghost before = out@;
            out.push(s);
            assert(string_views(out@) =~= string_views(before).push(s@));
        } else {
            proof {
                if a < b {
                    assert(t[0] == v@[a as int]);
                }
            }
        }
        i = i + 1;
    }
    assert(ls.subrange(0, lines@.len() as int) =~= ls);
    out
}

/// Collects data from remote hosts; its builder.
pub struct RemoteCollectorBuilder {
    hosts: Vec<String>,
    max_connections: Option<usize>,
}

impl RemoteCollectorBuilder {
    /// The hosts given so far.
    pub closed spec fn hosts_spec(&self) -> Seq<Seq<char>> {
        string_views(self.hosts@)
    }

    /// The connection limit given, if any.
    pub closed spec fn max_connections_spec(&self) -> Option<usize> {
        self.max_connections
    }

    /// No hosts and no connection limit.
    pub fn new() -> (r: Self)
        ensures
            r.hosts_spec() == Seq::<Seq<char>>::empty(),
            r.max_connections_spec() is None,
    {
        let r = RemoteCollectorBuilder { hosts: Vec::new(), max_connections: None };
        assert(r.hosts_spec() =~= Seq::<Seq<char>>::empty());
        r
    }

    /// The builder with these hosts in place of the earlier ones.
    pub fn with_hosts(self, hosts: Vec<String>) -> (r: Self)
        ensures
            r.hosts_spec() == string_views(hosts@),
            r.max_connections_spec() == self.max_connections_spec(),
    {
        RemoteCollectorBuilder { hosts, max_connections: self.max_connections }
    }

    /// The builder with a connection limit.
    pub fn with_max_connections(self, max_connections: usize) -> (r: Self)
        ensures
            r.hosts_spec() == self.hosts_spec(),
            r.max_connections_spec() == Some(max_connections),
    {
        RemoteCollectorBuilder { hosts: self.hosts, max_connections: Some(max_connections) }
    }

    /// The builder with the hosts of a host file's text added after the
    /// earlier ones.
    pub fn add_hosts_from_content(self, content: &str) -> (r: Self)
        ensures
            r.hosts_spec() == self.hosts_spec() + hosts_of_lines(lines_seq(content@)),
            r.max_connections_spec() == self.max_connections_spec(),
    {
        let mut hosts = self.hosts;
        let ghost before = hosts@;
        let mut extra = parse_hosts_content(content);
        hosts.append(&mut extra);
        assert(string_views(hosts@) =~= string_views(before) + hosts_of_lines(lines_seq(content@)));
        RemoteCollectorBuilder { hosts, max_connections: self.max_connections }
    }

    /// The hosts given.
    pub fn hosts(&self) -> (r: &Vec<String>)
        ensures
            string_views(r@) == self.hosts_spec(),
    {
        &self.hosts
    }

    /// The connection limit given, if any.
    pub fn max_connections(&self) -> (r: Option<usize>)
        ensures
            r == self.max_connections_spec(),
    {
        self.max_connections
    }
}


/// The identifier of a host is its own identifier: taking the host part of
/// an already extracted host changes nothing.
pub proof fn law_host_identifier_idempotent(url: Seq<char>)
    ensures
        hostname_spec(hostname_spec(url)) == hostname_spec(url),
{
    reveal_strlit("http://");
    reveal_strlit("https://");
    let h = hostname_spec(url);
    if starts_with_seq(url, "http://"@) || starts_with_seq(url, "https://"@) {
        let rest = if starts_with_seq(url, "http://"@) {
            url.subrange(7, url.len() as int)
        } else {
            url.subrange(8, url.len() as int)
        };
        match first_index(rest, '/') {
            Some(e) => {
                crate::text::lemma_first_index_prefix(rest, '/', e);
                assert(forall|i: int| 0 <= i < e ==> rest[i] != '/');
                if starts_with_seq(h, "http://"@) {
                    assert(h[5] == "http://"@[5]);
                    assert(h[5] == rest[5]);
                }
                if starts_with_seq(h, "https://"@) {
                    assert(h[6] == "https://"@[6]);
                    assert(h[6] == rest[6]);
                }
            },
            None => {
                crate::text::lemma_first_index_none(rest, '/');
                if starts_with_seq(h, "http://"@) {
                    assert(h[5] == "http://"@[5]);
                }
                if starts_with_seq(h, "https://"@) {
                    assert(h[6] == "https://"@[6]);
                }
            },
        }
    }
}

/// The metrics URL of a host: `<host>/metrics`, with `http://` put in front
/// of a host given without a scheme.
pub open spec fn metrics_url_spec(host: Seq<char>) -> Seq<char> {
    if starts_with_seq(host, "http://"@) || starts_with_seq(host, "https://"@) {
        host + "/metrics"@
    } else {
        "http://"@ + host + "/metrics"@
    }
}

/// The metrics URL of a host.
pub fn metrics_url(host: &str) -> (r: String)
    ensures
        r@ == metrics_url_spec(host@),
{
    let v = chars_of(host);
    let n = v.len();
    assert(v@.subrange(0, n as int) =~= host@);
    let http = chars_of("http://");
    let https = chars_of("https://");
    let mut s = String::new();
    if !span_starts_with(&v, 0, n, &http) && !span_starts_with(&v, 0, n, &https) {
        s.append("http://");
    }
    s.append(host);
    s.append("/metrics");
    s
}

/// How one request for a host's metrics ended.
pub enum FetchOutcome {
    /// The host answered with success and its text.
    Text(String),
    /// The host answered with success but the body could not be read.
    BodyError(String),
    /// The host answered with another HTTP status.
    Status(String),
    /// The connection failed.
    ConnectionError(String),
}

/// What to do after a request.
pub enum FetchStep {
    /// Stop with the host's text.
    Done(String),
    /// Stop with an error message.
    Failed(String),
    /// Wait and try again.
    Retry,
}

/// The decision after request number `attempt` (from 1) of at most
/// `max_attempts`: a text ends the fetch; a failure on the third request
/// ends it with its message; another failure is retried while requests are
/// left, and ends the fetch as having failed every attempt when none are.
pub fn fetch_step(attempt: u32, max_attempts: u32, outcome: FetchOutcome) -> (r: FetchStep)
    ensures
        match outcome {
            FetchOutcome::Text(t) => r matches FetchStep::Done(x) && x@ == t@,
            FetchOutcome::BodyError(e) => if attempt == 3 {
                r matches FetchStep::Failed(m) && m@ == "Text parse error: "@ + e@
            } else if attempt < max_attempts {
                r is Retry
            } else {
                r matches FetchStep::Failed(m) && m@ == "All retry attempts failed"@
            },
            FetchOutcome::Status(code) => if attempt == 3 {
                r matches FetchStep::Failed(m) && m@ == "HTTP "@ + code@
            } else if attempt < max_attempts {
                r is Retry
            } else {
                r matches FetchStep::Failed(m) && m@ == "All retry attempts failed"@
            },
            FetchOutcome::ConnectionError(e) => if attempt == 3 {
                r matches FetchStep::Failed(m) && m@ == "Connection error after 3 attempts: "@ + e@
            } else if attempt < max_attempts {
                r is Retry
            } else {
                r matches FetchStep::Failed(m) && m@ == "All retry attempts failed"@
            },
        },
{
    match outcome {
        FetchOutcome::Text(t) => FetchStep::Done(t),
        FetchOutcome::BodyError(e) => {
            if attempt == 3 {
                let mut m = string_of("Text parse error: ");
                m.append(e.as_str());
                FetchStep::Failed(m)
            } else if attempt < max_attempts {
                FetchStep::Retry
            } else {
                FetchStep::Failed(string_of("All retry attempts failed"))
            }
        },
        FetchOutcome::Status(code) => {
            if attempt == 3 {
                let mut m = string_of("HTTP ");
                m.append(code.as_str());
                FetchStep::Failed(m)
            } else if attempt < max_attempts {
                FetchStep::Retry
            } else {
                FetchStep::Failed(string_of("All retry attempts failed"))
            }
        },
        FetchOutcome::ConnectionError(e) => {
            if attempt == 3 {
                let mut m = string_of("Connection error after 3 attempts: ");
                m.append(e.as_str());
                FetchStep::Failed(m)
            } else if attempt < max_attempts {
                FetchStep::Retry
            } else {
                FetchStep::Failed(string_of("All retry attempts failed"))
            }
        },
    }
}


/// The name a remote host reports itself by: the instance of its first GPU,
/// else of its first CPU, else of its first memory record; none when it
/// reported none of these.
pub open spec fn instance_name_spec(gpu: Seq<Seq<char>>, cpu: Seq<Seq<char>>, memory: Seq<Seq<char>>) -> Option<
    Seq<char>,
> {
    if gpu.len() > 0 {
        Some(gpu[0])
    } else if cpu.len() > 0 {
        Some(cpu[0])
    } else if memory.len() > 0 {
        Some(memory[0])
    } else {
        None
    }
}

/// The name a remote host reports itself by, from the instance names of the
/// GPU, CPU and memory records parsed from its metrics, in order; it is shown
/// in place of the address the host was reached at.
pub fn remote_instance_name(gpu: &Vec<String>, cpu: &Vec<String>, memory: &Vec<String>) -> (r: Option<String>)
    ensures
        match r {
            Some(x) => instance_name_spec(string_views(gpu@), string_views(cpu@), string_views(memory@))
                == Some(x@),
            None => instance_name_spec(string_views(gpu@), string_views(cpu@), string_views(memory@))
                is None,
        },
{
    if gpu.len() > 0 {
        Some(gpu[0].clone())
    } else if cpu.len() > 0 {
        Some(cpu[0].clone())
    } else if memory.len() > 0 {
        Some(memory[0].clone())
    } else {
        None
    }
}


/// The metrics URL of a host: a host that already names its scheme
/// (`http://` or `https://`) is used as given, with `/metrics` appended; any
/// other host is reached over `http://`. So the URL always starts with a
/// scheme and ends with `/metrics`, and writing `http://` in front of a host
/// without a scheme gives the same URL.
pub proof fn law_metrics_url(host: Seq<char>)
    ensures
        starts_with_seq(host, "http://"@) ==> metrics_url_spec(host) == host + "/metrics"@,
        starts_with_seq(host, "https://"@) ==> metrics_url_spec(host) == host + "/metrics"@,
        !starts_with_seq(host, "http://"@) && !starts_with_seq(host, "https://"@) ==> metrics_url_spec(host)
            == "http://"@ + host + "/metrics"@,
        starts_with_seq(metrics_url_spec(host), "http://"@) || starts_with_seq(metrics_url_spec(host), "https://"@),
        ends_with_seq(metrics_url_spec(host), "/metrics"@),
        !starts_with_seq(host, "http://"@) && !starts_with_seq(host, "https://"@) ==> metrics_url_spec(
            "http://"@ + host,
        ) == metrics_url_spec(host),
{
    reveal_strlit("http://");
    reveal_strlit("https://");
    reveal_strlit("/metrics");
    let u = metrics_url_spec(host);
    let m = "/metrics"@;
    assert(u.subrange(u.len() - m.len(), u.len() as int) =~= m);
    if starts_with_seq(host, "http://"@) || starts_with_seq(host, "https://"@) {
        if starts_with_seq(host, "http://"@) {
            assert(u.subrange(0, 7) =~= host.subrange(0, 7));
        } else {
            assert(u.subrange(0, 8) =~= host.subrange(0, 8));
        }
    } else {
        let h = "http://"@ + host;
        assert(u.subrange(0, 7) =~= "http://"@);
        assert(h.subrange(0, 7) =~= "http://"@);
        assert(h + m =~= "http://"@ + host + m);
    }
}

} // verus!
