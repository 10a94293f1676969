//! Polling intervals and the answers to the privilege prompt.
use vstd::prelude::*;
use crate::cpuinfo::ascii_lower;
use crate::text::{chars_of, trim_seq, trim_span};

verus! {

/// Refresh interval, in seconds, chosen for a given number of monitored nodes.
pub open spec fn adaptive_interval_spec(node_count: nat) -> u64 {
    if node_count <= 10 {
        2
    } else if node_count <= 50 {
        3
    } else if node_count <= 100 {
        4
    } else if node_count <= 200 {
        5
    } else {
        6
    }
}

/// Adaptive polling interval based on the number of remote nodes, so that a
/// large fleet does not overwhelm the network.
pub fn calculate_adaptive_interval(node_count: usize) -> (r: u64)
    ensures
        r == adaptive_interval_spec(node_count as nat),
{
    if node_count <= 10 {
        2
    } else if node_count <= 50 {
        3
    } else if node_count <= 100 {
        4
    } else if node_count <= 200 {
        5
    } else {
        6
    }
}

/// Watching more nodes never makes the refresh interval shorter, and the
/// interval stays between 2 and 6 seconds.
pub proof fn law_adaptive_interval_monotone(a: nat, b: nat)
    requires
        a <= b,
    ensures
        adaptive_interval_spec(a) <= adaptive_interval_spec(b),
        2 <= adaptive_interval_spec(a) <= 6,
{
}


/// An answer to a yes/no prompt, trimmed and lower-cased, is `y` or `yes`.
/// (Only the ASCII letters lower-case to `y`, `e` and `s`.)
pub open spec fn is_yes(answer: Seq<char>) -> bool {
    let t = trim_seq(answer).map_values(|c: char| ascii_lower(c));
    t == "y"@ || t == "yes"@
}

/// Whether the user agreed at a `[y/N]` prompt: the answer, trimmed and
/// lower-cased, is `y` or `yes`.
pub fn answer_is_yes(answer: &str) -> (r: bool)
    ensures
        r == is_yes(answer@),
{
    proof {
        reveal_strlit("y");
        reveal_strlit("yes");
    }
    let v = chars_of(answer);
    let n = v.len();
    assert(v@.subrange(0, n as int) =~= v@);
    let (a, b) = trim_span(&v, 0, n);
    let ghost t = v@.subrange(a as int, b as int).map_values(|c: char| ascii_lower(c));
    assert(t == trim_seq(answer@).map_values(|c: char| ascii_lower(c)));
    assert(t.len() == b - a);
    assert("y"@.len() == 1 && "y"@[0] == 'y');
    assert("yes"@.len() == 3 && "yes"@[0] == 'y' && "yes"@[1] == 'e' && "yes"@[2] == 's');
    let lower = |c: char| -> (r: char)
        ensures
            r == ascii_lower(c),
        {
            if 'A' <= c && c <= 'Z' {
                ((c as u8) + 32) as char
            } else {
                c
            }
        };
    if b - a == 1 {
        let c0 = lower(v[a]);
        assert(t[0] == c0);
        let r = c0 == 'y';
        proof {
            if r {
                assert(t =~= "y"@);
            } else {
                assert(t[0] != "y"@[0]);
            }
        }
        r
    } else if b - a == 3 {
        let c0 = lower(v[a]);
        let c1 = lower(v[a + 1]);
        let c2 = lower(v[a + 2]);
        assert(t[0] == c0 && t[1] == c1 && t[2] == c2);
        let r = c0 == 'y' && c1 == 'e' && c2 == 's';
        proof {
            if r {
                assert(t =~= "yes"@);
            } else {
                assert(t[0] != "yes"@[0] || t[1] != "yes"@[1] || t[2] != "yes"@[2]);
            }
        }
        r
    } else {
        false
    }
}

} // verus!
