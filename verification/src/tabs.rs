//! The tab bar of the terminal view: which host tabs fit in the width of
//! the terminal after the `All` tab, from the scroll offset on.
use vstd::prelude::*;
use crate::text::push_char;

verus! {

/// The tabs of the view: `All` first, then one per host.
pub struct TabState {
    pub tabs: Vec<String>,
    /// Index of the selected tab.
    pub current_tab: usize,
    /// Number of host tabs scrolled out on the left.
    pub tab_scroll_offset: usize,
}

/// Which tabs are shown.
#[derive(Debug, Clone, Copy, PartialEq, Eq, Structural)]
pub struct TabVisibility {
    pub first_visible: usize,
    pub last_visible: usize,
    pub has_more_left: bool,
    pub has_more_right: bool,
}

/// The width of a tab on screen: its length in bytes (as a `u16`) and one
/// space on each side.
pub open spec fn tab_width(t: String) -> int {
    ((vstd::utf8::encode_utf8(t@).len() as usize) as u16) as int + 2
}

fn tab_width_of(t: &String) -> (w: u16)
    requires
        tab_width(*t) <= u16::MAX,
    ensures
        w == tab_width(*t),
{
    let n = t.as_str().len();
    (n as u16) + 2
}

/// Every tab's width fits in a `u16`.
pub open spec fn widths_fit(tabs: Seq<String>) -> bool {
    forall|i: int| 0 <= i < tabs.len() ==> #[trigger] tab_width(tabs[i]) <= u16::MAX
}

/// `a - b`, or 0 when `b` is larger.
pub open spec fn sat_sub(a: int, b: int) -> int {
    if a >= b {
        a - b
    } else {
        0
    }
}

/// The last host tab (counted from 0) that fits, scanning the tabs from
/// index `k` with `avail` columns left; `last` is the answer so far.
pub open spec fn scan_tabs(tabs: Seq<String>, k: int, avail: int, last: int) -> int
    decreases tabs.len() - k,
{
    if k >= tabs.len() || k < 0 {
        last
    } else if avail < tab_width(tabs[k]) {
        last
    } else {
        scan_tabs(tabs, k + 1, avail - tab_width(tabs[k]), k - 1)
    }
}

/// Columns left for host tabs: the width less 8 for the `Tabs: ` prefix and
/// padding, less the `All` tab.
pub open spec fn host_columns(tabs: Seq<String>, cols: u16) -> int {
    let avail = sat_sub(cols as int, 8);
    if tabs.len() > 0 {
        sat_sub(avail, tab_width(tabs[0]))
    } else {
        avail
    }
}

/// The visibility of the tabs in a terminal `cols` wide.
pub open spec fn tab_visibility_spec(tabs: Seq<String>, offset: usize, cols: u16) -> TabVisibility {
    let last = scan_tabs(tabs, offset + 1, host_columns(tabs, cols), offset as int);
    TabVisibility {
        first_visible: offset,
        last_visible: (last + 1) as usize,
        has_more_left: offset > 0,
        has_more_right: last + 1 < tabs.len() - 1,
    }
}

/// Which tabs fit in a terminal `cols` wide.
pub fn calculate_tab_visibility(state: &TabState, cols: u16) -> (r: TabVisibility)
    requires
        state.tabs@.len() >= 1,
        state.tab_scroll_offset < usize::MAX,
        widths_fit(state.tabs@),
    ensures
        r == tab_visibility_spec(state.tabs@, state.tab_scroll_offset, cols),
{
    let tabs = &state.tabs;
    let offset = state.tab_scroll_offset;
    let mut avail: u16 = cols.saturating_sub(8);
    if tabs.len() > 0 {
        assert(tab_width(tabs@[0]) <= u16::MAX);
        let w = tab_width_of(&tabs[0]);
        avail = avail.saturating_sub(w);
    }
    let mut last: usize = offset;
    let mut k: usize = offset + 1;
    while k < tabs.len()
        invariant
            1 <= k,
            last < usize::MAX,
            widths_fit(tabs@),
            scan_tabs(tabs@, k as int, avail as int, last as int) == scan_tabs(
                tabs@,
                offset + 1,
                host_columns(tabs@, cols),
                offset as int,
            ),
        ensures
            scan_tabs(tabs@, k as int, avail as int, last as int) == last as int,
        decreases tabs.len() - k,
    {
        assert(tab_width(tabs@[k as int]) <= u16::MAX);
        let w = tab_width_of(&tabs[k]);
        if avail < w {
            break;
        }
        avail = avail - w;
        last = k - 1;
        k = k + 1;
    }
    let last_abs = last + 1;
    TabVisibility {
        first_visible: offset,
        last_visible: last_abs,
        has_more_left: offset > 0,
        has_more_right: last_abs < tabs.len() - 1,
    }
}

proof fn lemma_scan_at_least(tabs: Seq<String>, k: int, avail: int, last: int)
    requires
        last <= k - 1,
    ensures
        scan_tabs(tabs, k, avail, last) >= last,
    decreases tabs.len() - k,
{
    if k < tabs.len() && k >= 0 && avail >= tab_width(tabs[k]) {
        lemma_scan_at_least(tabs, k + 1, avail - tab_width(tabs[k]), k - 1);
    }
}

/// The visible range always holds the first visible tab: the last visible
/// index lies after the first; there is more to the left exactly when the
/// bar is scrolled.
pub proof fn law_tab_visibility_range(tabs: Seq<String>, offset: usize, cols: u16)
    requires
        offset < usize::MAX,
        tabs.len() <= usize::MAX,
    ensures
        tab_visibility_spec(tabs, offset, cols).first_visible == offset,
        tab_visibility_spec(tabs, offset, cols).last_visible > offset,
        tab_visibility_spec(tabs, offset, cols).has_more_left == (offset > 0),
{
    lemma_scan_at_least(tabs, offset + 1, host_columns(tabs, cols), offset as int);
    assert(scan_tabs(tabs, offset + 1, host_columns(tabs, cols), offset as int) + 1 <= usize::MAX) by {
        lemma_scan_at_most(tabs, offset + 1, host_columns(tabs, cols), offset as int);
    }
}

proof fn lemma_scan_at_most(tabs: Seq<String>, k: int, avail: int, last: int)
    requires
        tabs.len() <= usize::MAX,
        last < usize::MAX,
        k >= 1,
    ensures
        scan_tabs(tabs, k, avail, last) < usize::MAX,
    decreases tabs.len() - k,
{
    if k < tabs.len() && avail >= tab_width(tabs[k]) {
        lemma_scan_at_most(tabs, k + 1, avail - tab_width(tabs[k]), k - 1);
    }
}

/// A tab label as drawn: the name with a space on each side, and whether it
/// is the selected tab.
pub struct TabLabel {
    pub text: String,
    pub selected: bool,
}

/// The labels of the host tabs drawn from index `k` on with `avail`
/// columns left: `(index, selected)` for each.
pub open spec fn drawn_hosts(tabs: Seq<String>, k: int, avail: int, current: usize) -> Seq<(int, bool)>
    decreases tabs.len() - k,
{
    if k >= tabs.len() || k < 0 {
        Seq::empty()
    } else if avail < tab_width(tabs[k]) {
        Seq::empty()
    } else {
        seq![(k, current == k)] + drawn_hosts(tabs, k + 1, avail - tab_width(tabs[k]), current)
    }
}

/// The tabs drawn in a terminal `cols` wide, as tab indices with their
/// selection: `All` when it fits, then the host tabs from the scroll offset
/// that fit after it.
pub open spec fn drawn_tabs(tabs: Seq<String>, current: usize, offset: usize, cols: u16) -> Seq<
    (int, bool),
> {
    let avail = sat_sub(cols as int, 8);
    if tabs.len() > 0 && avail >= tab_width(tabs[0]) {
        seq![(0int, current == 0)] + drawn_hosts(tabs, offset + 1, avail - tab_width(tabs[0]), current)
    } else {
        drawn_hosts(tabs, offset + 1, avail, current)
    }
}

fn padded_label(t: &String) -> (r: String)
    ensures
        r@ == seq![' '] + t@ + seq![' '],
{
    let mut s = String::new();
    push_char(&mut s, ' ');
    s.append(t.as_str());
    push_char(&mut s, ' ');
    assert(seq![' '] + t@ + seq![' '] =~= Seq::<char>::empty().push(' ') + t@ + seq![' ']);
    s
}

/// The tab labels to draw in a terminal `cols` wide.
pub fn visible_tab_labels(state: &TabState, cols: u16) -> (r: Vec<TabLabel>)
    requires
        state.tab_scroll_offset < usize::MAX,
        widths_fit(state.tabs@),
    ensures
        r@.len() == drawn_tabs(state.tabs@, state.current_tab, state.tab_scroll_offset, cols).len(),
        forall|i: int| 0 <= i < r@.len() ==> {
            let (k, sel) = #[trigger] drawn_tabs(state.tabs@, state.current_tab, state.tab_scroll_offset, cols)[i];
            &&& 0 <= k < state.tabs@.len()
            &&& r@[i].text@ == seq![' '] + state.tabs@[k]@ + seq![' ']
            &&& r@[i].selected == sel
        },
{
    let tabs = &state.tabs;
    let offset = state.tab_scroll_offset;
    let current = state.current_tab;
    let mut out: Vec<TabLabel> = Vec::new();
    let mut avail: u16 = cols.saturating_sub(8);
    let ghost mut head: Seq<(int, bool)> = Seq::empty();
    if tabs.len() > 0 {
        assert(tab_width(tabs@[0]) <= u16::MAX);
        let w = tab_width_of(&tabs[0]);
        if avail >= w {
            out.push(TabLabel { text: padded_label(&tabs[0]), selected: current == 0 });
            avail = avail - w;
            proof {
                head = seq![(0int, current == 0)];
            }
        }
    }
    proof {
        if !(tabs@.len() > 0 && sat_sub(cols as int, 8) >= tab_width(tabs@[0])) {
            assert(head =~= Seq::<(int, bool)>::empty());
        }
    }
    let mut k: usize = offset + 1;
    assert(head + drawn_hosts(tabs@, k as int, avail as int, current) =~= drawn_tabs(
        tabs@,
        current,
        offset,
        cols,
    ));
    let ghost mut produced: Seq<(int, bool)> = head;
    while k < tabs.len()
        invariant
            1 <= k,
            widths_fit(tabs@),
            produced + drawn_hosts(tabs@, k as int, avail as int, current) == drawn_tabs(
                tabs@,
                current,
                offset,
                cols,
            ),
            out@.len() == produced.len(),
            forall|i: int|
                0 <= i < out@.len() ==> {
                    let (kk, sel) = #[trigger] produced[i];
                    &&& 0 <= kk < tabs@.len()
                    &&& out@[i].text@ == seq![' '] + tabs@[kk]@ + seq![' ']
                    &&& out@[i].selected == sel
                },
        ensures
            drawn_hosts(tabs@, k as int, avail as int, current) == Seq::<(int, bool)>::empty(),
        decreases tabs.len() - k,
    {
        assert(tab_width(tabs@[k as int]) <= u16::MAX);
        let w = tab_width_of(&tabs[k]);
        if avail < w {
            break;
        }
        out.push(TabLabel { text: padded_label(&tabs[k]), selected: current == k });
        proof {
            let x = (k as int, current == k);
            assert(produced.push(x) + drawn_hosts(tabs@, k + 1, avail - w, current) =~= produced + (
            seq![x] + drawn_hosts(tabs@, k + 1, avail - w, current)));
            produced = produced.push(x);
        }
        avail = avail - w;
        k = k + 1;
    }
    assert(produced =~= drawn_tabs(tabs@, current, offset, cols));
    out
}

} // verus!
