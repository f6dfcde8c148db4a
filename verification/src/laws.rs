//! Properties of the library that span several calls or hold of every
//! input, each proved from the contracts of the functions it speaks of.
use vstd::prelude::*;
use crate::browse::{
    names_child, root_view, BrowsedReference, chain_start_of, chain_step_of, ChainStep,
    browse_path_of, child_of, escaped, first_colon, in_tree, is_reserved, nonempty_parts, path_segments_of,
    qualified_name_of, rev_slashed, segment_text, tree_children_of,
};
use crate::parse::{lemma_split_nonempty, ascii_lower, digit_value, eq_ignore_case, int_parse, is_digit, scan_digits, split_on};
use crate::text::{decimal, digit_char};
use crate::summary::{entries_of, status_ok, all_entries, prefix_not_after, sort_by_name, summary_attributes, text_lt, AttrView, AttributeRead};
use crate::endpoints::{join, token_text, first_offered, offered, prefix_at_least, sort_by_level, with_mode};
use crate::types::{EndpointInfo, SecurityMode};
use crate::engine::{dispatch_post, UiAction};
use crate::model::{AppModel, MAX_HISTORY, history_after, prefs_applied, prefs_of, recorded, session_reset, views, without};
use crate::node_id::{node_id_text, NodeId, NodeIdView};
use crate::render::{clip_fields, clip_items, clip_text, inline_fields, inline_items, inline_text};
use crate::types::{ReferenceRow, TreeChild, ValueTree};
use crate::tui_view::{ref_label, child_rows, row_fuel, row_text, rows_below, tree_text_rows};
use crate::text::trim;


verus! {

broadcast use vstd::std_specs::vec::axiom_vec_decreases_to_view;

proof fn lemma_without(s: Seq<Seq<char>>, x: Seq<char>)
    ensures
        without(s, x).len() <= s.len(),
        forall|i: int| 0 <= i < without(s, x).len() ==> #[trigger] without(s, x)[i] != x,
        forall|i: int| 0 <= i < without(s, x).len() ==> s.contains(#[trigger] without(s, x)[i]),
        (forall|i: int, j: int| 0 <= i < j < s.len() ==> s[i] != s[j])
            ==> (forall|i: int, j: int| 0 <= i < j < without(s, x).len() ==> without(s, x)[i] != without(s, x)[j]),
    decreases s.len(),
{
    if s.len() > 0 {
        let p = s.drop_last();
        lemma_without(p, x);
        let w = without(p, x);
        assert forall|i: int| 0 <= i < w.len() implies s.contains(#[trigger] w[i]) by {
            let k = choose|k: int| 0 <= k < p.len() && p[k] == w[i];
            assert(s[k] == p[k]);
        }
        if s.last() != x {
            let r = w.push(s.last());
            assert forall|i: int| 0 <= i < r.len() implies s.contains(#[trigger] r[i]) by {
                if i == w.len() {
                    assert(s[s.len() - 1] == r[i]);
                } else {
                    assert(r[i] == w[i]);
                }
            }
            if forall|i: int, j: int| 0 <= i < j < s.len() ==> s[i] != s[j] {
                assert forall|i: int, j: int| 0 <= i < j < r.len() implies r[i] != r[j] by {
                    if j == w.len() {
                        let k = choose|k: int| 0 <= k < p.len() && p[k] == w[i];
                        assert(s[k] == r[i]);
                        assert(s[s.len() - 1] == r[j]);
                    } else {
                        assert(r[i] == w[i] && r[j] == w[j]);
                    }
                }
            }
        }
    }
}

/// After a successful connection the history starts with the URL, holds it
/// once, holds at most `MAX_HISTORY` URLs, and gains no duplicates.
pub proof fn history_law(hist: Seq<Seq<char>>, url: Seq<char>)
    ensures
        history_after(hist, url).len() >= 1,
        history_after(hist, url).len() <= MAX_HISTORY,
        history_after(hist, url)[0] == url,
        forall|i: int| 1 <= i < history_after(hist, url).len() ==> #[trigger] history_after(hist, url)[i] != url,
        (forall|i: int, j: int| 0 <= i < j < hist.len() ==> hist[i] != hist[j]) ==> (forall|i: int, j: int|
            0 <= i < j < history_after(hist, url).len() ==> history_after(hist, url)[i] != history_after(hist, url)[j]),
{
    lemma_without(hist, url);
    let w = without(hist, url);
    let h = seq![url] + w;
    assert forall|i: int| 1 <= i < h.len() implies #[trigger] h[i] != url by {
        assert(h[i] == w[i - 1]);
    }
    if forall|i: int, j: int| 0 <= i < j < hist.len() ==> hist[i] != hist[j] {
        assert forall|i: int, j: int| 0 <= i < j < h.len() implies h[i] != h[j] by {
            if i == 0 {
                assert(h[j] == w[j - 1]);
            } else {
                assert(h[i] == w[i - 1] && h[j] == w[j - 1]);
            }
        }
    }
}

proof fn lemma_without_absent(s: Seq<Seq<char>>, x: Seq<char>)
    requires
        forall|i: int| 0 <= i < s.len() ==> #[trigger] s[i] != x,
    ensures
        without(s, x) == s,
    decreases s.len(),
{
    if s.len() > 0 {
        lemma_without_absent(s.drop_last(), x);
        assert(s[s.len() - 1] != x);
        assert(s.drop_last().push(s.last()) =~= s);
    }
}

proof fn lemma_without_front(s: Seq<Seq<char>>, x: Seq<char>)
    ensures
        without(seq![x] + s, x) == without(s, x),
    decreases s.len(),
{
    let t = seq![x] + s;
    if s.len() == 0 {
        assert(t =~= seq![x]);
        assert(t.drop_last() =~= Seq::<Seq<char>>::empty());
        assert(t.last() == x);
        assert(without(t, x) == without(t.drop_last(), x));
        assert(without(t.drop_last(), x) =~= Seq::<Seq<char>>::empty());
        assert(without(s, x) =~= Seq::<Seq<char>>::empty());
    } else {
        lemma_without_front(s.drop_last(), x);
        assert(t.drop_last() =~= seq![x] + s.drop_last());
        assert(t.last() == s.last());
        if s.last() == x {
            assert(without(t, x) == without(t.drop_last(), x));
        } else {
            assert(without(t, x) == without(t.drop_last(), x).push(t.last()));
        }
    }
}

/// Recording the same URL twice gives the history of recording it once.
proof fn lemma_history_twice(hist: Seq<Seq<char>>, url: Seq<char>)
    ensures
        history_after(history_after(hist, url), url) == history_after(hist, url),
{
    let h1 = history_after(hist, url);
    history_law(hist, url);
    let tail = h1.drop_first();
    assert forall|i: int| 0 <= i < tail.len() implies #[trigger] tail[i] != url by {
        assert(tail[i] == h1[i + 1]);
    }
    lemma_without_absent(tail, url);
    assert(h1 =~= seq![url] + tail);
    lemma_without_front(tail, url);
    assert(seq![url] + without(h1, url) =~= h1);
}

/// Recording a successful connection a second time leaves the state as the
/// first recording left it: the same history, the same remembered settings
/// and everything else unchanged.
pub proof fn record_twice_law(a: AppModel, b: AppModel, c: AppModel)
    requires
        recorded(a, b),
        recorded(b, c),
    ensures
        views(c.endpoint_history@) == views(b.endpoint_history@),
        c.last_connection_selections@ == b.last_connection_selections@,
        c == (AppModel {
            endpoint_history: c.endpoint_history,
            last_connection_selections: c.last_connection_selections,
            ..b
        }),
{
    if trim(a.endpoint_url@).len() != 0 {
        let u = trim(a.endpoint_url@);
        assert(b.endpoint_url == a.endpoint_url);
        assert(prefs_of(b) == prefs_of(a));
        lemma_history_twice(views(a.endpoint_history@), u);
        assert(c.last_connection_selections@ =~= b.last_connection_selections@);
    }
}

/// Toggling a node whose children are loaded twice leaves the tree as it
/// was, and asks for no outside work.
pub proof fn toggle_twice_law(a: AppModel, b: AppModel, c: AppModel, n: NodeId, e1: Seq<crate::engine::Effect>, e2: Seq<crate::engine::Effect>)
    requires
        a.tree.children@.contains_key(n@),
        dispatch_post(a, b, UiAction::NodeToggleExpand(n), e1),
        dispatch_post(b, c, UiAction::NodeToggleExpand(n), e2),
    ensures
        c.tree.expanded@ == a.tree.expanded@,
        c.tree.loading@ == a.tree.loading@,
        c.tree.children == a.tree.children,
        c == (AppModel { tree: c.tree, ..a }),
        e1 == Seq::<crate::engine::Effect>::empty(),
        e2 == Seq::<crate::engine::Effect>::empty(),
{
    if a.tree.expanded@.contains(n@) {
        assert(c.tree.expanded@ =~= a.tree.expanded@.remove(n@).insert(n@));
        assert(c.tree.expanded@ =~= a.tree.expanded@);
    } else {
        assert(c.tree.expanded@ =~= a.tree.expanded@.insert(n@).remove(n@));
        assert(c.tree.expanded@ =~= a.tree.expanded@);
    }
}

/// The settings used on a successful connection come back when the same URL
/// is entered again later (passwords are never kept). URLs with spaces
/// around them are kept under their trimmed form, so they are left out.
pub proof fn settings_return_with_url(a: AppModel, b: AppModel, c: AppModel, d: AppModel)
    requires
        trim(a.endpoint_url@) == a.endpoint_url@,
        a.endpoint_url@.len() > 0,
        recorded(a, b),
        c.last_connection_selections@ == b.last_connection_selections@,
        c.endpoint_url@ == a.endpoint_url@,
        prefs_applied(c, d),
    ensures
        d.auth_mode == a.auth_mode,
        d.endpoint_mode_filter == a.endpoint_mode_filter,
        d.auth_username == a.auth_username,
        d.auth_cert_path == a.auth_cert_path,
        d.auth_key_path == a.auth_key_path,
        d.auth_password == c.auth_password,
{
}

/// Forgetting the session twice is the same as forgetting it once.
pub proof fn session_reset_idempotent(a: AppModel, b: AppModel, c: AppModel)
    requires
        session_reset(a, b),
        session_reset(b, c),
    ensures
        c == (AppModel { tree: c.tree, subscriptions: c.subscriptions, subscribing: c.subscribing, ..b }),
        c.tree.children@ == b.tree.children@,
        c.tree.expanded@ == b.tree.expanded@,
        c.tree.loading@ == b.tree.loading@,
        c.subscriptions@ == b.subscriptions@,
        c.subscribing@ == b.subscribing@,
{
}

/// The children of a browsed node are each a different node, each reached
/// by a reference that the tree keeps.
pub proof fn tree_children_law(refs: Seq<crate::browse::BrowsedReference>)
    ensures
        forall|i: int, j: int| 0 <= i < j < tree_children_of(refs).len()
            ==> (#[trigger] tree_children_of(refs)[i]).node_id@ != (#[trigger] tree_children_of(refs)[j]).node_id@,
        forall|i: int| 0 <= i < tree_children_of(refs).len() ==> exists|k: int| 0 <= k < refs.len()
            && in_tree(refs[k]) && #[trigger] tree_children_of(refs)[i] == child_of(refs[k]),
    decreases refs.len(),
{
    if refs.len() > 0 {
        let p = refs.drop_last();
        tree_children_law(p);
        let before = tree_children_of(p);
        let r = refs.last();
        assert forall|i: int| 0 <= i < before.len() implies exists|k: int| 0 <= k < refs.len()
            && in_tree(refs[k]) && #[trigger] before[i] == child_of(refs[k]) by {
            let k = choose|k: int| 0 <= k < p.len() && in_tree(p[k]) && before[i] == child_of(p[k]);
            assert(refs[k] == p[k]);
        }
        if !(!in_tree(r) || crate::browse::has_child_id(before, r.node_id@)) {
            let now = before.push(child_of(r));
            assert(now == tree_children_of(refs));
            assert forall|i: int, j: int| 0 <= i < j < now.len() implies (#[trigger] now[i]).node_id@ != (#[trigger] now[j]).node_id@ by {
                if j == before.len() {
                    assert(now[i] == before[i]);
                    if now[i].node_id@ == r.node_id@ {
                        assert(crate::browse::has_child_id(before, r.node_id@));
                    }
                } else {
                    assert(now[i] == before[i] && now[j] == before[j]);
                }
            }
            assert forall|i: int| 0 <= i < now.len() implies exists|k: int| 0 <= k < refs.len()
                && in_tree(refs[k]) && #[trigger] now[i] == child_of(refs[k]) by {
                if i == before.len() {
                    assert(refs[refs.len() - 1] == r);
                } else {
                    assert(now[i] == before[i]);
                }
            }
        }
    }
}

proof fn lemma_with_mode(eps: Seq<EndpointInfo>, mode: SecurityMode)
    ensures
        forall|x: EndpointInfo| #[trigger] with_mode(eps, mode).contains(x) <==> (eps.contains(x) && x.security_mode == mode),
    decreases eps.len(),
{
    if eps.len() > 0 {
        let p = eps.drop_last();
        let last = eps.last();
        lemma_with_mode(p, mode);
        let w = with_mode(p, mode);
        assert(eps =~= p.push(last));
        if last.security_mode == mode {
            assert(with_mode(eps, mode) == w.push(last));
        } else {
            assert(with_mode(eps, mode) == w);
        }
        assert forall|x: EndpointInfo| #[trigger] eps.contains(x) <==> (p.contains(x) || x == last) by {
            if eps.contains(x) {
                let k = choose|k: int| 0 <= k < eps.len() && eps[k] == x;
                if k < p.len() {
                    assert(p[k] == x);
                }
            }
            if p.contains(x) {
                let k = choose|k: int| 0 <= k < p.len() && p[k] == x;
                assert(eps[k] == x);
            }
            if x == last {
                assert(eps[eps.len() - 1] == x);
            }
        }
        assert forall|x: EndpointInfo| #[trigger] w.push(last).contains(x) <==> (w.contains(x) || x == last) by {
            if w.push(last).contains(x) {
                let k = choose|k: int| 0 <= k < w.len() + 1 && w.push(last)[k] == x;
                if k < w.len() {
                    assert(w[k] == x);
                }
            }
            if w.contains(x) {
                let k = choose|k: int| 0 <= k < w.len() && w[k] == x;
                assert(w.push(last)[k] == x);
            }
            if x == last {
                assert(w.push(last)[w.len() as int] == x);
            }
        }
    }
}

proof fn lemma_prefix_facts(s: Seq<EndpointInfo>, level: u8)
    ensures
        prefix_at_least(s, level) <= s.len(),
        forall|j: int| 0 <= j < prefix_at_least(s, level) ==> #[trigger] s[j].security_level >= level,
        prefix_at_least(s, level) < s.len() ==> s[prefix_at_least(s, level) as int].security_level < level,
    decreases s.len(),
{
    if s.len() > 0 && s[0].security_level >= level {
        lemma_prefix_facts(s.drop_first(), level);
        assert forall|j: int| 0 <= j < prefix_at_least(s, level) implies #[trigger] s[j].security_level >= level by {
            if j > 0 {
                assert(s[j] == s.drop_first()[j - 1]);
            }
        }
    }
}

proof fn lemma_insert_members<T>(sorted: Seq<T>, k: int, x: T, p: Seq<T>, s: Seq<T>)
    requires
        0 <= k <= sorted.len(),
        forall|y: T| #[trigger] sorted.contains(y) <==> p.contains(y),
        s == p.push(x),
    ensures
        forall|y: T| #[trigger] sorted.insert(k, x).contains(y) <==> s.contains(y),
{
    let r = sorted.insert(k, x);
    assert forall|y: T| #[trigger] r.contains(y) <==> s.contains(y) by {
        if r.contains(y) {
            let i = choose|i: int| 0 <= i < r.len() && r[i] == y;
            if i == k {
                assert(s[s.len() - 1] == y);
            } else {
                let i2 = if i < k { i } else { i - 1 };
                assert(sorted[i2] == y);
                assert(sorted.contains(y));
                let m = choose|m: int| 0 <= m < p.len() && p[m] == y;
                assert(s[m] == y);
            }
        }
        if s.contains(y) {
            let m = choose|m: int| 0 <= m < s.len() && s[m] == y;
            if m == s.len() - 1 {
                assert(r[k] == y);
            } else {
                assert(p[m] == y);
                assert(p.contains(y));
                assert(sorted.contains(y));
                let i = choose|i: int| 0 <= i < sorted.len() && sorted[i] == y;
                if i < k {
                    assert(r[i] == y);
                } else {
                    assert(r[i + 1] == y);
                }
            }
        }
    }
}

proof fn lemma_sorted(s: Seq<EndpointInfo>)
    ensures
        sort_by_level(s).len() == s.len(),
        forall|x: EndpointInfo| #[trigger] sort_by_level(s).contains(x) <==> s.contains(x),
        forall|i: int, j: int| 0 <= i < j < sort_by_level(s).len()
            ==> (#[trigger] sort_by_level(s)[i]).security_level >= (#[trigger] sort_by_level(s)[j]).security_level,
    decreases s.len(),
{
    if s.len() > 0 {
        let p = s.drop_last();
        lemma_sorted(p);
        let sorted = sort_by_level(p);
        let x = s.last();
        lemma_prefix_facts(sorted, x.security_level);
        let k = prefix_at_least(sorted, x.security_level) as int;
        let r = sorted.insert(k, x);
        assert(r == sort_by_level(s));
        assert(s == p.push(x));
        lemma_insert_members(sorted, k, x, p, s);
        lemma_insert_keeps_levels(sorted, k, x);
    }
}

proof fn lemma_insert_keeps_levels(sorted: Seq<EndpointInfo>, k: int, x: EndpointInfo)
    requires
        0 <= k <= sorted.len(),
        forall|i: int, j: int| 0 <= i < j < sorted.len() ==> (#[trigger] sorted[i]).security_level >= (#[trigger] sorted[j]).security_level,
        forall|j: int| 0 <= j < k ==> #[trigger] sorted[j].security_level >= x.security_level,
        k < sorted.len() ==> sorted[k].security_level < x.security_level,
    ensures
        forall|i: int, j: int| 0 <= i < j < sorted.insert(k, x).len()
            ==> (#[trigger] sorted.insert(k, x)[i]).security_level >= (#[trigger] sorted.insert(k, x)[j]).security_level,
{
    let r = sorted.insert(k, x);
    assert forall|i: int, j: int| 0 <= i < j < r.len() implies (#[trigger] r[i]).security_level >= (#[trigger] r[j]).security_level by {
        if j < k {
            assert(r[i] == sorted[i] && r[j] == sorted[j]);
        } else if j == k {
            assert(r[i] == sorted[i]);
        } else if i == k {
            assert(r[j] == sorted[j - 1]);
            if j - 1 > k {
                assert(sorted[k].security_level >= sorted[j - 1].security_level);
            }
        } else if i < k {
            assert(r[i] == sorted[i] && r[j] == sorted[j - 1]);
        } else {
            assert(r[i] == sorted[i - 1] && r[j] == sorted[j - 1]);
        }
    }
}

/// The first endpoint offered for a mode is the first, in the server's
/// order, of those of that mode with the highest level.
proof fn lemma_first_of_highest(eps: Seq<EndpointInfo>, mode: SecurityMode)
    ensures
        offered(eps, mode).len() > 0 ==> exists|k: int| 0 <= k < eps.len() && eps[k] == offered(eps, mode)[0]
            && forall|j: int| 0 <= j < k && (#[trigger] eps[j]).security_mode == mode
                ==> eps[j].security_level < eps[k].security_level,
    decreases eps.len(),
{
    if eps.len() > 0 {
        let p = eps.drop_last();
        let x = eps.last();
        let n = eps.len();
        lemma_first_of_highest(p, mode);
        if x.security_mode != mode {
            assert(with_mode(eps, mode) == with_mode(p, mode));
            if offered(eps, mode).len() > 0 {
                let k = choose|k: int| 0 <= k < p.len() && p[k] == offered(p, mode)[0]
                    && forall|j: int| 0 <= j < k && (#[trigger] p[j]).security_mode == mode
                        ==> p[j].security_level < p[k].security_level;
                assert forall|j: int| 0 <= j < k && (#[trigger] eps[j]).security_mode == mode
                    implies eps[j].security_level < eps[k].security_level by {
                    assert(eps[j] == p[j]);
                }
                assert(eps[k] == p[k]);
            }
        } else {
            let wp = with_mode(p, mode);
            assert(with_mode(eps, mode) == wp.push(x));
            assert(wp.push(x).drop_last() =~= wp);
            let sorted = sort_by_level(wp);
            lemma_sorted(wp);
            lemma_with_mode(p, mode);
            lemma_prefix_facts(sorted, x.security_level);
            let q = prefix_at_least(sorted, x.security_level) as int;
            assert(offered(eps, mode) == sorted.insert(q, x));
            if q == 0 {
                assert(offered(eps, mode)[0] == x);
                assert forall|j: int| 0 <= j < n - 1 && (#[trigger] eps[j]).security_mode == mode
                    implies eps[j].security_level < eps[n - 1].security_level by {
                    assert(eps[j] == p[j]);
                    assert(p.contains(p[j]));
                    assert(wp.contains(p[j]));
                    assert(sorted.contains(p[j]));
                    let i = choose|i: int| 0 <= i < sorted.len() && sorted[i] == p[j];
                    if i > 0 {
                        assert(sorted[0].security_level >= sorted[i].security_level);
                    }
                }
            } else {
                assert(offered(eps, mode)[0] == sorted[0]);
                assert(offered(p, mode) == sorted);
                let k = choose|k: int| 0 <= k < p.len() && p[k] == offered(p, mode)[0]
                    && forall|j: int| 0 <= j < k && (#[trigger] p[j]).security_mode == mode
                        ==> p[j].security_level < p[k].security_level;
                assert forall|j: int| 0 <= j < k && (#[trigger] eps[j]).security_mode == mode
                    implies eps[j].security_level < eps[k].security_level by {
                    assert(eps[j] == p[j]);
                }
                assert(eps[k] == p[k]);
            }
        }
    }
}

/// The endpoint chosen for a security mode offers that mode, is one the
/// server advertised, and has the highest security level among those that
/// offer the mode; of several such, it is the first in the server's order.
/// There is one whenever any endpoint offers the mode.
pub proof fn chosen_endpoint_is_strongest(eps: Seq<EndpointInfo>, mode: SecurityMode)
    ensures
        first_offered(eps, mode) matches Some(e) ==> exists|k: int| 0 <= k < eps.len() && eps[k] == e
            && forall|j: int| 0 <= j < k && (#[trigger] eps[j]).security_mode == mode
                ==> eps[j].security_level < e.security_level,
        first_offered(eps, mode) is None <==> (forall|x: EndpointInfo| eps.contains(x) ==> x.security_mode != mode),
        first_offered(eps, mode) matches Some(e) ==> {
            &&& e.security_mode == mode
            &&& eps.contains(e)
            &&& forall|x: EndpointInfo| #[trigger] eps.contains(x) && x.security_mode == mode ==> x.security_level <= e.security_level
        },
{
    let w = with_mode(eps, mode);
    lemma_with_mode(eps, mode);
    lemma_sorted(w);
    lemma_first_of_highest(eps, mode);
    let o = offered(eps, mode);
    assert(o == sort_by_level(w));
    if o.len() > 0 {
        let e = o[0];
        assert(o.contains(e));
        assert(w.contains(e));
        assert forall|x: EndpointInfo| #[trigger] eps.contains(x) && x.security_mode == mode implies x.security_level <= e.security_level by {
            assert(w.contains(x));
            assert(o.contains(x));
            let i = choose|i: int| 0 <= i < o.len() && o[i] == x;
            if i > 0 {
                assert(o[0].security_level >= o[i].security_level);
            }
        }
    } else {
        assert forall|x: EndpointInfo| eps.contains(x) implies x.security_mode != mode by {
            if x.security_mode == mode {
                assert(w.contains(x));
                assert(o.contains(x));
            }
        }
    }
}

proof fn lemma_digit(d: int)
    requires
        0 <= d < 10,
    ensures
        is_digit(digit_char(d)),
        digit_value(digit_char(d)) == d,
        digit_char(d) != ':' && digit_char(d) != '/' && digit_char(d) != '+' && digit_char(d) != '-',
        digit_char(d) != 'n',
{
}

proof fn lemma_decimal_digits(n: nat)
    ensures
        decimal(n).len() >= 1,
        forall|i: int| 0 <= i < decimal(n).len() ==> is_digit(#[trigger] decimal(n)[i]) && decimal(n)[i] != ':'
            && decimal(n)[i] != '+' && decimal(n)[i] != '-' && decimal(n)[i] != 'n',
    decreases n,
{
    if n < 10 {
        lemma_digit(n as int);
    } else {
        lemma_decimal_digits(n / 10);
        lemma_digit((n % 10) as int);
    }
}

proof fn lemma_scan_concat(p: Seq<char>, q: Seq<char>, acc: int, neg: bool, lo: int, hi: int)
    ensures
        scan_digits(p + q, acc, neg, lo, hi) == match scan_digits(p, acc, neg, lo, hi) {
            Ok(a) => scan_digits(q, a, neg, lo, hi),
            Err(e) => Err(e),
        },
    decreases p.len(),
{
    if p.len() == 0 {
        assert(p + q =~= q);
    } else {
        assert((p + q)[0] == p[0]);
        assert((p + q).drop_first() =~= p.drop_first() + q);
        if is_digit(p[0]) {
            let v = if neg { acc * 10 - digit_value(p[0]) } else { acc * 10 + digit_value(p[0]) };
            if lo <= v <= hi {
                lemma_scan_concat(p.drop_first(), q, v, neg, lo, hi);
            }
        }
    }
}

/// The signed value a numeral stands for.
pub open spec fn signed(n: nat, neg: bool) -> int {
    if neg { -(n as int) } else { n as int }
}

proof fn lemma_scan_decimal(n: nat, neg: bool, lo: int, hi: int)
    requires
        lo <= 0 <= hi,
        lo <= signed(n, neg) <= hi,
    ensures
        scan_digits(decimal(n), 0, neg, lo, hi) == Ok::<int, crate::parse::IntError>(signed(n, neg)),
    decreases n,
{
    if n < 10 {
        lemma_digit(n as int);
        let ds = decimal(n);
        assert(ds == seq![digit_char(n as int)]);
        assert(ds.drop_first() =~= Seq::<char>::empty());
        assert(is_digit(ds[0]));
        assert(scan_digits(ds.drop_first(), signed(n, neg), neg, lo, hi) == Ok::<int, crate::parse::IntError>(signed(n, neg)));
    } else {
        let d = (n % 10) as int;
        let m = (n / 10) as nat;
        lemma_digit(d);
        assert(m * 10 + d == n);
        lemma_scan_decimal(m, neg, lo, hi);
        let one = seq![digit_char(d)];
        assert(decimal(n) =~= decimal(m) + one);
        lemma_scan_concat(decimal(m), one, 0, neg, lo, hi);
        assert(one.drop_first() =~= Seq::<char>::empty());
        assert(one[0] == digit_char(d));
        let v = if neg { signed(m, neg) * 10 - digit_value(one[0]) } else { signed(m, neg) * 10 + digit_value(one[0]) };
        assert(v == signed(n, neg));
        assert(scan_digits(one.drop_first(), v, neg, lo, hi) == Ok::<int, crate::parse::IntError>(signed(n, neg)));
        assert(scan_digits(one, signed(m, neg), neg, lo, hi) == Ok::<int, crate::parse::IntError>(signed(n, neg)));
    }
}

/// The text `Display` writes for an integer: a `-` before the decimal
/// numeral of a negative number.
pub open spec fn integer_text(n: int) -> Seq<char> {
    if n < 0 { seq!['-'] + decimal((-n) as nat) } else { decimal(n as nat) }
}

/// An integer typed as its decimal text reads back as that integer, for
/// every value of the type's range `[lo, hi]`.
pub proof fn integer_text_round_trip(n: int, lo: int, hi: int)
    requires
        lo <= 0 <= hi,
        lo <= n <= hi,
    ensures
        int_parse(integer_text(n), lo, hi) == Ok::<int, crate::parse::IntError>(n),
{
    if n < 0 {
        let m = (-n) as nat;
        lemma_decimal_digits(m);
        lemma_scan_decimal(m, true, lo, hi);
        let t = integer_text(n);
        assert(t[0] == '-');
        assert(t.drop_first() =~= decimal(m));
    } else {
        let m = n as nat;
        lemma_decimal_digits(m);
        lemma_scan_decimal(m, false, lo, hi);
        assert(decimal(m)[0] != '+' && decimal(m)[0] != '-');
    }
}

proof fn lemma_escaped_plain(s: Seq<char>)
    requires
        forall|i: int| 0 <= i < s.len() ==> !is_reserved(#[trigger] s[i]),
    ensures
        escaped(s) == s,
    decreases s.len(),
{
    if s.len() > 0 {
        lemma_escaped_plain(s.drop_last());
        assert(s.drop_last().push(s.last()) =~= s);
    }
}

/// A browse name without reserved characters, written as a path segment,
/// reads back as the same namespace and name.
pub proof fn segment_round_trip(ns: u16, name: Seq<char>)
    requires
        forall|i: int| 0 <= i < name.len() ==> !is_reserved(#[trigger] name[i]),
    ensures
        qualified_name_of(segment_text(ns, name)) == (ns, name),
{
    lemma_escaped_plain(name);
    let seg = segment_text(ns, name);
    if ns == 0 {
        let body = if seg.len() >= 3 && seg.take(3) == "ns="@ { seg.skip(3) } else { seg };
        assert forall|i: int| 0 <= i < body.len() implies body[i] != ':' by {
            if seg.len() >= 3 && seg.take(3) == "ns="@ {
                assert(body[i] == name[i + 3]);
            }
        }
        assert(first_colon(body) is None);
    } else {
        lemma_decimal_digits(ns as nat);
        let d = decimal(ns as nat);
        let k = d.len() as int;
        assert(seg =~= d + ":"@ + name) by {
            reveal_strlit(":");
        }
        reveal_strlit(":");
        reveal_strlit("ns=");
        if seg.len() >= 3 && seg.take(3) == "ns="@ {
            assert(seg.take(3)[0] == 'n');
            assert(seg[0] == d[0]);
        }
        assert(seg[k] == ':');
        assert forall|j: int| 0 <= j < k implies seg[j] != ':' by {
            assert(seg[j] == d[j]);
        }
        let c = choose|i: int| 0 <= i < seg.len() && seg[i] == ':' && forall|j: int| 0 <= j < i ==> seg[j] != ':';
        assert(0 <= k < seg.len() && seg[k] == ':' && forall|j: int| 0 <= j < k ==> seg[j] != ':');
        assert(c == k) by {
            if c < k {
                assert(seg[c] != ':');
            } else if c > k {
                assert(seg[k] != ':');
            }
        }
        assert(first_colon(seg) == Some(k));
        assert(seg.take(k) =~= d);
        integer_text_round_trip(ns as int, 0, 0xffff);
        assert(seg.skip(k + 1) =~= name);
    }
}

proof fn lemma_split_append(a: Seq<char>, t: Seq<char>)
    requires
        forall|i: int| 0 <= i < t.len() ==> #[trigger] t[i] != '/',
    ensures
        split_on(a + seq!['/'] + t, '/') == split_on(a, '/').push(t),
    decreases t.len(),
{
    if t.len() == 0 {
        assert(a + seq!['/'] + t =~= a.push('/'));
        assert((a + seq!['/'] + t).drop_last() =~= a);
        assert(t =~= Seq::<char>::empty());
    } else {
        assert(t[t.len() - 1] != '/');
        let u = t.drop_last();
        lemma_split_append(a, u);
        let whole = a + seq!['/'] + t;
        assert(whole.drop_last() =~= a + seq!['/'] + u);
        assert(whole.last() == t.last());
        let rest = split_on(a + seq!['/'] + u, '/');
        assert(rest.update(rest.len() - 1, rest.last().push(t.last())) =~= split_on(a, '/').push(t)) by {
            assert(u.push(t.last()) =~= t);
        }
    }
}

proof fn lemma_split_rev_slashed(s: Seq<Seq<char>>)
    requires
        forall|i: int, j: int| 0 <= i < s.len() && 0 <= j < s[i].len() ==> #[trigger] s[i][j] != '/',
    ensures
        split_on(rev_slashed(s), '/') == seq![Seq::<char>::empty()] + s.reverse(),
    decreases s.len(),
{
    if s.len() == 0 {
        assert(s.reverse() =~= Seq::<Seq<char>>::empty());
        assert(seq![Seq::<char>::empty()] + s.reverse() =~= seq![Seq::<char>::empty()]);
    } else {
        let t = s.drop_first();
        assert forall|i: int, j: int| 0 <= i < t.len() && 0 <= j < t[i].len() implies #[trigger] t[i][j] != '/' by {
            assert(t[i] == s[i + 1]);
        }
        lemma_split_rev_slashed(t);
        reveal_strlit("/");
        assert(rev_slashed(s) =~= rev_slashed(t) + seq!['/'] + s[0]);
        assert forall|j: int| 0 <= j < s[0].len() implies #[trigger] s[0][j] != '/' by {}
        lemma_split_append(rev_slashed(t), s[0]);
        assert(s.reverse() =~= t.reverse().push(s[0]));
        assert(seq![Seq::<char>::empty()] + s.reverse() =~= (seq![Seq::<char>::empty()] + t.reverse()).push(s[0]));
    }
}

proof fn lemma_nonempty_parts_all(s: Seq<Seq<char>>)
    requires
        forall|i: int| 0 <= i < s.len() ==> (#[trigger] s[i]).len() > 0,
    ensures
        nonempty_parts(s) == s,
    decreases s.len(),
{
    if s.len() > 0 {
        lemma_nonempty_parts_all(s.drop_last());
        assert(s.drop_last().push(s.last()) =~= s);
    }
}

proof fn lemma_nonempty_parts_front(s: Seq<Seq<char>>)
    requires
        forall|i: int| 0 <= i < s.len() ==> (#[trigger] s[i]).len() > 0,
    ensures
        nonempty_parts(seq![Seq::<char>::empty()] + s) == s,
    decreases s.len(),
{
    if s.len() == 0 {
        let w = seq![Seq::<char>::empty()];
        assert(seq![Seq::<char>::empty()] + s =~= w);
        assert(w.drop_last() =~= Seq::<Seq<char>>::empty());
        assert(w.last().len() == 0);
        assert(nonempty_parts(w) == nonempty_parts(w.drop_last()));
        assert(nonempty_parts(w) =~= Seq::<Seq<char>>::empty());
        assert(s =~= Seq::<Seq<char>>::empty());
    } else {
        assert(s[s.len() - 1].len() > 0);
        let u = s.drop_last();
        assert forall|i: int| 0 <= i < u.len() implies (#[trigger] u[i]).len() > 0 by {
            assert(u[i] == s[i]);
        }
        lemma_nonempty_parts_front(u);
        let w = seq![Seq::<char>::empty()] + s;
        assert(w.drop_last() =~= seq![Seq::<char>::empty()] + u);
        assert(w.last() == s.last());
        assert(w.last().len() > 0);
        assert(nonempty_parts(w) == nonempty_parts(w.drop_last()).push(w.last()));
        assert(u.push(s.last()) =~= s);
    }
}

/// A browse path built from segments (leaf first) splits back into the same
/// segments, root first, when no segment is empty or holds a `/`, and the
/// root-most one is not `Root` (which a path may start with and which is
/// skipped).
pub proof fn browse_path_round_trip(leaf_first: Seq<Seq<char>>)
    requires
        forall|i: int| 0 <= i < leaf_first.len() ==> (#[trigger] leaf_first[i]).len() > 0,
        forall|i: int, j: int| 0 <= i < leaf_first.len() && 0 <= j < leaf_first[i].len() ==> #[trigger] leaf_first[i][j] != '/',
        leaf_first.len() > 0 ==> !eq_ignore_case(leaf_first.last(), "root"@),
    ensures
        path_segments_of(browse_path_of(leaf_first)) == leaf_first.reverse(),
{
    let r = leaf_first.reverse();
    if leaf_first.len() == 0 {
        reveal_strlit("/");
        assert("/"@ =~= Seq::<char>::empty() + seq!['/'] + Seq::<char>::empty());
        lemma_split_append(Seq::<char>::empty(), Seq::<char>::empty());
        assert(split_on(Seq::<char>::empty(), '/') =~= seq![Seq::<char>::empty()]);
        assert(split_on("/"@, '/') =~= seq![Seq::<char>::empty(), Seq::<char>::empty()]);
        lemma_nonempty_parts_front(seq![Seq::<char>::empty()].drop_last());
        assert(nonempty_parts(seq![Seq::<char>::empty(), Seq::<char>::empty()]) =~= Seq::<Seq<char>>::empty()) by {
            assert(seq![Seq::<char>::empty(), Seq::<char>::empty()].drop_last() =~= seq![Seq::<char>::empty()]);
            assert(seq![Seq::<char>::empty()].drop_last() =~= Seq::<Seq<char>>::empty());
        }
        assert(r =~= Seq::<Seq<char>>::empty());
    } else {
        lemma_split_rev_slashed(leaf_first);
        assert forall|i: int| 0 <= i < r.len() implies (#[trigger] r[i]).len() > 0 by {
            assert(r[i] == leaf_first[leaf_first.len() - 1 - i]);
        }
        lemma_nonempty_parts_front(r);
        assert(r[0] == leaf_first.last());
    }
}


proof fn lemma_text_lt_irreflexive(a: Seq<char>)
    ensures
        !text_lt(a, a),
    decreases a.len(),
{
    if a.len() > 0 {
        lemma_text_lt_irreflexive(a.drop_first());
    }
}

proof fn lemma_text_lt_transitive(a: Seq<char>, b: Seq<char>, c: Seq<char>)
    requires
        text_lt(a, b),
        text_lt(b, c),
    ensures
        text_lt(a, c),
    decreases a.len(),
{
    if a.len() > 0 && b.len() > 0 && c.len() > 0 && a[0] == b[0] && b[0] == c[0] {
        lemma_text_lt_transitive(a.drop_first(), b.drop_first(), c.drop_first());
    }
}

proof fn lemma_prefix_not_after_facts(s: Seq<AttrView>, name: Seq<char>)
    ensures
        prefix_not_after(s, name) <= s.len(),
        forall|j: int| 0 <= j < prefix_not_after(s, name) ==> !text_lt(name, #[trigger] s[j].0),
        prefix_not_after(s, name) < s.len() ==> text_lt(name, s[prefix_not_after(s, name) as int].0),
    decreases s.len(),
{
    if s.len() > 0 && !text_lt(name, s[0].0) {
        lemma_prefix_not_after_facts(s.drop_first(), name);
        assert forall|j: int| 0 <= j < prefix_not_after(s, name) implies !text_lt(name, #[trigger] s[j].0) by {
            if j > 0 {
                assert(s[j] == s.drop_first()[j - 1]);
            }
        }
    }
}

proof fn lemma_sorted_by_name(s: Seq<AttrView>)
    ensures
        sort_by_name(s).len() == s.len(),
        forall|x: AttrView| #[trigger] sort_by_name(s).contains(x) <==> s.contains(x),
        forall|i: int, j: int| 0 <= i < j < sort_by_name(s).len()
            ==> !text_lt((#[trigger] sort_by_name(s)[j]).0, (#[trigger] sort_by_name(s)[i]).0),
    decreases s.len(),
{
    if s.len() > 0 {
        let p = s.drop_last();
        lemma_sorted_by_name(p);
        let sorted = sort_by_name(p);
        let x = s.last();
        lemma_prefix_not_after_facts(sorted, x.0);
        let k = prefix_not_after(sorted, x.0) as int;
        assert(sorted.insert(k, x) == sort_by_name(s));
        assert(s == p.push(x));
        lemma_insert_members(sorted, k, x, p, s);
        lemma_insert_keeps_names(sorted, k, x);
    }
}

proof fn lemma_insert_keeps_names(sorted: Seq<AttrView>, k: int, x: AttrView)
    requires
        0 <= k <= sorted.len(),
        forall|i: int, j: int| 0 <= i < j < sorted.len() ==> !text_lt((#[trigger] sorted[j]).0, (#[trigger] sorted[i]).0),
        forall|j: int| 0 <= j < k ==> !text_lt(x.0, #[trigger] sorted[j].0),
        k < sorted.len() ==> text_lt(x.0, sorted[k].0),
    ensures
        forall|i: int, j: int| 0 <= i < j < sorted.insert(k, x).len()
            ==> !text_lt((#[trigger] sorted.insert(k, x)[j]).0, (#[trigger] sorted.insert(k, x)[i]).0),
{
    let r = sorted.insert(k, x);
    assert forall|i: int, j: int| 0 <= i < j < r.len() implies !text_lt((#[trigger] r[j]).0, (#[trigger] r[i]).0) by {
        if j < k {
            assert(r[i] == sorted[i] && r[j] == sorted[j]);
        } else if j == k {
            assert(r[i] == sorted[i]);
        } else if i == k {
            assert(r[j] == sorted[j - 1]);
            if text_lt(r[j].0, x.0) {
                if j - 1 > k {
                    assert(!text_lt(sorted[j - 1].0, sorted[k].0));
                }
                lemma_text_lt_transitive(r[j].0, x.0, sorted[k].0);
                if j - 1 == k {
                    lemma_text_lt_irreflexive(sorted[k].0);
                }
            }
        } else if i < k {
            assert(r[i] == sorted[i] && r[j] == sorted[j - 1]);
        } else {
            assert(r[i] == sorted[i - 1] && r[j] == sorted[j - 1]);
        }
    }
}

/// The attributes of a node are listed by name, each name no later than
/// the next, and they are exactly the entries the read gave.
pub proof fn attributes_listed_by_name(reads: Seq<AttributeRead>)
    ensures
        summary_attributes(reads).len() == all_entries(reads).len(),
        forall|x: AttrView| #[trigger] summary_attributes(reads).contains(x) <==> all_entries(reads).contains(x),
        forall|i: int, j: int| 0 <= i < j < summary_attributes(reads).len()
            ==> !text_lt((#[trigger] summary_attributes(reads)[j]).0, (#[trigger] summary_attributes(reads)[i]).0),
{
    lemma_sorted_by_name(all_entries(reads));
}

/// The steps of loading `chain` after browses that came out as `oks` (true
/// for a success): the first step, then one more per browse.
pub open spec fn chain_trace(chain: Seq<NodeId>, oks: Seq<bool>) -> Seq<ChainStep>
    decreases oks.len(),
{
    if oks.len() == 0 {
        seq![chain_start_of(chain)]
    } else {
        chain_trace(chain, oks.drop_last()).push(chain_step_of(chain, (oks.len() - 1) as nat, oks.last()))
    }
}

/// Loading the first `k` nodes of `chain`, in order.
pub open spec fn loads(chain: Seq<NodeId>, k: nat) -> Seq<ChainStep> {
    Seq::new(k, |j: int| ChainStep::Load(chain[j]))
}

/// `k` successful browses.
pub open spec fn all_ok(k: nat) -> Seq<bool> {
    Seq::new(k, |j: int| true)
}

/// Loading a chain of nodes, root first: while the browses succeed, the
/// nodes before the target are loaded one by one, in order, and then the
/// target is selected; the first failed browse ends the load, and nothing
/// is selected.
pub proof fn chain_loading_law(chain: Seq<NodeId>, k: nat)
    requires
        k < chain.len(),
    ensures
        k + 1 == chain.len() ==> chain_trace(chain, all_ok(k)) == loads(chain, k).push(ChainStep::Select(chain.last())),
        k + 1 < chain.len() ==> chain_trace(chain, all_ok(k)) == loads(chain, k + 1),
        k + 1 < chain.len() ==> chain_trace(chain, all_ok(k).push(false)) == loads(chain, k + 1).push(ChainStep::Stop),
    decreases k,
{
    if k == 0 {
        assert(all_ok(0) =~= Seq::<bool>::empty());
        assert(loads(chain, 0) =~= Seq::<ChainStep>::empty());
        assert(loads(chain, 1) =~= seq![ChainStep::Load(chain[0])]);
        assert(chain_trace(chain, all_ok(0)) == seq![chain_start_of(chain)]);
        if k + 1 == chain.len() {
            assert(chain_trace(chain, all_ok(k)) =~= loads(chain, k).push(ChainStep::Select(chain.last())));
        }
    } else {
        chain_loading_law(chain, (k - 1) as nat);
        assert(all_ok(k).drop_last() =~= all_ok((k - 1) as nat));
        assert(all_ok(k).last());
        assert(chain_trace(chain, all_ok(k)) == chain_trace(chain, all_ok((k - 1) as nat)).push(
            chain_step_of(chain, (k - 1) as nat, true),
        ));
        assert(loads(chain, k).push(ChainStep::Load(chain[k as int])) =~= loads(chain, k + 1));
        if k + 1 == chain.len() {
            assert(chain_trace(chain, all_ok(k)) =~= loads(chain, k).push(ChainStep::Select(chain.last())));
        } else {
            assert(chain_trace(chain, all_ok(k)) =~= loads(chain, k + 1));
        }
    }
    if k + 1 < chain.len() {
        assert(all_ok(k).push(false).drop_last() =~= all_ok(k));
        assert(all_ok(k).push(false).len() == k + 1);
        assert(chain_trace(chain, all_ok(k).push(false)) == chain_trace(chain, all_ok(k)).push(
            chain_step_of(chain, k, false),
        ));
    }
}

proof fn lemma_split_concat(a: Seq<char>, b: Seq<char>)
    ensures
        split_on(a + seq!['/'] + b, '/') == split_on(a, '/') + split_on(b, '/'),
    decreases b.len(),
{
    let whole = a + seq!['/'] + b;
    if b.len() == 0 {
        assert(whole =~= a.push('/'));
        assert(whole.drop_last() =~= a);
        assert(split_on(b, '/') =~= seq![Seq::<char>::empty()]);
        assert(split_on(whole, '/') =~= split_on(a, '/') + split_on(b, '/'));
    } else {
        let u = b.drop_last();
        lemma_split_concat(a, u);
        lemma_split_nonempty(u, '/');
        assert(whole.drop_last() =~= a + seq!['/'] + u);
        assert(whole.last() == b.last());
        let sa = split_on(a, '/');
        let su = split_on(u, '/');
        if b.last() == '/' {
            assert(split_on(whole, '/') =~= sa + su.push(Seq::<char>::empty()));
            assert(sa + su.push(Seq::<char>::empty()) =~= sa + split_on(b, '/'));
        } else {
            let rest = sa + su;
            assert(rest.last() == su.last());
            assert(rest.update(rest.len() - 1, rest.last().push(b.last()))
                =~= sa + su.update(su.len() - 1, su.last().push(b.last())));
        }
    }
}

proof fn lemma_nonempty_concat(x: Seq<Seq<char>>, y: Seq<Seq<char>>)
    ensures
        nonempty_parts(x + y) == nonempty_parts(x) + nonempty_parts(y),
    decreases y.len(),
{
    if y.len() == 0 {
        assert(x + y =~= x);
        assert(nonempty_parts(y) =~= Seq::<Seq<char>>::empty());
        assert(nonempty_parts(x) + nonempty_parts(y) =~= nonempty_parts(x));
    } else {
        lemma_nonempty_concat(x, y.drop_last());
        assert((x + y).drop_last() =~= x + y.drop_last());
        assert((x + y).last() == y.last());
        if y.last().len() == 0 {
        } else {
            assert((nonempty_parts(x) + nonempty_parts(y.drop_last())).push(y.last())
                =~= nonempty_parts(x) + nonempty_parts(y.drop_last()).push(y.last()));
        }
    }
}

/// The non-empty pieces between slashes of `a`, a slash, and `b`.
proof fn lemma_parts_concat(a: Seq<char>, b: Seq<char>)
    ensures
        nonempty_parts(split_on(a + seq!['/'] + b, '/'))
            == nonempty_parts(split_on(a, '/')) + nonempty_parts(split_on(b, '/')),
{
    lemma_split_concat(a, b);
    lemma_nonempty_concat(split_on(a, '/'), split_on(b, '/'));
}

/// Texts of a browse path that name the same path: a trailing `/` changes
/// nothing, nor does a run of `/` in place of a single one, nor a leading
/// `/Root/` before a text whose first segment is not `Root` already (in any
/// ASCII case); a text without segments names the root folder itself.
/// Resolution starts from these segments alone (`PathWalk::start`), so the
/// texts resolve alike.
pub proof fn path_text_variants(text: Seq<char>, a: Seq<char>, b: Seq<char>)
    ensures
        path_segments_of(text + seq!['/']) == path_segments_of(text),
        path_segments_of(a + seq!['/', '/'] + b) == path_segments_of(a + seq!['/'] + b),
        ({
            let parts = nonempty_parts(split_on(text, '/'));
            parts.len() == 0 || !eq_ignore_case(parts[0], "root"@)
        }) ==> path_segments_of(seq!['/', 'R', 'o', 'o', 't', '/'] + text) == path_segments_of(text),
        nonempty_parts(split_on(text, '/')).len() == 0 ==> path_segments_of(text).len() == 0,
{
    let e = Seq::<char>::empty();
    assert(nonempty_parts(split_on(e, '/')) =~= Seq::<Seq<char>>::empty()) by {
        assert(split_on(e, '/') =~= seq![e]);
        assert(seq![e].drop_last() =~= Seq::<Seq<char>>::empty());
        assert(seq![e].last().len() == 0);
        assert(nonempty_parts(seq![e]) == nonempty_parts(seq![e].drop_last()));
    }
    // A trailing slash.
    lemma_parts_concat(text, e);
    assert(text + seq!['/'] + e =~= text + seq!['/']);
    assert(nonempty_parts(split_on(text, '/')) + Seq::<Seq<char>>::empty() =~= nonempty_parts(split_on(text, '/')));
    // A doubled slash.
    lemma_parts_concat(a, seq!['/'] + b);
    lemma_parts_concat(e, b);
    lemma_parts_concat(a, b);
    assert(a + seq!['/', '/'] + b =~= a + seq!['/'] + (seq!['/'] + b));
    assert(e + seq!['/'] + b =~= seq!['/'] + b);
    assert(Seq::<Seq<char>>::empty() + nonempty_parts(split_on(b, '/')) =~= nonempty_parts(split_on(b, '/')));
    // A leading `/Root/`.
    let root = seq!['R', 'o', 'o', 't'];
    lemma_parts_concat(e, root);
    lemma_parts_concat(e + seq!['/'] + root, text);
    assert(seq!['/', 'R', 'o', 'o', 't', '/'] + text =~= (e + seq!['/'] + root) + seq!['/'] + text);
    assert(nonempty_parts(split_on(root, '/')) =~= seq![root]) by {
        assert(root.drop_last() =~= seq!['R', 'o', 'o']);
        assert(root.drop_last().drop_last() =~= seq!['R', 'o']);
        assert(root.drop_last().drop_last().drop_last() =~= seq!['R']);
        assert(seq!['R'].drop_last() =~= e);
        assert(split_on(seq!['R'], '/') =~= seq![seq!['R']]);
        assert(seq!['R', 'o'].drop_last() =~= seq!['R'] && seq!['R', 'o'].last() == 'o');
        assert(seq!['R'].push('o') =~= seq!['R', 'o']);
        assert(split_on(seq!['R', 'o'], '/') =~= seq![seq!['R', 'o']]);
        assert(seq!['R', 'o', 'o'].drop_last() =~= seq!['R', 'o'] && seq!['R', 'o', 'o'].last() == 'o');
        assert(seq!['R', 'o'].push('o') =~= seq!['R', 'o', 'o']);
        assert(split_on(seq!['R', 'o', 'o'], '/') =~= seq![seq!['R', 'o', 'o']]);
        assert(seq!['R', 'o', 'o'].push('t') =~= root);
        assert(split_on(root, '/') =~= seq![root]);
        assert(seq![root].drop_last() =~= Seq::<Seq<char>>::empty());
        assert(seq![root].last().len() > 0);
        assert(nonempty_parts(seq![root]) == nonempty_parts(seq![root].drop_last()).push(root));
        assert(nonempty_parts(Seq::<Seq<char>>::empty()) =~= Seq::<Seq<char>>::empty());
    }
    let pt = nonempty_parts(split_on(text, '/'));
    let whole = seq![root] + pt;
    assert(Seq::<Seq<char>>::empty() + seq![root] =~= seq![root]);
    assert(whole[0] == root);
    reveal_strlit("root");
    assert(eq_ignore_case(root, "root"@)) by {
        assert(ascii_lower('R') == 'r');
    }
    assert(whole.drop_first() =~= pt);
}

/// `n` is the child named `q` among the references `refs`: the target of
/// the first reference the tree keeps with that browse name.
pub open spec fn first_child(refs: Seq<BrowsedReference>, q: (u16, Seq<char>), n: NodeIdView) -> bool {
    exists|i: int| 0 <= i < refs.len() && names_child(#[trigger] refs[i], q)
        && (forall|j: int| 0 <= j < i ==> !names_child(#[trigger] refs[j], q))
        && n == refs[i].node_id@
}

/// Resolving the segments `segs` from `cur` on a server whose nodes have
/// the forward hierarchical references `refs_of` ends at `end`: each
/// segment leads to the child of that name, in turn.
pub open spec fn walk_reaches(
    segs: Seq<Seq<char>>,
    refs_of: spec_fn(NodeIdView) -> Seq<BrowsedReference>,
    cur: NodeIdView,
    end: NodeIdView,
) -> bool
    decreases segs.len(),
{
    if segs.len() == 0 {
        end == cur
    } else {
        exists|next: NodeIdView| #[trigger] first_child(refs_of(cur), qualified_name_of(segs[0]), next)
            && walk_reaches(segs.drop_first(), refs_of, next, end)
    }
}

/// The segments met walking up from the last of `names` (root first) to the
/// root, leaf first.
pub open spec fn leaf_first_segments(names: Seq<(u16, Seq<char>)>) -> Seq<Seq<char>> {
    Seq::new(names.len(), |i: int| segment_text(names[names.len() - 1 - i].0, names[names.len() - 1 - i].1))
}

proof fn lemma_segment_shape(ns: u16, name: Seq<char>)
    requires
        name.len() > 0,
        forall|j: int| 0 <= j < name.len() ==> !is_reserved(#[trigger] name[j]),
    ensures
        segment_text(ns, name).len() > 0,
        forall|j: int| 0 <= j < segment_text(ns, name).len() ==> #[trigger] segment_text(ns, name)[j] != '/',
{
    lemma_escaped_plain(name);
    if ns != 0 {
        lemma_decimal_digits(ns as nat);
        reveal_strlit(":");
        let d = decimal(ns as nat);
        let seg = segment_text(ns, name);
        assert forall|j: int| 0 <= j < seg.len() implies #[trigger] seg[j] != '/' by {
            if j < d.len() {
                assert(seg[j] == d[j]);
                assert(is_digit(d[j]));
            } else if j == d.len() {
                assert(seg[j] == ':');
            } else {
                assert(seg[j] == name[j - d.len() - 1]);
            }
        }
    }
}

proof fn lemma_walk_down(
    names: Seq<(u16, Seq<char>)>,
    nodes: Seq<NodeIdView>,
    refs_of: spec_fn(NodeIdView) -> Seq<BrowsedReference>,
    i: nat,
)
    requires
        nodes.len() == names.len() + 1,
        i <= names.len(),
        forall|k: int, j: int| 0 <= k < names.len() && 0 <= j < names[k].1.len() ==> !is_reserved(#[trigger] names[k].1[j]),
        forall|k: int| 0 <= k < names.len() ==> first_child(refs_of(#[trigger] nodes[k]), names[k], nodes[k + 1]),
    ensures
        walk_reaches(
            Seq::new(names.len(), |k: int| segment_text(names[k].0, names[k].1)).skip(i as int),
            refs_of,
            nodes[i as int],
            nodes.last(),
        ),
    decreases names.len() - i,
{
    let segs = Seq::new(names.len(), |k: int| segment_text(names[k].0, names[k].1));
    if i == names.len() {
        assert(segs.skip(i as int) =~= Seq::<Seq<char>>::empty());
    } else {
        lemma_walk_down(names, nodes, refs_of, i + 1);
        let rest = segs.skip(i as int);
        assert(rest[0] == segment_text(names[i as int].0, names[i as int].1));
        assert forall|j: int| 0 <= j < names[i as int].1.len() implies !is_reserved(#[trigger] names[i as int].1[j]) by {}
        segment_round_trip(names[i as int].0, names[i as int].1);
        assert(qualified_name_of(rest[0]) == names[i as int]);
        assert(rest.drop_first() =~= segs.skip(i + 1 as int));
        assert(first_child(refs_of(nodes[i as int]), names[i as int], nodes[(i + 1) as int]));
        assert(first_child(refs_of(nodes[i as int]), qualified_name_of(rest[0]), nodes[(i + 1) as int]));
    }
}

/// A browse path reads back as its node. Take a node reached from the root
/// folder through the browse names `names`, each node being the child of
/// that name of the one before (the first reference the tree keeps with
/// that name); let no name be empty or hold a reserved character, and let
/// the first not read as `Root`. Then the browse path built while walking
/// up from the node resolves, segment by segment, back to that node.
pub proof fn browse_path_resolves(
    names: Seq<(u16, Seq<char>)>,
    nodes: Seq<NodeIdView>,
    refs_of: spec_fn(NodeIdView) -> Seq<BrowsedReference>,
)
    requires
        nodes.len() == names.len() + 1,
        nodes[0] == root_view(),
        forall|k: int| 0 <= k < names.len() ==> (#[trigger] names[k]).1.len() > 0,
        forall|k: int, j: int| 0 <= k < names.len() && 0 <= j < names[k].1.len() ==> !is_reserved(#[trigger] names[k].1[j]),
        names.len() > 0 ==> !eq_ignore_case(segment_text(names[0].0, names[0].1), "root"@),
        forall|k: int| 0 <= k < names.len() ==> first_child(refs_of(#[trigger] nodes[k]), names[k], nodes[k + 1]),
    ensures
        walk_reaches(path_segments_of(browse_path_of(leaf_first_segments(names))), refs_of, root_view(), nodes.last()),
{
    let leaf = leaf_first_segments(names);
    let n = names.len();
    assert forall|i: int| 0 <= i < leaf.len() implies (#[trigger] leaf[i]).len() > 0 by {
        let k = n - 1 - i;
        assert forall|j: int| 0 <= j < names[k].1.len() implies !is_reserved(#[trigger] names[k].1[j]) by {}
        assert(names[k].1.len() > 0);
        lemma_segment_shape(names[k].0, names[k].1);
    }
    assert forall|i: int, j: int| 0 <= i < leaf.len() && 0 <= j < leaf[i].len() implies #[trigger] leaf[i][j] != '/' by {
        let k = n - 1 - i;
        assert forall|m: int| 0 <= m < names[k].1.len() implies !is_reserved(#[trigger] names[k].1[m]) by {}
        assert(names[k].1.len() > 0);
        lemma_segment_shape(names[k].0, names[k].1);
    }
    if n > 0 {
        assert(leaf.last() == segment_text(names[0].0, names[0].1));
    }
    browse_path_round_trip(leaf);
    let segs = Seq::new(n, |k: int| segment_text(names[k].0, names[k].1));
    assert(leaf.reverse() =~= segs);
    lemma_walk_down(names, nodes, refs_of, 0);
    assert(segs.skip(0) =~= segs);
}

/// The one-line texts of the items.
pub open spec fn item_texts(items: Seq<ValueTree>, null_text: Seq<char>) -> Seq<Seq<char>> {
    items.map_values(|x: ValueTree| inline_text(x, null_text))
}

/// The one-line `key: value` texts of the fields, in order.
pub open spec fn field_texts(fields: Seq<(String, ValueTree)>, null_text: Seq<char>) -> Seq<Seq<char>> {
    fields.map_values(|e: (String, ValueTree)| e.0@ + ": "@ + inline_text(e.1, null_text))
}

proof fn lemma_items_join(items: Seq<ValueTree>, null_text: Seq<char>, n: nat)
    requires
        n <= items.len(),
    ensures
        inline_items(items, null_text, n) == join(item_texts(items, null_text).take(n as int), ", "@),
    decreases n,
{
    let t = item_texts(items, null_text).take(n as int);
    if n == 0 {
        assert(t =~= Seq::<Seq<char>>::empty());
    } else {
        lemma_items_join(items, null_text, (n - 1) as nat);
        assert(t.drop_last() =~= item_texts(items, null_text).take(n - 1));
        assert(t.last() == inline_text(items[n - 1], null_text));
        if n == 1 {
            assert(t[0] == inline_text(items[0], null_text));
        }
    }
}

proof fn lemma_fields_join(fields: Seq<(String, ValueTree)>, null_text: Seq<char>, n: nat)
    requires
        n <= fields.len(),
    ensures
        inline_fields(fields, null_text, n) == join(field_texts(fields, null_text).take(n as int), ", "@),
    decreases n,
{
    let t = field_texts(fields, null_text).take(n as int);
    if n == 0 {
        assert(t =~= Seq::<Seq<char>>::empty());
    } else {
        lemma_fields_join(fields, null_text, (n - 1) as nat);
        assert(t.drop_last() =~= field_texts(fields, null_text).take(n - 1));
        assert(t.last() == fields[n - 1].0@ + ": "@ + inline_text(fields[n - 1].1, null_text));
        if n == 1 {
            assert(t[0] == fields[0].0@ + ": "@ + inline_text(fields[0].1, null_text));
        }
    }
}

/// The one-line text of a value: the null text, a leaf's own text, the
/// items' texts joined by `, ` inside `[` `]`, or the fields as `k: v`
/// joined by `, ` inside `{` `}`, fields in their order.
pub proof fn inline_join_law(v: ValueTree, null_text: Seq<char>)
    ensures
        inline_text(v, null_text) == match v {
            ValueTree::Null => null_text,
            ValueTree::Leaf(s) => s@,
            ValueTree::Array(items) => "["@ + join(item_texts(items@, null_text), ", "@) + "]"@,
            ValueTree::Object(fields) => "{"@ + join(field_texts(fields@, null_text), ", "@) + "}"@,
        },
{
    match v {
        ValueTree::Array(items) => {
            lemma_items_join(items@, null_text, items@.len());
            assert(item_texts(items@, null_text).take(items@.len() as int) =~= item_texts(items@, null_text));
        },
        ValueTree::Object(fields) => {
            lemma_fields_join(fields@, null_text, fields@.len());
            assert(field_texts(fields@, null_text).take(fields@.len() as int) =~= field_texts(fields@, null_text));
        },
        _ => {},
    }
}

/// No text in the value (leaves and field names) holds a line break.
pub open spec fn newline_free(v: ValueTree) -> bool
    decreases v,
{
    match v {
        ValueTree::Null => true,
        ValueTree::Leaf(s) => !s@.contains('\n'),
        ValueTree::Array(items) => forall|i: int| 0 <= i < items@.len() ==> newline_free(#[trigger] items@[i]),
        ValueTree::Object(fields) => forall|i: int| 0 <= i < fields@.len()
            ==> !(#[trigger] fields@[i]).0@.contains('\n') && newline_free(fields@[i].1),
    }
}

proof fn lemma_concat_no_newline(a: Seq<char>, b: Seq<char>)
    requires
        !a.contains('\n'),
        !b.contains('\n'),
    ensures
        !(a + b).contains('\n'),
{
    if (a + b).contains('\n') {
        let k = choose|k: int| 0 <= k < (a + b).len() && (a + b)[k] == '\n';
        if k < a.len() {
            assert(a[k] == '\n');
        } else {
            assert(b[k - a.len()] == '\n');
        }
    }
}

proof fn lemma_lit_no_newline(s: Seq<char>)
    requires
        forall|i: int| 0 <= i < s.len() ==> #[trigger] s[i] != '\n',
    ensures
        !s.contains('\n'),
{
}

proof fn lemma_inline_one_line(v: ValueTree, null_text: Seq<char>)
    requires
        newline_free(v),
        !null_text.contains('\n'),
    ensures
        !inline_text(v, null_text).contains('\n'),
    decreases v, 1nat,
{
    match v {
        ValueTree::Array(items) => {
            lemma_items_one_line(items@, null_text, items@.len());
            reveal_strlit("[");
            reveal_strlit("]");
            lemma_lit_no_newline("["@);
            lemma_lit_no_newline("]"@);
            lemma_concat_no_newline("["@, inline_items(items@, null_text, items@.len()));
            lemma_concat_no_newline("["@ + inline_items(items@, null_text, items@.len()), "]"@);
        },
        ValueTree::Object(fields) => {
            lemma_fields_one_line(fields@, null_text, fields@.len());
            reveal_strlit("{");
            reveal_strlit("}");
            lemma_lit_no_newline("{"@);
            lemma_lit_no_newline("}"@);
            lemma_concat_no_newline("{"@, inline_fields(fields@, null_text, fields@.len()));
            lemma_concat_no_newline("{"@ + inline_fields(fields@, null_text, fields@.len()), "}"@);
        },
        _ => {},
    }
}

proof fn lemma_items_one_line(items: Seq<ValueTree>, null_text: Seq<char>, n: nat)
    requires
        n <= items.len(),
        forall|i: int| 0 <= i < items.len() ==> newline_free(#[trigger] items[i]),
        !null_text.contains('\n'),
    ensures
        !inline_items(items, null_text, n).contains('\n'),
    decreases items, n,
{
    if n == 0 {
        assert(inline_items(items, null_text, n) =~= Seq::<char>::empty());
    } else {
        assert(newline_free(items[n - 1]));
        assert(decreases_to!(items => items[n - 1]));
        lemma_inline_one_line(items[n - 1], null_text);
        if n > 1 {
            lemma_items_one_line(items, null_text, (n - 1) as nat);
            reveal_strlit(", ");
            lemma_lit_no_newline(", "@);
            lemma_concat_no_newline(inline_items(items, null_text, (n - 1) as nat), ", "@);
            lemma_concat_no_newline(inline_items(items, null_text, (n - 1) as nat) + ", "@, inline_text(items[n - 1], null_text));
        }
    }
}

proof fn lemma_fields_one_line(fields: Seq<(String, ValueTree)>, null_text: Seq<char>, n: nat)
    requires
        n <= fields.len(),
        forall|i: int| 0 <= i < fields.len()
            ==> !(#[trigger] fields[i]).0@.contains('\n') && newline_free(fields[i].1),
        !null_text.contains('\n'),
    ensures
        !inline_fields(fields, null_text, n).contains('\n'),
    decreases fields, n,
{
    if n == 0 {
        assert(inline_fields(fields, null_text, n) =~= Seq::<char>::empty());
    } else {
        let e = fields[n - 1];
        assert(!e.0@.contains('\n') && newline_free(e.1));
        assert(decreases_to!(fields => fields[n - 1]));
        lemma_inline_one_line(e.1, null_text);
        reveal_strlit(": ");
        lemma_lit_no_newline(": "@);
        lemma_concat_no_newline(e.0@, ": "@);
        lemma_concat_no_newline(e.0@ + ": "@, inline_text(e.1, null_text));
        if n > 1 {
            lemma_fields_one_line(fields, null_text, (n - 1) as nat);
            reveal_strlit(", ");
            lemma_lit_no_newline(", "@);
            let one = e.0@ + ": "@ + inline_text(e.1, null_text);
            lemma_concat_no_newline(inline_fields(fields, null_text, (n - 1) as nat), ", "@);
            lemma_concat_no_newline(inline_fields(fields, null_text, (n - 1) as nat) + ", "@, one);
        }
    }
}

/// The one-line text of a value is one line: it holds no line break when
/// neither its texts nor the text for null do.
pub proof fn inline_one_line_law(v: ValueTree, null_text: Seq<char>)
    requires
        newline_free(v),
        !null_text.contains('\n'),
    ensures
        !inline_text(v, null_text).contains('\n'),
{
    lemma_inline_one_line(v, null_text);
}

/// The tree row of a child at `depth`: its node, whether it has children,
/// and its label (indentation, expand marker, name).
pub open spec fn child_row(m: AppModel, c: TreeChild, depth: nat) -> (NodeIdView, bool, Seq<char>) {
    (c.node_id@, c.has_children, row_text(depth, m.tree.expanded@.contains(c.node_id@), c.has_children, c.display_name@))
}

proof fn lemma_child_rows_prefix(m: AppModel, cs: Seq<TreeChild>, depth: nat, fuel: nat, i: nat, n: nat)
    requires
        fuel > 0,
        i <= n <= cs.len(),
    ensures
        child_rows(m, cs, depth, fuel, n).len() >= child_rows(m, cs, depth, fuel, i).len() + (n - i),
        child_rows(m, cs, depth, fuel, n).take(child_rows(m, cs, depth, fuel, i).len() as int)
            == child_rows(m, cs, depth, fuel, i),
    decreases n,
{
    let a = child_rows(m, cs, depth, fuel, i);
    if n == i {
        assert(a.take(a.len() as int) =~= a);
    } else {
        lemma_child_rows_prefix(m, cs, depth, fuel, i, (n - 1) as nat);
        let p = child_rows(m, cs, depth, fuel, (n - 1) as nat);
        let whole = child_rows(m, cs, depth, fuel, n);
        let c = cs[n - 1];
        let exp = m.tree.expanded@.contains(c.node_id@);
        let below = if exp { rows_below(m, c.node_id@, depth + 1, (fuel - 1) as nat) } else { Seq::empty() };
        assert(whole == p + seq![(c.node_id@, c.has_children, row_text(depth, exp, c.has_children, c.display_name@))] + below);
        assert(whole.take(a.len() as int) =~= p.take(a.len() as int));
    }
}

/// Where the row of child `i` stands among the rows of the children.
proof fn lemma_child_row_at(m: AppModel, cs: Seq<TreeChild>, depth: nat, fuel: nat, i: nat)
    requires
        fuel > 0,
        i < cs.len(),
    ensures
        ({
            let k = child_rows(m, cs, depth, fuel, i).len() as int;
            let rows = child_rows(m, cs, depth, fuel, cs.len());
            &&& k < rows.len()
            &&& rows[k] == child_row(m, cs[i as int], depth)
            &&& m.tree.expanded@.contains(cs[i as int].node_id@) ==> k + 1
                + rows_below(m, cs[i as int].node_id@, depth + 1, (fuel - 1) as nat).len() <= rows.len()
            &&& m.tree.expanded@.contains(cs[i as int].node_id@) ==> rows.subrange(k + 1, k + 1
                + rows_below(m, cs[i as int].node_id@, depth + 1, (fuel - 1) as nat).len())
                == rows_below(m, cs[i as int].node_id@, depth + 1, (fuel - 1) as nat)
        }),
{
    let a = child_rows(m, cs, depth, fuel, i);
    let b = child_rows(m, cs, depth, fuel, i + 1);
    let rows = child_rows(m, cs, depth, fuel, cs.len());
    let c = cs[i as int];
    let exp = m.tree.expanded@.contains(c.node_id@);
    let below = if exp { rows_below(m, c.node_id@, depth + 1, (fuel - 1) as nat) } else { Seq::empty() };
    assert(b == a + seq![child_row(m, c, depth)] + below);
    lemma_child_rows_prefix(m, cs, depth, fuel, i + 1, cs.len());
    assert(rows.take(b.len() as int) == b);
    let k = a.len() as int;
    assert(b[k] == child_row(m, c, depth));
    assert(rows[k] == rows.take(b.len() as int)[k]);
    if exp {
        assert forall|j: int| 0 <= j < below.len() implies #[trigger] rows.subrange(k + 1, k + 1 + below.len())[j] == below[j] by {
            assert(rows[k + 1 + j] == rows.take(b.len() as int)[k + 1 + j]);
            assert(b[k + 1 + j] == below[j]);
        }
        assert(rows.subrange(k + 1, k + 1 + below.len()) =~= below);
    }
}

/// The tree rows are a walk of the expanded nodes in pre-order, at every
/// depth: below an expanded node whose children are loaded, each child has
/// its row, one level deeper than the node, the children in their order,
/// the first right after the node; and when a child is expanded too, with
/// children loaded, its own first child's row comes right after the child's,
/// one level deeper again.
pub proof fn tree_rows_law(m: AppModel, parent: NodeIdView, depth: nat, fuel: nat, i: int, j: int)
    requires
        fuel > 0,
        m.tree.expanded@.contains(parent),
        m.tree.children@.contains_key(parent),
        0 <= i < m.tree.children@[parent]@.len(),
        0 <= j < m.tree.children@[parent]@.len(),
    ensures
        ({
            let cs = m.tree.children@[parent]@;
            let rows = rows_below(m, parent, depth, fuel);
            &&& rows.len() > 0
            &&& rows[0] == child_row(m, cs[0], depth)
            &&& i < j ==> exists|ki: int, kj: int| 0 <= ki < kj < rows.len()
                && #[trigger] rows[ki] == child_row(m, cs[i], depth) && #[trigger] rows[kj] == child_row(m, cs[j], depth)
            &&& forall|k: int| 0 <= k < cs.len() ==> exists|p: int| 0 <= p < rows.len() && rows[p] == #[trigger] child_row(m, cs[k], depth)
        }),
{
    let cs = m.tree.children@[parent]@;
    let rows = rows_below(m, parent, depth, fuel);
    assert(rows == child_rows(m, cs, depth, fuel, cs.len()));
    lemma_child_row_at(m, cs, depth, fuel, 0);
    assert(child_rows(m, cs, depth, fuel, 0).len() == 0);
    lemma_child_row_at(m, cs, depth, fuel, i as nat);
    lemma_child_row_at(m, cs, depth, fuel, j as nat);
    if i < j {
        lemma_child_rows_prefix(m, cs, depth, fuel, (i + 1) as nat, j as nat);
        let ki = child_rows(m, cs, depth, fuel, i as nat).len() as int;
        let kj = child_rows(m, cs, depth, fuel, j as nat).len() as int;
        lemma_child_rows_prefix(m, cs, depth, fuel, i as nat, (i + 1) as nat);
        assert(ki < kj);
        assert(rows[ki] == child_row(m, cs[i], depth));
        assert(rows[kj] == child_row(m, cs[j], depth));
    }
    assert forall|k: int| 0 <= k < cs.len() implies exists|p: int| 0 <= p < rows.len() && rows[p] == #[trigger] child_row(m, cs[k], depth) by {
        lemma_child_row_at(m, cs, depth, fuel, k as nat);
    }
}

/// An expanded child with loaded children is followed at once, in the tree
/// rows, by the row of its first child, one level deeper.
pub proof fn tree_rows_descend_law(m: AppModel, parent: NodeIdView, depth: nat, fuel: nat, i: int)
    requires
        fuel > 1,
        m.tree.expanded@.contains(parent),
        m.tree.children@.contains_key(parent),
        0 <= i < m.tree.children@[parent]@.len(),
        m.tree.expanded@.contains(m.tree.children@[parent]@[i].node_id@),
        m.tree.children@.contains_key(m.tree.children@[parent]@[i].node_id@),
        m.tree.children@[m.tree.children@[parent]@[i].node_id@]@.len() > 0,
    ensures
        ({
            let cs = m.tree.children@[parent]@;
            let c = cs[i];
            let grand = m.tree.children@[c.node_id@]@;
            let rows = rows_below(m, parent, depth, fuel);
            exists|k: int| 0 <= k && k + 1 < rows.len()
                && #[trigger] rows[k] == child_row(m, c, depth)
                && rows[k + 1] == child_row(m, grand[0], depth + 1)
        }),
{
    let cs = m.tree.children@[parent]@;
    let c = cs[i];
    let grand = m.tree.children@[c.node_id@]@;
    let rows = rows_below(m, parent, depth, fuel);
    assert(rows == child_rows(m, cs, depth, fuel, cs.len()));
    lemma_child_row_at(m, cs, depth, fuel, i as nat);
    let k = child_rows(m, cs, depth, fuel, i as nat).len() as int;
    let below = rows_below(m, c.node_id@, depth + 1, (fuel - 1) as nat);
    assert(below == child_rows(m, grand, depth + 1, (fuel - 1) as nat, grand.len()));
    lemma_child_row_at(m, grand, depth + 1, (fuel - 1) as nat, 0);
    assert(child_rows(m, grand, depth + 1, (fuel - 1) as nat, 0).len() == 0);
    assert(below.len() > 0);
    assert(rows.subrange(k + 1, k + 1 + below.len()) == below);
    assert(rows[k + 1] == rows.subrange(k + 1, k + 1 + below.len())[0]);
}

/// In the whole tree, the root's row comes first; when the root is expanded
/// with its children loaded, its first child's row follows at depth one, and
/// an expanded child of the root with loaded children is followed at once
/// by its own first child at depth two.
pub proof fn whole_tree_law(m: AppModel, i: int)
    requires
        m.tree.expanded@.contains(m.root_node@),
        m.tree.children@.contains_key(m.root_node@),
        0 <= i < m.tree.children@[m.root_node@]@.len(),
        m.tree.children@[m.root_node@]@[i].node_id@ != m.root_node@,
        m.tree.expanded@.contains(m.tree.children@[m.root_node@]@[i].node_id@),
        m.tree.children@.contains_key(m.tree.children@[m.root_node@]@[i].node_id@),
        m.tree.children@[m.tree.children@[m.root_node@]@[i].node_id@]@.len() > 0,
    ensures
        ({
            let cs = m.tree.children@[m.root_node@]@;
            let c = cs[i];
            let grand = m.tree.children@[c.node_id@]@;
            let rows = tree_text_rows(m);
            &&& rows[0].0 == m.root_node@
            &&& rows[1] == child_row(m, cs[0], 1)
            &&& exists|k: int| 1 <= k && k + 1 < rows.len()
                && #[trigger] rows[k] == child_row(m, c, 1)
                && rows[k + 1] == child_row(m, grand[0], 2)
        }),
{
    let root = m.root_node@;
    let c = m.tree.children@[root]@[i];
    m.tree.expanded.lemma_count_two(root, c.node_id@);
    let fuel = row_fuel(m);
    assert(fuel >= 2);
    tree_rows_law(m, root, 1, fuel, 0, 0);
    tree_rows_descend_law(m, root, 1, fuel, i);
    let below = rows_below(m, root, 1, fuel);
    let rows = tree_text_rows(m);
    assert(rows.drop_first() =~= below);
    assert(rows[1] == below[0]);
    let k = choose|k: int| 0 <= k && k + 1 < below.len()
        && #[trigger] below[k] == child_row(m, c, 1)
        && below[k + 1] == child_row(m, m.tree.children@[c.node_id@]@[0], 2);
    assert(rows[k + 1] == below[k]);
    assert(rows[k + 2] == below[k + 1]);
    assert(rows[1] == below[0]);
}

/// A reference's label starts with `→` exactly when the reference is
/// forward and with `←` exactly when it is inverse; flipping the direction
/// changes that first character and nothing else.
pub proof fn reference_direction_law(r: ReferenceRow, flipped: ReferenceRow)
    requires
        flipped == (ReferenceRow { is_forward: !r.is_forward, ..r }),
    ensures
        ref_label(r).len() > 0,
        ref_label(r)[0] == '→' <==> r.is_forward,
        ref_label(r)[0] == '←' <==> !r.is_forward,
        ref_label(flipped).len() == ref_label(r).len(),
        ref_label(flipped).drop_first() == ref_label(r).drop_first(),
        ref_label(flipped)[0] != ref_label(r)[0],
{
    reveal_strlit("→");
    reveal_strlit("←");
    let rest = " "@ + r.reference_type@ + " · "@ + r.target_display_name@ + " · "@ + node_id_text(r.target_node_id@);
    assert(ref_label(r) =~= (if r.is_forward { seq!['→'] } else { seq!['←'] }) + rest);
    assert(ref_label(flipped) =~= (if flipped.is_forward { seq!['→'] } else { seq!['←'] }) + rest);
    assert(ref_label(r).drop_first() =~= rest);
    assert(ref_label(flipped).drop_first() =~= rest);
}

proof fn lemma_concat_contains<T>(a: Seq<T>, b: Seq<T>, x: T)
    ensures
        (a + b).contains(x) <==> (a.contains(x) || b.contains(x)),
{
    if (a + b).contains(x) {
        let k = choose|k: int| 0 <= k < (a + b).len() && (a + b)[k] == x;
        if k < a.len() {
            assert(a[k] == x);
        } else {
            assert(b[k - a.len()] == x);
        }
    }
    if a.contains(x) {
        let k = choose|k: int| 0 <= k < a.len() && a[k] == x;
        assert((a + b)[k] == x);
    }
    if b.contains(x) {
        let k = choose|k: int| 0 <= k < b.len() && b[k] == x;
        assert((a + b)[a.len() + k] == x);
    }
}

proof fn lemma_all_entries_has(reads: Seq<AttributeRead>, i: int, x: AttrView)
    requires
        0 <= i < reads.len(),
        entries_of(reads[i]).contains(x),
    ensures
        all_entries(reads).contains(x),
    decreases reads.len(),
{
    let p = reads.drop_last();
    lemma_concat_contains(all_entries(p), entries_of(reads.last()), x);
    if i < reads.len() - 1 {
        assert(p[i] == reads[i]);
        lemma_all_entries_has(p, i, x);
    }
}

/// What a read attribute adds to the summary. A failed read, or one without
/// a value, adds nothing. A good read of another attribute adds only that
/// attribute. A good read of `Value` adds the value and, each exactly when
/// the read has it, a `StatusCode` entry with the status text, a
/// `SourceTimestamp` entry with the source timestamp and a
/// `ServerTimestamp` entry with the server timestamp.
pub proof fn read_entries_law(a: AttributeRead)
    ensures
        !status_ok(a) || a.value is None ==> entries_of(a).len() == 0,
        status_ok(a) && a.value is Some && !a.is_value ==> entries_of(a) == seq![(a.name@, a.value->0)],
        status_ok(a) && a.value is Some && a.is_value ==> {
            &&& entries_of(a).contains((a.name@, a.value->0))
            &&& a.name@ != "StatusCode"@ ==> forall|v: ValueTree| #[trigger] entries_of(a).contains(("StatusCode"@, v))
                <==> (a.status matches Some(st) && v == ValueTree::Leaf(st.text))
            &&& a.name@ != "SourceTimestamp"@ ==> forall|v: ValueTree| #[trigger] entries_of(a).contains(("SourceTimestamp"@, v))
                <==> (a.source_timestamp matches Some(t) && v == ValueTree::Leaf(t))
            &&& a.name@ != "ServerTimestamp"@ ==> forall|v: ValueTree| #[trigger] entries_of(a).contains(("ServerTimestamp"@, v))
                <==> (a.server_timestamp matches Some(t) && v == ValueTree::Leaf(t))
        },
{
    if status_ok(a) && a.value is Some && a.is_value {
        reveal_strlit("StatusCode");
        reveal_strlit("SourceTimestamp");
        reveal_strlit("ServerTimestamp");
        let sc = "StatusCode"@;
        let so = "SourceTimestamp"@;
        let se = "ServerTimestamp"@;
        assert(sc.len() != so.len() && sc.len() != se.len());
        assert(so[1] != se[1]);
        assert(sc != so && sc != se && so != se);
        let main = seq![(a.name@, a.value->0)];
        let e1: Seq<AttrView> = match a.status { Some(st) => seq![(sc, ValueTree::Leaf(st.text))], None => Seq::empty() };
        let e2: Seq<AttrView> = match a.source_timestamp { Some(t) => seq![(so, ValueTree::Leaf(t))], None => Seq::empty() };
        let e3: Seq<AttrView> = match a.server_timestamp { Some(t) => seq![(se, ValueTree::Leaf(t))], None => Seq::empty() };
        assert(entries_of(a) == main + e1 + e2 + e3);
        assert forall|x: AttrView| #[trigger] entries_of(a).contains(x)
            <==> (main.contains(x) || e1.contains(x) || e2.contains(x) || e3.contains(x)) by {
            lemma_concat_contains(main + e1 + e2, e3, x);
            lemma_concat_contains(main + e1, e2, x);
            lemma_concat_contains(main, e1, x);
        }
        assert(main[0] == (a.name@, a.value->0));
        assert(main.contains((a.name@, a.value->0)));
        assert forall|v: ValueTree| #[trigger] entries_of(a).contains((sc, v))
            implies (a.status matches Some(st) && v == ValueTree::Leaf(st.text)) || a.name@ == sc by {
            if e2.contains((sc, v)) { let k = choose|k: int| 0 <= k < e2.len() && e2[k] == (sc, v); }
            if e3.contains((sc, v)) { let k = choose|k: int| 0 <= k < e3.len() && e3[k] == (sc, v); }
            if e1.contains((sc, v)) { let k = choose|k: int| 0 <= k < e1.len() && e1[k] == (sc, v); }
            if main.contains((sc, v)) { let k = choose|k: int| 0 <= k < main.len() && main[k] == (sc, v); }
        }
        assert forall|v: ValueTree| #[trigger] entries_of(a).contains((so, v))
            implies (a.source_timestamp matches Some(t) && v == ValueTree::Leaf(t)) || a.name@ == so by {
            if e1.contains((so, v)) { let k = choose|k: int| 0 <= k < e1.len() && e1[k] == (so, v); }
            if e3.contains((so, v)) { let k = choose|k: int| 0 <= k < e3.len() && e3[k] == (so, v); }
            if e2.contains((so, v)) { let k = choose|k: int| 0 <= k < e2.len() && e2[k] == (so, v); }
            if main.contains((so, v)) { let k = choose|k: int| 0 <= k < main.len() && main[k] == (so, v); }
        }
        assert forall|v: ValueTree| #[trigger] entries_of(a).contains((se, v))
            implies (a.server_timestamp matches Some(t) && v == ValueTree::Leaf(t)) || a.name@ == se by {
            if e1.contains((se, v)) { let k = choose|k: int| 0 <= k < e1.len() && e1[k] == (se, v); }
            if e2.contains((se, v)) { let k = choose|k: int| 0 <= k < e2.len() && e2[k] == (se, v); }
            if e3.contains((se, v)) { let k = choose|k: int| 0 <= k < e3.len() && e3[k] == (se, v); }
            if main.contains((se, v)) { let k = choose|k: int| 0 <= k < main.len() && main[k] == (se, v); }
        }
        if let Some(st) = a.status {
            assert(e1[0] == (sc, ValueTree::Leaf(st.text)));
            assert(e1.contains((sc, ValueTree::Leaf(st.text))));
        }
        if let Some(t) = a.source_timestamp {
            assert(e2[0] == (so, ValueTree::Leaf(t)));
            assert(e2.contains((so, ValueTree::Leaf(t))));
        }
        if let Some(t) = a.server_timestamp {
            assert(e3[0] == (se, ValueTree::Leaf(t)));
            assert(e3.contains((se, ValueTree::Leaf(t))));
        }
    }
}

/// In the summary of a node, a good read of `Value` shows its status code
/// and both its timestamps, each where the read has it.
pub proof fn value_read_summary_law(reads: Seq<AttributeRead>, i: int)
    requires
        0 <= i < reads.len(),
        status_ok(reads[i]),
        reads[i].value is Some,
        reads[i].is_value,
        reads[i].name@ == "Value"@,
    ensures
        summary_attributes(reads).contains(("Value"@, reads[i].value->0)),
        reads[i].status matches Some(st) ==> summary_attributes(reads).contains(("StatusCode"@, ValueTree::Leaf(st.text))),
        reads[i].source_timestamp matches Some(t) ==> summary_attributes(reads).contains(("SourceTimestamp"@, ValueTree::Leaf(t))),
        reads[i].server_timestamp matches Some(t) ==> summary_attributes(reads).contains(("ServerTimestamp"@, ValueTree::Leaf(t))),
{
    let a = reads[i];
    reveal_strlit("Value");
    reveal_strlit("StatusCode");
    reveal_strlit("SourceTimestamp");
    reveal_strlit("ServerTimestamp");
    assert("Value"@.len() != "StatusCode"@.len());
    assert("Value"@.len() != "SourceTimestamp"@.len());
    assert("Value"@.len() != "ServerTimestamp"@.len());
    read_entries_law(a);
    attributes_listed_by_name(reads);
    lemma_all_entries_has(reads, i, ("Value"@, a.value->0));
    if let Some(st) = a.status {
        assert(entries_of(a).contains(("StatusCode"@, ValueTree::Leaf(st.text))));
        lemma_all_entries_has(reads, i, ("StatusCode"@, ValueTree::Leaf(st.text)));
    }
    if let Some(t) = a.source_timestamp {
        assert(entries_of(a).contains(("SourceTimestamp"@, ValueTree::Leaf(t))));
        lemma_all_entries_has(reads, i, ("SourceTimestamp"@, ValueTree::Leaf(t)));
    }
    if let Some(t) = a.server_timestamp {
        assert(entries_of(a).contains(("ServerTimestamp"@, ValueTree::Leaf(t))));
        lemma_all_entries_has(reads, i, ("ServerTimestamp"@, ValueTree::Leaf(t)));
    }
}

/// The clipboard text of one field: its `k:` line, then its value indented
/// two more spaces.
pub open spec fn clip_field_texts(fields: Seq<(String, ValueTree)>, ind: Seq<char>) -> Seq<Seq<char>> {
    fields.map_values(|e: (String, ValueTree)| ind + e.0@ + ":"@ + "\n"@ + clip_text(e.1, ind + "  "@))
}

/// The clipboard text of one array item: its `[i]` line, then the item
/// indented two more spaces.
pub open spec fn clip_item_texts(items: Seq<ValueTree>, ind: Seq<char>) -> Seq<Seq<char>> {
    items.map(|i: int, x: ValueTree| ind + "["@ + decimal(i as nat) + "]"@ + "\n"@ + clip_text(x, ind + "  "@))
}

proof fn lemma_clip_fields_join(fields: Seq<(String, ValueTree)>, ind: Seq<char>, n: nat)
    requires
        n <= fields.len(),
    ensures
        clip_fields(fields, ind, n) == join(clip_field_texts(fields, ind).take(n as int), "\n"@),
    decreases n,
{
    let t = clip_field_texts(fields, ind).take(n as int);
    if n == 0 {
        assert(t =~= Seq::<Seq<char>>::empty());
    } else {
        lemma_clip_fields_join(fields, ind, (n - 1) as nat);
        assert(t.drop_last() =~= clip_field_texts(fields, ind).take(n - 1));
        let e = fields[n - 1];
        assert(t.last() == ind + e.0@ + ":"@ + "\n"@ + clip_text(e.1, ind + "  "@));
        if n == 1 {
            assert(t[0] == t.last());
            assert(clip_field_texts(fields, ind).take(0) =~= Seq::<Seq<char>>::empty());
            assert(clip_fields(fields, ind, n) =~= t.last());
        } else {
            assert(clip_fields(fields, ind, n) =~= join(t.drop_last(), "\n"@) + "\n"@ + t.last());
        }
    }
}

proof fn lemma_clip_items_join(items: Seq<ValueTree>, ind: Seq<char>, n: nat)
    requires
        n <= items.len(),
    ensures
        clip_items(items, ind, n) == join(clip_item_texts(items, ind).take(n as int), "\n"@),
    decreases n,
{
    let t = clip_item_texts(items, ind).take(n as int);
    if n == 0 {
        assert(t =~= Seq::<Seq<char>>::empty());
    } else {
        lemma_clip_items_join(items, ind, (n - 1) as nat);
        assert(t.drop_last() =~= clip_item_texts(items, ind).take(n - 1));
        assert(t.last() == ind + "["@ + decimal((n - 1) as nat) + "]"@ + "\n"@ + clip_text(items[n - 1], ind + "  "@));
        if n == 1 {
            assert(t[0] == t.last());
            assert(clip_item_texts(items, ind).take(0) =~= Seq::<Seq<char>>::empty());
            assert(clip_items(items, ind, n) =~= t.last());
        } else {
            assert(clip_items(items, ind, n) =~= join(t.drop_last(), "\n"@) + "\n"@ + t.last());
        }
    }
}

/// The clipboard text of a structure is the clipboard texts of its parts
/// joined by one line break: for an object, each field's `k:` line followed
/// by its value indented two more spaces, in field order; for an array,
/// each item's `[i]` line followed by the item indented two more spaces.
/// So every field name and every item index starts a line of its own.
pub proof fn clipboard_join_law(v: ValueTree, ind: Seq<char>)
    ensures
        v matches ValueTree::Object(fields) ==> clip_text(v, ind) == join(clip_field_texts(fields@, ind), "\n"@),
        v matches ValueTree::Array(items) ==> clip_text(v, ind) == join(clip_item_texts(items@, ind), "\n"@),
{
    match v {
        ValueTree::Object(fields) => {
            lemma_clip_fields_join(fields@, ind, fields@.len());
            assert(clip_field_texts(fields@, ind).take(fields@.len() as int) =~= clip_field_texts(fields@, ind));
        },
        ValueTree::Array(items) => {
            lemma_clip_items_join(items@, ind, items@.len());
            assert(clip_item_texts(items@, ind).take(items@.len() as int) =~= clip_item_texts(items@, ind));
        },
        _ => {},
    }
}

/// The short token list of an endpoint: `Anon`, `User` and `Cert`, each
/// exactly when the endpoint supports anonymous, user-name and certificate
/// tokens, in that order and separated by `, `; `-` when it supports none.
pub proof fn token_list_law(ep: EndpointInfo)
    ensures
        token_text(ep) == match (ep.supports_anonymous, ep.supports_username, ep.supports_certificate) {
            (false, false, false) => "-"@,
            (true, false, false) => "Anon"@,
            (false, true, false) => "User"@,
            (false, false, true) => "Cert"@,
            (true, true, false) => "Anon, User"@,
            (true, false, true) => "Anon, Cert"@,
            (false, true, true) => "User, Cert"@,
            (true, true, true) => "Anon, User, Cert"@,
        },
{
    reveal_strlit("-");
    reveal_strlit("Anon");
    reveal_strlit("User");
    reveal_strlit("Cert");
    reveal_strlit(", ");
    reveal_strlit("Anon, User");
    reveal_strlit("Anon, Cert");
    reveal_strlit("User, Cert");
    reveal_strlit("Anon, User, Cert");
    let a: Seq<Seq<char>> = if ep.supports_anonymous { seq!["Anon"@] } else { Seq::empty() };
    let u: Seq<Seq<char>> = if ep.supports_username { seq!["User"@] } else { Seq::empty() };
    let c: Seq<Seq<char>> = if ep.supports_certificate { seq!["Cert"@] } else { Seq::empty() };
    let parts = a + u + c;
    let sep = ", "@;
    match (ep.supports_anonymous, ep.supports_username, ep.supports_certificate) {
        (false, false, false) => {
            assert(parts.len() == 0);
        },
        (true, false, false) => {
            assert(parts =~= seq!["Anon"@]);
        },
        (false, true, false) => {
            assert(parts =~= seq!["User"@]);
        },
        (false, false, true) => {
            assert(parts =~= seq!["Cert"@]);
        },
        (true, true, false) => {
            assert(parts =~= seq!["Anon"@, "User"@]);
            assert(parts.drop_last() =~= seq!["Anon"@]);
            assert(join(parts.drop_last(), sep) == "Anon"@);
            assert(parts.last() == "User"@);
            assert(join(parts, sep) == join(parts.drop_last(), sep) + sep + parts.last());
            assert(join(parts, sep) =~= "Anon, User"@);
        },
        (true, false, true) => {
            assert(parts =~= seq!["Anon"@, "Cert"@]);
            assert(parts.drop_last() =~= seq!["Anon"@]);
            assert(join(parts.drop_last(), sep) == "Anon"@);
            assert(parts.last() == "Cert"@);
            assert(join(parts, sep) == join(parts.drop_last(), sep) + sep + parts.last());
            assert(join(parts, sep) =~= "Anon, Cert"@);
        },
        (false, true, true) => {
            assert(parts =~= seq!["User"@, "Cert"@]);
            assert(parts.drop_last() =~= seq!["User"@]);
            assert(join(parts.drop_last(), sep) == "User"@);
            assert(parts.last() == "Cert"@);
            assert(join(parts, sep) == join(parts.drop_last(), sep) + sep + parts.last());
            assert(join(parts, sep) =~= "User, Cert"@);
        },
        (true, true, true) => {
            assert(parts =~= seq!["Anon"@, "User"@, "Cert"@]);
            assert(parts.drop_last() =~= seq!["Anon"@, "User"@]);
            let p2 = parts.drop_last();
            assert(p2.drop_last() =~= seq!["Anon"@]);
            assert(join(p2.drop_last(), sep) == "Anon"@);
            assert(p2.last() == "User"@);
            assert(join(p2, sep) == join(p2.drop_last(), sep) + sep + p2.last());
            assert(join(p2, sep) =~= "Anon, User"@);
            assert(parts.last() == "Cert"@);
            assert(join(parts, sep) == join(p2, sep) + sep + parts.last());
            assert(join(parts, sep) =~= "Anon, User, Cert"@);
        },
    }
}

} // verus!
