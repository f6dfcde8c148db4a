//! Choosing among the endpoints a server advertises, and describing them.
use vstd::prelude::*;
use crate::text::{decimal, push_decimal, push_str};
use crate::types::{security_mode_label, AuthMode, EndpointInfo, SecurityMode};

verus! {

/// The endpoints of the given security mode, in the order given.
pub open spec fn with_mode(eps: Seq<EndpointInfo>, mode: SecurityMode) -> Seq<EndpointInfo>
    decreases eps.len(),
{
    if eps.len() == 0 {
        eps
    } else if eps.last().security_mode == mode {
        with_mode(eps.drop_last(), mode).push(eps.last())
    } else {
        with_mode(eps.drop_last(), mode)
    }
}

/// Number of leading endpoints of `s` whose level is at least `level`.
pub open spec fn prefix_at_least(s: Seq<EndpointInfo>, level: u8) -> nat
    decreases s.len(),
{
    if s.len() > 0 && s[0].security_level >= level { 1 + prefix_at_least(s.drop_first(), level) } else { 0 }
}

/// A stable sort by security level, highest first: each endpoint is placed
/// after all earlier ones whose level is at least its own.
pub open spec fn sort_by_level(s: Seq<EndpointInfo>) -> Seq<EndpointInfo>
    decreases s.len(),
{
    if s.len() == 0 {
        s
    } else {
        let sorted = sort_by_level(s.drop_last());
        sorted.insert(prefix_at_least(sorted, s.last().security_level) as int, s.last())
    }
}

/// The endpoints offered for a security mode: those of that mode, highest
/// security level first, ties in the order given.
pub open spec fn offered(eps: Seq<EndpointInfo>, mode: SecurityMode) -> Seq<EndpointInfo> {
    sort_by_level(with_mode(eps, mode))
}

proof fn lemma_prefix_bound(s: Seq<EndpointInfo>, level: u8)
    ensures
        prefix_at_least(s, level) <= s.len(),
    decreases s.len(),
{
    if s.len() > 0 && s[0].security_level >= level {
        lemma_prefix_bound(s.drop_first(), level);
    }
}

proof fn lemma_sort_len(s: Seq<EndpointInfo>)
    ensures
        sort_by_level(s).len() == s.len(),
    decreases s.len(),
{
    if s.len() > 0 {
        lemma_sort_len(s.drop_last());
        lemma_prefix_bound(sort_by_level(s.drop_last()), s.last().security_level);
    }
}

proof fn lemma_prefix_step(s: Seq<EndpointInfo>, level: u8, i: int)
    requires
        0 <= i <= s.len(),
        forall|j: int| 0 <= j < i ==> #[trigger] s[j].security_level >= level,
    ensures
        prefix_at_least(s, level) == i + prefix_at_least(s.skip(i), level),
    decreases i,
{
    if i > 0 {
        lemma_prefix_step(s.drop_first(), level, i - 1);
        assert(s.drop_first().skip(i - 1) =~= s.skip(i));
    } else {
        assert(s.skip(0) =~= s);
    }
}

/// The endpoints of `mode`, highest security level first (a stable sort).
pub fn matching_endpoints(eps: &Vec<EndpointInfo>, mode: SecurityMode) -> (r: Vec<EndpointInfo>)
    ensures
        r@ == offered(eps@, mode),
{
    let mut sorted: Vec<EndpointInfo> = Vec::new();
    let mut i: usize = 0;
    assert(eps@.take(0) =~= Seq::<EndpointInfo>::empty());
    while i < eps.len()
        invariant
            0 <= i <= eps@.len(),
            sorted@ == sort_by_level(with_mode(eps@.take(i as int), mode)),
        decreases eps.len() - i,
    {
        let ghost prefix = eps@.take(i as int);
        assert(eps@.take(i + 1).drop_last() =~= prefix);
        assert(eps@.take(i + 1).last() == eps@[i as int]);
        let ghost w = with_mode(prefix, mode);
        if eps[i].security_mode == mode {
            assert(with_mode(eps@.take(i + 1), mode) == w.push(eps@[i as int]));
            assert(w.push(eps@[i as int]).drop_last() =~= w);
            let e = eps[i].clone();
            let level = e.security_level;
            let mut k: usize = 0;
            while k < sorted.len() && sorted[k].security_level >= level
                invariant
                    0 <= k <= sorted@.len(),
                    forall|j: int| 0 <= j < k ==> #[trigger] sorted@[j].security_level >= level,
                decreases sorted.len() - k,
            {
                k = k + 1;
            }
            proof {
                lemma_prefix_step(sorted@, level, k as int);
                if k < sorted@.len() {
                    assert(sorted@.skip(k as int)[0] == sorted@[k as int]);
                }
                assert(prefix_at_least(sorted@.skip(k as int), level) == 0);
            }
            sorted.insert(k, e);
        } else {
            assert(with_mode(eps@.take(i + 1), mode) == w);
        }
        i = i + 1;
    }
    assert(eps@.take(eps@.len() as int) =~= eps@);
    sorted
}

/// The endpoint chosen for a mode: the first one offered, if any.
pub open spec fn first_offered(eps: Seq<EndpointInfo>, mode: SecurityMode) -> Option<EndpointInfo> {
    let o = offered(eps, mode);
    if o.len() > 0 { Some(o[0]) } else { None }
}

pub fn first_matching_endpoint(eps: &Vec<EndpointInfo>, mode: SecurityMode) -> (r: Option<EndpointInfo>)
    ensures
        r == first_offered(eps@, mode),
{
    let sorted = matching_endpoints(eps, mode);
    if sorted.len() > 0 {
        Some(sorted[0].clone())
    } else {
        None
    }
}

/// The access tokens an endpoint supports, short form (`Anon, User, Cert`, or `-`).
pub open spec fn token_text(ep: EndpointInfo) -> Seq<char> {
    let parts = (if ep.supports_anonymous { seq!["Anon"@] } else { Seq::empty() })
        + (if ep.supports_username { seq!["User"@] } else { Seq::empty() })
        + (if ep.supports_certificate { seq!["Cert"@] } else { Seq::empty() });
    if parts.len() == 0 { "-"@ } else { join(parts, ", "@) }
}

/// The pieces separated by `sep`.
pub open spec fn join(parts: Seq<Seq<char>>, sep: Seq<char>) -> Seq<char>
    decreases parts.len(),
{
    if parts.len() == 0 {
        Seq::empty()
    } else if parts.len() == 1 {
        parts[0]
    } else {
        join(parts.drop_last(), sep) + sep + parts.last()
    }
}

/// Joins string slices with a separator.
pub fn join_strs(parts: &Vec<&str>, sep: &str) -> (r: String)
    ensures
        r@ == join(parts@.map_values(|p: &str| p@), sep@),
{
    let ghost ps = parts@.map_values(|p: &str| p@);
    let mut r = String::new();
    let mut i: usize = 0;
    while i < parts.len()
        invariant
            0 <= i <= parts@.len(),
            ps == parts@.map_values(|p: &str| p@),
            r@ == join(ps.take(i as int), sep@),
        decreases parts.len() - i,
    {
        assert(ps.take(i + 1).drop_last() =~= ps.take(i as int));
        if i > 0 {
            push_str(&mut r, sep);
        }
        push_str(&mut r, parts[i]);
        i = i + 1;
        assert(r@ =~= join(ps.take(i as int), sep@));
    }
    assert(ps.take(parts@.len() as int) =~= ps);
    r
}

/// The short list of access tokens of an endpoint.
pub fn token_label(ep: &EndpointInfo) -> (r: String)
    ensures
        r@ == token_text(*ep),
{
    let mut parts: Vec<&str> = Vec::new();
    if ep.supports_anonymous {
        parts.push("Anon");
    }
    if ep.supports_username {
        parts.push("User");
    }
    if ep.supports_certificate {
        parts.push("Cert");
    }
    let ghost expected = (if ep.supports_anonymous { seq!["Anon"@] } else { Seq::empty() })
        + (if ep.supports_username { seq!["User"@] } else { Seq::empty() })
        + (if ep.supports_certificate { seq!["Cert"@] } else { Seq::empty() });
    assert(parts@.map_values(|p: &str| p@) =~= expected);
    if parts.len() == 0 {
        "-".to_owned()
    } else {
        join_strs(&parts, ", ")
    }
}

/// One line of the endpoint list: `<policy> L<level> [<tokens>]   <url>`.
pub open spec fn endpoint_text(ep: EndpointInfo) -> Seq<char> {
    ep.security_policy@ + " L"@ + decimal(ep.security_level as nat) + " ["@ + token_text(ep) + "]   "@
        + ep.endpoint_url@
}

pub fn format_endpoint(ep: &EndpointInfo) -> (r: String)
    ensures
        r@ == endpoint_text(*ep),
{
    let mut r = ep.security_policy.clone();
    push_str(&mut r, " L");
    push_decimal(&mut r, ep.security_level as u64);
    push_str(&mut r, " [");
    let t = token_label(ep);
    push_str(&mut r, t.as_str());
    push_str(&mut r, "]   ");
    push_str(&mut r, ep.endpoint_url.as_str());
    assert(r@ =~= endpoint_text(*ep));
    r
}

/// Two list entries denote the same endpoint: same URL, policy and mode.
pub open spec fn same_endpoint(a: EndpointInfo, b: EndpointInfo) -> bool {
    a.endpoint_url@ == b.endpoint_url@ && a.security_policy_uri@ == b.security_policy_uri@
        && a.security_mode == b.security_mode
}

pub fn endpoint_eq(a: &EndpointInfo, b: &EndpointInfo) -> (r: bool)
    ensures
        r == same_endpoint(*a, *b),
{
    a.endpoint_url == b.endpoint_url && a.security_policy_uri == b.security_policy_uri
        && a.security_mode == b.security_mode
}

/// The status line of the endpoint dialog.
pub open spec fn endpoints_status_text(loading: bool, discovered: Option<Seq<EndpointInfo>>, mode: SecurityMode) -> Seq<char> {
    if loading {
        "Querying endpoints…"@
    } else {
        match discovered {
            None => "Click Refresh to query endpoints."@,
            Some(list) => {
                let n = with_mode(list, mode).len();
                if list.len() == 0 {
                    "No endpoints returned by the server."@
                } else if n == 0 {
                    decimal(list.len()) + " endpoint(s) returned; none match mode '"@ + security_mode_label(mode) + "'."@
                } else {
                    decimal(n) + " endpoint(s) matching '"@ + security_mode_label(mode) + "'."@
                }
            },
        }
    }
}

proof fn lemma_with_mode_len(eps: Seq<EndpointInfo>, mode: SecurityMode)
    ensures
        with_mode(eps, mode).len() <= eps.len(),
    decreases eps.len(),
{
    if eps.len() > 0 {
        lemma_with_mode_len(eps.drop_last(), mode);
    }
}

fn count_with_mode(eps: &Vec<EndpointInfo>, mode: SecurityMode) -> (n: usize)
    ensures
        n == with_mode(eps@, mode).len(),
{
    let mut n: usize = 0;
    let mut i: usize = 0;
    while i < eps.len()
        invariant
            0 <= i <= eps@.len(),
            n == with_mode(eps@.take(i as int), mode).len(),
        decreases eps.len() - i,
    {
        assert(eps@.take(i + 1).drop_last() =~= eps@.take(i as int));
        proof {
            lemma_with_mode_len(eps@.take(i as int), mode);
        }
        if eps[i].security_mode == mode {
            n = n + 1;
        }
        i = i + 1;
    }
    assert(eps@.take(eps@.len() as int) =~= eps@);
    n
}

/// The status line of the endpoint dialog for the model's state.
pub fn endpoints_status(loading: bool, discovered: &Option<Vec<EndpointInfo>>, mode: SecurityMode) -> (r: String)
    ensures
        r@ == endpoints_status_text(loading, match discovered {
            Some(v) => Some(v@),
            None => None,
        }, mode),
{
    if loading {
        return "Querying endpoints…".to_owned();
    }
    match discovered {
        None => "Click Refresh to query endpoints.".to_owned(),
        Some(list) => {
            let n = count_with_mode(list, mode);
            if list.len() == 0 {
                "No endpoints returned by the server.".to_owned()
            } else if n == 0 {
                let mut r = String::new();
                push_decimal(&mut r, list.len() as u64);
                push_str(&mut r, " endpoint(s) returned; none match mode '");
                push_str(&mut r, mode.label());
                push_str(&mut r, "'.");
                assert(r@ =~= decimal(list@.len()) + " endpoint(s) returned; none match mode '"@ + security_mode_label(mode) + "'."@);
                r
            } else {
                let mut r = String::new();
                push_decimal(&mut r, n as u64);
                push_str(&mut r, " endpoint(s) matching '");
                push_str(&mut r, mode.label());
                push_str(&mut r, "'.");
                assert(r@ =~= decimal(n as nat) + " endpoint(s) matching '"@ + security_mode_label(mode) + "'."@);
                r
            }
        },
    }
}

/// The endpoints the connection dialog lists: those discovered that offer
/// the mode, highest security level first; none before discovery.
pub open spec fn dialog_list(discovered: Option<Seq<EndpointInfo>>, mode: SecurityMode) -> Seq<EndpointInfo> {
    match discovered {
        Some(eps) => offered(eps, mode),
        None => Seq::empty(),
    }
}

pub fn dialog_endpoints(discovered: &Option<Vec<EndpointInfo>>, mode: SecurityMode) -> (r: Vec<EndpointInfo>)
    ensures
        r@ == dialog_list(match discovered { Some(v) => Some(v@), None => None }, mode),
{
    match discovered {
        Some(eps) => matching_endpoints(eps, mode),
        None => Vec::new(),
    }
}

/// Where the dialog's selection stays after the list is rebuilt: the first
/// listed endpoint equal to the one selected before.
pub fn position_of_endpoint(eps: &Vec<EndpointInfo>, selected: &EndpointInfo) -> (r: Option<usize>)
    ensures
        match r {
            Some(i) => i < eps@.len() && same_endpoint(eps@[i as int], *selected)
                && forall|j: int| 0 <= j < i ==> !same_endpoint(#[trigger] eps@[j], *selected),
            None => forall|j: int| 0 <= j < eps@.len() ==> !same_endpoint(#[trigger] eps@[j], *selected),
        },
{
    let mut i: usize = 0;
    while i < eps.len()
        invariant
            0 <= i <= eps@.len(),
            forall|j: int| 0 <= j < i ==> !same_endpoint(#[trigger] eps@[j], *selected),
        decreases eps.len() - i,
    {
        if endpoint_eq(&eps[i], selected) {
            return Some(i);
        }
        i = i + 1;
    }
    None
}

/// Which credential rows the dialog shows: user name and password for
/// `UserName`, certificate and key paths for `Certificate`.
pub fn credential_rows(mode: AuthMode) -> (r: (bool, bool))
    ensures
        r == (mode == AuthMode::UserName, mode == AuthMode::Certificate),
{
    (mode == AuthMode::UserName, mode == AuthMode::Certificate)
}

} // verus!
