//! The address-space logic of the client that does not need a server:
//! browse-path text, path segments, reference filtering and the choices
//! made over browse results.
use vstd::prelude::*;
use crate::collections::KeySet;
use crate::node_id::{IdentifierView, Identifier, NodeId, NodeIdView, node_id_text, ROOT_FOLDER_ID};
use crate::parse::{eq_ignore_case, int_parse, parse_int, rest_eq_ignore_case, split_on, split_on_char, string_views};
use crate::text::{chars_of, decimal, push_char, push_decimal, push_str, string_from_chars, text_eq};
use crate::types::{NodeClass, TreeChild};

verus! {

/// Numeric id of the `HasEventSource` reference type.
pub const HAS_EVENT_SOURCE: u32 = 36;
/// Numeric id of the `HasNotifier` reference type.
pub const HAS_NOTIFIER: u32 = 48;
/// Numeric id of the `HierarchicalReferences` reference type.
pub const HIERARCHICAL_REFERENCES: u32 = 33;
/// Numeric id of the `HasProperty` reference type.
pub const HAS_PROPERTY: u32 = 46;
/// Numeric id of the `References` reference type.
pub const REFERENCES: u32 = 31;
/// How many parents a path walk follows at most.
pub const MAX_PATH_DEPTH: usize = 64;

/// A browse name: a namespace index and a name.
pub struct QualifiedName {
    pub namespace_index: u16,
    pub name: String,
}

impl View for QualifiedName {
    type V = (u16, Seq<char>);

    open spec fn view(&self) -> (u16, Seq<char>) {
        (self.namespace_index, self.name@)
    }
}

/// Characters that a relative path escapes with `&` (OPC UA Part 4, A.2).
pub open spec fn is_reserved(c: char) -> bool {
    c == '&' || c == '/' || c == '.' || c == '<' || c == '>' || c == ':' || c == '#' || c == '!' || c == ';'
}

/// A browse name with each reserved character preceded by `&`.
pub open spec fn escaped(s: Seq<char>) -> Seq<char>
    decreases s.len(),
{
    if s.len() == 0 {
        Seq::empty()
    } else {
        let c = s.last();
        escaped(s.drop_last()) + if is_reserved(c) { seq!['&', c] } else { seq![c] }
    }
}

/// Escapes a browse name for a relative path.
pub fn escape_browse_name(s: &str) -> (r: String)
    ensures
        r@ == escaped(s@),
{
    let cs = chars_of(s);
    let mut out = String::new();
    let mut i: usize = 0;
    while i < cs.len()
        invariant
            0 <= i <= cs@.len(),
            cs@ == s@,
            out@ == escaped(cs@.take(i as int)),
        decreases cs.len() - i,
    {
        let c = cs[i];
        assert(cs@.take(i + 1).drop_last() =~= cs@.take(i as int));
        if c == '&' || c == '/' || c == '.' || c == '<' || c == '>' || c == ':' || c == '#' || c == '!' || c == ';' {
            push_char(&mut out, '&');
        }
        push_char(&mut out, c);
        proof {
            let t = cs@.take(i + 1);
            assert(t.last() == c);
            if is_reserved(c) {
                assert(out@ =~= escaped(t.drop_last()) + seq!['&', c]);
            } else {
                assert(out@ =~= escaped(t.drop_last()) + seq![c]);
            }
        }
        i = i + 1;
    }
    assert(cs@.take(cs@.len() as int) =~= cs@);
    out
}

/// One segment of a browse path: the escaped name, prefixed by `ns:` for a
/// namespace other than 0.
pub open spec fn segment_text(ns: u16, name: Seq<char>) -> Seq<char> {
    if ns == 0 {
        escaped(name)
    } else {
        decimal(ns as nat) + ":"@ + escaped(name)
    }
}

/// Formats a browse name as one segment of a browse path.
pub fn format_path_segment(ns: u16, name: &str) -> (r: String)
    ensures
        r@ == segment_text(ns, name@),
{
    let escaped = escape_browse_name(name);
    if ns == 0 {
        escaped
    } else {
        let mut out = String::new();
        push_decimal(&mut out, ns as u64);
        push_str(&mut out, ":");
        push_str(&mut out, escaped.as_str());
        out
    }
}

/// References that the tree leaves out: `HasEventSource` and `HasNotifier`
/// lead to event sources, not to children.
pub open spec fn excluded_reference(t: NodeIdView) -> bool {
    t.namespace == 0 && (t.identifier == IdentifierView::Numeric(HAS_EVENT_SOURCE)
        || t.identifier == IdentifierView::Numeric(HAS_NOTIFIER))
}

/// Is a reference of this type left out of the tree?
pub fn is_excluded_tree_reference(ref_type: &NodeId) -> (r: bool)
    ensures
        r == excluded_reference(ref_type@),
{
    if ref_type.namespace != 0 {
        return false;
    }
    match &ref_type.identifier {
        Identifier::Numeric(n) => *n == HAS_EVENT_SOURCE || *n == HAS_NOTIFIER,
        _ => false,
    }
}

/// Index of the first `:` in `s`, if any.
pub open spec fn first_colon(s: Seq<char>) -> Option<int> {
    if exists|i: int| 0 <= i < s.len() && s[i] == ':' {
        Some(choose|i: int| 0 <= i < s.len() && s[i] == ':' && forall|j: int| 0 <= j < i ==> s[j] != ':')
    } else {
        None
    }
}

/// The browse name that a path segment denotes: `Name` is in namespace 0;
/// `N:Name` and `ns=N:Name` are in namespace `N` when `N` reads as a `u16`;
/// any other segment is taken whole as a name in namespace 0.
pub open spec fn qualified_name_of(segment: Seq<char>) -> (u16, Seq<char>) {
    let body = if segment.len() >= 3 && segment.take(3) == "ns="@ { segment.skip(3) } else { segment };
    match first_colon(body) {
        Some(k) => match int_parse(body.take(k), 0, 0xffff) {
            Ok(n) => (n as u16, body.skip(k + 1)),
            Err(_) => (0u16, segment),
        },
        None => (0u16, segment),
    }
}

/// Reads one path segment as a browse name.
pub fn parse_qualified_name(segment: &str) -> (q: QualifiedName)
    ensures
        q@ == qualified_name_of(segment@),
{
    let cs = chars_of(segment);
    let n = cs.len();
    let mut start: usize = 0;
    if n >= 3 && cs[0] == 'n' && cs[1] == 's' && cs[2] == '=' {
        start = 3;
    }
    proof {
        reveal_strlit("ns=");
        let body = if segment@.len() >= 3 && segment@.take(3) == "ns="@ { segment@.skip(3) } else { segment@ };
        if start == 3 {
            assert(segment@.take(3) =~= "ns="@);
        } else if segment@.len() >= 3 {
            assert(segment@.take(3) != "ns="@) by {
                if segment@.take(3) == "ns="@ {
                    assert(segment@.take(3)[0] == 'n');
                    assert(segment@.take(3)[1] == 's');
                    assert(segment@.take(3)[2] == '=');
                }
            }
        }
        assert(body =~= cs@.skip(start as int));
    }
    let ghost body = cs@.skip(start as int);
    let mut k: usize = start;
    while k < n && cs[k] != ':'
        invariant
            start <= k <= n == cs@.len(),
            body == cs@.skip(start as int),
            forall|j: int| start <= j < k ==> cs@[j] != ':',
        decreases n - k,
    {
        k = k + 1;
    }
    if k == n {
        proof {
            assert forall|i: int| 0 <= i < body.len() implies body[i] != ':' by {
                assert(body[i] == cs@[start + i]);
            }
            assert(first_colon(body) is None);
        }
        return QualifiedName { namespace_index: 0, name: string_from_chars(cs.as_slice()) };
    }
    let ghost kk = (k - start) as int;
    proof {
        assert(body[kk] == ':');
        assert(forall|j: int| 0 <= j < kk ==> body[j] != ':') by {
            assert forall|j: int| 0 <= j < kk implies body[j] != ':' by {
                assert(body[j] == cs@[start + j]);
            }
        }
        let c = choose|i: int| 0 <= i < body.len() && body[i] == ':' && forall|j: int| 0 <= j < i ==> body[j] != ':';
        assert(0 <= kk < body.len() && body[kk] == ':' && forall|j: int| 0 <= j < kk ==> body[j] != ':');
        assert(c == kk) by {
            if c < kk {
                assert(body[c] != ':');
            } else if c > kk {
                assert(body[kk] != ':');
            }
        }
        assert(first_colon(body) == Some(kk));
    }
    let head_v = slice_to_vec(cs.as_slice(), start, k);
    assert(head_v@ =~= body.take(kk));
    match parse_int(head_v.as_slice(), 0, 0xffff) {
        Ok(v) => {
            let rest = slice_to_vec(cs.as_slice(), k + 1, n);
            assert(rest@ =~= body.skip(kk + 1));
            QualifiedName { namespace_index: v as u16, name: string_from_chars(rest.as_slice()) }
        },
        Err(_) => QualifiedName { namespace_index: 0, name: string_from_chars(cs.as_slice()) },
    }
}

/// The characters `cs[a..b]`.
fn slice_to_vec(cs: &[char], a: usize, b: usize) -> (v: Vec<char>)
    requires
        a <= b <= cs@.len(),
    ensures
        v@ == cs@.subrange(a as int, b as int),
{
    let mut v: Vec<char> = Vec::new();
    let mut i: usize = a;
    while i < b
        invariant
            a <= i <= b <= cs@.len(),
            v@ == cs@.subrange(a as int, i as int),
        decreases b - i,
    {
        v.push(cs[i]);
        assert(cs@.subrange(a as int, i + 1) =~= cs@.subrange(a as int, i as int).push(cs@[i as int]));
        i = i + 1;
    }
    v
}

/// A reference returned by a browse, as plain values.
pub struct BrowsedReference {
    pub reference_type: NodeId,
    pub is_forward: bool,
    pub node_id: NodeId,
    pub browse_name: QualifiedName,
    pub display_name: String,
    pub node_class: NodeClass,
}

/// Does the reference lead to a child shown in the tree?
pub open spec fn in_tree(r: BrowsedReference) -> bool {
    !excluded_reference(r.reference_type@)
}

/// The tree child that a reference leads to (its children not yet known).
pub open spec fn child_of(r: BrowsedReference) -> TreeChild {
    TreeChild {
        node_id: r.node_id,
        browse_name: r.browse_name.name,
        display_name: r.display_name,
        node_class: r.node_class,
        has_children: false,
    }
}

/// Is some child of `cs` the node `id`?
pub open spec fn has_child_id(cs: Seq<TreeChild>, id: NodeIdView) -> bool {
    exists|i: int| 0 <= i < cs.len() && #[trigger] cs[i].node_id@ == id
}

/// The children a browse result gives: the references that the tree keeps,
/// in order, each target node once (its first reference wins).
pub open spec fn tree_children_of(refs: Seq<BrowsedReference>) -> Seq<TreeChild>
    decreases refs.len(),
{
    if refs.len() == 0 {
        Seq::empty()
    } else {
        let before = tree_children_of(refs.drop_last());
        let r = refs.last();
        if !in_tree(r) || has_child_id(before, r.node_id@) {
            before
        } else {
            before.push(child_of(r))
        }
    }
}

/// The tree children of a node from the references it was browsed with.
pub fn tree_children(refs: &Vec<BrowsedReference>) -> (cs: Vec<TreeChild>)
    ensures
        cs@ == tree_children_of(refs@),
{
    let mut seen: KeySet<NodeId> = KeySet::new();
    let mut out: Vec<TreeChild> = Vec::new();
    let mut i: usize = 0;
    while i < refs.len()
        invariant
            0 <= i <= refs@.len(),
            out@ == tree_children_of(refs@.take(i as int)),
            forall|v: NodeIdView| #[trigger] seen@.contains(v) <==> has_child_id(out@, v),
        decreases refs.len() - i,
    {
        let r = &refs[i];
        let ghost before = out@;
        let ghost seen_before = seen@;
        assert(refs@.take(i + 1).drop_last() =~= refs@.take(i as int));
        assert(refs@.take(i + 1).last() == *r);
        if !is_excluded_tree_reference(&r.reference_type) {
            let fresh = seen.insert(r.node_id.clone());
            if fresh {
                let c = TreeChild {
                    node_id: r.node_id.clone(),
                    browse_name: r.browse_name.name.clone(),
                    display_name: r.display_name.clone(),
                    node_class: r.node_class,
                    has_children: false,
                };
                out.push(c);
                assert forall|v: NodeIdView| #[trigger] seen@.contains(v) <==> has_child_id(out@, v) by {
                    if has_child_id(before, v) {
                        let j = choose|j: int| 0 <= j < before.len() && #[trigger] before[j].node_id@ == v;
                        assert(out@[j] == before[j]);
                    }
                    if has_child_id(out@, v) && v != r.node_id@ {
                        let j = choose|j: int| 0 <= j < out@.len() && #[trigger] out@[j].node_id@ == v;
                        assert(j < before.len());
                        assert(before[j] == out@[j]);
                    }
                    if v == r.node_id@ {
                        assert(out@[before.len() as int].node_id@ == v);
                    }
                }
            } else {
                assert(seen_before.contains(r.node_id@));
            }
        }
        i = i + 1;
    }
    assert(refs@.take(refs@.len() as int) =~= refs@);
    out
}

/// Records, child by child, whether each has children of its own.
pub fn set_has_children(children: &mut Vec<TreeChild>, flags: &Vec<bool>)
    ensures
        final(children)@.len() == old(children)@.len(),
        forall|i: int| 0 <= i < old(children)@.len() ==> #[trigger] final(children)@[i] == if i < flags@.len() {
            (TreeChild { has_children: flags@[i], ..old(children)@[i] })
        } else {
            old(children)@[i]
        },
{
    let mut i: usize = 0;
    while i < children.len() && i < flags.len()
        invariant
            0 <= i <= children@.len(),
            i <= flags@.len(),
            children@.len() == old(children)@.len(),
            forall|j: int| 0 <= j < i ==> #[trigger] children@[j] == (TreeChild { has_children: flags@[j], ..old(children)@[j] }),
            forall|j: int| i <= j < children@.len() ==> #[trigger] children@[j] == old(children)@[j],
        decreases children.len() - i,
    {
        let mut c = children[i].clone();
        c.has_children = flags[i];
        children.set(i, c);
        i = i + 1;
    }
}

/// Is some reference type in `types` one that the tree keeps?
pub open spec fn any_in_tree(types: Seq<NodeId>) -> bool {
    exists|i: int| 0 <= i < types.len() && !excluded_reference(#[trigger] types[i]@)
}

/// Does a node have children in the tree, given the types of its
/// hierarchical references?
pub fn has_tree_child(ref_types: &Vec<NodeId>) -> (r: bool)
    ensures
        r == any_in_tree(ref_types@),
{
    let mut i: usize = 0;
    while i < ref_types.len()
        invariant
            0 <= i <= ref_types@.len(),
            forall|j: int| 0 <= j < i ==> excluded_reference(#[trigger] ref_types@[j]@),
        decreases ref_types.len() - i,
    {
        if !is_excluded_tree_reference(&ref_types[i]) {
            return true;
        }
        i = i + 1;
    }
    false
}

/// Does the reference lead, in the tree, to a node named `target`?
pub open spec fn names_child(r: BrowsedReference, target: (u16, Seq<char>)) -> bool {
    in_tree(r) && r.browse_name@ == target
}

/// The node ids of an optional node.
pub open spec fn opt_id(o: Option<NodeId>) -> Option<NodeIdView> {
    match o {
        Some(n) => Some(n@),
        None => None,
    }
}

/// The child named `target` among a node's references: the target of the
/// first reference the tree keeps whose browse name is `target`.
pub fn find_child_reference(refs: &Vec<BrowsedReference>, target: &QualifiedName) -> (r: Option<NodeId>)
    ensures
        match r {
            Some(id) => exists|i: int| 0 <= i < refs@.len() && names_child(#[trigger] refs@[i], target@)
                && (forall|j: int| 0 <= j < i ==> !names_child(#[trigger] refs@[j], target@))
                && id@ == refs@[i].node_id@,
            None => forall|i: int| 0 <= i < refs@.len() ==> !names_child(#[trigger] refs@[i], target@),
        },
{
    let mut i: usize = 0;
    while i < refs.len()
        invariant
            0 <= i <= refs@.len(),
            forall|j: int| 0 <= j < i ==> !names_child(#[trigger] refs@[j], target@),
        decreases refs.len() - i,
    {
        let r = &refs[i];
        if !is_excluded_tree_reference(&r.reference_type)
            && r.browse_name.namespace_index == target.namespace_index
            && r.browse_name.name == target.name {
            assert(names_child(refs@[i as int], target@));
            return Some(r.node_id.clone());
        }
        i = i + 1;
    }
    None
}

/// The parent of a node among its inverse hierarchical references: the
/// source of the first one the tree keeps.
pub fn first_tree_parent(refs: &Vec<BrowsedReference>) -> (r: Option<NodeId>)
    ensures
        match r {
            Some(id) => exists|i: int| 0 <= i < refs@.len() && in_tree(#[trigger] refs@[i])
                && (forall|j: int| 0 <= j < i ==> !in_tree(#[trigger] refs@[j]))
                && id@ == refs@[i].node_id@,
            None => forall|i: int| 0 <= i < refs@.len() ==> !in_tree(#[trigger] refs@[i]),
        },
{
    let mut i: usize = 0;
    while i < refs.len()
        invariant
            0 <= i <= refs@.len(),
            forall|j: int| 0 <= j < i ==> !in_tree(#[trigger] refs@[j]),
        decreases refs.len() - i,
    {
        if !is_excluded_tree_reference(&refs[i].reference_type) {
            assert(in_tree(refs@[i as int]));
            return Some(refs[i].node_id.clone());
        }
        i = i + 1;
    }
    None
}

/// The last property among `refs` with the namespace-0 browse name `name`.
pub open spec fn last_property(refs: Seq<BrowsedReference>, name: Seq<char>) -> Option<NodeIdView>
    decreases refs.len(),
{
    if refs.len() == 0 {
        None
    } else if refs.last().browse_name@ == (0u16, name) {
        Some(refs.last().node_id@)
    } else {
        last_property(refs.drop_last(), name)
    }
}

/// The `InputArguments` and `OutputArguments` properties of a method, from
/// its `HasProperty` references (the last of each name counts).
pub fn argument_properties(refs: &Vec<BrowsedReference>) -> (r: (Option<NodeId>, Option<NodeId>))
    ensures
        opt_id(r.0) == last_property(refs@, "InputArguments"@),
        opt_id(r.1) == last_property(refs@, "OutputArguments"@),
{
    proof {
        reveal_strlit("InputArguments");
        reveal_strlit("OutputArguments");
        assert("InputArguments"@[0] != "OutputArguments"@[0]);
    }
    let mut inputs: Option<NodeId> = None;
    let mut outputs: Option<NodeId> = None;
    let mut i: usize = 0;
    while i < refs.len()
        invariant
            0 <= i <= refs@.len(),
            "InputArguments"@ != "OutputArguments"@,
            opt_id(inputs) == last_property(refs@.take(i as int), "InputArguments"@),
            opt_id(outputs) == last_property(refs@.take(i as int), "OutputArguments"@),
        decreases refs.len() - i,
    {
        let r = &refs[i];
        assert(refs@.take(i + 1).drop_last() =~= refs@.take(i as int));
        assert(refs@.take(i + 1).last() == *r);
        if r.browse_name.namespace_index == 0 {
            if text_eq(r.browse_name.name.as_str(), "InputArguments") {
                inputs = Some(r.node_id.clone());
            } else if text_eq(r.browse_name.name.as_str(), "OutputArguments") {
                outputs = Some(r.node_id.clone());
            }
        }
        i = i + 1;
    }
    assert(refs@.take(refs@.len() as int) =~= refs@);
    (inputs, outputs)
}

/// The segments `s` (leaf first) written root first, each after a `/`.
pub open spec fn rev_slashed(s: Seq<Seq<char>>) -> Seq<char>
    decreases s.len(),
{
    if s.len() == 0 {
        Seq::empty()
    } else {
        rev_slashed(s.drop_first()) + "/"@ + s[0]
    }
}

/// The browse path of a node from the segments met walking up from it
/// (leaf first): root first and slash-separated, or `/` for none.
pub open spec fn browse_path_of(leaf_first: Seq<Seq<char>>) -> Seq<char> {
    if leaf_first.len() == 0 {
        "/"@
    } else {
        rev_slashed(leaf_first)
    }
}

/// Builds the browse-path text (`/Objects/2:Demo`) from the segments met
/// walking up from a node, leaf first.
pub fn browse_path_text(leaf_first: &Vec<String>) -> (r: String)
    ensures
        r@ == browse_path_of(string_views(leaf_first@)),
{
    let ghost views = string_views(leaf_first@);
    if leaf_first.len() == 0 {
        return String::from_str("/");
    }
    let mut out = String::new();
    let mut i: usize = leaf_first.len();
    assert(views.skip(i as int) =~= Seq::<Seq<char>>::empty());
    while i > 0
        invariant
            0 <= i <= leaf_first@.len(),
            views == string_views(leaf_first@),
            out@ == rev_slashed(views.skip(i as int)),
        decreases i,
    {
        i = i - 1;
        push_str(&mut out, "/");
        push_str(&mut out, leaf_first[i].as_str());
        assert(views.skip(i as int).drop_first() =~= views.skip(i + 1));
        assert(views.skip(i as int)[0] == leaf_first@[i as int]@);
    }
    assert(views.skip(0) =~= views);
    out
}

/// Whether a walk up from `current` that has taken `steps` steps goes on:
/// it stops at the root folder and after `MAX_PATH_DEPTH` steps.
pub open spec fn walk_goes_on(steps: nat, current: NodeIdView) -> bool {
    steps < MAX_PATH_DEPTH && current != (NodeIdView { namespace: 0, identifier: IdentifierView::Numeric(ROOT_FOLDER_ID) })
}

/// Decides whether a walk towards the root takes another step.
pub fn walk_continues(steps: usize, current: &NodeId) -> (r: bool)
    ensures
        r == walk_goes_on(steps as nat, current@),
{
    steps < MAX_PATH_DEPTH && !current.same(&NodeId::root_folder())
}

/// The nodes met walking up from a node (itself first), root first.
pub fn root_first(path: Vec<NodeId>) -> (r: Vec<NodeId>)
    ensures
        r@.len() == path@.len(),
        forall|i: int| 0 <= i < path@.len() ==> #[trigger] r@[i] == path@[path@.len() - 1 - i],
{
    let ghost orig = path@;
    let mut rest = path;
    let mut out: Vec<NodeId> = Vec::new();
    while rest.len() > 0
        invariant
            rest@.len() + out@.len() == orig.len(),
            rest@ == orig.take(rest@.len() as int),
            forall|i: int| 0 <= i < out@.len() ==> #[trigger] out@[i] == orig[orig.len() - 1 - i],
        decreases rest.len(),
    {
        let x = rest.pop().unwrap();
        out.push(x);
    }
    out
}

/// The pieces of `s` that are not empty.
pub open spec fn nonempty_parts(s: Seq<Seq<char>>) -> Seq<Seq<char>>
    decreases s.len(),
{
    if s.len() == 0 {
        Seq::empty()
    } else if s.last().len() == 0 {
        nonempty_parts(s.drop_last())
    } else {
        nonempty_parts(s.drop_last()).push(s.last())
    }
}

/// The segments of a textual browse path: the non-empty pieces between
/// slashes, without a leading `Root` (in any ASCII case).
pub open spec fn path_segments_of(text: Seq<char>) -> Seq<Seq<char>> {
    let parts = nonempty_parts(split_on(text, '/'));
    if parts.len() > 0 && eq_ignore_case(parts[0], "root"@) {
        parts.drop_first()
    } else {
        parts
    }
}

/// Splits a textual browse path into its segments.
pub fn path_segments(text: &str) -> (r: Vec<String>)
    ensures
        string_views(r@) == path_segments_of(text@),
{
    let cs = chars_of(text);
    let pieces = split_on_char(&cs, 0, cs.len(), '/');
    assert(cs@.subrange(0, cs@.len() as int) =~= text@);
    let ghost pv = string_views(pieces@);
    let mut parts: Vec<String> = Vec::new();
    let mut i: usize = 0;
    while i < pieces.len()
        invariant
            0 <= i <= pieces@.len(),
            pv == string_views(pieces@),
            pv == split_on(text@, '/'),
            string_views(parts@) == nonempty_parts(pv.take(i as int)),
        decreases pieces.len() - i,
    {
        assert(pv.take(i + 1).drop_last() =~= pv.take(i as int));
        assert(pv.take(i + 1).last() == pieces@[i as int]@);
        if !pieces[i].as_str().is_empty() {
            parts.push(pieces[i].clone());
            assert(string_views(parts@) =~= nonempty_parts(pv.take(i as int)).push(pieces@[i as int]@));
        }
        i = i + 1;
    }
    assert(pv.take(pv.len() as int) =~= pv);
    if parts.len() > 0 {
        let first = chars_of(parts[0].as_str());
        if rest_eq_ignore_case(first.as_slice(), 0, "root") {
            assert(first@.skip(0) =~= first@);
            let ghost before = string_views(parts@);
            parts.remove(0);
            assert(string_views(parts@) =~= before.drop_first());
        } else {
            assert(first@.skip(0) =~= first@);
        }
    }
    parts
}

/// Resolution of a textual browse path, one segment at a time: the segments
/// still to find, the node reached so far, and the text of the path walked.
pub struct PathWalk {
    pub segments: Vec<String>,
    pub next: usize,
    pub current: NodeId,
    pub walked: String,
}

/// The root folder's node id.
pub open spec fn root_view() -> NodeIdView {
    NodeIdView { namespace: 0, identifier: IdentifierView::Numeric(ROOT_FOLDER_ID) }
}

/// The message of a failed resolution step.
pub open spec fn unresolved_text(seg: Seq<char>, current: NodeIdView, walked: Seq<char>) -> Seq<char> {
    "no child '"@ + seg + "' under "@ + node_id_text(current) + " (resolved "@ + walked + " so far)"@
}

impl PathWalk {
    /// A walk is well formed while it has not gone past its last segment.
    pub open spec fn wf(&self) -> bool {
        self.next <= self.segments@.len()
    }

    /// Starts resolving `text` at the root folder.
    pub fn start(text: &str) -> (w: PathWalk)
        ensures
            w.wf(),
            string_views(w.segments@) == path_segments_of(text@),
            w.next == 0,
            w.current@ == root_view(),
            w.walked@ == Seq::<char>::empty(),
    {
        PathWalk { segments: path_segments(text), next: 0, current: NodeId::root_folder(), walked: String::new() }
    }

    /// Has every segment been found?
    pub fn is_done(&self) -> (r: bool)
        requires
            self.wf(),
        ensures
            r == (self.next == self.segments@.len()),
    {
        self.next == self.segments.len()
    }

    /// The browse name to look for under the current node.
    pub fn target(&self) -> (q: QualifiedName)
        requires
            self.wf(),
            self.next < self.segments@.len(),
        ensures
            q@ == qualified_name_of(self.segments@[self.next as int]@),
    {
        parse_qualified_name(self.segments[self.next].as_str())
    }

    /// Takes the outcome of looking for the next segment: the child found
    /// moves the walk on; none ends it with an error naming the segment.
    pub fn advance(&mut self, found: Option<NodeId>) -> (r: Result<(), String>)
        requires
            old(self).wf(),
            old(self).next < old(self).segments@.len(),
        ensures
            final(self).wf(),
            final(self).segments@ == old(self).segments@,
            match found {
                Some(n) => {
                    &&& r is Ok
                    &&& final(self).next == old(self).next + 1
                    &&& final(self).current == n
                    &&& final(self).walked@ == old(self).walked@ + "/"@ + old(self).segments@[old(self).next as int]@
                },
                None => {
                    &&& r matches Err(e) && e@ == unresolved_text(
                        old(self).segments@[old(self).next as int]@,
                        old(self).current@,
                        old(self).walked@,
                    )
                    &&& *final(self) == *old(self)
                },
            },
    {
        let i = self.next;
        let len = self.segments.len();
        assert(i < len);
        match found {
            Some(n) => {
                push_str(&mut self.walked, "/");
                push_str(&mut self.walked, self.segments[i].as_str());
                self.current = n;
                self.next = i + 1;
                Ok(())
            },
            None => {
                let mut e = String::new();
                push_str(&mut e, "no child '");
                push_str(&mut e, self.segments[self.next].as_str());
                push_str(&mut e, "' under ");
                self.current.write_text(&mut e);
                push_str(&mut e, " (resolved ");
                push_str(&mut e, self.walked.as_str());
                push_str(&mut e, " so far)");
                Err(e)
            },
        }
    }
}

/// A node's name where a text is wanted: the name read, or the node id's
/// text when none could be read.
pub open spec fn name_or_id_text(name: Option<Seq<char>>, id: NodeIdView) -> Seq<char> {
    match name {
        Some(n) => n,
        None => node_id_text(id),
    }
}

pub fn name_or_id(name: Option<String>, id: &NodeId) -> (r: String)
    ensures
        r@ == name_or_id_text(match name { Some(n) => Some(n@), None => None }, id@),
{
    match name {
        Some(n) => n,
        None => id.to_text(),
    }
}

/// The path segment of a node: its browse name as a segment, or the node
/// id's text when the browse name could not be read.
pub fn browse_name_segment(name: Option<QualifiedName>, id: &NodeId) -> (r: String)
    ensures
        r@ == match name {
            Some(q) => segment_text(q.namespace_index, q.name@),
            None => node_id_text(id@),
        },
{
    match name {
        Some(q) => format_path_segment(q.namespace_index, q.name.as_str()),
        None => id.to_text(),
    }
}

/// The error when a node that is to be called is not a method.
pub open spec fn not_method_text(node: NodeIdView, class_name: Seq<char>) -> Seq<char> {
    "node "@ + node_id_text(node) + " is not a Method ("@ + class_name + ")"@
}

pub fn not_method_error(node: &NodeId, nc: NodeClass) -> (r: String)
    ensures
        r@ == not_method_text(node@, crate::summary::node_class_text(nc)),
{
    let mut r = String::new();
    push_str(&mut r, "node ");
    node.write_text(&mut r);
    push_str(&mut r, " is not a Method (");
    push_str(&mut r, crate::summary::node_class_name(nc));
    push_str(&mut r, ")");
    r
}

/// What to do next while loading a chain of nodes from the root down to a
/// target: load the children of a node on the way, select the target, or
/// stop.
pub enum ChainStep {
    Load(NodeId),
    Select(NodeId),
    Stop,
}

/// The first step of loading `chain`.
pub open spec fn chain_start_of(chain: Seq<NodeId>) -> ChainStep {
    if chain.len() == 0 {
        ChainStep::Stop
    } else if chain.len() == 1 {
        ChainStep::Select(chain[0])
    } else {
        ChainStep::Load(chain[0])
    }
}

/// The step after the children of `chain[done]` were loaded (`ok`) or
/// could not be: the next node on the way, or the target once every node
/// before it is loaded; a failed load ends the chain.
pub open spec fn chain_step_of(chain: Seq<NodeId>, done: nat, ok: bool) -> ChainStep {
    if !ok || done + 1 >= chain.len() {
        ChainStep::Stop
    } else if done + 2 < chain.len() {
        ChainStep::Load(chain[(done + 1) as int])
    } else {
        ChainStep::Select(chain.last())
    }
}

/// Starts loading a chain of nodes, root first: nothing for an empty chain,
/// the selection of a chain of one, else the children of its first node.
pub fn chain_start(chain: &Vec<NodeId>) -> (r: ChainStep)
    ensures
        r == chain_start_of(chain@),
        chain@.len() == 0 ==> r is Stop,
        chain@.len() == 1 ==> r == ChainStep::Select(chain@[0]),
        chain@.len() > 1 ==> r == ChainStep::Load(chain@[0]),
{
    if chain.len() == 0 {
        ChainStep::Stop
    } else if chain.len() == 1 {
        ChainStep::Select(chain[0].clone())
    } else {
        ChainStep::Load(chain[0].clone())
    }
}

/// The next step once the children of `chain[done]` were browsed with
/// `outcome`.
pub fn chain_step(chain: &Vec<NodeId>, done: usize, outcome: &Result<Vec<TreeChild>, String>) -> (r: ChainStep)
    requires
        done + 1 < chain@.len(),
    ensures
        r == chain_step_of(chain@, done as nat, outcome is Ok),
        outcome is Err ==> r is Stop,
        outcome is Ok && done + 2 < chain@.len() ==> r == ChainStep::Load(chain@[done + 1]),
        outcome is Ok && done + 2 == chain@.len() ==> r == ChainStep::Select(chain@.last()),
{
    let n = chain.len();
    assert(done + 1 < n);
    if outcome.is_err() {
        ChainStep::Stop
    } else if done + 1 < n - 1 {
        ChainStep::Load(chain[done + 1].clone())
    } else {
        ChainStep::Select(chain[chain.len() - 1].clone())
    }
}

/// Where loading a chain for a textual path starts: nowhere when the path
/// could not be resolved to a chain, else at the chain's first step.
pub fn path_chain_start(resolved: &Result<Vec<NodeId>, String>) -> (r: ChainStep)
    ensures
        match resolved {
            Ok(chain) => r == chain_start_of(chain@),
            Err(_) => r is Stop,
        },
{
    match resolved {
        Ok(chain) => chain_start(chain),
        Err(_) => ChainStep::Stop,
    }
}

/// A walk from a node up towards the root folder: the nodes met, the node
/// itself first, and whether a node without a parent ended it.
pub struct AncestorWalk {
    pub path: Vec<NodeId>,
    pub ended: bool,
}

impl AncestorWalk {
    /// The path is never empty; its last node is the one reached.
    pub open spec fn wf(&self) -> bool {
        0 < self.path@.len() <= MAX_PATH_DEPTH + 1
    }

    /// The node the walk has reached.
    pub open spec fn reached(&self) -> NodeId {
        self.path@.last()
    }

    /// Does the walk ask for another parent? Not once a node had none,
    /// at the root folder, or after `MAX_PATH_DEPTH` steps.
    pub open spec fn wants_parent(&self) -> bool {
        !self.ended && walk_goes_on((self.path@.len() - 1) as nat, self.reached()@)
    }

    pub fn start(node: NodeId) -> (w: AncestorWalk)
        ensures
            w.wf(),
            w.path@ == seq![node],
            !w.ended,
    {
        let mut path = Vec::new();
        path.push(node);
        AncestorWalk { path, ended: false }
    }

    /// The node whose parent is asked for next.
    pub fn current(&self) -> (r: &NodeId)
        requires
            self.wf(),
        ensures
            *r == self.reached(),
    {
        &self.path[self.path.len() - 1]
    }

    pub fn goes_on(&self) -> (r: bool)
        requires
            self.wf(),
        ensures
            r == self.wants_parent(),
    {
        !self.ended && walk_continues(self.path.len() - 1, &self.path[self.path.len() - 1])
    }

    /// Takes the parent read for the node reached: a parent extends the
    /// path, none ends the walk.
    pub fn advance(&mut self, parent: Option<NodeId>)
        requires
            old(self).wf(),
            old(self).wants_parent(),
        ensures
            final(self).wf(),
            match parent {
                Some(p) => final(self).path@ == old(self).path@.push(p) && !final(self).ended,
                None => final(self).path@ == old(self).path@ && final(self).ended,
            },
    {
        match parent {
            Some(p) => self.path.push(p),
            None => self.ended = true,
        }
    }

    /// The nodes met, root-most first.
    pub fn into_root_first(self) -> (r: Vec<NodeId>)
        ensures
            r@.len() == self.path@.len(),
            forall|i: int| 0 <= i < self.path@.len() ==> #[trigger] r@[i] == self.path@[self.path@.len() - 1 - i],
    {
        root_first(self.path)
    }
}

/// The children whose own children are to be looked up: none when there
/// are no children, so that nothing is browsed.
pub fn flag_request(children: &Vec<TreeChild>) -> (r: Option<Vec<NodeId>>)
    ensures
        children@.len() == 0 ==> r is None,
        children@.len() > 0 ==> (r matches Some(ids) && ids@.len() == children@.len()
            && forall|i: int| 0 <= i < children@.len() ==> #[trigger] ids@[i] == children@[i].node_id),
{
    if children.len() == 0 {
        return None;
    }
    let mut ids: Vec<NodeId> = Vec::new();
    let mut i: usize = 0;
    while i < children.len()
        invariant
            0 <= i <= children@.len(),
            ids@.len() == i,
            forall|j: int| 0 <= j < i ==> #[trigger] ids@[j] == children@[j].node_id,
        decreases children.len() - i,
    {
        ids.push(children[i].node_id.clone());
        i = i + 1;
    }
    Some(ids)
}

/// Whether each of `count` children has children of its own, from the
/// reference types browsed under each: when that browse failed, none has.
pub fn children_flags(count: usize, browsed: Option<Vec<Vec<NodeId>>>) -> (flags: Vec<bool>)
    ensures
        match browsed {
            None => flags@ == Seq::new(count as nat, |i: int| false),
            Some(rs) => flags@.len() == rs@.len()
                && forall|i: int| 0 <= i < rs@.len() ==> #[trigger] flags@[i] == any_in_tree(rs@[i]@),
        },
{
    let mut flags: Vec<bool> = Vec::new();
    match browsed {
        None => {
            let mut i: usize = 0;
            while i < count
                invariant
                    0 <= i <= count,
                    flags@ == Seq::new(i as nat, |j: int| false),
                decreases count - i,
            {
                flags.push(false);
                i = i + 1;
                assert(flags@ =~= Seq::new(i as nat, |j: int| false));
            }
        },
        Some(rs) => {
            let mut i: usize = 0;
            while i < rs.len()
                invariant
                    0 <= i <= rs@.len(),
                    flags@.len() == i,
                    forall|j: int| 0 <= j < i ==> #[trigger] flags@[j] == any_in_tree(rs@[j]@),
                decreases rs.len() - i,
            {
                flags.push(has_tree_child(&rs[i]));
                i = i + 1;
            }
        },
    }
    flags
}

} // verus!
