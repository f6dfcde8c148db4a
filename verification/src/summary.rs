//! Assembling the attributes of a node from what a read returned, listed
//! by name.
use vstd::prelude::*;
use crate::text::{chars_of};
use crate::types::{MethodCallOutcome, NodeAttribute, NodeClass, ValueTree};
use opcua::types::NodeClass as UaNodeClass;

verus! {

/// The status of a read value: whether it is good, and its text.
pub struct StatusRead {
    pub good: bool,
    pub text: String,
}

/// One attribute as a read returned it.
pub struct AttributeRead {
    /// The attribute's name (`AccessLevel`, `Value`, ...).
    pub name: String,
    /// Is this the `Value` attribute?
    pub is_value: bool,
    pub status: Option<StatusRead>,
    pub value: Option<ValueTree>,
    pub source_timestamp: Option<String>,
    pub server_timestamp: Option<String>,
}

/// Was the read good: a good status, or no status and a value?
pub open spec fn status_ok(a: AttributeRead) -> bool {
    match a.status {
        None => a.value is Some,
        Some(s) => s.good,
    }
}

/// An attribute as a name and a value.
pub type AttrView = (Seq<char>, ValueTree);

/// The entries a read attribute contributes: none when the read failed or
/// gave no value; else the attribute itself and, for `Value`, its status
/// code and its source and server timestamps where present.
pub open spec fn entries_of(a: AttributeRead) -> Seq<AttrView> {
    if !status_ok(a) || a.value is None {
        Seq::empty()
    } else {
        let main = seq![(a.name@, a.value->0)];
        if !a.is_value {
            main
        } else {
            main
                + (match a.status { Some(s) => seq![("StatusCode"@, ValueTree::Leaf(s.text))], None => Seq::empty() })
                + (match a.source_timestamp { Some(t) => seq![("SourceTimestamp"@, ValueTree::Leaf(t))], None => Seq::empty() })
                + (match a.server_timestamp { Some(t) => seq![("ServerTimestamp"@, ValueTree::Leaf(t))], None => Seq::empty() })
        }
    }
}

/// The entries of all reads, in order.
pub open spec fn all_entries(reads: Seq<AttributeRead>) -> Seq<AttrView>
    decreases reads.len(),
{
    if reads.len() == 0 {
        Seq::empty()
    } else {
        all_entries(reads.drop_last()) + entries_of(reads.last())
    }
}

/// Lexicographic order of texts by code point (the order of `String`).
pub open spec fn text_lt(a: Seq<char>, b: Seq<char>) -> bool
    decreases a.len(),
{
    if a.len() == 0 {
        b.len() > 0
    } else if b.len() == 0 {
        false
    } else if a[0] != b[0] {
        (a[0] as u32) < (b[0] as u32)
    } else {
        text_lt(a.drop_first(), b.drop_first())
    }
}

/// Number of leading entries of `s` whose name does not come after `name`.
pub open spec fn prefix_not_after(s: Seq<AttrView>, name: Seq<char>) -> nat
    decreases s.len(),
{
    if s.len() > 0 && !text_lt(name, s[0].0) { 1 + prefix_not_after(s.drop_first(), name) } else { 0 }
}

/// A stable sort by name: each entry is placed after all earlier ones whose
/// name does not come after its own.
pub open spec fn sort_by_name(s: Seq<AttrView>) -> Seq<AttrView>
    decreases s.len(),
{
    if s.len() == 0 {
        s
    } else {
        let sorted = sort_by_name(s.drop_last());
        sorted.insert(prefix_not_after(sorted, s.last().0) as int, s.last())
    }
}

/// The attribute list shown for a node.
pub open spec fn summary_attributes(reads: Seq<AttributeRead>) -> Seq<AttrView> {
    sort_by_name(all_entries(reads))
}

/// The views of attributes.
pub open spec fn attr_views(v: Seq<NodeAttribute>) -> Seq<AttrView> {
    v.map_values(|a: NodeAttribute| (a.name@, a.value))
}

/// Does `a` come before `b` in code-point order?
pub fn text_less(a: &str, b: &str) -> (r: bool)
    ensures
        r == text_lt(a@, b@),
{
    let x = chars_of(a);
    let y = chars_of(b);
    let mut i: usize = 0;
    assert(a@.skip(0) =~= a@ && b@.skip(0) =~= b@);
    while i < x.len() && i < y.len() && x[i] == y[i]
        invariant
            0 <= i <= x@.len(),
            i <= y@.len(),
            x@ == a@,
            y@ == b@,
            text_lt(a@, b@) == text_lt(a@.skip(i as int), b@.skip(i as int)),
        decreases x.len() - i,
    {
        proof {
            let xs = a@.skip(i as int);
            let ys = b@.skip(i as int);
            assert(xs[0] == ys[0]);
            assert(xs.drop_first() =~= a@.skip(i + 1));
            assert(ys.drop_first() =~= b@.skip(i + 1));
        }
        i = i + 1;
    }
    proof {
        if i < x@.len() {
            assert(a@.skip(i as int)[0] == x@[i as int]);
        }
        if i < y@.len() {
            assert(b@.skip(i as int)[0] == y@[i as int]);
        }
    }
    if i == x.len() {
        i < y.len()
    } else if i == y.len() {
        false
    } else {
        (x[i] as u32) < (y[i] as u32)
    }
}

proof fn lemma_prefix_bound(s: Seq<AttrView>, name: Seq<char>)
    ensures
        prefix_not_after(s, name) <= s.len(),
    decreases s.len(),
{
    if s.len() > 0 && !text_lt(name, s[0].0) {
        lemma_prefix_bound(s.drop_first(), name);
    }
}

proof fn lemma_prefix_step(s: Seq<AttrView>, name: Seq<char>, i: int)
    requires
        0 <= i <= s.len(),
        forall|j: int| 0 <= j < i ==> !text_lt(name, #[trigger] s[j].0),
    ensures
        prefix_not_after(s, name) == i + prefix_not_after(s.skip(i), name),
    decreases i,
{
    if i > 0 {
        lemma_prefix_step(s.drop_first(), name, i - 1);
        assert(s.drop_first().skip(i - 1) =~= s.skip(i));
    } else {
        assert(s.skip(0) =~= s);
    }
}

/// Inserts an attribute after all those whose name does not come after
/// its own.
fn insert_by_name(sorted: &mut Vec<NodeAttribute>, a: NodeAttribute)
    ensures
        attr_views(final(sorted)@) == attr_views(old(sorted)@).insert(
            prefix_not_after(attr_views(old(sorted)@), a.name@) as int,
            (a.name@, a.value),
        ),
{
    let ghost v = attr_views(sorted@);
    let mut k: usize = 0;
    while k < sorted.len() && !text_less(a.name.as_str(), sorted[k].name.as_str())
        invariant
            0 <= k <= sorted@.len(),
            v == attr_views(sorted@),
            sorted@ == old(sorted)@,
            forall|j: int| 0 <= j < k ==> !text_lt(a.name@, #[trigger] v[j].0),
        decreases sorted.len() - k,
    {
        k = k + 1;
    }
    proof {
        lemma_prefix_step(v, a.name@, k as int);
        if k < sorted@.len() {
            assert(v.skip(k as int)[0] == v[k as int]);
        }
        assert(prefix_not_after(v.skip(k as int), a.name@) == 0);
    }
    let ghost e = (a.name@, a.value);
    sorted.insert(k, a);
    assert(attr_views(sorted@) =~= v.insert(k as int, e));
}

/// Appends the entries one read contributes.
fn push_entries(out: &mut Vec<NodeAttribute>, a: AttributeRead)
    ensures
        attr_views(final(out)@) == attr_views(old(out)@) + entries_of(a),
{
    let ghost a0 = a;
    let ok = match &a.status {
        None => a.value.is_some(),
        Some(s) => s.good,
    };
    if !ok || a.value.is_none() {
        assert(attr_views(out@) =~= attr_views(old(out)@) + entries_of(a0));
        return;
    }
    let AttributeRead { name, is_value, status, value, source_timestamp, server_timestamp } = a;
    let v = value.unwrap();
    out.push(NodeAttribute { name, value: v });
    if is_value {
        if let Some(s) = status {
            out.push(NodeAttribute { name: String::from_str("StatusCode"), value: ValueTree::Leaf(s.text) });
        }
        if let Some(t) = source_timestamp {
            out.push(NodeAttribute { name: String::from_str("SourceTimestamp"), value: ValueTree::Leaf(t) });
        }
        if let Some(t) = server_timestamp {
            out.push(NodeAttribute { name: String::from_str("ServerTimestamp"), value: ValueTree::Leaf(t) });
        }
    }
    assert(attr_views(out@) =~= attr_views(old(out)@) + entries_of(a0));
}

/// The attributes of a node from what the read returned: the good ones,
/// with the status and timestamps of the `Value` attribute, listed by
/// name (a stable sort).
pub fn summary_attributes_from(reads: Vec<AttributeRead>) -> (r: Vec<NodeAttribute>)
    ensures
        attr_views(r@) == summary_attributes(reads@),
{
    let ghost all = reads@;
    let mut rest = reads;
    let mut entries: Vec<NodeAttribute> = Vec::new();
    let mut taken: usize = 0;
    let total = rest.len();
    assert(all.take(0) =~= Seq::<AttributeRead>::empty());
    while rest.len() > 0
        invariant
            total == all.len(),
            taken + rest@.len() == all.len(),
            rest@ == all.skip(taken as int),
            attr_views(entries@) == all_entries(all.take(taken as int)),
        decreases rest.len(),
    {
        let a = rest.remove(0);
        proof {
            assert(a == all[taken as int]);
            assert(all.take(taken + 1).drop_last() =~= all.take(taken as int));
            assert(rest@ =~= all.skip(taken + 1));
        }
        push_entries(&mut entries, a);
        taken = taken + 1;
    }
    assert(all.take(all.len() as int) =~= all);
    let ghost es = attr_views(entries@);
    let mut sorted: Vec<NodeAttribute> = Vec::new();
    let mut done: usize = 0;
    let mut pending = entries;
    let count = pending.len();
    assert(es.take(0) =~= Seq::<AttrView>::empty());
    while pending.len() > 0
        invariant
            count == es.len(),
            done + pending@.len() == es.len(),
            attr_views(pending@) == es.skip(done as int),
            attr_views(sorted@) == sort_by_name(es.take(done as int)),
        decreases pending.len(),
    {
        let ghost pv = attr_views(pending@);
        let ghost old_pending = pending@;
        let a = pending.remove(0);
        proof {
            assert(pending@ =~= old_pending.drop_first());
            assert(attr_views(pending@) =~= pv.drop_first());
            assert(pv[0] == (a.name@, a.value));
            assert(es.take(done + 1).drop_last() =~= es.take(done as int));
            assert(es.take(done + 1).last() == es[done as int]);
            assert(attr_views(pending@) =~= es.skip(done + 1));
        }
        insert_by_name(&mut sorted, a);
        done = done + 1;
    }
    assert(es.take(es.len() as int) =~= es);
    sorted
}

/// What a method call returned: its status, its outputs, and for each input
/// argument the text of its status when that status is not good.
pub fn method_outcome(status: String, outputs: Vec<ValueTree>, input_results: Vec<StatusRead>) -> (r: MethodCallOutcome)
    ensures
        r.status == status,
        r.outputs == outputs,
        r.input_arg_errors@.len() == input_results@.len(),
        forall|i: int| 0 <= i < input_results@.len() ==> #[trigger] r.input_arg_errors@[i] == if input_results@[i].good {
            None
        } else {
            Some(input_results@[i].text)
        },
{
    let ghost all = input_results@;
    let mut rest = input_results;
    let total = rest.len();
    let mut errors: Vec<Option<String>> = Vec::new();
    let mut k: usize = 0;
    while rest.len() > 0
        invariant
            total == all.len(),
            k + rest@.len() == all.len(),
            rest@ == all.skip(k as int),
            errors@.len() == k,
            forall|i: int| 0 <= i < k ==> #[trigger] errors@[i] == if all[i].good { None } else { Some(all[i].text) },
        decreases rest.len(),
    {
        let ghost before = rest@;
        let s = rest.remove(0);
        assert(s == all[k as int]);
        assert(rest@ =~= all.skip(k + 1));
        if s.good {
            errors.push(None);
        } else {
            errors.push(Some(s.text));
        }
        k = k + 1;
    }
    MethodCallOutcome { status, outputs, input_arg_errors: errors }
}

/// The wire value of a node class (OPC UA Part 3).
pub open spec fn node_class_code(nc: NodeClass) -> i32 {
    match nc {
        NodeClass::Unspecified => 0,
        NodeClass::Object => 1,
        NodeClass::Variable => 2,
        NodeClass::Method => 4,
        NodeClass::ObjectType => 8,
        NodeClass::VariableType => 16,
        NodeClass::ReferenceType => 32,
        NodeClass::DataType => 64,
        NodeClass::View => 128,
    }
}

/// `opcua::types::NodeClass::try_from(i32)`: the class with that wire
/// value, or none for any other value.
#[verifier::external_body]
fn node_class_from_i32(i: i32) -> (r: Option<NodeClass>)
    ensures
        match r {
            Some(nc) => node_class_code(nc) == i,
            None => forall|nc: NodeClass| node_class_code(nc) != i,
        },
{
    match UaNodeClass::try_from(i) {
        Ok(UaNodeClass::Unspecified) => Some(NodeClass::Unspecified),
        Ok(UaNodeClass::Object) => Some(NodeClass::Object),
        Ok(UaNodeClass::Variable) => Some(NodeClass::Variable),
        Ok(UaNodeClass::Method) => Some(NodeClass::Method),
        Ok(UaNodeClass::ObjectType) => Some(NodeClass::ObjectType),
        Ok(UaNodeClass::VariableType) => Some(NodeClass::VariableType),
        Ok(UaNodeClass::ReferenceType) => Some(NodeClass::ReferenceType),
        Ok(UaNodeClass::DataType) => Some(NodeClass::DataType),
        Ok(UaNodeClass::View) => Some(NodeClass::View),
        Err(_) => None,
    }
}

/// The name of a node class.
pub open spec fn node_class_text(nc: NodeClass) -> Seq<char> {
    match nc {
        NodeClass::Unspecified => "Unspecified"@,
        NodeClass::Object => "Object"@,
        NodeClass::Variable => "Variable"@,
        NodeClass::Method => "Method"@,
        NodeClass::ObjectType => "ObjectType"@,
        NodeClass::VariableType => "VariableType"@,
        NodeClass::ReferenceType => "ReferenceType"@,
        NodeClass::DataType => "DataType"@,
        NodeClass::View => "View"@,
    }
}

pub fn node_class_name(nc: NodeClass) -> (r: &'static str)
    ensures
        r@ == node_class_text(nc),
{
    match nc {
        NodeClass::Unspecified => "Unspecified",
        NodeClass::Object => "Object",
        NodeClass::Variable => "Variable",
        NodeClass::Method => "Method",
        NodeClass::ObjectType => "ObjectType",
        NodeClass::VariableType => "VariableType",
        NodeClass::ReferenceType => "ReferenceType",
        NodeClass::DataType => "DataType",
        NodeClass::View => "View",
    }
}

/// How a `NodeClass` attribute with value `i` is shown: by the class name
/// when `i` is the wire value of a class.
pub fn node_class_leaf(i: i32) -> (r: Option<ValueTree>)
    ensures
        match r {
            Some(t) => exists|nc: NodeClass| node_class_code(nc) == i && (t matches ValueTree::Leaf(s) && s@ == node_class_text(nc)),
            None => forall|nc: NodeClass| node_class_code(nc) != i,
        },
{
    match node_class_from_i32(i) {
        Some(nc) => {
            let t = ValueTree::Leaf(node_class_name(nc).to_owned());
            Some(t)
        },
        None => None,
    }
}

} // verus!
