//! Text renderings of value trees: on one line, and indented over several lines.
use vstd::prelude::*;
use crate::text::{decimal, push_decimal, push_str};
use crate::types::ValueTree;

verus! {

broadcast use vstd::std_specs::vec::axiom_vec_decreases_to_view;

/// A value on one line: arrays as `[a, b]`, objects as `{k: v, ...}`,
/// a null value as `null_text`.
pub open spec fn inline_text(v: ValueTree, null_text: Seq<char>) -> Seq<char>
    decreases v, 0nat,
{
    match v {
        ValueTree::Null => null_text,
        ValueTree::Leaf(s) => s@,
        ValueTree::Array(items) => "["@ + inline_items(items@, null_text, items@.len()) + "]"@,
        ValueTree::Object(fields) => "{"@ + inline_fields(fields@, null_text, fields@.len()) + "}"@,
    }
}

/// The first `n` items on one line, separated by `, `.
pub open spec fn inline_items(items: Seq<ValueTree>, null_text: Seq<char>, n: nat) -> Seq<char>
    decreases items, n,
{
    if n == 0 || n > items.len() {
        Seq::empty()
    } else if n == 1 {
        inline_text(items[0], null_text)
    } else {
        inline_items(items, null_text, (n - 1) as nat) + ", "@ + inline_text(items[n - 1], null_text)
    }
}

/// The first `n` fields as `k: v`, separated by `, `.
pub open spec fn inline_fields(fields: Seq<(String, ValueTree)>, null_text: Seq<char>, n: nat) -> Seq<char>
    decreases fields, n,
{
    if n == 0 || n > fields.len() {
        Seq::empty()
    } else {
        let e = fields[n - 1];
        let one = e.0@ + ": "@ + inline_text(e.1, null_text);
        if n == 1 {
            one
        } else {
            inline_fields(fields, null_text, (n - 1) as nat) + ", "@ + one
        }
    }
}

/// Appends the one-line text of `v`.
pub fn write_inline(v: &ValueTree, null_text: &str, out: &mut String)
    ensures
        final(out)@ == old(out)@ + inline_text(*v, null_text@),
    decreases v, 1nat,
{
    match v {
        ValueTree::Null => push_str(out, null_text),
        ValueTree::Leaf(s) => push_str(out, s.as_str()),
        ValueTree::Array(items) => {
            push_str(out, "[");
            write_inline_items(items, null_text, out);
            push_str(out, "]");
        },
        ValueTree::Object(fields) => {
            push_str(out, "{");
            write_inline_fields(fields, null_text, out);
            push_str(out, "}");
        },
    }
    assert(final(out)@ =~= old(out)@ + inline_text(*v, null_text@));
}

fn write_inline_items(items: &Vec<ValueTree>, null_text: &str, out: &mut String)
    ensures
        final(out)@ == old(out)@ + inline_items(items@, null_text@, items@.len()),
    decreases items, 0nat,
{
    let mut i: usize = 0;
    while i < items.len()
        invariant
            0 <= i <= items.len(),
            out@ == old(out)@ + inline_items(items@, null_text@, i as nat),
        decreases items.len() - i,
    {
        if i > 0 {
            push_str(out, ", ");
        }
        proof {
            assert(decreases_to!(*items => items@));
            assert(decreases_to!(items@ => items@[i as int]));
        }
        write_inline(&items[i], null_text, out);
        i = i + 1;
        assert(out@ =~= old(out)@ + inline_items(items@, null_text@, i as nat));
    }
}

fn write_inline_fields(fields: &Vec<(String, ValueTree)>, null_text: &str, out: &mut String)
    ensures
        final(out)@ == old(out)@ + inline_fields(fields@, null_text@, fields@.len()),
    decreases fields, 0nat,
{
    let mut i: usize = 0;
    while i < fields.len()
        invariant
            0 <= i <= fields.len(),
            out@ == old(out)@ + inline_fields(fields@, null_text@, i as nat),
        decreases fields.len() - i,
    {
        if i > 0 {
            push_str(out, ", ");
        }
        push_str(out, fields[i].0.as_str());
        push_str(out, ": ");
        proof {
            assert(decreases_to!(*fields => fields@));
            assert(decreases_to!(fields@ => fields@[i as int]));
            assert(decreases_to!(fields@[i as int] => fields@[i as int].1));
        }
        write_inline(&fields[i].1, null_text, out);
        i = i + 1;
        assert(out@ =~= old(out)@ + inline_fields(fields@, null_text@, i as nat));
    }
}

impl ValueTree {
    /// Render this value on a single line.
    pub fn format_inline(&self) -> (s: String)
        ensures
            s@ == inline_text(*self, "<null>"@),
    {
        let mut s = String::new();
        write_inline(self, "<null>", &mut s);
        assert(s@ =~= inline_text(*self, "<null>"@));
        s
    }
}

/// The one-line text of a method output (same as `format_inline`).
pub fn render_value_inline(v: &ValueTree) -> (s: String)
    ensures
        s@ == inline_text(*v, "<null>"@),
{
    v.format_inline()
}

/// The one-line text of an attribute value, with `null` for an empty value.
pub fn value_tree_to_string(v: &ValueTree) -> (s: String)
    ensures
        s@ == inline_text(*v, "null"@),
{
    let mut s = String::new();
    write_inline(v, "null", &mut s);
    assert(s@ =~= inline_text(*v, "null"@));
    s
}

/// A value for the clipboard: leaves after the indentation `ind`, each
/// array item under an `[i]` line and each field under a `k:` line with its
/// content indented two more spaces, siblings separated by newlines, no
/// trailing newline.
pub open spec fn clip_text(v: ValueTree, ind: Seq<char>) -> Seq<char>
    decreases v, 0nat,
{
    match v {
        ValueTree::Null => ind + "<null>"@,
        ValueTree::Leaf(s) => ind + s@,
        ValueTree::Array(items) => clip_items(items@, ind, items@.len()),
        ValueTree::Object(fields) => clip_fields(fields@, ind, fields@.len()),
    }
}

pub open spec fn clip_items(items: Seq<ValueTree>, ind: Seq<char>, n: nat) -> Seq<char>
    decreases items, n,
{
    if n == 0 || n > items.len() {
        Seq::empty()
    } else {
        let sep = if n > 1 { "\n"@ } else { Seq::<char>::empty() };
        clip_items(items, ind, (n - 1) as nat) + sep + ind + "["@ + decimal((n - 1) as nat) + "]"@
            + "\n"@ + clip_text(items[n - 1], ind + "  "@)
    }
}

pub open spec fn clip_fields(fields: Seq<(String, ValueTree)>, ind: Seq<char>, n: nat) -> Seq<char>
    decreases fields, n,
{
    if n == 0 || n > fields.len() {
        Seq::empty()
    } else {
        let sep = if n > 1 { "\n"@ } else { Seq::<char>::empty() };
        let e = fields[n - 1];
        clip_fields(fields, ind, (n - 1) as nat) + sep + ind + e.0@ + ":"@ + "\n"@
            + clip_text(e.1, ind + "  "@)
    }
}

fn write_clip(v: &ValueTree, ind: &str, out: &mut String)
    ensures
        final(out)@ == old(out)@ + clip_text(*v, ind@),
    decreases v, 1nat,
{
    match v {
        ValueTree::Null => {
            push_str(out, ind);
            push_str(out, "<null>");
        },
        ValueTree::Leaf(s) => {
            push_str(out, ind);
            push_str(out, s.as_str());
        },
        ValueTree::Array(items) => write_clip_items(items, ind, out),
        ValueTree::Object(fields) => write_clip_fields(fields, ind, out),
    }
    assert(final(out)@ =~= old(out)@ + clip_text(*v, ind@));
}

fn write_clip_items(items: &Vec<ValueTree>, ind: &str, out: &mut String)
    ensures
        final(out)@ == old(out)@ + clip_items(items@, ind@, items@.len()),
    decreases items, 0nat,
{
    let mut deeper = ind.to_owned();
    push_str(&mut deeper, "  ");
    let mut i: usize = 0;
    while i < items.len()
        invariant
            0 <= i <= items.len(),
            deeper@ == ind@ + "  "@,
            out@ == old(out)@ + clip_items(items@, ind@, i as nat),
        decreases items.len() - i,
    {
        if i > 0 {
            push_str(out, "\n");
        }
        push_str(out, ind);
        push_str(out, "[");
        push_decimal(out, i as u64);
        push_str(out, "]");
        push_str(out, "\n");
        proof {
            assert(decreases_to!(*items => items@));
            assert(decreases_to!(items@ => items@[i as int]));
        }
        write_clip(&items[i], deeper.as_str(), out);
        i = i + 1;
        assert(out@ =~= old(out)@ + clip_items(items@, ind@, i as nat));
    }
}

fn write_clip_fields(fields: &Vec<(String, ValueTree)>, ind: &str, out: &mut String)
    ensures
        final(out)@ == old(out)@ + clip_fields(fields@, ind@, fields@.len()),
    decreases fields, 0nat,
{
    let mut deeper = ind.to_owned();
    push_str(&mut deeper, "  ");
    let mut i: usize = 0;
    while i < fields.len()
        invariant
            0 <= i <= fields.len(),
            deeper@ == ind@ + "  "@,
            out@ == old(out)@ + clip_fields(fields@, ind@, i as nat),
        decreases fields.len() - i,
    {
        if i > 0 {
            push_str(out, "\n");
        }
        push_str(out, ind);
        push_str(out, fields[i].0.as_str());
        push_str(out, ":");
        push_str(out, "\n");
        proof {
            assert(decreases_to!(*fields => fields@));
            assert(decreases_to!(fields@ => fields@[i as int]));
            assert(decreases_to!(fields@[i as int] => fields@[i as int].1));
        }
        write_clip(&fields[i].1, deeper.as_str(), out);
        i = i + 1;
        assert(out@ =~= old(out)@ + clip_fields(fields@, ind@, i as nat));
    }
}

/// The clipboard text of a value.
pub fn render_value_for_clipboard(v: &ValueTree) -> (s: String)
    ensures
        s@ == clip_text(*v, Seq::empty()),
{
    let mut s = String::new();
    write_clip(v, "", &mut s);
    proof {
        reveal_strlit("");
        assert(""@ =~= Seq::<char>::empty());
    }
    assert(s@ =~= clip_text(*v, Seq::empty()));
    s
}

} // verus!
