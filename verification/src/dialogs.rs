//! The method-call and attribute-edit dialogs of the terminal front end:
//! their phases, when they are rebuilt, their buttons, and the lines of
//! their bodies.
use vstd::prelude::*;
use crate::model::{AttributeEditState, MethodCallState};
use crate::node_id::node_id_text;
use crate::render::inline_text;
use crate::text::push_str;
use crate::tui_view::{arg_label, arg_signature_line, arg_value_line, edited_value, error_at, method_header, output_line};
use crate::types::{MethodArgument, MethodCallOutcome, MethodSignature, ValueTree};

verus! {

/// The phases of the dialog, one per state of the call.
#[derive(PartialEq, Eq, Structural, Clone, Copy, Debug)]
pub enum MethodPhase {
    Loading,
    Failed,
    Inputs,
    Calling,
    Result,
}

pub open spec fn phase_spec(st: MethodCallState) -> MethodPhase {
    match st {
        MethodCallState::Loading { .. } => MethodPhase::Loading,
        MethodCallState::Failed { .. } => MethodPhase::Failed,
        MethodCallState::Inputs { .. } => MethodPhase::Inputs,
        MethodCallState::Calling { .. } => MethodPhase::Calling,
        MethodCallState::Result { .. } => MethodPhase::Result,
    }
}

pub fn phase_of(st: &MethodCallState) -> (p: MethodPhase)
    ensures
        p == phase_spec(*st),
{
    match st {
        MethodCallState::Loading { .. } => MethodPhase::Loading,
        MethodCallState::Failed { .. } => MethodPhase::Failed,
        MethodCallState::Inputs { .. } => MethodPhase::Inputs,
        MethodCallState::Calling { .. } => MethodPhase::Calling,
        MethodCallState::Result { .. } => MethodPhase::Result,
    }
}

/// What a refresh does to the open dialog.
#[derive(PartialEq, Eq, Structural, Clone, Copy, Debug)]
pub enum DialogRefresh {
    /// The phase changed: rebuild title, buttons and body for this phase.
    Rebuild(MethodPhase),
    /// Same input phase: only the error lines change.
    UpdateErrors,
    /// Nothing to do.
    Keep,
}

/// The dialog is rebuilt when its phase changes; while inputs are shown it
/// only refreshes the error lines, so typed text stays where it is.
pub fn dialog_refresh(shown: Option<MethodPhase>, st: &MethodCallState) -> (r: DialogRefresh)
    ensures
        r == if shown != Some(phase_spec(*st)) {
            DialogRefresh::Rebuild(phase_spec(*st))
        } else if phase_spec(*st) == MethodPhase::Inputs {
            DialogRefresh::UpdateErrors
        } else {
            DialogRefresh::Keep
        },
{
    let p = phase_of(st);
    let same = match shown {
        Some(q) => q == p,
        None => false,
    };
    if !same {
        DialogRefresh::Rebuild(p)
    } else if p == MethodPhase::Inputs {
        DialogRefresh::UpdateErrors
    } else {
        DialogRefresh::Keep
    }
}

/// A button of the dialog.
#[derive(PartialEq, Eq, Structural, Clone, Copy, Debug)]
pub enum DialogButton {
    /// Calls the method with the typed inputs.
    Call,
    /// Calls the method again.
    CallAgain,
    /// Closes the dialog.
    Close,
    /// Writes the typed value.
    Write,
    /// Closes the dialog without writing.
    Cancel,
}

/// The buttons of each phase, left to right.
pub open spec fn buttons_of(p: MethodPhase) -> Seq<DialogButton> {
    match p {
        MethodPhase::Inputs => seq![DialogButton::Call, DialogButton::Close],
        MethodPhase::Result => seq![DialogButton::CallAgain, DialogButton::Close],
        _ => seq![DialogButton::Close],
    }
}

pub fn phase_buttons(p: MethodPhase) -> (r: Vec<DialogButton>)
    ensures
        r@ == buttons_of(p),
{
    let mut r: Vec<DialogButton> = Vec::new();
    match p {
        MethodPhase::Inputs => r.push(DialogButton::Call),
        MethodPhase::Result => r.push(DialogButton::CallAgain),
        _ => {},
    }
    r.push(DialogButton::Close);
    assert(r@ =~= buttons_of(p));
    r
}

pub open spec fn button_text(b: DialogButton) -> Seq<char> {
    match b {
        DialogButton::Call => "Call"@,
        DialogButton::CallAgain => "Call again"@,
        DialogButton::Close => "Close"@,
        DialogButton::Write => "Write"@,
        DialogButton::Cancel => "Cancel"@,
    }
}

pub fn button_label(b: DialogButton) -> (r: &'static str)
    ensures
        r@ == button_text(b),
{
    match b {
        DialogButton::Call => "Call",
        DialogButton::CallAgain => "Call again",
        DialogButton::Close => "Close",
        DialogButton::Write => "Write",
        DialogButton::Cancel => "Cancel",
    }
}

/// A line of the dialog's body.
pub enum BodyLine {
    /// Plain text.
    Text(String),
    /// An empty line.
    Spacer,
    /// The label and edit field of input `index`, holding `value`.
    Input { index: usize, label: String, value: String },
    /// The error line under input `index`.
    FieldError { index: usize, text: String },
    /// The line for an error of the whole call.
    CallError(String),
}

/// The mathematical view of a body line.
pub enum LineView {
    Text(Seq<char>),
    Spacer,
    Input { index: nat, label: Seq<char>, value: Seq<char> },
    FieldError { index: nat, text: Seq<char> },
    CallError(Seq<char>),
}

impl View for BodyLine {
    type V = LineView;

    open spec fn view(&self) -> LineView {
        match self {
            BodyLine::Text(s) => LineView::Text(s@),
            BodyLine::Spacer => LineView::Spacer,
            BodyLine::Input { index, label, value } => LineView::Input { index: *index as nat, label: label@, value: value@ },
            BodyLine::FieldError { index, text } => LineView::FieldError { index: *index as nat, text: text@ },
            BodyLine::CallError(s) => LineView::CallError(s@),
        }
    }
}

/// The views of body lines.
pub open spec fn line_views(v: Seq<BodyLine>) -> Seq<LineView> {
    v.map_values(|l: BodyLine| l@)
}

/// `  <name> (<type>): `
pub open spec fn label_text(a: MethodArgument) -> Seq<char> {
    "  "@ + a.name@ + " ("@ + a.type_label@ + "): "@
}

/// The `i`-th typed value, or nothing.
pub open spec fn edited_text(edited: Seq<String>, i: int) -> Seq<char> {
    if 0 <= i < edited.len() { edited[i]@ } else { Seq::empty() }
}

/// The `i`-th error, or nothing.
pub open spec fn error_text(errors: Seq<Option<String>>, i: int) -> Seq<char> {
    if 0 <= i < errors.len() && errors[i] is Some { errors[i]->Some_0@ } else { Seq::empty() }
}

/// The lines of the first `n` inputs: label and field, error line, and the
/// description when there is one (`with_description`).
pub open spec fn input_lines(
    inputs: Seq<MethodArgument>,
    edited: Seq<String>,
    errors: Seq<Option<String>>,
    with_description: bool,
    n: nat,
) -> Seq<LineView>
    decreases n,
{
    if n == 0 {
        Seq::empty()
    } else {
        let i = n - 1;
        let a = inputs[i];
        input_lines(inputs, edited, errors, with_description, (n - 1) as nat)
            + seq![
                LineView::Input { index: i as nat, label: label_text(a), value: edited_text(edited, i) },
                LineView::FieldError { index: i as nat, text: error_text(errors, i) },
            ]
            + if with_description && a.description@.len() > 0 {
                seq![LineView::Text("    "@ + a.description@)]
            } else {
                Seq::empty()
            }
    }
}

/// The inputs section: a note when there are none, else a heading and the
/// lines of each input.
pub open spec fn inputs_section(
    inputs: Seq<MethodArgument>,
    edited: Seq<String>,
    errors: Seq<Option<String>>,
    with_description: bool,
) -> Seq<LineView> {
    if inputs.len() == 0 {
        seq![LineView::Text("(no input arguments)"@)]
    } else {
        seq![LineView::Text("Inputs:"@)] + input_lines(inputs, edited, errors, with_description, inputs.len())
    }
}

/// `  <name> (<type>)` for the first `n` arguments.
pub open spec fn signature_lines(args: Seq<MethodArgument>, n: nat) -> Seq<LineView>
    decreases n,
{
    if n == 0 {
        Seq::empty()
    } else {
        signature_lines(args, (n - 1) as nat).push(LineView::Text("  "@ + args[n - 1].name@ + " ("@ + args[n - 1].type_label@ + ")"@))
    }
}

/// `  <name> (<type>): <typed value>` for the first `n` arguments.
pub open spec fn value_lines(args: Seq<MethodArgument>, edited: Seq<String>, n: nat) -> Seq<LineView>
    decreases n,
{
    if n == 0 {
        Seq::empty()
    } else {
        value_lines(args, edited, (n - 1) as nat).push(LineView::Text(label_text(args[n - 1]) + edited_text(edited, n - 1)))
    }
}

/// `  <name> (<type>): <value>` for the first `n` outputs, `<missing>` where
/// the server sent fewer values.
pub open spec fn output_lines(args: Seq<MethodArgument>, outputs: Seq<ValueTree>, n: nat) -> Seq<LineView>
    decreases n,
{
    if n == 0 {
        Seq::empty()
    } else {
        let i = n - 1;
        output_lines(args, outputs, (n - 1) as nat).push(LineView::Text(label_text(args[i]) + if i < outputs.len() {
            inline_text(outputs[i], "<null>"@)
        } else {
            "<missing>"@
        }))
    }
}

pub open spec fn header_text(sig: MethodSignature) -> Seq<char> {
    "Method: "@ + node_id_text(sig.method_node@) + "\nParent object: "@ + node_id_text(sig.parent_object@)
}

/// The body while inputs are typed.
pub open spec fn inputs_body(
    sig: MethodSignature,
    edited: Seq<String>,
    errors: Seq<Option<String>>,
    call_error: Option<String>,
) -> Seq<LineView> {
    seq![LineView::Text(header_text(sig)), LineView::Spacer]
        + inputs_section(sig.inputs@, edited, errors, true)
        + seq![LineView::Spacer]
        + (if sig.outputs@.len() == 0 {
            Seq::empty()
        } else {
            seq![LineView::Text("Output signature:"@)]
                + signature_lines(sig.outputs@, sig.outputs@.len())
                + seq![LineView::Spacer]
        })
        + seq![LineView::CallError(match call_error { Some(e) => e@, None => Seq::empty() })]
}

/// The body while the call runs.
pub open spec fn calling_body(sig: MethodSignature, edited: Seq<String>) -> Seq<LineView> {
    seq![LineView::Text("Method: "@ + sig.method_display_name@), LineView::Spacer]
        + value_lines(sig.inputs@, edited, sig.inputs@.len())
        + seq![LineView::Spacer, LineView::Text("Calling…"@)]
}

/// The body showing what a call returned.
pub open spec fn result_body(sig: MethodSignature, edited: Seq<String>, outcome: MethodCallOutcome) -> Seq<LineView> {
    seq![LineView::Text(header_text(sig)), LineView::Spacer]
        + inputs_section(sig.inputs@, edited, outcome.input_arg_errors@, false)
        + seq![LineView::Spacer, LineView::Text("Status: "@ + outcome.status@), LineView::Spacer]
        + (if sig.outputs@.len() == 0 {
            seq![LineView::Text("(no output arguments)"@)]
        } else {
            seq![LineView::Text("Outputs:"@)]
                + output_lines(sig.outputs@, outcome.outputs@, sig.outputs@.len())
        })
        + seq![LineView::Spacer, LineView::CallError(Seq::empty())]
}

/// The body of the dialog in each state.
pub open spec fn body_of(st: MethodCallState) -> Seq<LineView> {
    match st {
        MethodCallState::Loading { .. } => seq![LineView::Text("Reading method signature…"@)],
        MethodCallState::Failed { error, .. } => seq![LineView::Text("Error: "@ + error@)],
        MethodCallState::Inputs { signature, edited, field_errors, call_error, .. } =>
            inputs_body(signature, edited@, field_errors@, call_error),
        MethodCallState::Calling { signature, edited, .. } => calling_body(signature, edited@),
        MethodCallState::Result { signature, edited, outcome, .. } => result_body(signature, edited@, outcome),
    }
}

proof fn lemma_views_push(v: Seq<BodyLine>, x: BodyLine)
    ensures
        line_views(v.push(x)) == line_views(v).push(x@),
{
    assert(line_views(v.push(x)) =~= line_views(v).push(x@));
}

fn push_line(out: &mut Vec<BodyLine>, l: BodyLine)
    ensures
        line_views(final(out)@) == line_views(old(out)@).push(l@),
{
    let ghost before = out@;
    out.push(l);
    proof {
        lemma_views_push(before, l);
    }
}

fn text_line(s: &str) -> (l: BodyLine)
    ensures
        l@ == LineView::Text(s@),
{
    BodyLine::Text(s.to_owned())
}

/// Appends the inputs section.
fn push_inputs_section(
    out: &mut Vec<BodyLine>,
    inputs: &Vec<MethodArgument>,
    edited: &Vec<String>,
    errors: &Vec<Option<String>>,
    with_description: bool,
)
    ensures
        line_views(final(out)@) == line_views(old(out)@) + inputs_section(inputs@, edited@, errors@, with_description),
{
    if inputs.len() == 0 {
        out.push(text_line("(no input arguments)"));
        assert(line_views(out@) =~= line_views(old(out)@) + inputs_section(inputs@, edited@, errors@, with_description));
        return;
    }
    out.push(text_line("Inputs:"));
    let ghost base = line_views(out@);
    let mut i: usize = 0;
    while i < inputs.len()
        invariant
            0 <= i <= inputs@.len(),
            line_views(out@) == base + input_lines(inputs@, edited@, errors@, with_description, i as nat),
        decreases inputs.len() - i,
    {
        let ghost v0 = out@;
        let arg = &inputs[i];
        let l1 = BodyLine::Input { index: i, label: arg_label(arg), value: edited_value(edited, i).to_owned() };
        out.push(l1);
        let ghost v1 = out@;
        let l2 = BodyLine::FieldError { index: i, text: error_at(errors, i).to_owned() };
        out.push(l2);
        proof {
            lemma_views_push(v0, l1);
            lemma_views_push(v1, l2);
        }
        if with_description && !arg.description.as_str().is_empty() {
            let ghost v2 = out@;
            let mut d = String::new();
            push_str(&mut d, "    ");
            push_str(&mut d, arg.description.as_str());
            let l3 = BodyLine::Text(d);
            out.push(l3);
            proof {
                lemma_views_push(v2, l3);
            }
        }
        assert(line_views(out@) =~= base + input_lines(inputs@, edited@, errors@, with_description, (i + 1) as nat));
        i = i + 1;
    }
    assert(line_views(out@) =~= line_views(old(out)@) + inputs_section(inputs@, edited@, errors@, with_description));
}

/// The body lines of the dialog in its current state.
pub fn method_body(st: &MethodCallState) -> (lines: Vec<BodyLine>)
    ensures
        line_views(lines@) == body_of(*st),
{
    let mut out: Vec<BodyLine> = Vec::new();
    match st {
        MethodCallState::Loading { .. } => {
            out.push(text_line("Reading method signature…"));
        },
        MethodCallState::Failed { error, .. } => {
            let mut s = String::new();
            push_str(&mut s, "Error: ");
            push_str(&mut s, error.as_str());
            out.push(BodyLine::Text(s));
        },
        MethodCallState::Inputs { signature, edited, field_errors, call_error, .. } => {
            push_inputs_body(&mut out, signature, edited, field_errors, call_error);
        },
        MethodCallState::Calling { signature, edited, .. } => {
            push_calling_body(&mut out, signature, edited);
        },
        MethodCallState::Result { signature, edited, outcome, .. } => {
            push_result_body(&mut out, signature, edited, outcome);
        },
    }
    assert(line_views(out@) =~= body_of(*st));
    out
}

fn push_inputs_body(
    out: &mut Vec<BodyLine>,
    sig: &MethodSignature,
    edited: &Vec<String>,
    errors: &Vec<Option<String>>,
    call_error: &Option<String>,
)
    ensures
        line_views(final(out)@) == line_views(old(out)@) + inputs_body(*sig, edited@, errors@, *call_error),
{
    push_line(out, BodyLine::Text(method_header(sig)));
    push_line(out, BodyLine::Spacer);
    push_inputs_section(out, &sig.inputs, edited, errors, true);
    push_line(out, BodyLine::Spacer);
    let ghost mid = line_views(out@);
    if sig.outputs.len() > 0 {
        push_line(out, text_line("Output signature:"));
        let ghost base = line_views(out@);
        let mut i: usize = 0;
        while i < sig.outputs.len()
            invariant
                0 <= i <= sig.outputs@.len(),
                line_views(out@) == base + signature_lines(sig.outputs@, i as nat),
            decreases sig.outputs.len() - i,
        {
            let ghost before = out@;
            let l = BodyLine::Text(arg_signature_line(&sig.outputs[i]));
            push_line(out, l);
            proof {
                lemma_views_push(before, l);
            }
            assert(line_views(out@) =~= base + signature_lines(sig.outputs@, (i + 1) as nat));
            i = i + 1;
        }
        push_line(out, BodyLine::Spacer);
    }
    let e = match call_error {
        Some(e) => e.clone(),
        None => String::new(),
    };
    push_line(out, BodyLine::CallError(e));
    assert(line_views(out@) =~= line_views(old(out)@) + inputs_body(*sig, edited@, errors@, *call_error));
}

fn push_calling_body(out: &mut Vec<BodyLine>, sig: &MethodSignature, edited: &Vec<String>)
    ensures
        line_views(final(out)@) == line_views(old(out)@) + calling_body(*sig, edited@),
{
    let mut s = String::new();
    push_str(&mut s, "Method: ");
    push_str(&mut s, sig.method_display_name.as_str());
    push_line(out, BodyLine::Text(s));
    push_line(out, BodyLine::Spacer);
    let ghost base = line_views(out@);
    let mut i: usize = 0;
    while i < sig.inputs.len()
        invariant
            0 <= i <= sig.inputs@.len(),
            line_views(out@) == base + value_lines(sig.inputs@, edited@, i as nat),
        decreases sig.inputs.len() - i,
    {
        let ghost before = out@;
        let l = BodyLine::Text(arg_value_line(&sig.inputs[i], edited_value(edited, i)));
        push_line(out, l);
        proof {
            lemma_views_push(before, l);
        }
        assert(line_views(out@) =~= base + value_lines(sig.inputs@, edited@, (i + 1) as nat));
        i = i + 1;
    }
    push_line(out, BodyLine::Spacer);
    push_line(out, text_line("Calling…"));
    assert(line_views(out@) =~= line_views(old(out)@) + calling_body(*sig, edited@));
}

fn push_result_body(out: &mut Vec<BodyLine>, sig: &MethodSignature, edited: &Vec<String>, outcome: &MethodCallOutcome)
    ensures
        line_views(final(out)@) == line_views(old(out)@) + result_body(*sig, edited@, *outcome),
{
    push_line(out, BodyLine::Text(method_header(sig)));
    push_line(out, BodyLine::Spacer);
    push_inputs_section(out, &sig.inputs, edited, &outcome.input_arg_errors, false);
    push_line(out, BodyLine::Spacer);
    let mut s = String::new();
    push_str(&mut s, "Status: ");
    push_str(&mut s, outcome.status.as_str());
    push_line(out, BodyLine::Text(s));
    push_line(out, BodyLine::Spacer);
    if sig.outputs.len() == 0 {
        push_line(out, text_line("(no output arguments)"));
    } else {
        push_line(out, text_line("Outputs:"));
        let ghost base = line_views(out@);
        let mut i: usize = 0;
        while i < sig.outputs.len()
            invariant
                0 <= i <= sig.outputs@.len(),
                line_views(out@) == base + output_lines(sig.outputs@, outcome.outputs@, i as nat),
            decreases sig.outputs.len() - i,
        {
            let ghost before = out@;
            let l = BodyLine::Text(output_line(&sig.outputs[i], &outcome.outputs, i));
            push_line(out, l);
            proof {
                lemma_views_push(before, l);
            }
            assert(line_views(out@) =~= base + output_lines(sig.outputs@, outcome.outputs@, (i + 1) as nat));
            i = i + 1;
        }
    }
    push_line(out, BodyLine::Spacer);
    push_line(out, BodyLine::CallError(String::new()));
    assert(line_views(out@) =~= line_views(old(out)@) + result_body(*sig, edited@, *outcome));
}

/// The phases of the attribute-edit dialog.
#[derive(PartialEq, Eq, Structural, Clone, Copy, Debug)]
pub enum AttrEditPhase {
    Loading,
    Failed,
    Inputs,
    Writing,
}

pub open spec fn attr_phase_spec(st: AttributeEditState) -> AttrEditPhase {
    match st {
        AttributeEditState::Loading { .. } => AttrEditPhase::Loading,
        AttributeEditState::Failed { .. } => AttrEditPhase::Failed,
        AttributeEditState::Inputs { .. } => AttrEditPhase::Inputs,
        AttributeEditState::Writing { .. } => AttrEditPhase::Writing,
    }
}

pub fn attr_phase_of(st: &AttributeEditState) -> (p: AttrEditPhase)
    ensures
        p == attr_phase_spec(*st),
{
    match st {
        AttributeEditState::Loading { .. } => AttrEditPhase::Loading,
        AttributeEditState::Failed { .. } => AttrEditPhase::Failed,
        AttributeEditState::Inputs { .. } => AttrEditPhase::Inputs,
        AttributeEditState::Writing { .. } => AttrEditPhase::Writing,
    }
}

/// What a refresh does to the open attribute-edit dialog.
#[derive(PartialEq, Eq, Structural, Clone, Copy, Debug)]
pub enum AttrDialogRefresh {
    Rebuild(AttrEditPhase),
    UpdateErrors,
    Keep,
}

/// Rebuilt when the phase changes; in the input phase only the error lines
/// are refreshed.
pub fn attr_dialog_refresh(shown: Option<AttrEditPhase>, st: &AttributeEditState) -> (r: AttrDialogRefresh)
    ensures
        r == if shown != Some(attr_phase_spec(*st)) {
            AttrDialogRefresh::Rebuild(attr_phase_spec(*st))
        } else if attr_phase_spec(*st) == AttrEditPhase::Inputs {
            AttrDialogRefresh::UpdateErrors
        } else {
            AttrDialogRefresh::Keep
        },
{
    let p = attr_phase_of(st);
    let same = match shown {
        Some(q) => q == p,
        None => false,
    };
    if !same {
        AttrDialogRefresh::Rebuild(p)
    } else if p == AttrEditPhase::Inputs {
        AttrDialogRefresh::UpdateErrors
    } else {
        AttrDialogRefresh::Keep
    }
}

/// The buttons of each phase: Write and Cancel while a value is typed,
/// else Close.
pub open spec fn attr_buttons_of(p: AttrEditPhase) -> Seq<DialogButton> {
    match p {
        AttrEditPhase::Inputs => seq![DialogButton::Write, DialogButton::Cancel],
        _ => seq![DialogButton::Close],
    }
}

pub fn attr_phase_buttons(p: AttrEditPhase) -> (r: Vec<DialogButton>)
    ensures
        r@ == attr_buttons_of(p),
{
    let mut r: Vec<DialogButton> = Vec::new();
    match p {
        AttrEditPhase::Inputs => {
            r.push(DialogButton::Write);
            r.push(DialogButton::Cancel);
        },
        _ => r.push(DialogButton::Close),
    }
    assert(r@ =~= attr_buttons_of(p));
    r
}

/// `Edit Attribute · <name>`
pub fn attr_dialog_title(st: &AttributeEditState) -> (s: String)
    ensures
        s@ == "Edit Attribute · "@ + match *st {
            AttributeEditState::Loading { attr_name, .. } => attr_name@,
            AttributeEditState::Failed { attr_name, .. } => attr_name@,
            AttributeEditState::Inputs { attr_name, .. } => attr_name@,
            AttributeEditState::Writing { attr_name, .. } => attr_name@,
        },
{
    let mut s = String::new();
    push_str(&mut s, "Edit Attribute · ");
    push_str(&mut s, st.attr_name());
    s
}

/// The optional text, or nothing.
pub open spec fn opt_text(o: Option<String>) -> Seq<char> {
    match o {
        Some(t) => t@,
        None => Seq::empty(),
    }
}

/// The body of the attribute-edit dialog in each state; the value field is
/// input 0.
pub open spec fn attr_body_of(st: AttributeEditState) -> Seq<LineView> {
    match st {
        AttributeEditState::Loading { node, .. } => seq![LineView::Text("Reading attribute on "@ + node_id_text(node@) + "…"@)],
        AttributeEditState::Failed { error, .. } => seq![LineView::Text("Error: "@ + error@)],
        AttributeEditState::Inputs { attr_name, target, edited, field_error, write_error, .. } => seq![
            LineView::Text(attr_name@ + "  ("@ + target.type_label@ + ")"@),
            LineView::Spacer,
            LineView::Input { index: 0, label: Seq::empty(), value: edited@ },
            LineView::FieldError { index: 0, text: opt_text(field_error) },
            LineView::CallError(opt_text(write_error)),
        ],
        AttributeEditState::Writing { attr_name, target, edited, .. } => seq![
            LineView::Text(attr_name@ + "  ("@ + target.type_label@ + ")"@),
            LineView::Spacer,
            LineView::Text("Writing: "@ + edited@),
            LineView::Spacer,
            LineView::Text("Sending…"@),
        ],
    }
}

fn opt_string(o: &Option<String>) -> (s: String)
    ensures
        s@ == opt_text(*o),
{
    match o {
        Some(t) => t.clone(),
        None => String::new(),
    }
}

fn heading(name: &str, type_label: &str) -> (s: String)
    ensures
        s@ == name@ + "  ("@ + type_label@ + ")"@,
{
    let mut s = String::new();
    push_str(&mut s, name);
    push_str(&mut s, "  (");
    push_str(&mut s, type_label);
    push_str(&mut s, ")");
    s
}

/// The body lines of the attribute-edit dialog.
pub fn attr_body(st: &AttributeEditState) -> (lines: Vec<BodyLine>)
    ensures
        line_views(lines@) == attr_body_of(*st),
{
    let mut out: Vec<BodyLine> = Vec::new();
    match st {
        AttributeEditState::Loading { node, .. } => {
            let mut s = String::new();
            push_str(&mut s, "Reading attribute on ");
            node.write_text(&mut s);
            push_str(&mut s, "…");
            push_line(&mut out, BodyLine::Text(s));
        },
        AttributeEditState::Failed { error, .. } => {
            let mut s = String::new();
            push_str(&mut s, "Error: ");
            push_str(&mut s, error.as_str());
            push_line(&mut out, BodyLine::Text(s));
        },
        AttributeEditState::Inputs { attr_name, target, edited, field_error, write_error, .. } => {
            push_line(&mut out, BodyLine::Text(heading(attr_name.as_str(), target.type_label.as_str())));
            push_line(&mut out, BodyLine::Spacer);
            push_line(&mut out, BodyLine::Input { index: 0, label: String::new(), value: edited.clone() });
            push_line(&mut out, BodyLine::FieldError { index: 0, text: opt_string(field_error) });
            push_line(&mut out, BodyLine::CallError(opt_string(write_error)));
        },
        AttributeEditState::Writing { attr_name, target, edited, .. } => {
            push_line(&mut out, BodyLine::Text(heading(attr_name.as_str(), target.type_label.as_str())));
            push_line(&mut out, BodyLine::Spacer);
            let mut w = String::new();
            push_str(&mut w, "Writing: ");
            push_str(&mut w, edited.as_str());
            push_line(&mut out, BodyLine::Text(w));
            push_line(&mut out, BodyLine::Spacer);
            push_line(&mut out, text_line("Sending…"));
        },
    }
    assert(line_views(out@) =~= attr_body_of(*st));
    out
}

} // verus!
