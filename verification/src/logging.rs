//! Turning the fields of a tracing event into the text of a log line.
use vstd::prelude::*;
use crate::text::{push_str, text_eq};

verus! {

/// The message after one more field is recorded: the `message` field is
/// appended as is; any other field as `name=value`, after a space when the
/// message is not empty.
pub open spec fn with_field(message: Seq<char>, name: Seq<char>, value: Seq<char>) -> Seq<char> {
    if name == "message"@ {
        message + value
    } else {
        (if message.len() > 0 { message + " "@ } else { message }) + name + "="@ + value
    }
}

/// Records one field of an event; `value` is the field's text (for a
/// field recorded by `Debug`, its `Debug` text).
pub fn record_field(message: &mut String, name: &str, value: &str)
    ensures
        final(message)@ == with_field(old(message)@, name@, value@),
{
    if text_eq(name, "message") {
        push_str(message, value);
    } else {
        if !message.as_str().is_empty() {
            push_str(message, " ");
        }
        push_str(message, name);
        push_str(message, "=");
        push_str(message, value);
    }
}

} // verus!
