//! Toast notices: a short message shown for a number of seconds.
use vstd::prelude::*;

use crate::status::ToastState;
use crate::text::owned;

verus! {

/// A notice to show, with the seconds it stays up.
#[derive(Debug)]
pub struct Toast {
    pub state: ToastState,
    pub message: String,
    pub seconds: u32,
}

/// The plain values of a [`Toast`].
pub open spec fn toast_view(t: Toast) -> (ToastState, Seq<char>, u32) {
    (t.state, t.message@, t.seconds)
}

/// A notice with the given kind, text and duration.
pub fn toast(state: ToastState, message: &str, seconds: u32) -> (t: Toast)
    ensures
        toast_view(t) == (state, message@, seconds),
{
    Toast { state, message: owned(message), seconds }
}

/// A notice whose text is `name` followed by `suffix`.
pub fn named_toast(state: ToastState, name: &str, suffix: &str, seconds: u32) -> (t: Toast)
    ensures
        toast_view(t) == (state, name@ + suffix@, seconds),
{
    let mut message = owned(name);
    message.append(suffix);
    Toast { state, message, seconds }
}

/// A notice whose text is `prefix` followed by `name`.
pub fn prefixed_toast(state: ToastState, prefix: &str, name: &str, seconds: u32) -> (t: Toast)
    ensures
        toast_view(t) == (state, prefix@ + name@, seconds),
{
    let mut message = owned(prefix);
    message.append(name);
    Toast { state, message, seconds }
}

} // verus!
