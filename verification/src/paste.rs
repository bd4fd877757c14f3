//! The entry operation: an invocation passes the debounce gate and becomes a
//! paste request, or is dropped without a trace.

use crate::action::ActionView;
use crate::clock::Clock;
use crate::gate::{admits, stamped, DebounceGate, DEBOUNCE_NANOS};
use crate::request::{PasteRequest, RequestView};
use vstd::prelude::*;

verus! {

/// What an invocation at `now` with `text` yields at a gate that last
/// accepted at `last`: a new request if it is admitted, else nothing.
pub open spec fn submitted(last: Option<u128>, now: u128, text: Seq<char>) -> Option<
    RequestView,
> {
    if admits(last, now) {
        Some(RequestView::fresh(text))
    } else {
        None
    }
}

/// Handles an invocation at `now`. If `gate` admits it, `gate` remembers
/// `now` and the caller gets the request to drive; if not, the invocation is
/// dropped: nothing comes back, nothing is queued, and `gate` is as before.
pub fn copy_and_paste_at(gate: &mut DebounceGate, now: u128, text: String) -> (request: Option<
    PasteRequest,
>)
    ensures
        final(gate)@ == stamped(old(gate)@, now),
        match request {
            Some(accepted) => submitted(old(gate)@, now, text@) == Some(accepted@),
            None => submitted(old(gate)@, now, text@) is None,
        },
{
    if gate.accept_at(now) {
        Some(PasteRequest::new(text))
    } else {
        None
    }
}

/// Handles an invocation at the present reading of `clock`, as
/// [`copy_and_paste_at`] handles it for that reading. So a gate that has
/// accepted nothing yet lets the invocation through, a request that comes
/// back is a new one for `text`, and a dropped invocation changes nothing.
pub fn copy_and_paste(gate: &mut DebounceGate, clock: &Clock, text: String) -> (request: Option<
    PasteRequest,
>)
    ensures
        exists|now: u128|
            {
                &&& final(gate)@ == #[trigger] stamped(old(gate)@, now)
                &&& match request {
                    Some(accepted) => submitted(old(gate)@, now, text@) == Some(accepted@),
                    None => submitted(old(gate)@, now, text@) is None,
                }
            },
        old(gate)@ is None ==> request is Some,
        match request {
            Some(accepted) => accepted@ == RequestView::fresh(text@) && final(gate)@ is Some,
            None => final(gate)@ == old(gate)@,
        },
{
    let now = clock.now();
    copy_and_paste_at(gate, now, text)
}

/// Of two invocations less than a window apart, the first of which is
/// admitted, exactly one leads to a clipboard write: the first becomes a
/// request that starts by writing its own text, and the second yields no
/// request and changes nothing of what the first left behind.
pub proof fn lemma_one_paste_per_window(
    last: Option<u128>,
    first: u128,
    first_text: Seq<char>,
    second: u128,
    second_text: Seq<char>,
)
    requires
        first < second + DEBOUNCE_NANOS,
        second < first + DEBOUNCE_NANOS,
        admits(last, first),
    ensures
        submitted(last, first, first_text) == Some(RequestView::fresh(first_text)),
        RequestView::fresh(first_text).pending() == Some(ActionView::SetClipboard(first_text)),
        submitted(stamped(last, first), second, second_text) is None,
        stamped(stamped(last, first), second) == stamped(last, first),
{
}

/// An invocation that comes a full window or more after the last accepted
/// one becomes a request.
pub proof fn lemma_paste_after_window(last: u128, now: u128, text: Seq<char>)
    requires
        now >= last + DEBOUNCE_NANOS,
    ensures
        submitted(Some(last), now, text) == Some(RequestView::fresh(text)),
        stamped(Some(last), now) == Some(now),
{
}

} // verus!
