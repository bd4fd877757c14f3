//! One paste request: the fixed sequence of clipboard, delay and key actions
//! that forces a paste into the focused window.
//!
//! The library decides what is done and in which order; whoever drives a
//! request performs each action and reports how it went. No report changes
//! what follows: every action is attempted, whatever became of the ones
//! before it.

use crate::action::{Action, ActionView, Direction, Key, Outcome};
use vstd::prelude::*;

verus! {

/// Pause after the clipboard write, in milliseconds. The trigger's own
/// key-up must reach the focused window before any synthetic key does.
pub const FOCUS_SETTLE_MS: u64 = 200;

/// Pause after the modifiers are released, in milliseconds, so that the
/// input queue has flushed the releases before Control is pressed.
pub const RELEASE_SETTLE_MS: u64 = 50;

/// Pause on either side of the `v` click, in milliseconds.
pub const KEY_SETTLE_MS: u64 = 30;

/// Number of actions in a request.
pub const PLAN_LEN: u8 = 10;

/// How far a request has come.
#[derive(Clone, Copy, Debug, PartialEq, Eq, Structural)]
pub enum Phase {
    /// Nothing has been done yet.
    Idle,
    /// The clipboard write is over.
    ClipboardSet,
    /// The focused window has had time to see the trigger released.
    FocusSettled,
    /// Shift and Control have both been released.
    ModifiersReleased,
    /// The releases have had time to reach the input queue.
    ReleaseSettled,
    /// Control is down.
    CtrlPressed,
    /// `v` has been clicked.
    VClicked,
    /// Control is up again: the request is complete.
    CtrlReleased,
}

/// The actions of a request for `text`, in the order in which they are due.
pub open spec fn plan(text: Seq<char>) -> Seq<ActionView> {
    seq![
        ActionView::SetClipboard(text),
        ActionView::Wait(FOCUS_SETTLE_MS as nat),
        ActionView::SendKey(Key::Shift, Direction::Release),
        ActionView::SendKey(Key::Control, Direction::Release),
        ActionView::Wait(RELEASE_SETTLE_MS as nat),
        ActionView::SendKey(Key::Control, Direction::Press),
        ActionView::Wait(KEY_SETTLE_MS as nat),
        ActionView::SendKey(Key::Unicode('v'), Direction::Click),
        ActionView::Wait(KEY_SETTLE_MS as nat),
        ActionView::SendKey(Key::Control, Direction::Release),
    ]
}

/// The phase that a request is in when `completed` of its actions are over.
pub open spec fn phase_after(completed: nat) -> Phase {
    if completed >= 10 {
        Phase::CtrlReleased
    } else if completed >= 8 {
        Phase::VClicked
    } else if completed >= 6 {
        Phase::CtrlPressed
    } else if completed >= 5 {
        Phase::ReleaseSettled
    } else if completed >= 4 {
        Phase::ModifiersReleased
    } else if completed >= 2 {
        Phase::FocusSettled
    } else if completed >= 1 {
        Phase::ClipboardSet
    } else {
        Phase::Idle
    }
}

/// The phase that follows `phase`. The phases form one line, without a
/// branch; after the last, the program is idle again.
pub open spec fn successor(phase: Phase) -> Phase {
    match phase {
        Phase::Idle => Phase::ClipboardSet,
        Phase::ClipboardSet => Phase::FocusSettled,
        Phase::FocusSettled => Phase::ModifiersReleased,
        Phase::ModifiersReleased => Phase::ReleaseSettled,
        Phase::ReleaseSettled => Phase::CtrlPressed,
        Phase::CtrlPressed => Phase::VClicked,
        Phase::VClicked => Phase::CtrlReleased,
        Phase::CtrlReleased => Phase::Idle,
    }
}

/// A request as a mathematical value: its text, and how many of its actions
/// are over.
pub struct RequestView {
    pub text: Seq<char>,
    pub completed: nat,
}

impl RequestView {
    /// A request for `text` of which nothing has been done.
    pub open spec fn fresh(text: Seq<char>) -> RequestView {
        RequestView { text, completed: 0 }
    }

    /// Whether every action is over.
    pub open spec fn finished(self) -> bool {
        self.completed >= plan(self.text).len()
    }

    /// The action that is due, if any is left.
    pub open spec fn pending(self) -> Option<ActionView> {
        if self.finished() {
            None
        } else {
            Some(plan(self.text)[self.completed as int])
        }
    }

    /// The request after the driver has reported on the pending action. The
    /// report is not looked at: a failed action counts as over.
    pub open spec fn recorded(self, outcome: Outcome) -> RequestView {
        if self.finished() {
            self
        } else {
            RequestView { text: self.text, completed: self.completed + 1 }
        }
    }

    /// The phase that the request is in.
    pub open spec fn phase(self) -> Phase {
        phase_after(self.completed)
    }

    /// The actions that a driver performs when it works through the request
    /// and meets these outcomes, one per action, in this order. It stops when
    /// the request is finished or the outcomes run out.
    pub open spec fn trace(self, outcomes: Seq<Outcome>) -> Seq<ActionView>
        decreases outcomes.len(),
    {
        if outcomes.len() == 0 || self.finished() {
            Seq::empty()
        } else {
            seq![self.pending().unwrap()] + self.recorded(outcomes[0]).trace(
                outcomes.drop_first(),
            )
        }
    }

    /// The request as that driver leaves it.
    pub open spec fn driven(self, outcomes: Seq<Outcome>) -> RequestView
        decreases outcomes.len(),
    {
        if outcomes.len() == 0 || self.finished() {
            self
        } else {
            self.recorded(outcomes[0]).driven(outcomes.drop_first())
        }
    }
}

/// One accepted invocation: the text to paste, and the progress made.
#[derive(Debug)]
pub struct PasteRequest {
    text: String,
    completed: u8,
}

impl View for PasteRequest {
    type V = RequestView;

    closed spec fn view(&self) -> RequestView {
        RequestView { text: self.text@, completed: self.completed as nat }
    }
}

impl PasteRequest {
    #[verifier::type_invariant]
    spec fn in_plan(self) -> bool {
        self.completed <= PLAN_LEN
    }

    /// A request for `text`, with every action still to do.
    pub fn new(text: String) -> (request: Self)
        ensures
            request@ == RequestView::fresh(text@),
    {
        PasteRequest { text, completed: 0 }
    }

    /// The action that is due, or `None` when the request is finished.
    pub fn pending(&self) -> (action: Option<Action>)
        ensures
            match action {
                Some(due) => self@.pending() == Some(due@),
                None => self@.pending() is None,
            },
            self@.completed <= PLAN_LEN,
    {
        proof {
            use_type_invariant(self);
        }
        match self.completed {
            0 => Some(Action::SetClipboard(self.text.clone())),
            1 => Some(Action::Wait(FOCUS_SETTLE_MS)),
            2 => Some(Action::SendKey(Key::Shift, Direction::Release)),
            3 => Some(Action::SendKey(Key::Control, Direction::Release)),
            4 => Some(Action::Wait(RELEASE_SETTLE_MS)),
            5 => Some(Action::SendKey(Key::Control, Direction::Press)),
            6 => Some(Action::Wait(KEY_SETTLE_MS)),
            7 => Some(Action::SendKey(Key::Unicode('v'), Direction::Click)),
            8 => Some(Action::Wait(KEY_SETTLE_MS)),
            9 => Some(Action::SendKey(Key::Control, Direction::Release)),
            _ => None,
        }
    }

    /// Takes the driver's report on the pending action and moves on to the
    /// next one. A failure is swallowed here, on purpose: the later actions,
    /// the final release of Control above all, are still worth attempting.
    /// On a finished request nothing changes.
    pub fn record(&mut self, outcome: Outcome)
        ensures
            final(self)@ == old(self)@.recorded(outcome),
    {
        proof {
            use_type_invariant(&*self);
        }
        // discarded on purpose: see above
        let _ = outcome;
        if self.completed < PLAN_LEN {
            self.completed = self.completed + 1;
        }
    }

    /// The phase that the request is in.
    pub fn phase(&self) -> (phase: Phase)
        ensures
            phase == self@.phase(),
    {
        match self.completed {
            0 => Phase::Idle,
            1 => Phase::ClipboardSet,
            2 | 3 => Phase::FocusSettled,
            4 => Phase::ModifiersReleased,
            5 => Phase::ReleaseSettled,
            6 | 7 => Phase::CtrlPressed,
            8 | 9 => Phase::VClicked,
            _ => Phase::CtrlReleased,
        }
    }

    /// Whether every action is over.
    pub fn is_finished(&self) -> (finished: bool)
        ensures
            finished == self@.finished(),
    {
        self.completed >= PLAN_LEN
    }

    /// The text that the request pastes.
    pub fn text(&self) -> (text: &str)
        ensures
            text@ == self@.text,
    {
        self.text.as_str()
    }

    /// How many actions are over.
    pub fn completed(&self) -> (completed: u8)
        ensures
            completed == self@.completed,
            completed <= PLAN_LEN,
    {
        proof {
            use_type_invariant(self);
        }
        self.completed
    }
}

/// Where a request that has `completed` actions behind it stands after
/// `steps` more reports.
pub open spec fn reached(completed: nat, steps: nat) -> nat {
    if completed + steps >= PLAN_LEN {
        PLAN_LEN as nat
    } else {
        completed + steps
    }
}

proof fn lemma_trace_is_plan_segment(request: RequestView, outcomes: Seq<Outcome>)
    requires
        request.completed <= PLAN_LEN,
    ensures
        request.trace(outcomes) == plan(request.text).subrange(
            request.completed as int,
            reached(request.completed, outcomes.len()) as int,
        ),
        request.driven(outcomes) == (RequestView {
            text: request.text,
            completed: reached(request.completed, outcomes.len()),
        }),
    decreases outcomes.len(),
{
    let steps = plan(request.text);
    let from = request.completed as int;
    let to = reached(request.completed, outcomes.len()) as int;
    if outcomes.len() == 0 || request.finished() {
        assert(request.trace(outcomes) =~= steps.subrange(from, to));
    } else {
        let next = request.recorded(outcomes[0]);
        let rest = outcomes.drop_first();
        lemma_trace_is_plan_segment(next, rest);
        assert(reached(next.completed, rest.len()) == to);
        assert(seq![steps[from]] + steps.subrange(from + 1, to) =~= steps.subrange(from, to));
    }
}

/// Driving a new request performs the plan from its start, one action per
/// outcome, whatever the outcomes are.
pub proof fn lemma_trace_follows_plan(text: Seq<char>, outcomes: Seq<Outcome>)
    ensures
        RequestView::fresh(text).trace(outcomes) == plan(text).take(
            reached(0, outcomes.len()) as int,
        ),
        RequestView::fresh(text).driven(outcomes) == (RequestView {
            text,
            completed: reached(0, outcomes.len()),
        }),
{
    lemma_trace_is_plan_segment(RequestView::fresh(text), outcomes);
}

/// A driver that reports on every action performs the whole plan, in order,
/// and ends with a finished request, whichever of the actions failed.
pub proof fn lemma_full_run_completes(text: Seq<char>, outcomes: Seq<Outcome>)
    requires
        outcomes.len() >= PLAN_LEN,
    ensures
        RequestView::fresh(text).trace(outcomes) == plan(text),
        RequestView::fresh(text).driven(outcomes).finished(),
        RequestView::fresh(text).driven(outcomes).pending() is None,
        RequestView::fresh(text).driven(outcomes).phase() == Phase::CtrlReleased,
{
    lemma_trace_follows_plan(text, outcomes);
    assert(plan(text).take(PLAN_LEN as int) =~= plan(text));
}

/// No failure cuts a request short or changes what comes next: two runs from
/// the same state that differ only in their outcomes perform the same actions
/// and end in the same state.
pub proof fn lemma_outcomes_do_not_matter(
    request: RequestView,
    outcomes: Seq<Outcome>,
    others: Seq<Outcome>,
)
    requires
        outcomes.len() == others.len(),
    ensures
        request.trace(outcomes) == request.trace(others),
        request.driven(outcomes) == request.driven(others),
    decreases outcomes.len(),
{
    if outcomes.len() > 0 && !request.finished() {
        assert(request.recorded(outcomes[0]) == request.recorded(others[0]));
        lemma_outcomes_do_not_matter(
            request.recorded(outcomes[0]),
            outcomes.drop_first(),
            others.drop_first(),
        );
    }
}

/// A report never sends a request back or aside: it stays in its phase or
/// moves on to the next one, and a finished request stays where it is.
pub proof fn lemma_phases_are_linear(request: RequestView, outcome: Outcome)
    ensures
        request.recorded(outcome).phase() == request.phase() || request.recorded(outcome).phase()
            == successor(request.phase()),
        request.finished() ==> request.recorded(outcome) == request,
        !request.finished() ==> request.recorded(outcome).completed == request.completed + 1,
{
}

/// Whether `action` sends a key down: a press or a click.
pub open spec fn puts_key_down(action: ActionView) -> bool {
    action matches ActionView::SendKey(_, direction) && direction != Direction::Release
}

/// In every run, Shift and Control have both been released before any key
/// goes down: no press or click is ever sent ahead of the two releases,
/// whatever came of the actions before it.
pub proof fn lemma_release_comes_before_press(text: Seq<char>, outcomes: Seq<Outcome>)
    ensures
        forall|at: int|
            0 <= at < RequestView::fresh(text).trace(outcomes).len() && puts_key_down(
                #[trigger] RequestView::fresh(text).trace(outcomes)[at],
            ) ==> {
                &&& at > 3
                &&& RequestView::fresh(text).trace(outcomes)[2] == ActionView::SendKey(
                    Key::Shift,
                    Direction::Release,
                )
                &&& RequestView::fresh(text).trace(outcomes)[3] == ActionView::SendKey(
                    Key::Control,
                    Direction::Release,
                )
            },
{
    lemma_trace_follows_plan(text, outcomes);
}

} // verus!
