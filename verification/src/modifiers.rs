//! A model of the modifier keys as the input layer sees them, to state what
//! the plan achieves: whatever was held down when a request starts, the `v`
//! is clicked with Control down and Shift up, and nothing is left held.

use crate::action::{ActionView, Direction, Key};
use crate::request::plan;
use vstd::prelude::*;

verus! {

/// Which modifier keys are held down.
pub struct Modifiers {
    pub shift: bool,
    pub control: bool,
}

/// The modifiers after one key event that the input layer has taken. A press
/// leaves the key down; a release or a click leaves it up.
pub open spec fn after_key(held: Modifiers, key: Key, direction: Direction) -> Modifiers {
    let down = direction == Direction::Press;
    match key {
        Key::Shift => Modifiers { shift: down, control: held.control },
        Key::Control => Modifiers { shift: held.shift, control: down },
        Key::Unicode(_) => held,
    }
}

/// The modifiers after one action. Only key events touch them.
pub open spec fn after_action(held: Modifiers, action: ActionView) -> Modifiers {
    match action {
        ActionView::SendKey(key, direction) => after_key(held, key, direction),
        _ => held,
    }
}

/// The modifiers after these actions, in this order.
pub open spec fn after_actions(held: Modifiers, actions: Seq<ActionView>) -> Modifiers
    decreases actions.len(),
{
    if actions.len() == 0 {
        held
    } else {
        after_action(after_actions(held, actions.drop_last()), actions.last())
    }
}

/// Taking one more action applies that action to what the shorter run left.
proof fn lemma_one_more_action(held: Modifiers, actions: Seq<ActionView>, n: int)
    requires
        0 <= n < actions.len(),
    ensures
        after_actions(held, actions.take(n + 1)) == after_action(
            after_actions(held, actions.take(n)),
            actions[n],
        ),
{
    assert(actions.take(n + 1).drop_last() =~= actions.take(n));
}

/// Whatever modifiers were held when the request started, the click of `v`
/// meets Control down and Shift up, and the finished plan leaves both up.
pub proof fn lemma_chord_is_control_v(held: Modifiers, text: Seq<char>)
    ensures
        plan(text)[7] == ActionView::SendKey(Key::Unicode('v'), Direction::Click),
        after_actions(held, plan(text).take(7)) == (Modifiers { shift: false, control: true }),
        after_actions(held, plan(text)) == (Modifiers { shift: false, control: false }),
{
    let steps = plan(text);
    assert(steps.take(10) =~= steps);
    lemma_one_more_action(held, steps, 0);
    lemma_one_more_action(held, steps, 1);
    lemma_one_more_action(held, steps, 2);
    lemma_one_more_action(held, steps, 3);
    lemma_one_more_action(held, steps, 4);
    lemma_one_more_action(held, steps, 5);
    lemma_one_more_action(held, steps, 6);
    lemma_one_more_action(held, steps, 7);
    lemma_one_more_action(held, steps, 8);
    lemma_one_more_action(held, steps, 9);
}

} // verus!
