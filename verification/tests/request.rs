use clip_paste::action::{Action, Direction, Key, Outcome};
use clip_paste::request::{
    PasteRequest, Phase, FOCUS_SETTLE_MS, KEY_SETTLE_MS, PLAN_LEN, RELEASE_SETTLE_MS,
};

/// Drives `request` to its end. The action at position `i` meets
/// `outcomes[i]`, or `Outcome::Done` past the end of `outcomes`.
fn drive(request: &mut PasteRequest, outcomes: &[Outcome]) -> Vec<Action> {
    let mut performed = Vec::new();
    while let Some(action) = request.pending() {
        let outcome = outcomes.get(performed.len()).copied().unwrap_or(Outcome::Done);
        performed.push(action);
        request.record(outcome);
        assert!(performed.len() <= 1_000);
    }
    performed
}

fn whole_plan(text: &str) -> Vec<Action> {
    vec![
        Action::SetClipboard(text.to_string()),
        Action::Wait(200),
        Action::SendKey(Key::Shift, Direction::Release),
        Action::SendKey(Key::Control, Direction::Release),
        Action::Wait(50),
        Action::SendKey(Key::Control, Direction::Press),
        Action::Wait(30),
        Action::SendKey(Key::Unicode('v'), Direction::Click),
        Action::Wait(30),
        Action::SendKey(Key::Control, Direction::Release),
    ]
}

/// The modifier keys as a simulated input layer holds them.
#[derive(Clone, Copy, Debug, PartialEq, Eq)]
struct Held {
    shift: bool,
    control: bool,
}

fn send(held: &mut Held, key: Key, direction: Direction) {
    let down = direction == Direction::Press;
    match key {
        Key::Shift => held.shift = down,
        Key::Control => held.control = down,
        Key::Unicode(_) => {}
    }
}

#[test]
fn delays_are_as_documented() {
    assert_eq!(FOCUS_SETTLE_MS, 200);
    assert_eq!(RELEASE_SETTLE_MS, 50);
    assert_eq!(KEY_SETTLE_MS, 30);
    assert_eq!(PLAN_LEN, 10);
}

#[test]
fn new_request_is_idle_and_starts_with_the_clipboard() {
    let request = PasteRequest::new("hello".to_string());
    assert_eq!(request.phase(), Phase::Idle);
    assert_eq!(request.completed(), 0);
    assert!(!request.is_finished());
    assert_eq!(request.text(), "hello");
    assert_eq!(request.pending(), Some(Action::SetClipboard("hello".to_string())));
}

#[test]
fn pending_does_not_advance() {
    let request = PasteRequest::new("x".to_string());
    assert_eq!(request.pending(), request.pending());
    assert_eq!(request.completed(), 0);
}

#[test]
fn accepted_invocation_performs_the_whole_plan_in_order() {
    let mut request = PasteRequest::new("hello".to_string());
    let performed = drive(&mut request, &[]);
    assert_eq!(performed, whole_plan("hello"));
    assert!(request.is_finished());
    assert_eq!(request.phase(), Phase::CtrlReleased);
    assert_eq!(request.pending(), None);
}

#[test]
fn collaborators_see_the_calls_in_order() {
    let mut request = PasteRequest::new("hello".to_string());
    let calls: Vec<Action> = drive(&mut request, &[])
        .into_iter()
        .filter(|action| !matches!(action, Action::Wait(_)))
        .collect();
    assert_eq!(
        calls,
        vec![
            Action::SetClipboard("hello".to_string()),
            Action::SendKey(Key::Shift, Direction::Release),
            Action::SendKey(Key::Control, Direction::Release),
            Action::SendKey(Key::Control, Direction::Press),
            Action::SendKey(Key::Unicode('v'), Direction::Click),
            Action::SendKey(Key::Control, Direction::Release),
        ]
    );
}

#[test]
fn delays_add_up() {
    let mut request = PasteRequest::new("hello".to_string());
    let mut total = 0;
    let mut delays = Vec::new();
    for action in drive(&mut request, &[]) {
        if let Action::Wait(millis) = action {
            total += millis;
            delays.push(millis);
        }
    }
    assert_eq!(delays, vec![200, 50, 30, 30]);
    assert_eq!(total, 310);
}

#[test]
fn phases_follow_one_another() {
    let mut request = PasteRequest::new("hello".to_string());
    let mut phases = vec![request.phase()];
    while request.pending().is_some() {
        request.record(Outcome::Done);
        phases.push(request.phase());
    }
    assert_eq!(
        phases,
        vec![
            Phase::Idle,
            Phase::ClipboardSet,
            Phase::FocusSettled,
            Phase::FocusSettled,
            Phase::ModifiersReleased,
            Phase::ReleaseSettled,
            Phase::CtrlPressed,
            Phase::CtrlPressed,
            Phase::VClicked,
            Phase::VClicked,
            Phase::CtrlReleased,
        ]
    );
}

#[test]
fn phase_names_what_is_behind() {
    let mut request = PasteRequest::new("hello".to_string());
    // both modifiers are released only after the second release
    for _ in 0..3 {
        request.record(Outcome::Done);
    }
    assert_eq!(request.pending(), Some(Action::SendKey(Key::Control, Direction::Release)));
    assert_eq!(request.phase(), Phase::FocusSettled);
    request.record(Outcome::Done);
    assert_eq!(request.phase(), Phase::ModifiersReleased);
    assert_eq!(request.pending(), Some(Action::Wait(50)));
}

#[test]
fn failed_clipboard_write_does_not_stop_the_keys() {
    let mut request = PasteRequest::new("hello".to_string());
    let performed = drive(&mut request, &[Outcome::Failed]);
    assert_eq!(performed, whole_plan("hello"));
    assert!(request.is_finished());
}

#[test]
fn any_single_failure_leaves_the_rest_in_place() {
    for failing in 0..10 {
        let mut outcomes = vec![Outcome::Done; 10];
        outcomes[failing] = Outcome::Failed;
        let mut request = PasteRequest::new("hello".to_string());
        let performed = drive(&mut request, &outcomes);
        assert_eq!(performed, whole_plan("hello"));
        assert!(request.is_finished());
        assert_eq!(request.phase(), Phase::CtrlReleased);
    }
}

#[test]
fn failure_of_everything_still_reaches_the_end() {
    let mut request = PasteRequest::new("hello".to_string());
    let performed = drive(&mut request, &[Outcome::Failed; 10]);
    assert_eq!(performed, whole_plan("hello"));
    assert_eq!(request.completed(), 10);
    assert_eq!(request.phase(), Phase::CtrlReleased);
}

#[test]
fn failed_action_counts_as_over() {
    let mut request = PasteRequest::new("hello".to_string());
    request.record(Outcome::Failed);
    assert_eq!(request.completed(), 1);
    assert_eq!(request.phase(), Phase::ClipboardSet);
    assert_eq!(request.pending(), Some(Action::Wait(200)));
}

#[test]
fn finished_request_stays_finished() {
    let mut request = PasteRequest::new("hello".to_string());
    drive(&mut request, &[]);
    request.record(Outcome::Done);
    request.record(Outcome::Failed);
    assert_eq!(request.completed(), 10);
    assert!(request.is_finished());
    assert_eq!(request.pending(), None);
    assert_eq!(request.phase(), Phase::CtrlReleased);
    assert_eq!(request.text(), "hello");
}

#[test]
fn modifiers_are_released_before_anything_is_pressed() {
    let mut request = PasteRequest::new("hello".to_string());
    let performed = drive(&mut request, &[]);
    let first_down = performed
        .iter()
        .position(|action| {
            matches!(action, Action::SendKey(_, Direction::Press | Direction::Click))
        })
        .unwrap();
    let shift_up = performed
        .iter()
        .position(|action| *action == Action::SendKey(Key::Shift, Direction::Release))
        .unwrap();
    let control_up = performed
        .iter()
        .position(|action| *action == Action::SendKey(Key::Control, Direction::Release))
        .unwrap();
    assert_eq!((shift_up, control_up, first_down), (2, 3, 5));
}

#[test]
fn chord_is_control_v_whatever_was_held() {
    let starts = [
        Held { shift: true, control: false },
        Held { shift: false, control: true },
        Held { shift: false, control: false },
        Held { shift: true, control: true },
    ];
    for start in starts {
        let mut held = start;
        let mut request = PasteRequest::new("hello".to_string());
        let mut clicked = false;
        for action in drive(&mut request, &[]) {
            if let Action::SendKey(key, direction) = action {
                if key == Key::Unicode('v') {
                    assert_eq!(direction, Direction::Click);
                    assert_eq!(held, Held { shift: false, control: true });
                    clicked = true;
                }
                send(&mut held, key, direction);
            }
        }
        assert!(clicked);
        assert_eq!(held, Held { shift: false, control: false });
    }
}

#[test]
fn text_goes_to_the_clipboard_unchanged() {
    for text in ["", " ", "hello", "line one\nline two\t.", "större än 剪贴板 ✓", "v"] {
        let mut request = PasteRequest::new(text.to_string());
        assert_eq!(request.text(), text);
        let performed = drive(&mut request, &[]);
        assert_eq!(performed, whole_plan(text));
    }
}

#[test]
fn only_the_first_action_depends_on_the_text() {
    let mut one = PasteRequest::new("one".to_string());
    let mut two = PasteRequest::new("two".to_string());
    let first = drive(&mut one, &[]);
    let second = drive(&mut two, &[]);
    assert_ne!(first[0], second[0]);
    assert_eq!(first[1..], second[1..]);
}

#[test]
fn cloned_action_is_equal() {
    for action in whole_plan("hello") {
        assert_eq!(action.clone(), action);
    }
}
