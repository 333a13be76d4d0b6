use scene_engine::input::{Input, InputEvent, KeyEdge, MouseButton, RawEvent};

fn frame(input: &mut Input, events: Vec<RawEvent>) -> Option<(u16, u16)> {
    let polled: Result<Vec<RawEvent>, String> = Ok(events);
    input.update(polled).unwrap()
}

#[test]
fn new_input_has_seen_nothing() {
    let input = Input::new();
    assert_eq!(input.mouse_position(), (0, 0));
    for button in [MouseButton::Left, MouseButton::Middle, MouseButton::Right] {
        assert!(!input.is_mouse_down(button));
        assert!(!input.is_mouse_up(button));
    }
    assert_eq!(input.key_event('a'), None);
    assert!(input.keymap().is_empty());
}

#[test]
fn release_is_seen_for_exactly_one_frame() {
    let mut input = Input::new();
    frame(&mut input, vec![RawEvent::MouseUp { button: MouseButton::Left }]);
    assert!(input.is_mouse_up(MouseButton::Left));
    frame(&mut input, vec![]);
    assert!(!input.is_mouse_up(MouseButton::Left));
}

#[test]
fn release_of_one_button_is_not_that_of_another() {
    let mut input = Input::new();
    frame(&mut input, vec![RawEvent::MouseUp { button: MouseButton::Right }]);
    assert!(input.is_mouse_up(MouseButton::Right));
    assert!(!input.is_mouse_up(MouseButton::Left));
    assert!(!input.is_mouse_up(MouseButton::Middle));
}

#[test]
fn button_level_lasts_until_release() {
    let mut input = Input::new();
    frame(&mut input, vec![RawEvent::MouseDown { button: MouseButton::Left }]);
    assert!(input.is_mouse_down(MouseButton::Left));
    frame(&mut input, vec![]);
    assert!(input.is_mouse_down(MouseButton::Left));
    frame(&mut input, vec![RawEvent::MouseUp { button: MouseButton::Left }]);
    assert!(!input.is_mouse_down(MouseButton::Left));
    assert!(input.is_mouse_up(MouseButton::Left));
}

#[test]
fn mouse_move_updates_position_and_lasts() {
    let mut input = Input::new();
    frame(
        &mut input,
        vec![RawEvent::MouseMove { x: 3, y: 4 }, RawEvent::MouseMove { x: 7, y: 9 }],
    );
    assert_eq!(input.mouse_position(), (7, 9));
    frame(&mut input, vec![]);
    assert_eq!(input.mouse_position(), (7, 9));
}

#[test]
fn button_events_leave_the_position_alone() {
    let mut input = Input::new();
    frame(&mut input, vec![RawEvent::MouseMove { x: 3, y: 4 }]);
    frame(
        &mut input,
        vec![
            RawEvent::MouseDown { button: MouseButton::Left },
            RawEvent::MouseUp { button: MouseButton::Left },
        ],
    );
    assert_eq!(input.mouse_position(), (3, 4));
}

#[test]
fn key_edge_is_the_latest_of_the_frame() {
    let mut input = Input::new();
    frame(
        &mut input,
        vec![
            RawEvent::Key { key: 'a', edge: InputEvent::Down },
            RawEvent::Key { key: 'b', edge: InputEvent::Down },
            RawEvent::Key { key: 'a', edge: InputEvent::Up },
        ],
    );
    assert_eq!(input.key_event('a'), Some(InputEvent::Up));
    assert_eq!(input.key_event('b'), Some(InputEvent::Down));
    assert_eq!(input.key_event('c'), None);
    assert!(input.is_key_up('a'));
    assert!(!input.is_key_down('a'));
    assert!(input.is_key_down('b'));
    assert_eq!(
        input.keymap(),
        vec![
            KeyEdge { key: 'a', edge: InputEvent::Down },
            KeyEdge { key: 'b', edge: InputEvent::Down },
            KeyEdge { key: 'a', edge: InputEvent::Up },
        ]
    );
}

#[test]
fn key_edges_are_cleared_by_the_next_frame() {
    let mut input = Input::new();
    frame(&mut input, vec![RawEvent::Key { key: 'q', edge: InputEvent::Down }]);
    assert!(input.is_key_down('q'));
    frame(&mut input, vec![]);
    assert_eq!(input.key_event('q'), None);
    assert!(input.keymap().is_empty());
}

#[test]
fn resize_is_returned_to_the_caller() {
    let mut input = Input::new();
    let size = frame(
        &mut input,
        vec![
            RawEvent::Resize { width: 10, height: 5 },
            RawEvent::MouseMove { x: 1, y: 1 },
            RawEvent::Resize { width: 120, height: 40 },
        ],
    );
    assert_eq!(size, Some((120, 40)));
    assert_eq!(frame(&mut input, vec![RawEvent::MouseMove { x: 2, y: 2 }]), None);
    assert_eq!(frame(&mut input, vec![]), None);
}

#[test]
fn failure_of_the_source_is_handed_back() {
    let mut input = Input::new();
    frame(
        &mut input,
        vec![
            RawEvent::MouseMove { x: 5, y: 6 },
            RawEvent::MouseDown { button: MouseButton::Left },
            RawEvent::MouseUp { button: MouseButton::Middle },
            RawEvent::Key { key: 'k', edge: InputEvent::Down },
        ],
    );
    let polled: Result<Vec<RawEvent>, String> = Err(String::from("source closed"));
    assert_eq!(input.update(polled), Err(String::from("source closed")));
    assert!(!input.is_mouse_up(MouseButton::Middle));
    assert_eq!(input.key_event('k'), None);
    assert_eq!(input.mouse_position(), (5, 6));
    assert!(input.is_mouse_down(MouseButton::Left));
}

#[test]
fn apply_folds_one_event() {
    let mut input = Input::new();
    assert_eq!(input.apply(RawEvent::MouseMove { x: 9, y: 8 }), None);
    assert_eq!(input.apply(RawEvent::Resize { width: 3, height: 2 }), Some((3, 2)));
    assert_eq!(input.apply(RawEvent::MouseUp { button: MouseButton::Left }), None);
    assert_eq!(input.mouse_position(), (9, 8));
    assert!(input.is_mouse_up(MouseButton::Left));
    input.begin_frame();
    assert!(!input.is_mouse_up(MouseButton::Left));
    assert_eq!(input.mouse_position(), (9, 8));
}
