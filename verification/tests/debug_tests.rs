use scene_engine::drawing::{decimal_runes, draw_debug_info};
use scene_engine::input::{Input, InputEvent, MouseButton, RawEvent};
use scene_engine::screen::{Color, Screen};

fn line(screen: &Screen, y: u16) -> String {
    let text: String = (0..screen.width()).map(|x| screen.get_cell(x, y).rune).collect();
    String::from(text.trim_end())
}

fn input_after(events: Vec<RawEvent>) -> Input {
    let mut input = Input::new();
    let polled: Result<Vec<RawEvent>, String> = Ok(events);
    input.update(polled).unwrap();
    input
}

#[test]
fn decimal_runes_of_some_numbers() {
    assert_eq!(decimal_runes(0), vec!['0']);
    assert_eq!(decimal_runes(7), vec!['7']);
    assert_eq!(decimal_runes(10), vec!['1', '0']);
    assert_eq!(decimal_runes(905), vec!['9', '0', '5']);
    let greatest: String = decimal_runes(u32::MAX).into_iter().collect();
    assert_eq!(greatest, "4294967295");
}

#[test]
fn debug_info_writes_its_lines() {
    let input = input_after(vec![
        RawEvent::MouseMove { x: 3, y: 14 },
        RawEvent::MouseDown { button: MouseButton::Left },
        RawEvent::Key { key: 'a', edge: InputEvent::Down },
        RawEvent::Key { key: 'q', edge: InputEvent::Up },
    ]);
    let mut screen = Screen::new((40, 10));
    draw_debug_info(&mut screen, &input, 16_667);
    assert_eq!(line(&screen, 0), "FPS: 60");
    assert_eq!(line(&screen, 1), "Mouse: (3, 14)");
    assert_eq!(line(&screen, 2), "Mouse Left: true");
    assert_eq!(line(&screen, 3), "Mouse Middle: false");
    assert_eq!(line(&screen, 4), "Mouse Right: false");
    assert_eq!(line(&screen, 5), "Key a: Down");
    assert_eq!(line(&screen, 6), "Key q: Up");
    assert_eq!(line(&screen, 7), "");
    assert_eq!(screen.get_cell(0, 0).color, Color::White);
}

#[test]
fn debug_info_rounds_the_frame_rate() {
    let input = Input::new();
    for (dt, expected) in [
        (1_000_000u64, "FPS: 1"),
        (400_000, "FPS: 3"),
        (3, "FPS: 333333"),
        (1, "FPS: 1000000"),
        (2_000_001, "FPS: 0"),
        (u64::MAX, "FPS: 0"),
        (0, "FPS: inf"),
    ] {
        let mut screen = Screen::new((40, 10));
        draw_debug_info(&mut screen, &input, dt);
        assert_eq!(line(&screen, 0), expected);
    }
}

#[test]
fn debug_info_is_clipped_by_the_screen() {
    let input = input_after(vec![RawEvent::Key { key: 'a', edge: InputEvent::Down }]);
    let mut screen = Screen::new((4, 2));
    draw_debug_info(&mut screen, &input, 1_000_000);
    assert_eq!(line(&screen, 0), "FPS:");
    assert_eq!(line(&screen, 1), "Mous");
}
