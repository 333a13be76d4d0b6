use scene_engine::drawing::{
    draw_ascii, draw_ascii_safe, draw_calendar, draw_ground, draw_question, draw_rune_box,
    draw_text_box,
};
use scene_engine::screen::{Cell, Color, Screen};

const YELLOW: Color = Color::Rgb { r: 255, g: 255, b: 0 };
const GREEN: Color = Color::Rgb { r: 0, g: 255, b: 0 };

fn row(screen: &Screen, y: u16) -> String {
    (0..screen.width()).map(|x| screen.get_cell(x, y).rune).collect()
}

fn dotted(size: (u16, u16)) -> Screen {
    let mut screen = Screen::new(size);
    for x in 0..size.0 {
        for y in 0..size.1 {
            screen.set_cell(x, y, '.', Color::Green);
        }
    }
    screen
}

#[test]
fn text_box_is_centred_and_framed() {
    let mut screen = dotted((20, 10));
    let hovered = draw_text_box(&mut screen, 20, 10, "hi", 0, 0, (0, 0), false);
    assert!(!hovered);
    assert_eq!(row(&screen, 3), "....................");
    assert_eq!(row(&screen, 4), "......\u{256d}\u{2500}\u{2500}\u{2500}\u{2500}\u{2500}\u{2500}\u{256e}......");
    assert_eq!(row(&screen, 5), "......\u{2502}  hi  \u{2502}......");
    assert_eq!(row(&screen, 6), "......\u{2570}\u{2500}\u{2500}\u{2500}\u{2500}\u{2500}\u{2500}\u{256f}......");
    assert_eq!(row(&screen, 7), "....................");
    assert_eq!(screen.get_cell(9, 5), Cell { rune: 'h', color: Color::White });
    assert_eq!(screen.get_cell(6, 4).color, Color::White);
    assert_eq!(screen.get_cell(7, 5), Cell { rune: ' ', color: Color::White });
    assert_eq!(screen.get_cell(5, 5), Cell { rune: '.', color: Color::Green });
}

#[test]
fn text_box_is_moved_by_its_offsets() {
    let mut screen = dotted((20, 10));
    draw_text_box(&mut screen, 20, 10, "hi", 3, -2, (0, 0), false);
    assert_eq!(row(&screen, 3), ".........\u{2502}  hi  \u{2502}...");
    assert_eq!(row(&screen, 5), "....................");
}

#[test]
fn text_box_hover_covers_the_frame_exactly() {
    for x in 0..20u16 {
        for y in 0..10u16 {
            let mut screen = Screen::new((20, 10));
            let hovered = draw_text_box(&mut screen, 20, 10, "hi", 0, 0, (x, y), false);
            let inside = (6..=13).contains(&x) && (4..=6).contains(&y);
            assert_eq!(hovered, inside);
        }
    }
}

#[test]
fn text_box_colour_tells_hover_and_button() {
    let mut screen = Screen::new((20, 10));
    assert!(draw_text_box(&mut screen, 20, 10, "hi", 0, 0, (9, 5), false));
    assert_eq!(screen.get_cell(9, 5), Cell { rune: 'h', color: YELLOW });
    assert_eq!(screen.get_cell(6, 4).color, YELLOW);
    assert_eq!(screen.get_cell(13, 5).color, YELLOW);
    assert_eq!(screen.get_cell(7, 5), Cell { rune: ' ', color: Color::White });
    assert!(draw_text_box(&mut screen, 20, 10, "hi", 0, 0, (9, 5), true));
    assert_eq!(screen.get_cell(9, 5), Cell { rune: 'h', color: GREEN });
    assert_eq!(screen.get_cell(13, 6).color, GREEN);
    assert!(!draw_text_box(&mut screen, 20, 10, "hi", 0, 0, (0, 0), true));
    assert_eq!(screen.get_cell(9, 5), Cell { rune: 'h', color: Color::White });
}

#[test]
fn text_box_is_sized_by_bytes() {
    // Two letters that take two bytes each: the box is four wide, the text
    // takes two cells.
    let mut screen = dotted((20, 10));
    draw_text_box(&mut screen, 20, 10, "\u{f8}\u{e5}", 0, 0, (0, 0), false);
    assert_eq!(row(&screen, 5), ".....\u{2502}  \u{f8}\u{e5}    \u{2502}.....");
}

#[test]
fn text_box_in_the_top_row_has_no_upper_border() {
    let mut screen = dotted((20, 10));
    draw_text_box(&mut screen, 20, 10, "hi", 0, -5, (0, 0), false);
    assert_eq!(row(&screen, 0), "......\u{2502}  hi  \u{2502}......");
    assert_eq!(row(&screen, 1), "......\u{2570}\u{2500}\u{2500}\u{2500}\u{2500}\u{2500}\u{2500}\u{256f}......");
}

#[test]
fn text_box_in_the_bottom_row_has_no_lower_border() {
    let mut screen = dotted((20, 10));
    draw_text_box(&mut screen, 20, 10, "hi", 0, 4, (0, 0), false);
    assert_eq!(row(&screen, 8), "......\u{256d}\u{2500}\u{2500}\u{2500}\u{2500}\u{2500}\u{2500}\u{256e}......");
    assert_eq!(row(&screen, 9), "......\u{2502}  hi  \u{2502}......");
}

#[test]
fn text_box_at_the_left_edge_has_no_left_border() {
    let mut screen = dotted((20, 10));
    draw_text_box(&mut screen, 20, 10, "hi", -6, 0, (19, 9), false);
    // The text starts in column 3: the border left of it is not drawn.
    assert_eq!(row(&screen, 5), ".  hi  \u{2502}............");
    assert_eq!(row(&screen, 4), "\u{256d}\u{2500}\u{2500}\u{2500}\u{2500}\u{2500}\u{2500}\u{256e}............");
}

#[test]
fn text_box_wider_than_the_screen_is_clipped() {
    let mut screen = dotted((6, 3));
    let hovered = draw_text_box(&mut screen, 6, 3, "abcdefghij", 0, 0, (0, 1), false);
    // The text starts two columns left of the screen.
    assert!(hovered);
    assert_eq!(row(&screen, 1), "cdefgh");
    assert_eq!(row(&screen, 0), "\u{2500}\u{2500}\u{2500}\u{2500}\u{2500}\u{2500}");
}

#[test]
fn text_box_outside_the_screen_draws_nothing() {
    let mut screen = dotted((20, 10));
    let before = screen.clone_buffer();
    let hovered = draw_text_box(&mut screen, 20, 10, "hi", i16::MAX, i16::MIN, (5, 5), true);
    assert!(!hovered);
    assert_eq!(screen.clone_buffer(), before);
}

#[test]
fn rune_box_takes_text_and_length_apart() {
    let mut screen = dotted((20, 10));
    let runes = vec!['h', 'i'];
    let hovered = draw_rune_box(&mut screen, 20, 10, &runes, 2, 0, 0, (13, 6), false);
    assert!(hovered);
    assert_eq!(row(&screen, 5), "......\u{2502}  hi  \u{2502}......");
}

#[test]
fn question_with_the_right_answer_chosen() {
    let mut screen = Screen::new((80, 24));
    let correct = draw_question(&mut screen, (38, 12), true, "Q?", "yes", &["no", "nah"], 1);
    assert!(correct);
    assert_eq!(screen.get_cell(39, 7).rune, 'Q');
    assert_eq!(screen.get_cell(19, 12), Cell { rune: 'n', color: Color::White });
    assert_eq!(screen.get_cell(38, 12), Cell { rune: 'y', color: GREEN });
    assert_eq!(screen.get_cell(58, 12), Cell { rune: 'n', color: Color::White });
    assert_eq!(screen.get_cell(60, 12).rune, 'h');
    assert_eq!(screen.get_cell(36, 17).rune, 'C');
    assert_eq!(screen.get_cell(43, 17).rune, '!');
}

#[test]
fn question_with_a_wrong_answer_chosen() {
    let mut screen = Screen::new((80, 24));
    let correct = draw_question(&mut screen, (19, 12), true, "Q?", "yes", &["no", "nah"], 1);
    assert!(!correct);
    assert_eq!(screen.get_cell(19, 12), Cell { rune: 'n', color: GREEN });
    assert_eq!(screen.get_cell(37, 17).rune, 'W');
    assert_eq!(screen.get_cell(42, 17).rune, '!');
}

#[test]
fn question_without_the_button_gives_no_verdict() {
    let mut screen = Screen::new((80, 24));
    let correct = draw_question(&mut screen, (38, 12), false, "Q?", "yes", &["no", "nah"], 1);
    assert!(!correct);
    assert_eq!(screen.get_cell(38, 12), Cell { rune: 'y', color: YELLOW });
    assert_eq!(row(&screen, 17), " ".repeat(80));
}

#[test]
fn question_with_the_mouse_elsewhere_gives_no_verdict() {
    let mut screen = Screen::new((80, 24));
    assert!(!draw_question(&mut screen, (0, 23), true, "Q?", "yes", &["no", "nah"], 1));
    assert_eq!(row(&screen, 17), " ".repeat(80));
}

#[test]
fn question_puts_the_right_answer_at_its_position() {
    let expected: [[(u16, char); 6]; 3] = [
        [(18, 'y'), (19, 'e'), (39, 'n'), (40, 'o'), (58, 'n'), (59, 'a')],
        [(19, 'n'), (20, 'o'), (38, 'y'), (39, 'e'), (58, 'n'), (59, 'a')],
        [(19, 'n'), (20, 'o'), (38, 'n'), (39, 'a'), (58, 'y'), (59, 'e')],
    ];
    for position in 0..3usize {
        let mut screen = Screen::new((80, 24));
        draw_question(&mut screen, (0, 0), false, "Q?", "yes", &["no", "nah"], position);
        for (x, rune) in expected[position] {
            assert_eq!(screen.get_cell(x, 12).rune, rune);
        }
    }
}

#[test]
fn question_over_right_and_wrong_answer_is_wrong() {
    // Long answers make the boxes overlap: the mouse is over both.
    let wrong = ["a wrong answer that is rather long"];
    let mut screen = Screen::new((80, 24));
    let correct = draw_question(
        &mut screen,
        (40, 12),
        true,
        "Q?",
        "the right answer, which is long too",
        &wrong,
        0,
    );
    assert!(!correct);
    assert_eq!(screen.get_cell(37, 17).rune, 'W');
}

#[test]
fn question_without_wrong_answers() {
    let none: [&str; 0] = [];
    let mut screen = Screen::new((80, 24));
    assert!(draw_question(&mut screen, (39, 12), true, "Q?", "ok", &none, 0));
    assert_eq!(screen.get_cell(39, 12), Cell { rune: 'o', color: GREEN });
}

#[test]
fn calendar_draws_twenty_four_days() {
    let mut screen = Screen::new((80, 24));
    assert_eq!(draw_calendar(&mut screen, (0, 0), false), None);
    assert_eq!(screen.get_cell(15, 6).rune, '0');
    assert_eq!(screen.get_cell(16, 6).rune, '1');
    assert_eq!(screen.get_cell(25, 6).rune, '0');
    assert_eq!(screen.get_cell(26, 6).rune, '2');
    assert_eq!(screen.get_cell(15, 10).rune, '0');
    assert_eq!(screen.get_cell(16, 10).rune, '7');
    assert_eq!(screen.get_cell(45, 10).rune, '1');
    assert_eq!(screen.get_cell(46, 10).rune, '0');
    assert_eq!(screen.get_cell(65, 18).rune, '2');
    assert_eq!(screen.get_cell(66, 18).rune, '4');
}

#[test]
fn calendar_returns_the_day_under_the_mouse() {
    let mut screen = Screen::new((80, 24));
    assert_eq!(draw_calendar(&mut screen, (15, 6), true), Some(1));
    assert_eq!(draw_calendar(&mut screen, (12, 5), true), Some(1));
    assert_eq!(draw_calendar(&mut screen, (19, 7), true), Some(1));
    assert_eq!(draw_calendar(&mut screen, (25, 6), true), Some(2));
    assert_eq!(draw_calendar(&mut screen, (16, 10), true), Some(7));
    assert_eq!(draw_calendar(&mut screen, (65, 18), true), Some(24));
    assert_eq!(draw_calendar(&mut screen, (69, 19), true), Some(24));
}

#[test]
fn calendar_returns_nothing_without_button_or_day() {
    let mut screen = Screen::new((80, 24));
    assert_eq!(draw_calendar(&mut screen, (15, 6), false), None);
    assert_eq!(draw_calendar(&mut screen, (20, 6), true), None);
    assert_eq!(draw_calendar(&mut screen, (15, 8), true), None);
    assert_eq!(draw_calendar(&mut screen, (0, 0), true), None);
}

#[test]
fn calendar_on_a_small_screen_returns_the_first_day_hit() {
    // On a screen of one column the third box of each row is the first that
    // reaches over column 0.
    let mut screen = Screen::new((1, 24));
    assert_eq!(draw_calendar(&mut screen, (0, 6), true), Some(3));
}

#[test]
fn ascii_art_skips_spaces_and_follows_lines() {
    let mut screen = dotted((6, 4));
    draw_ascii(&mut screen, "ab\n c\n\nd", 1, 0);
    assert_eq!(row(&screen, 0), ".ab...");
    assert_eq!(row(&screen, 1), "..c...");
    assert_eq!(row(&screen, 2), "......");
    assert_eq!(row(&screen, 3), ".d....");
    assert_eq!(screen.get_cell(1, 0), Cell { rune: 'a', color: Color::White });
}

#[test]
fn ascii_art_drops_carriage_returns_at_line_ends() {
    let mut screen = dotted((6, 3));
    draw_ascii(&mut screen, "ab\r\ncd\r", 0, 0);
    assert_eq!(row(&screen, 0), "ab....");
    assert_eq!(row(&screen, 1), "cd\r...");
}

#[test]
fn ascii_art_safe_clips_on_all_sides() {
    let mut screen = dotted((3, 2));
    draw_ascii_safe(&mut screen, "abcde\nfghij\nklmno", -1, -1);
    assert_eq!(row(&screen, 0), "ghi");
    assert_eq!(row(&screen, 1), "lmn");
}

#[test]
fn ascii_art_far_outside_draws_nothing() {
    let mut screen = dotted((3, 2));
    let before = screen.clone_buffer();
    draw_ascii_safe(&mut screen, "abc\ndef", i16::MAX, i16::MAX);
    draw_ascii_safe(&mut screen, "abc\ndef", i16::MIN, i16::MIN);
    draw_ascii(&mut screen, "abc\ndef", u16::MAX, u16::MAX);
    assert_eq!(screen.clone_buffer(), before);
}

#[test]
fn ground_fills_the_bottom_row() {
    let mut screen = dotted((5, 3));
    draw_ground(&mut screen);
    assert_eq!(row(&screen, 0), ".....");
    assert_eq!(row(&screen, 1), ".....");
    assert_eq!(row(&screen, 2), "\u{2588}\u{2588}\u{2588}\u{2588}\u{2588}");
    assert_eq!(screen.get_cell(0, 2).color, Color::White);
}

#[test]
fn ground_on_a_screen_without_rows_draws_nothing() {
    let mut screen = Screen::new((5, 0));
    draw_ground(&mut screen);
    assert_eq!(screen.clone_buffer().len(), 0);
}
