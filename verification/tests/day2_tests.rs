use scene_engine::input::{Input, MouseButton, RawEvent};
use scene_engine::screen::{Cell, Color, Screen};
use scene_engine::states::day2_state::{lay_out, Day2State, Piece};

const FACES: [char; 8] = [
    '\u{3b1}', '\u{3b2}', '\u{3b3}', '\u{3b4}', '\u{3b5}', '\u{3b6}', '\u{3b7}', '\u{3b8}',
];

fn ordered_deck() -> Vec<char> {
    let mut deck = FACES.to_vec();
    deck.extend_from_slice(&FACES);
    deck
}

fn row(screen: &Screen, y: u16) -> String {
    (0..screen.width()).map(|x| screen.get_cell(x, y).rune).collect()
}

/// One frame in which the mouse moved to `at` and the left button did what
/// `events` say.
fn frame(
    game: &mut Day2State,
    screen: &mut Screen,
    input: &mut Input,
    at: (u16, u16),
    released: bool,
) -> bool {
    let mut events = vec![RawEvent::MouseMove { x: at.0, y: at.1 }];
    if released {
        events.push(RawEvent::MouseDown { button: MouseButton::Left });
        events.push(RawEvent::MouseUp { button: MouseButton::Left });
    }
    let polled: Result<Vec<RawEvent>, String> = Ok(events);
    input.update(polled).unwrap();
    screen.clear();
    game.update(screen, input, 16_000)
}

/// Where the box of the card in column `x` and row `y` of the table starts
/// on a screen of 80 by 40.
fn card_at(x: u16, y: u16) -> (u16, u16) {
    (27 + 9 * x, 12 + 4 * y)
}

#[test]
fn lay_out_fills_columns_from_the_end_of_the_deck() {
    let pieces = lay_out(ordered_deck());
    assert_eq!(pieces.len(), 16);
    for (k, piece) in pieces.iter().enumerate() {
        assert_eq!(
            *piece,
            Piece { x: (k / 4) as u16, y: (k % 4) as u16, sprite: FACES[(15 - k) % 8] }
        );
    }
    assert_eq!(pieces[0], Piece { x: 0, y: 0, sprite: '\u{3b8}' });
    assert_eq!(pieces[5], Piece { x: 1, y: 1, sprite: '\u{3b3}' });
    assert_eq!(pieces[15], Piece { x: 3, y: 3, sprite: '\u{3b1}' });
}

#[test]
fn new_game_holds_every_face_twice() {
    let game = Day2State::new();
    assert_eq!(game.moves(), 0);
    assert!(game.selected().is_empty());
    assert_eq!(game.pieces().len(), 16);
    for face in FACES {
        assert_eq!(game.pieces().iter().filter(|piece| piece.sprite == face).count(), 2);
    }
    for (k, piece) in game.pieces().iter().enumerate() {
        assert_eq!((piece.x, piece.y), ((k / 4) as u16, (k % 4) as u16));
    }
}

#[test]
fn new_game_is_shuffled() {
    let unshuffled = lay_out(ordered_deck());
    let mut differing = 0;
    for _ in 0..8 {
        let game = Day2State::new();
        if *game.pieces() != unshuffled {
            differing += 1;
        }
    }
    assert!(differing > 0);
}

#[test]
fn game_with_a_given_deck_starts_fresh() {
    let game = Day2State::with_deck(ordered_deck());
    assert_eq!(*game.pieces(), lay_out(ordered_deck()));
    assert!(game.selected().is_empty());
    assert_eq!(game.moves(), 0);
}

#[test]
fn enter_and_exit_change_nothing() {
    let mut game = Day2State::with_deck(ordered_deck());
    let mut screen = Screen::new((80, 40));
    screen.set_cell(1, 1, 'k', Color::Green);
    let before = screen.clone_buffer();
    let input = Input::new();
    game.enter(&mut screen, &input);
    game.exit(&mut screen, &input);
    assert_eq!(screen.clone_buffer(), before);
    assert_eq!(*game.pieces(), lay_out(ordered_deck()));
}

#[test]
fn table_is_drawn_face_down() {
    let mut game = Day2State::with_deck(ordered_deck());
    let mut screen = Screen::new((80, 40));
    let mut input = Input::new();
    let leave = frame(&mut game, &mut screen, &mut input, (0, 0), false);
    assert!(!leave);
    // The counter: ten bytes wide, eight rows from the top.
    assert_eq!(
        row(&screen, 8),
        format!("{:32}\u{2502}  Fors\u{f8}k: 0   \u{2502}{:32}", "", "")
    );
    // The first card: an empty box of two columns.
    assert_eq!(screen.get_cell(24, 12).rune, '\u{2502}');
    assert_eq!(screen.get_cell(27, 12).rune, ' ');
    assert_eq!(screen.get_cell(28, 12).rune, ' ');
    assert_eq!(screen.get_cell(31, 12).rune, '\u{2502}');
    assert_eq!(screen.get_cell(24, 11).rune, '\u{256d}');
    // The last card, in column 3 and row 3.
    assert_eq!(screen.get_cell(51, 24).rune, '\u{2502}');
    assert_eq!(screen.get_cell(58, 24).rune, '\u{2502}');
    // The way back.
    assert_eq!(screen.get_cell(36, 32).rune, 'T');
    assert_eq!(screen.get_cell(42, 32).rune, 'e');
    for face in FACES {
        assert!(screen.clone_buffer().iter().all(|cell| cell.rune != face));
    }
}

#[test]
fn release_over_a_card_turns_it() {
    let mut game = Day2State::with_deck(ordered_deck());
    let mut screen = Screen::new((80, 40));
    let mut input = Input::new();
    frame(&mut game, &mut screen, &mut input, card_at(0, 0), true);
    assert_eq!(*game.selected(), vec![0]);
    assert_eq!(game.moves(), 0);
    // The face shows from the next frame on.
    assert_eq!(screen.get_cell(27, 12).rune, ' ');
    frame(&mut game, &mut screen, &mut input, (0, 0), false);
    assert_eq!(screen.get_cell(27, 12), Cell { rune: '\u{3b8}', color: Color::White });
    assert_eq!(*game.selected(), vec![0]);
}

#[test]
fn hover_without_release_turns_nothing() {
    let mut game = Day2State::with_deck(ordered_deck());
    let mut screen = Screen::new((80, 40));
    let mut input = Input::new();
    frame(&mut game, &mut screen, &mut input, card_at(1, 2), false);
    assert!(game.selected().is_empty());
    assert_eq!(screen.get_cell(33, 20).color, Color::Rgb { r: 255, g: 255, b: 0 });
}

#[test]
fn second_release_over_the_turned_card_is_ignored() {
    let mut game = Day2State::with_deck(ordered_deck());
    let mut screen = Screen::new((80, 40));
    let mut input = Input::new();
    frame(&mut game, &mut screen, &mut input, card_at(0, 0), true);
    frame(&mut game, &mut screen, &mut input, card_at(0, 0), true);
    assert_eq!(*game.selected(), vec![0]);
    assert_eq!(game.moves(), 0);
}

#[test]
fn pair_of_equal_cards_leaves_the_table() {
    let mut game = Day2State::with_deck(ordered_deck());
    let mut screen = Screen::new((80, 40));
    let mut input = Input::new();
    // The cards 0 and 8 both show the last letter of the deck.
    frame(&mut game, &mut screen, &mut input, card_at(0, 0), true);
    frame(&mut game, &mut screen, &mut input, card_at(2, 0), true);
    assert_eq!(game.moves(), 1);
    assert!(game.selected().is_empty());
    assert_eq!(game.pieces().len(), 14);
    let mut expected = lay_out(ordered_deck());
    expected.remove(8);
    expected.remove(0);
    assert_eq!(*game.pieces(), expected);
}

#[test]
fn pair_turned_in_the_other_order_leaves_the_table_too() {
    let mut game = Day2State::with_deck(ordered_deck());
    let mut screen = Screen::new((80, 40));
    let mut input = Input::new();
    frame(&mut game, &mut screen, &mut input, card_at(2, 0), true);
    assert_eq!(*game.selected(), vec![8]);
    frame(&mut game, &mut screen, &mut input, card_at(0, 0), true);
    assert_eq!(game.moves(), 1);
    let mut expected = lay_out(ordered_deck());
    expected.remove(8);
    expected.remove(0);
    assert_eq!(*game.pieces(), expected);
}

#[test]
fn pair_of_different_cards_stays_and_counts_as_a_move() {
    let mut game = Day2State::with_deck(ordered_deck());
    let mut screen = Screen::new((80, 40));
    let mut input = Input::new();
    frame(&mut game, &mut screen, &mut input, card_at(0, 0), true);
    frame(&mut game, &mut screen, &mut input, card_at(0, 1), true);
    assert_eq!(game.moves(), 1);
    assert!(game.selected().is_empty());
    assert_eq!(*game.pieces(), lay_out(ordered_deck()));
    frame(&mut game, &mut screen, &mut input, (0, 0), false);
    assert_eq!(
        row(&screen, 8),
        format!("{:32}\u{2502}  Fors\u{f8}k: 1   \u{2502}{:32}", "", "")
    );
}

#[test]
fn whole_game_ends_with_a_greeting() {
    let mut game = Day2State::with_deck(ordered_deck());
    let mut screen = Screen::new((80, 40));
    let mut input = Input::new();
    for round in 0..8 {
        // The first card on the table always pairs with the one that lies
        // eight cards further on, less what has left in between.
        let second = game
            .pieces()
            .iter()
            .skip(1)
            .find(|piece| piece.sprite == game.pieces()[0].sprite)
            .map(|piece| (piece.x, piece.y))
            .unwrap();
        let first = (game.pieces()[0].x, game.pieces()[0].y);
        frame(&mut game, &mut screen, &mut input, card_at(first.0, first.1), true);
        frame(&mut game, &mut screen, &mut input, card_at(second.0, second.1), true);
        assert_eq!(game.pieces().len(), 16 - 2 * (round + 1));
        assert_eq!(game.moves(), round as u32 + 1);
    }
    assert!(game.pieces().is_empty());
    assert_eq!(screen.get_cell(34, 20).rune, 'G');
    assert_eq!(screen.get_cell(44, 20).rune, '!');
    frame(&mut game, &mut screen, &mut input, (0, 0), false);
    assert_eq!(screen.get_cell(34, 20).rune, 'G');
}

#[test]
fn release_over_the_way_back_leaves() {
    let mut game = Day2State::with_deck(ordered_deck());
    let mut screen = Screen::new((80, 40));
    let mut input = Input::new();
    assert!(!frame(&mut game, &mut screen, &mut input, (36, 32), false));
    assert!(frame(&mut game, &mut screen, &mut input, (36, 32), true));
    assert!(frame(&mut game, &mut screen, &mut input, (33, 31), true));
    assert!(frame(&mut game, &mut screen, &mut input, (45, 33), true));
    assert!(!frame(&mut game, &mut screen, &mut input, (46, 33), true));
    assert!(!frame(&mut game, &mut screen, &mut input, (36, 30), true));
    assert!(game.selected().is_empty());
}

#[test]
fn game_on_a_screen_without_cells_still_plays() {
    let mut game = Day2State::with_deck(ordered_deck());
    let mut screen = Screen::new((0, 0));
    let mut input = Input::new();
    assert!(!frame(&mut game, &mut screen, &mut input, (0, 0), false));
    assert_eq!(game.pieces().len(), 16);
}
