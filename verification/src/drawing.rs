//! Drawing helpers on top of the screen: text boxes that know whether the
//! mouse is over them, the quiz and the calendar made of such boxes, and
//! multi-line art.
//!
//! Positions are computed as mathematical integers. What falls outside the
//! screen is dropped, so every helper is total.

use crate::input::{Input, InputEvent, InputState, KeyEdge, MouseButton};
use crate::screen::{Cell, Color, Frame, Screen};
use crate::transition::TICKS_PER_SECOND;
use vstd::prelude::*;
use vstd::std_specs::iter::IteratorSpec;
use vstd::string::*;

verus! {

/// The greatest offset that a box can be moved by.
pub const OFFSET_LIMIT: i128 = 0x1000_0000_0000_0000_0000;

/// The greatest distance from the origin that the helpers compute with.
pub open spec fn reach() -> int {
    0x1_0000_0000_0000_0000_0000
}

/// Writes a glyph at a position given as wide integers; a position outside
/// the screen is left alone.
fn paint(screen: &mut Screen, x: i128, y: i128, rune: char, color: Color)
    ensures
        final(screen)@ == old(screen)@.put(x as int, y as int, Cell { rune, color }),
{
    let width = screen.width();
    let height = screen.height();
    if 0 <= x && x < width as i128 && 0 <= y && y < height as i128 {
        screen.set_cell(x as u16, y as u16, rune, color);
    }
}

/// Writes the same glyph `n` times in a row that starts at `(x, y)`.
fn paint_fill(screen: &mut Screen, x: i128, y: i128, n: u128, rune: char, color: Color)
    requires
        -reach() <= x <= reach(),
        n <= reach(),
    ensures
        final(screen)@ == old(screen)@.fill(x as int, y as int, n as int, Cell { rune, color }),
{
    let mut j: u128 = 0;
    while j < n
        invariant
            -reach() <= x <= reach(),
            n <= reach(),
            0 <= j <= n,
            screen@ == old(screen)@.fill(x as int, y as int, j as int, Cell { rune, color }),
        decreases n - j,
    {
        paint(screen, x + j as i128, y, rune, color);
        j += 1;
    }
}

/// Writes `runes` in a row that starts at `(x, y)`.
fn paint_runes(screen: &mut Screen, x: i128, y: i128, runes: &Vec<char>, color: Color)
    requires
        -reach() <= x <= reach(),
    ensures
        final(screen)@ == old(screen)@.put_text(x as int, y as int, runes@, color),
{
    let n: usize = runes.len();
    let mut j: usize = 0;
    while j < n
        invariant
            -reach() <= x <= reach(),
            n == runes@.len(),
            0 <= j <= n,
            screen@ == old(screen)@.put_run(x as int, y as int, runes@, color, j as int),
        decreases n - j,
    {
        paint(screen, x + j as i128, y, runes[j], color);
        j += 1;
    }
}

/// The runes of a string.
fn runes_of(text: &str) -> (runes: Vec<char>)
    ensures
        runes@ == text@,
{
    let mut rest = text.chars();
    let mut runes: Vec<char> = Vec::new();
    loop
        invariant
            rest.decrease().is_some(),
            runes@ + rest.remaining() == text@,
        ensures
            runes@ == text@,
        decreases rest.decrease()->0,
    {
        let next = rest.next();
        match next {
            Some(rune) => {
                runes.push(rune);
                assert(runes@ + rest.remaining() =~= text@);
            },
            None => {
                assert(runes@ =~= text@);
                break ;
            },
        }
    }
    runes
}

/// The number of bytes that a text takes in UTF-8: the measure by which a box
/// is sized.
pub open spec fn byte_len(runes: Seq<char>) -> int {
    vstd::utf8::encode_utf8(runes).len() as int
}

/// Half of `a`, rounded towards zero.
pub open spec fn half(a: int) -> int {
    if a >= 0 {
        a / 2
    } else {
        -((-a) / 2)
    }
}

/// Where the text of a box starts: the middle of the screen, moved left by
/// half the length of the text, then by the offsets.
pub open spec fn box_origin(width: int, height: int, len: int, x_offset: int, y_offset: int) -> (
    int,
    int,
) {
    (half(width - len) + x_offset, height / 2 + y_offset)
}

/// Whether the mouse is over a box: within its three rows, and between its
/// left and its right border.
pub open spec fn box_hovered(origin: (int, int), len: int, mouse: (int, int)) -> bool {
    &&& origin.0 - 3 <= mouse.0 <= origin.0 + len + 2
    &&& origin.1 - 1 <= mouse.1 <= origin.1 + 1
}

/// The colour of a box: white, or yellow under the mouse, or green under the
/// mouse with the button down.
pub open spec fn box_color(hovered: bool, mouse_down: bool) -> Color {
    if !hovered {
        Color::White
    } else if mouse_down {
        Color::Rgb { r: 0, g: 255, b: 0 }
    } else {
        Color::Rgb { r: 255, g: 255, b: 0 }
    }
}

/// A horizontal border: a corner, the line, a corner.
pub open spec fn bordered(
    frame: Frame,
    x: int,
    y: int,
    len: int,
    left: char,
    right: char,
    color: Color,
) -> Frame {
    frame.put(x - 3, y, Cell { rune: left, color }).fill(
        x - 2,
        y,
        len + 4,
        Cell { rune: '\u{2500}', color },
    ).put(x + len + 2, y, Cell { rune: right, color })
}

/// The frame with a text box drawn on it.
///
/// Three rows are blanked first, from two columns left of the text to two
/// columns right of it. The upper border is drawn unless the box starts in
/// the top row or above, the lower one unless the box ends in the bottom row
/// or below; the left one if the text starts right of column 3, the right
/// one if it lies on the screen's width. The text comes last.
pub open spec fn boxed(
    frame: Frame,
    width: int,
    height: int,
    runes: Seq<char>,
    len: int,
    x_offset: int,
    y_offset: int,
    mouse: (int, int),
    mouse_down: bool,
) -> Frame {
    let origin = box_origin(width, height, len, x_offset, y_offset);
    let x = origin.0;
    let y = origin.1;
    let color = box_color(box_hovered(origin, len, mouse), mouse_down);
    let blank = Cell { rune: ' ', color: Color::White };
    let side = Cell { rune: '\u{2502}', color };
    let cleared = frame.fill(x - 2, y - 1, len + 4, blank).fill(x - 2, y, len + 4, blank).fill(
        x - 2,
        y + 1,
        len + 4,
        blank,
    );
    let topped = if y > 0 {
        bordered(cleared, x, y - 1, len, '\u{256d}', '\u{256e}', color)
    } else {
        cleared
    };
    let bottomed = if y < height - 1 {
        bordered(topped, x, y + 1, len, '\u{2570}', '\u{256f}', color)
    } else {
        topped
    };
    let left = if x > 3 {
        bottomed.put(x - 3, y, side)
    } else {
        bottomed
    };
    let right = if x + len + 2 < width {
        left.put(x + len + 2, y, side)
    } else {
        left
    };
    right.put_text(x, y, runes, color)
}

/// Draws a horizontal border of a box.
fn paint_border(
    screen: &mut Screen,
    x: i128,
    y: i128,
    len: u128,
    left: char,
    right: char,
    color: Color,
)
    requires
        -reach() + 8 <= x <= reach() - 8,
        len <= reach() - 8,
    ensures
        final(screen)@ == bordered(old(screen)@, x as int, y as int, len as int, left, right, color),
{
    paint(screen, x - 3, y, left, color);
    paint_fill(screen, x - 2, y, len + 4, '\u{2500}', color);
    paint(screen, x + len as i128 + 2, y, right, color);
}

/// Draws a text box and says whether the mouse is over it. `len` is the
/// length by which the box is sized.
pub fn draw_rune_box(
    screen: &mut Screen,
    width: u16,
    height: u16,
    runes: &Vec<char>,
    len: usize,
    x_offset: i128,
    y_offset: i128,
    mouse_position: (u16, u16),
    mouse_down: bool,
) -> (hovered: bool)
    requires
        -OFFSET_LIMIT <= x_offset <= OFFSET_LIMIT,
        -OFFSET_LIMIT <= y_offset <= OFFSET_LIMIT,
    ensures
        hovered == box_hovered(
            box_origin(width as int, height as int, len as int, x_offset as int, y_offset as int),
            len as int,
            (mouse_position.0 as int, mouse_position.1 as int),
        ),
        final(screen)@ == boxed(
            old(screen)@,
            width as int,
            height as int,
            runes@,
            len as int,
            x_offset as int,
            y_offset as int,
            (mouse_position.0 as int, mouse_position.1 as int),
            mouse_down,
        ),
{
    let w: i128 = width as i128;
    let h: i128 = height as i128;
    let n: i128 = len as i128;
    let centred: i128 = if w >= n {
        (w - n) / 2
    } else {
        -((n - w) / 2)
    };
    let x: i128 = centred + x_offset;
    let y: i128 = h / 2 + y_offset;
    let mx: i128 = mouse_position.0 as i128;
    let my: i128 = mouse_position.1 as i128;
    let hovered = mx >= x - 3 && mx <= x + n + 2 && my >= y - 1 && my <= y + 1;
    let color = if !hovered {
        Color::White
    } else if mouse_down {
        Color::Rgb { r: 0, g: 255, b: 0 }
    } else {
        Color::Rgb { r: 255, g: 255, b: 0 }
    };
    let span: u128 = len as u128 + 4;
    paint_fill(screen, x - 2, y - 1, span, ' ', Color::White);
    paint_fill(screen, x - 2, y, span, ' ', Color::White);
    paint_fill(screen, x - 2, y + 1, span, ' ', Color::White);
    if y > 0 {
        paint_border(screen, x, y - 1, len as u128, '\u{256d}', '\u{256e}', color);
    }
    if y < h - 1 {
        paint_border(screen, x, y + 1, len as u128, '\u{2570}', '\u{256f}', color);
    }
    if x > 3 {
        paint(screen, x - 3, y, '\u{2502}', color);
    }
    if x + n + 2 < w {
        paint(screen, x + n + 2, y, '\u{2502}', color);
    }
    paint_runes(screen, x, y, runes, color);
    hovered
}

/// Draws a box around `q`, centred on the screen and moved by the offsets,
/// and says whether the mouse is over it. The box is as wide as `q` has
/// bytes.
pub fn draw_text_box(
    screen: &mut Screen,
    width: u16,
    height: u16,
    q: &str,
    x_offset: i16,
    y_offset: i16,
    mouse_position: (u16, u16),
    mouse_down: bool,
) -> (hovered: bool)
    ensures
        hovered == box_hovered(
            box_origin(
                width as int,
                height as int,
                byte_len(q@),
                x_offset as int,
                y_offset as int,
            ),
            byte_len(q@),
            (mouse_position.0 as int, mouse_position.1 as int),
        ),
        final(screen)@ == boxed(
            old(screen)@,
            width as int,
            height as int,
            q@,
            byte_len(q@),
            x_offset as int,
            y_offset as int,
            (mouse_position.0 as int, mouse_position.1 as int),
            mouse_down,
        ),
{
    let runes = runes_of(q);
    draw_rune_box(
        screen,
        width,
        height,
        &runes,
        q.as_bytes().len(),
        x_offset as i128,
        y_offset as i128,
        mouse_position,
        mouse_down,
    )
}

/// The text of the `i`-th answer box: the right answer at `position`, the
/// wrong ones around it in their order.
pub open spec fn answer_at(correct: &str, wrong: Seq<&str>, position: int, i: int) -> Seq<char> {
    if i == position {
        correct@
    } else if i < position {
        wrong[i]@
    } else {
        wrong[i - 1]@
    }
}

/// How far the `i`-th of `total` answer boxes is moved sideways: the boxes
/// stand 20 columns apart, the row of them centred.
pub open spec fn answer_offset(total: int, i: int) -> int {
    -10 * (total - 1) + 20 * i
}

/// Whether the mouse is over the `i`-th answer box.
pub open spec fn answer_hovered(
    width: int,
    height: int,
    correct: &str,
    wrong: Seq<&str>,
    position: int,
    mouse: (int, int),
    i: int,
) -> bool {
    let len = byte_len(answer_at(correct, wrong, position, i));
    box_hovered(
        box_origin(width, height, len, answer_offset((wrong.len() + 1) as int, i), 0),
        len,
        mouse,
    )
}

/// Whether the mouse is over one of the first `n` answer boxes that holds a
/// wrong answer.
pub open spec fn wrong_hovered(
    width: int,
    height: int,
    correct: &str,
    wrong: Seq<&str>,
    position: int,
    mouse: (int, int),
    n: int,
) -> bool
    decreases n,
{
    if n <= 0 {
        false
    } else {
        wrong_hovered(width, height, correct, wrong, position, mouse, n - 1) || (n - 1 != position
            && answer_hovered(width, height, correct, wrong, position, mouse, n - 1))
    }
}

/// The frame with the first `n` answer boxes drawn, from the left.
pub open spec fn answers_drawn(
    frame: Frame,
    width: int,
    height: int,
    correct: &str,
    wrong: Seq<&str>,
    position: int,
    mouse: (int, int),
    mouse_down: bool,
    n: int,
) -> Frame
    decreases n,
{
    if n <= 0 {
        frame
    } else {
        let answer = answer_at(correct, wrong, position, n - 1);
        boxed(
            answers_drawn(frame, width, height, correct, wrong, position, mouse, mouse_down, n - 1),
            width,
            height,
            answer,
            byte_len(answer),
            answer_offset((wrong.len() + 1) as int, n - 1),
            0,
            mouse,
            mouse_down,
        )
    }
}

/// Whether the right answer is chosen: the button counts as down, the mouse
/// is over the right answer and over no wrong one.
pub open spec fn answered_right(
    width: int,
    height: int,
    correct: &str,
    wrong: Seq<&str>,
    position: int,
    mouse: (int, int),
    mouse_down: bool,
) -> bool {
    &&& mouse_down
    &&& answer_hovered(width, height, correct, wrong, position, mouse, position)
    &&& !wrong_hovered(width, height, correct, wrong, position, mouse, (wrong.len() + 1) as int)
}

/// A box without a mouse: the mouse is taken to be at the origin, the button
/// up.
pub open spec fn labelled(
    frame: Frame,
    width: int,
    height: int,
    text: &str,
    x_offset: int,
    y_offset: int,
) -> Frame {
    boxed(
        frame,
        width,
        height,
        text@,
        byte_len(text@),
        x_offset,
        y_offset,
        (0, 0),
        false,
    )
}

/// The frame with a quiz drawn on it: the question five rows above the
/// middle, the answers in the middle row, and five rows below it the verdict,
/// if the button counts as down and the mouse is over an answer.
pub open spec fn question_drawn(
    frame: Frame,
    question: &str,
    correct: &str,
    wrong: Seq<&str>,
    position: int,
    mouse: (int, int),
    mouse_down: bool,
) -> Frame {
    let width = frame.width;
    let height = frame.height;
    let asked = labelled(frame, width, height, question, 0, -5);
    let answers = answers_drawn(
        asked,
        width,
        height,
        correct,
        wrong,
        position,
        mouse,
        mouse_down,
        (wrong.len() + 1) as int,
    );
    if answered_right(width, height, correct, wrong, position, mouse, mouse_down) {
        labelled(answers, width, height, "Correct!", 0, 5)
    } else if mouse_down && wrong_hovered(
        width,
        height,
        correct,
        wrong,
        position,
        mouse,
        (wrong.len() + 1) as int,
    ) {
        labelled(answers, width, height, "Wrong!", 0, 5)
    } else {
        answers
    }
}

/// Draws a quiz: a question and its answers, the right one at
/// `correct_answer_position` among them. Returns whether the right answer is
/// chosen, which is when `mouse_down` holds while the mouse is over the right
/// answer and over no wrong one.
pub fn draw_question(
    screen: &mut Screen,
    mouse_position: (u16, u16),
    mouse_down: bool,
    question: &str,
    correct_answer: &str,
    wrong_answers: &[&str],
    correct_answer_position: usize,
) -> (correct: bool)
    requires
        correct_answer_position <= wrong_answers@.len(),
    ensures
        correct == answered_right(
            old(screen)@.width,
            old(screen)@.height,
            correct_answer,
            wrong_answers@,
            correct_answer_position as int,
            (mouse_position.0 as int, mouse_position.1 as int),
            mouse_down,
        ),
        final(screen)@ == question_drawn(
            old(screen)@,
            question,
            correct_answer,
            wrong_answers@,
            correct_answer_position as int,
            (mouse_position.0 as int, mouse_position.1 as int),
            mouse_down,
        ),
{
    let width = screen.width();
    let height = screen.height();
    let ghost mouse = (mouse_position.0 as int, mouse_position.1 as int);
    let ghost position = correct_answer_position as int;
    draw_text_box(screen, width, height, question, 0, -5, (0, 0), false);
    let ghost asked = screen@;
    let wrong_count: usize = wrong_answers.len();
    let total: u128 = wrong_count as u128 + 1;
    let minimum_offset: i128 = -10 * (total as i128 - 1);
    let mut any_wrong_hovered: bool = false;
    let mut correct_hovered: bool = false;
    let mut i: u128 = 0;
    let mut shown_wrong: usize = 0;
    while i < total
        invariant
            wrong_count == wrong_answers@.len(),
            total == wrong_count + 1,
            minimum_offset == -10 * (total - 1),
            position == correct_answer_position,
            position <= wrong_count,
            mouse == (mouse_position.0 as int, mouse_position.1 as int),
            0 <= i <= total,
            shown_wrong == if i <= position {
                i as int
            } else {
                i - 1
            },
            any_wrong_hovered == wrong_hovered(
                width as int,
                height as int,
                correct_answer,
                wrong_answers@,
                position,
                mouse,
                i as int,
            ),
            i > position ==> correct_hovered == answer_hovered(
                width as int,
                height as int,
                correct_answer,
                wrong_answers@,
                position,
                mouse,
                position,
            ),
            screen@ == answers_drawn(
                asked,
                width as int,
                height as int,
                correct_answer,
                wrong_answers@,
                position,
                mouse,
                mouse_down,
                i as int,
            ),
        decreases total - i,
    {
        let x_offset: i128 = minimum_offset + 20 * (i as i128);
        if i == correct_answer_position as u128 {
            let runes = runes_of(correct_answer);
            correct_hovered =
            draw_rune_box(
                screen,
                width,
                height,
                &runes,
                correct_answer.as_bytes().len(),
                x_offset,
                0,
                mouse_position,
                mouse_down,
            );
        } else {
            let answer: &str = wrong_answers[shown_wrong];
            let runes = runes_of(answer);
            let len = answer.as_bytes().len();
            let hovered = draw_rune_box(
                screen,
                width,
                height,
                &runes,
                len,
                x_offset,
                0,
                mouse_position,
                mouse_down,
            );
            any_wrong_hovered = any_wrong_hovered || hovered;
            shown_wrong += 1;
        }
        i += 1;
    }
    if mouse_down {
        if correct_hovered && !any_wrong_hovered {
            draw_text_box(screen, width, height, "Correct!", 0, 5, (0, 0), false);
            return true;
        } else if any_wrong_hovered {
            draw_text_box(screen, width, height, "Wrong!", 0, 5, (0, 0), false);
        }
    }
    false
}

/// The number of days on the calendar.
pub const CALENDAR_DAYS: usize = 24;

/// The decimal digit for `d`.
pub open spec fn digit_rune(d: int) -> char {
    if d == 0 {
        '0'
    } else if d == 1 {
        '1'
    } else if d == 2 {
        '2'
    } else if d == 3 {
        '3'
    } else if d == 4 {
        '4'
    } else if d == 5 {
        '5'
    } else if d == 6 {
        '6'
    } else if d == 7 {
        '7'
    } else if d == 8 {
        '8'
    } else {
        '9'
    }
}

/// The label of a day: its number in two digits.
pub open spec fn day_label(day: int) -> Seq<char> {
    seq![digit_rune(day / 10), digit_rune(day % 10)]
}

/// How far the box of the `i`-th day is moved: six boxes to the row, ten
/// columns and four rows apart.
pub open spec fn day_offset(i: int) -> (int, int) {
    (-24 + (i % 6) * 10, -6 + (i / 6) * 4)
}

/// Whether the mouse is over the box of the `i`-th day.
pub open spec fn day_hovered(width: int, height: int, mouse: (int, int), i: int) -> bool {
    box_hovered(box_origin(width, height, 2, day_offset(i).0, day_offset(i).1), 2, mouse)
}

/// The frame with the boxes of the first `n` days drawn.
pub open spec fn days_drawn(
    frame: Frame,
    width: int,
    height: int,
    mouse: (int, int),
    mouse_down: bool,
    n: int,
) -> Frame
    decreases n,
{
    if n <= 0 {
        frame
    } else {
        boxed(
            days_drawn(frame, width, height, mouse, mouse_down, n - 1),
            width,
            height,
            day_label(n),
            2,
            day_offset(n - 1).0,
            day_offset(n - 1).1,
            mouse,
            mouse_down,
        )
    }
}

fn digit(d: usize) -> (rune: char)
    requires
        d < 10,
    ensures
        rune == digit_rune(d as int),
{
    if d == 0 {
        '0'
    } else if d == 1 {
        '1'
    } else if d == 2 {
        '2'
    } else if d == 3 {
        '3'
    } else if d == 4 {
        '4'
    } else if d == 5 {
        '5'
    } else if d == 6 {
        '6'
    } else if d == 7 {
        '7'
    } else if d == 8 {
        '8'
    } else {
        '9'
    }
}

/// Draws the calendar: one box for each day, six to the row. Returns the day
/// that is chosen: with `mouse_down`, the first day whose box the mouse is
/// over.
pub fn draw_calendar(screen: &mut Screen, mouse_position: (u16, u16), mouse_down: bool) -> (day:
    Option<usize>)
    ensures
        final(screen)@ == days_drawn(
            old(screen)@,
            old(screen)@.width,
            old(screen)@.height,
            (mouse_position.0 as int, mouse_position.1 as int),
            mouse_down,
            CALENDAR_DAYS as int,
        ),
        match day {
            Some(d) => {
                &&& mouse_down
                &&& 1 <= d <= CALENDAR_DAYS
                &&& day_hovered(
                    old(screen)@.width,
                    old(screen)@.height,
                    (mouse_position.0 as int, mouse_position.1 as int),
                    d - 1,
                )
                &&& forall|i: int|
                    0 <= i < d - 1 ==> !day_hovered(
                        old(screen)@.width,
                        old(screen)@.height,
                        (mouse_position.0 as int, mouse_position.1 as int),
                        i,
                    )
            },
            None => !mouse_down || forall|i: int|
                0 <= i < CALENDAR_DAYS ==> !day_hovered(
                    old(screen)@.width,
                    old(screen)@.height,
                    (mouse_position.0 as int, mouse_position.1 as int),
                    i,
                ),
        },
{
    let width = screen.width();
    let height = screen.height();
    let ghost mouse = (mouse_position.0 as int, mouse_position.1 as int);
    let mut first: Option<usize> = None;
    let mut i: usize = 0;
    while i < CALENDAR_DAYS
        invariant
            0 <= i <= CALENDAR_DAYS,
            mouse == (mouse_position.0 as int, mouse_position.1 as int),
            screen@ == days_drawn(
                old(screen)@,
                width as int,
                height as int,
                mouse,
                mouse_down,
                i as int,
            ),
            match first {
                Some(d) => {
                    &&& 1 <= d <= i
                    &&& day_hovered(width as int, height as int, mouse, d - 1)
                    &&& forall|k: int|
                        0 <= k < d - 1 ==> !day_hovered(width as int, height as int, mouse, k)
                },
                None => forall|k: int|
                    0 <= k < i ==> !day_hovered(width as int, height as int, mouse, k),
            },
        decreases CALENDAR_DAYS - i,
    {
        let x_offset: i128 = -24 + ((i % 6) as i128) * 10;
        let y_offset: i128 = -6 + ((i / 6) as i128) * 4;
        let mut label: Vec<char> = Vec::new();
        label.push(digit((i + 1) / 10));
        label.push(digit((i + 1) % 10));
        assert(label@ =~= day_label(i + 1));
        let hovered = draw_rune_box(
            screen,
            width,
            height,
            &label,
            2,
            x_offset,
            y_offset,
            mouse_position,
            mouse_down,
        );
        if hovered && first.is_none() {
            first = Some(i + 1);
        }
        i += 1;
    }
    if mouse_down {
        first
    } else {
        None
    }
}

/// The row in which the `n`-th rune of a text stands: the number of line
/// feeds before it.
pub open spec fn line_of(runes: Seq<char>, n: int) -> int
    decreases n,
{
    if n <= 0 {
        0
    } else if runes[n - 1] == '\n' {
        line_of(runes, n - 1) + 1
    } else {
        line_of(runes, n - 1)
    }
}

/// The column in which the `n`-th rune of a text stands: the number of runes
/// since the last line feed.
pub open spec fn column_of(runes: Seq<char>, n: int) -> int
    decreases n,
{
    if n <= 0 {
        0
    } else if runes[n - 1] == '\n' {
        0
    } else {
        column_of(runes, n - 1) + 1
    }
}

/// Whether the `k`-th rune of a piece of art is drawn. Spaces are not, so
/// that what lies under them shows; nor are line feeds, nor a carriage return
/// that stands before a line feed.
pub open spec fn shows(runes: Seq<char>, k: int) -> bool {
    &&& runes[k] != ' '
    &&& runes[k] != '\n'
    &&& !(runes[k] == '\r' && k + 1 < runes.len() && runes[k + 1] == '\n')
}

/// The frame with the first `n` runes of a piece of art drawn, its first line
/// starting at `(x, y)`.
pub open spec fn art_drawn(frame: Frame, runes: Seq<char>, x: int, y: int, n: int) -> Frame
    decreases n,
{
    if n <= 0 {
        frame
    } else if shows(runes, n - 1) {
        art_drawn(frame, runes, x, y, n - 1).put(
            x + column_of(runes, n - 1),
            y + line_of(runes, n - 1),
            Cell { rune: runes[n - 1], color: Color::White },
        )
    } else {
        art_drawn(frame, runes, x, y, n - 1)
    }
}

/// Draws art whose first line starts at `(x, y)`.
fn draw_art(screen: &mut Screen, ascii: &str, x: i128, y: i128)
    requires
        -0x1_0000 <= x <= 0x1_0000,
        -0x1_0000 <= y <= 0x1_0000,
    ensures
        final(screen)@ == art_drawn(old(screen)@, ascii@, x as int, y as int, ascii@.len() as int),
{
    let runes = runes_of(ascii);
    let n: usize = runes.len();
    let mut row: usize = 0;
    let mut column: usize = 0;
    let mut k: usize = 0;
    while k < n
        invariant
            -0x1_0000 <= x <= 0x1_0000,
            -0x1_0000 <= y <= 0x1_0000,
            n == runes@.len(),
            runes@ == ascii@,
            0 <= k <= n,
            row == line_of(runes@, k as int),
            column == column_of(runes@, k as int),
            row <= k,
            column <= k,
            screen@ == art_drawn(old(screen)@, runes@, x as int, y as int, k as int),
        decreases n - k,
    {
        let rune = runes[k];
        if rune == '\n' {
            row += 1;
            column = 0;
        } else {
            let ends_line = rune == '\r' && k + 1 < n && runes[k + 1] == '\n';
            if rune != ' ' && !ends_line {
                paint(screen, x + column as i128, y + row as i128, rune, Color::White);
            }
            column += 1;
        }
        k += 1;
    }
}

/// Draws multi-line art in white, its first line starting at `(x, y)`, which
/// may lie outside the screen. A space in the art leaves the cell under it as
/// it is.
pub fn draw_ascii_safe(screen: &mut Screen, ascii: &str, x: i16, y: i16)
    ensures
        final(screen)@ == art_drawn(old(screen)@, ascii@, x as int, y as int, ascii@.len() as int),
{
    draw_art(screen, ascii, x as i128, y as i128);
}

/// Draws multi-line art in white, its first line starting at `(x, y)`.
pub fn draw_ascii(screen: &mut Screen, ascii: &str, x: u16, y: u16)
    ensures
        final(screen)@ == art_drawn(old(screen)@, ascii@, x as int, y as int, ascii@.len() as int),
{
    draw_art(screen, ascii, x as i128, y as i128);
}

/// The glyph of the ground.
pub open spec fn ground_cell() -> Cell {
    Cell { rune: '\u{2588}', color: Color::White }
}

/// Draws the ground: the bottom row filled with blocks.
pub fn draw_ground(screen: &mut Screen)
    ensures
        final(screen)@ == old(screen)@.fill(
            0,
            old(screen)@.height - 1,
            old(screen)@.width,
            ground_cell(),
        ),
{
    let width = screen.width();
    let height = screen.height();
    paint_fill(screen, 0, height as i128 - 1, width as u128, '\u{2588}', Color::White);
}

/// The decimal digits of a number that is not negative.
pub open spec fn decimal(n: int) -> Seq<char>
    decreases n,
{
    if n < 10 {
        seq![digit_rune(n)]
    } else {
        decimal(n / 10).push(digit_rune(n % 10))
    }
}

/// A number below ten to the tenth has at most ten digits.
pub proof fn lemma_decimal_short(n: int)
    requires
        0 <= n < 10_000_000_000,
    ensures
        1 <= decimal(n).len() <= 10,
{
    reveal_with_fuel(decimal, 11);
}

/// The decimal digits of `n`.
pub fn decimal_runes(n: u32) -> (runes: Vec<char>)
    ensures
        runes@ == decimal(n as int),
    decreases n,
{
    if n < 10 {
        let mut runes: Vec<char> = Vec::new();
        runes.push(digit(n as usize));
        assert(runes@ =~= decimal(n as int));
        runes
    } else {
        let mut runes = decimal_runes(n / 10);
        runes.push(digit((n % 10) as usize));
        runes
    }
}

/// Appends the runes of `text` to `runes`.
fn append_str(runes: &mut Vec<char>, text: &str)
    ensures
        final(runes)@ == old(runes)@ + text@,
{
    let mut more = runes_of(text);
    runes.append(&mut more);
}

/// The frames per second that a frame of `dt` ticks stands for, to the
/// nearest whole number.
pub open spec fn frames_per_second(dt: int) -> int
    recommends
        dt > 0,
{
    (TICKS_PER_SECOND + dt / 2) / dt
}

/// The line that tells the frame rate. A frame that took no time at all has
/// no finite rate.
pub open spec fn fps_line(dt: int) -> Seq<char> {
    if dt == 0 {
        "FPS: "@ + "inf"@
    } else {
        "FPS: "@ + decimal(frames_per_second(dt))
    }
}

/// The line that tells where the mouse is.
pub open spec fn mouse_line(position: (u16, u16)) -> Seq<char> {
    "Mouse: ("@ + decimal(position.0 as int) + ", "@ + decimal(position.1 as int) + ")"@
}

/// The name of a mouse button.
pub open spec fn button_name(button: MouseButton) -> Seq<char> {
    match button {
        MouseButton::Left => "Left"@,
        MouseButton::Middle => "Middle"@,
        MouseButton::Right => "Right"@,
    }
}

/// The line that tells whether a mouse button is held.
pub open spec fn button_line(button: MouseButton, held: bool) -> Seq<char> {
    "Mouse "@ + button_name(button) + ": "@ + if held {
        "true"@
    } else {
        "false"@
    }
}

/// The line that tells the edge of a key.
pub open spec fn key_line(edge: KeyEdge) -> Seq<char> {
    "Key "@ + seq![edge.key] + match edge.edge {
        InputEvent::Down => ": Down"@,
        InputEvent::Up => ": Up"@,
    }
}

/// The frame with the lines of the first `n` key edges written, one to the
/// row, from row 5 down.
pub open spec fn key_lines_drawn(frame: Frame, keys: Seq<KeyEdge>, n: int) -> Frame
    decreases n,
{
    if n <= 0 {
        frame
    } else {
        key_lines_drawn(frame, keys, n - 1).put_text(
            0,
            5 + n - 1,
            key_line(keys[n - 1]),
            Color::White,
        )
    }
}

/// The frame with the debug lines written in its upper left corner: the frame
/// rate, the mouse position, the three mouse buttons and the key edges of the
/// frame.
pub open spec fn debug_drawn(frame: Frame, input: InputState, dt: int) -> Frame {
    key_lines_drawn(
        frame.put_text(0, 0, fps_line(dt), Color::White).put_text(
            0,
            1,
            mouse_line(input.mouse_position),
            Color::White,
        ).put_text(
            0,
            2,
            button_line(MouseButton::Left, input.down.get(MouseButton::Left)),
            Color::White,
        ).put_text(
            0,
            3,
            button_line(MouseButton::Middle, input.down.get(MouseButton::Middle)),
            Color::White,
        ).put_text(
            0,
            4,
            button_line(MouseButton::Right, input.down.get(MouseButton::Right)),
            Color::White,
        ),
        input.keys,
        input.keys.len() as int,
    )
}

/// Writes the line of one mouse button.
fn draw_button_line(screen: &mut Screen, input: &Input, button: MouseButton, row: i128)
    ensures
        final(screen)@ == old(screen)@.put_text(
            0,
            row as int,
            button_line(button, input@.down.get(button)),
            Color::White,
        ),
{
    let mut line: Vec<char> = Vec::new();
    append_str(&mut line, "Mouse ");
    match button {
        MouseButton::Left => append_str(&mut line, "Left"),
        MouseButton::Middle => append_str(&mut line, "Middle"),
        MouseButton::Right => append_str(&mut line, "Right"),
    }
    append_str(&mut line, ": ");
    if input.is_mouse_down(button) {
        append_str(&mut line, "true");
    } else {
        append_str(&mut line, "false");
    }
    assert(line@ =~= button_line(button, input@.down.get(button)));
    paint_runes(screen, 0, row, &line, Color::White);
}

/// Writes the debug lines in the upper left corner of the screen: the frame
/// rate that a frame of `dt` ticks stands for, the mouse position, the three
/// mouse buttons and the key edges of the frame.
pub fn draw_debug_info(screen: &mut Screen, input: &Input, dt: u64)
    ensures
        final(screen)@ == debug_drawn(old(screen)@, input@, dt as int),
{
    let mut fps: Vec<char> = Vec::new();
    append_str(&mut fps, "FPS: ");
    if dt == 0 {
        append_str(&mut fps, "inf");
    } else {
        let rate: u64 = (TICKS_PER_SECOND + dt / 2) / dt;
        assert(rate <= TICKS_PER_SECOND) by {
            let total = TICKS_PER_SECOND + dt / 2;
            vstd::arithmetic::div_mod::lemma_fundamental_div_mod(total, dt as int);
            vstd::arithmetic::div_mod::lemma_mod_bound(total, dt as int);
            assert(total / (dt as int) <= 1_000_000) by (nonlinear_arith)
                requires
                    total == dt * (total / (dt as int)) + total % (dt as int),
                    0 <= total % (dt as int),
                    dt >= 1,
                    total <= 1_000_000 + dt / 2,
                    dt / 2 <= dt,
            ;
        }
        let mut digits = decimal_runes(rate as u32);
        fps.append(&mut digits);
    }
    assert(fps@ =~= fps_line(dt as int));
    paint_runes(screen, 0, 0, &fps, Color::White);

    let position = input.mouse_position();
    let mut mouse: Vec<char> = Vec::new();
    append_str(&mut mouse, "Mouse: (");
    let mut column = decimal_runes(position.0 as u32);
    mouse.append(&mut column);
    append_str(&mut mouse, ", ");
    let mut row = decimal_runes(position.1 as u32);
    mouse.append(&mut row);
    append_str(&mut mouse, ")");
    assert(mouse@ =~= mouse_line(position));
    paint_runes(screen, 0, 1, &mouse, Color::White);

    draw_button_line(screen, input, MouseButton::Left, 2);
    draw_button_line(screen, input, MouseButton::Middle, 3);
    draw_button_line(screen, input, MouseButton::Right, 4);

    let keys = input.keymap();
    let ghost lines = screen@;
    let mut i: usize = 0;
    while i < keys.len()
        invariant
            keys@ == input@.keys,
            0 <= i <= keys@.len(),
            screen@ == key_lines_drawn(lines, keys@, i as int),
        decreases keys@.len() - i,
    {
        let edge = keys[i];
        let mut line: Vec<char> = Vec::new();
        append_str(&mut line, "Key ");
        line.push(edge.key);
        match edge.edge {
            InputEvent::Down => append_str(&mut line, ": Down"),
            InputEvent::Up => append_str(&mut line, ": Up"),
        }
        assert(line@ =~= key_line(edge));
        paint_runes(screen, 0, 5 + i as i128, &line, Color::White);
        i += 1;
    }
}

} // verus!
