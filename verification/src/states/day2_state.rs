//! A game of pairs: sixteen cards lie face down, four by four. Two cards are
//! turned by two clicks; a pair of equal cards leaves the table.

use crate::drawing::{
    box_hovered, box_origin, boxed, decimal, decimal_runes, draw_rune_box, draw_text_box, labelled,
    lemma_decimal_short,
};
use crate::input::{Input, InputState, MouseButton};
use crate::screen::{Frame, Screen};
use rand::seq::SliceRandom;
use vstd::prelude::*;

verus! {

/// A card on the table: its place in the grid and its face.
#[derive(Clone, Copy, Debug, PartialEq, Eq, Structural)]
pub struct Piece {
    pub x: u16,
    pub y: u16,
    pub sprite: char,
}

impl Piece {
    /// The card with the face `sprite` at `(x, y)`.
    pub fn new(x: u16, y: u16, sprite: char) -> (piece: Piece)
        ensures
            piece == (Piece { x, y, sprite }),
    {
        Piece { x, y, sprite }
    }
}

/// The faces of the cards in the order in which a fresh deck holds them:
/// eight letters, each twice.
pub open spec fn deck() -> Seq<char> {
    seq![
        '\u{3b1}',
        '\u{3b2}',
        '\u{3b3}',
        '\u{3b4}',
        '\u{3b5}',
        '\u{3b6}',
        '\u{3b7}',
        '\u{3b8}',
        '\u{3b1}',
        '\u{3b2}',
        '\u{3b3}',
        '\u{3b4}',
        '\u{3b5}',
        '\u{3b6}',
        '\u{3b7}',
        '\u{3b8}',
    ]
}

/// Whether `pieces` are the cards that a deck in the order `faces` is laid
/// out to: column by column from the left, four to the column, each card
/// taking the face from the end of what is left of the deck.
pub open spec fn laid_out(pieces: Seq<Piece>, faces: Seq<char>) -> bool {
    &&& pieces.len() == 16
    &&& forall|k: int|
        0 <= k < 16 ==> (#[trigger] pieces[k]).x == k / 4 && pieces[k].y == k % 4
            && pieces[k].sprite == faces[15 - k]
}

/// The mathematical content of the game.
pub struct Memory {
    /// The cards that are still on the table.
    pub pieces: Seq<Piece>,
    /// The cards that are turned, by their index among `pieces`.
    pub selected: Seq<usize>,
    /// How many pairs of cards the player has turned.
    pub moves: u32,
}

/// The label of the counter, without the number.
pub open spec fn counter_prefix() -> Seq<char> {
    seq!['F', 'o', 'r', 's', '\u{f8}', 'k', ':', ' ']
}

/// The number of runes of [`counter_prefix`].
pub const COUNTER_PREFIX_RUNES: usize = 8;

/// The number of bytes that [`counter_prefix`] takes, by which its box is
/// sized: one of its letters takes two.
pub const COUNTER_PREFIX_BYTES: usize = 9;

/// How far the box of a card is moved from the middle of the screen.
pub open spec fn card_offset(piece: Piece) -> (int, int) {
    (piece.x * 9 - 12, piece.y * 4 - 8)
}

/// Whether the mouse is over the box of a card. The box of a card is two
/// columns wide, turned or not.
pub open spec fn card_hovered(piece: Piece, width: int, height: int, mouse: (int, int)) -> bool {
    box_hovered(
        box_origin(width, height, 2, card_offset(piece).0, card_offset(piece).1),
        2,
        mouse,
    )
}

/// What the box of a card shows: its face if it is turned, two spaces if not.
pub open spec fn card_text(piece: Piece, turned: bool) -> Seq<char> {
    if turned {
        seq![piece.sprite]
    } else {
        seq![' ', ' ']
    }
}

impl Memory {
    /// Every turned card is on the table, and a pair of turned cards never
    /// waits: it is looked at in the frame in which it is complete.
    pub open spec fn wf(self) -> bool {
        &&& forall|k: int| 0 <= k < self.selected.len() ==> self.selected[k] < self.pieces.len()
        &&& self.selected.len() != 2
    }

    /// Whether this is the game at its start, for a deck in the order
    /// `faces`.
    pub open spec fn fresh(self, faces: Seq<char>) -> bool {
        &&& laid_out(self.pieces, faces)
        &&& self.selected.len() == 0
        &&& self.moves == 0
    }

    /// The turned cards after the first `n` cards were looked at. A card is
    /// turned when the button was released over it, unless it is the only
    /// card that is turned already.
    pub open spec fn picked(self, width: int, height: int, input: InputState, n: int) -> Seq<usize>
        decreases n,
    {
        if n <= 0 {
            self.selected
        } else {
            let before = self.picked(width, height, input, n - 1);
            let mouse = (input.mouse_position.0 as int, input.mouse_position.1 as int);
            if card_hovered(self.pieces[n - 1], width, height, mouse) && input.up.get(
                MouseButton::Left,
            ) && !(before.len() == 1 && before[0] == n - 1) {
                before.push((n - 1) as usize)
            } else {
                before
            }
        }
    }

    /// The frame with the boxes of the first `n` cards drawn.
    pub open spec fn cards_drawn(
        self,
        frame: Frame,
        width: int,
        height: int,
        input: InputState,
        n: int,
    ) -> Frame
        decreases n,
    {
        if n <= 0 {
            frame
        } else {
            let piece = self.pieces[n - 1];
            let turned = self.picked(width, height, input, n - 1).contains((n - 1) as usize);
            boxed(
                self.cards_drawn(frame, width, height, input, n - 1),
                width,
                height,
                card_text(piece, turned),
                2,
                card_offset(piece).0,
                card_offset(piece).1,
                (input.mouse_position.0 as int, input.mouse_position.1 as int),
                input.down.get(MouseButton::Left),
            )
        }
    }

    /// The game after the turned cards were looked at. Two turned cards make
    /// a move: they leave the table if their faces are equal, and both are
    /// turned back. The count of moves stops at the greatest number that it
    /// can hold.
    pub open spec fn resolved(self) -> Memory {
        if self.selected.len() == 2 {
            let first = self.selected[0] as int;
            let second = self.selected[1] as int;
            Memory {
                pieces: if self.pieces[first].sprite == self.pieces[second].sprite {
                    if first < second {
                        self.pieces.remove(first).remove(second - 1)
                    } else {
                        self.pieces.remove(first).remove(second)
                    }
                } else {
                    self.pieces
                },
                selected: Seq::empty(),
                moves: if self.moves < u32::MAX {
                    (self.moves + 1) as u32
                } else {
                    self.moves
                },
            }
        } else {
            self
        }
    }

    /// The game after one frame.
    pub open spec fn played(self, width: int, height: int, input: InputState) -> Memory {
        Memory {
            selected: self.picked(width, height, input, self.pieces.len() as int),
            ..self
        }.resolved()
    }

    /// The frame that one frame of the game draws: the counter twelve rows
    /// above the middle, the cards, a greeting in the middle once the table
    /// is empty, and the way back twelve rows below.
    pub open spec fn shown(self, frame: Frame, input: InputState) -> Frame {
        let width = frame.width;
        let height = frame.height;
        let counted = boxed(
            frame,
            width,
            height,
            counter_prefix() + decimal(self.moves as int),
            COUNTER_PREFIX_BYTES + decimal(self.moves as int).len(),
            0,
            -12,
            (0, 0),
            false,
        );
        let table = self.cards_drawn(counted, width, height, input, self.pieces.len() as int);
        let greeted = if self.played(width, height, input).pieces.len() == 0 {
            labelled(table, width, height, "Gratulerer!", 0, 0)
        } else {
            table
        };
        boxed(
            greeted,
            width,
            height,
            "Tilbake"@,
            crate::drawing::byte_len("Tilbake"@),
            0,
            12,
            (input.mouse_position.0 as int, input.mouse_position.1 as int),
            input.down.get(MouseButton::Left),
        )
    }

    /// Whether the player asks for the way back: the button was released over
    /// its box.
    pub open spec fn leaves(width: int, height: int, input: InputState) -> bool {
        let len = crate::drawing::byte_len("Tilbake"@);
        input.up.get(MouseButton::Left) && box_hovered(
            box_origin(width, height, len, 0, 12),
            len,
            (input.mouse_position.0 as int, input.mouse_position.1 as int),
        )
    }
}

/// Brings the faces into a random order.
///
/// This is `SliceRandom::shuffle` of the `rand` crate with the thread's
/// generator. Nothing is proved of it. It is taken to reorder the faces by
/// swapping them, so that the same faces are there afterwards, each as often
/// as before; in which order is left open.
#[verifier::external_body]
fn shuffle(faces: &mut Vec<char>)
    ensures
        final(faces)@.to_multiset() == old(faces)@.to_multiset(),
{
    faces.shuffle(&mut rand::thread_rng());
}

/// Lays sixteen faces out as cards: four columns of four, filled from the
/// end of `faces`.
pub fn lay_out(faces: Vec<char>) -> (pieces: Vec<Piece>)
    requires
        faces@.len() == 16,
    ensures
        laid_out(pieces@, faces@),
{
    let mut faces = faces;
    let ghost all = faces@;
    let mut pieces: Vec<Piece> = Vec::new();
    let mut k: u16 = 0;
    while k < 16
        invariant
            0 <= k <= 16,
            all.len() == 16,
            pieces@.len() == k,
            faces@ == all.take(16 - k),
            forall|j: int|
                0 <= j < k ==> (#[trigger] pieces@[j]).x == j / 4 && pieces@[j].y == j % 4
                    && pieces@[j].sprite == all[15 - j],
        decreases 16 - k,
    {
        let top = faces.pop();
        let sprite = match top {
            Some(face) => face,
            None => ' ',
        };
        assert(sprite == all[15 - k]);
        let ghost before = pieces@;
        pieces.push(Piece::new(k / 4, k % 4, sprite));
        assert(forall|j: int| 0 <= j < k ==> pieces@[j] == before[j]);
        assert(faces@ =~= all.take(16 - k - 1));
        k += 1;
    }
    pieces
}

/// A fresh deck.
fn fresh_deck() -> (faces: Vec<char>)
    ensures
        faces@ == deck(),
{
    let mut faces: Vec<char> = Vec::new();
    let mut round: usize = 0;
    while round < 2
        invariant
            0 <= round <= 2,
            faces@ == if round == 0 {
                Seq::<char>::empty()
            } else if round == 1 {
                deck().take(8)
            } else {
                deck()
            },
        decreases 2 - round,
    {
        let ghost before = faces@;
        faces.push('\u{3b1}');
        faces.push('\u{3b2}');
        faces.push('\u{3b3}');
        faces.push('\u{3b4}');
        faces.push('\u{3b5}');
        faces.push('\u{3b6}');
        faces.push('\u{3b7}');
        faces.push('\u{3b8}');
        assert(round == 0 ==> faces@ =~= deck().take(8));
        assert(round == 1 ==> faces@ =~= deck());
        round += 1;
    }
    faces
}

/// Shuffles a fresh deck and lays it out.
fn create_pieces() -> (pieces: Vec<Piece>)
    ensures
        exists|faces: Seq<char>| #[trigger]
            faces.to_multiset() == deck().to_multiset() && laid_out(pieces@, faces),
{
    let mut faces = fresh_deck();
    shuffle(&mut faces);
    proof {
        faces@.to_multiset_ensures();
        deck().to_multiset_ensures();
    }
    lay_out(faces)
}

/// The text of the counter for `moves` moves.
fn counter_runes(moves: u32) -> (runes: Vec<char>)
    ensures
        runes@ == counter_prefix() + decimal(moves as int),
{
    let mut runes: Vec<char> = Vec::new();
    runes.push('F');
    runes.push('o');
    runes.push('r');
    runes.push('s');
    runes.push('\u{f8}');
    runes.push('k');
    runes.push(':');
    runes.push(' ');
    assert(runes@ =~= counter_prefix());
    let mut digits = decimal_runes(moves);
    runes.append(&mut digits);
    runes
}

/// Whether `index` is among `selected`.
fn is_selected(selected: &Vec<usize>, index: usize) -> (found: bool)
    ensures
        found == selected@.contains(index),
{
    let mut k: usize = 0;
    while k < selected.len()
        invariant
            0 <= k <= selected@.len(),
            forall|j: int| 0 <= j < k ==> selected@[j] != index,
        decreases selected@.len() - k,
    {
        if selected[k] == index {
            return true;
        }
        k += 1;
    }
    false
}

/// The game of pairs.
pub struct Day2State {
    pieces: Vec<Piece>,
    selected: Vec<usize>,
    moves: u32,
}

impl View for Day2State {
    type V = Memory;

    closed spec fn view(&self) -> Memory {
        Memory { pieces: self.pieces@, selected: self.selected@, moves: self.moves }
    }
}

impl Day2State {
    #[verifier::type_invariant]
    spec fn inv(self) -> bool {
        self@.wf()
    }

    /// A new game: a fresh deck, shuffled and laid out; no card turned, no
    /// move made.
    pub fn new() -> (game: Self)
        ensures
            game@.wf(),
            exists|faces: Seq<char>| #[trigger]
                faces.to_multiset() == deck().to_multiset() && game@.fresh(faces),
    {
        let pieces = create_pieces();
        Day2State { pieces, selected: Vec::new(), moves: 0 }
    }

    /// A new game with the deck in the order given.
    pub fn with_deck(faces: Vec<char>) -> (game: Self)
        requires
            faces@.len() == 16,
        ensures
            game@.wf(),
            game@.fresh(faces@),
    {
        let pieces = lay_out(faces);
        Day2State { pieces, selected: Vec::new(), moves: 0 }
    }

    /// How many moves the player has made.
    pub fn moves(&self) -> (moves: u32)
        ensures
            moves == self@.moves,
            self@.wf(),
    {
        proof {
            use_type_invariant(self);
        }
        self.moves
    }

    /// The cards that are on the table.
    pub fn pieces(&self) -> (pieces: &Vec<Piece>)
        ensures
            pieces@ == self@.pieces,
    {
        &self.pieces
    }

    /// The cards that are turned, by their index among the cards on the
    /// table.
    pub fn selected(&self) -> (selected: &Vec<usize>)
        ensures
            selected@ == self@.selected,
    {
        &self.selected
    }

    /// Entering the game needs no preparation.
    pub fn enter(&mut self, screen: &mut Screen, input: &Input)
        ensures
            final(self)@ == old(self)@,
            final(screen)@ == old(screen)@,
    {
    }

    /// Leaving the game needs no teardown.
    pub fn exit(&mut self, screen: &mut Screen, input: &Input)
        ensures
            final(self)@ == old(self)@,
            final(screen)@ == old(screen)@,
    {
    }

    /// Plays one frame: draws the table, turns the card that the left button
    /// was released over, and looks at the turned cards. Returns whether the
    /// player asks for the way back.
    pub fn update(&mut self, screen: &mut Screen, input: &Input, dt: u64) -> (leave: bool)
        ensures
            final(self)@ == old(self)@.played(old(screen)@.width, old(screen)@.height, input@),
            final(screen)@ == old(self)@.shown(old(screen)@, input@),
            leave == Memory::leaves(old(screen)@.width, old(screen)@.height, input@),
    {
        proof {
            use_type_invariant(&*self);
        }
        let width = screen.width();
        let height = screen.height();
        let mouse = input.mouse_position();
        let down = input.is_mouse_down(MouseButton::Left);
        let released = input.is_mouse_up(MouseButton::Left);
        let ghost before = self@;

        let mut taken = Day2State { pieces: Vec::new(), selected: Vec::new(), moves: 0 };
        std::mem::swap(self, &mut taken);
        let Day2State { mut pieces, mut selected, mut moves } = taken;

        let counter = counter_runes(moves);
        let digits: usize = counter.len() - COUNTER_PREFIX_RUNES;
        proof {
            lemma_decimal_short(moves as int);
        }
        draw_rune_box(
            screen,
            width,
            height,
            &counter,
            COUNTER_PREFIX_BYTES + digits,
            0,
            -12,
            (0, 0),
            false,
        );
        let ghost counted = screen@;

        let n: usize = pieces.len();
        let mut i: usize = 0;
        while i < n
            invariant
                n == pieces@.len(),
                pieces@ == before.pieces,
                0 <= i <= n,
                mouse == input@.mouse_position,
                down == input@.down.get(MouseButton::Left),
                released == input@.up.get(MouseButton::Left),
                selected@ == before.picked(width as int, height as int, input@, i as int),
                forall|k: int| 0 <= k < selected@.len() ==> selected@[k] < n,
                selected@.len() == 2 ==> selected@[0] != selected@[1],
                i == 0 ==> selected@.len() != 2,
                screen@ == before.cards_drawn(
                    counted,
                    width as int,
                    height as int,
                    input@,
                    i as int,
                ),
            decreases n - i,
        {
            let piece = pieces[i];
            let turned = is_selected(&selected, i);
            let mut text: Vec<char> = Vec::new();
            if turned {
                text.push(piece.sprite);
            } else {
                text.push(' ');
                text.push(' ');
            }
            assert(text@ =~= card_text(piece, turned));
            let hovered = draw_rune_box(
                screen,
                width,
                height,
                &text,
                2,
                piece.x as i128 * 9 - 12,
                piece.y as i128 * 4 - 8,
                mouse,
                down,
            );
            if hovered && released {
                let only = selected.len() == 1 && selected[0] == i;
                if !only {
                    selected.push(i);
                }
            }
            i += 1;
        }

        if selected.len() == 2 {
            let first = selected[0];
            let second = selected[1];
            if pieces[first].sprite == pieces[second].sprite {
                if first < second {
                    pieces.remove(first);
                    pieces.remove(second - 1);
                } else {
                    pieces.remove(first);
                    pieces.remove(second);
                }
            }
            selected = Vec::new();
            if moves < u32::MAX {
                moves += 1;
            }
        }
        if pieces.len() == 0 {
            draw_text_box(screen, width, height, "Gratulerer!", 0, 0, (0, 0), false);
        }
        let exit = draw_text_box(screen, width, height, "Tilbake", 0, 12, mouse, down);
        *self = Day2State { pieces, selected, moves };
        exit && released
    }
}

} // verus!
