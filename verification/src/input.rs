//! The input model: what the keyboard and the mouse did, as seen once per
//! frame. Raw events are folded into it by [`Input::update`]; scenes only ask.

use vstd::prelude::*;

verus! {

/// A mouse button.
#[derive(Clone, Copy, Debug, PartialEq, Eq, Structural)]
pub enum MouseButton {
    Left,
    Middle,
    Right,
}

/// The edge of a key within one frame.
#[derive(Clone, Copy, Debug, PartialEq, Eq, Structural)]
pub enum InputEvent {
    Down,
    Up,
}

/// One event of the raw input source.
#[derive(Clone, Copy, Debug, PartialEq, Eq, Structural)]
pub enum RawEvent {
    Key { key: char, edge: InputEvent },
    MouseMove { x: u16, y: u16 },
    MouseDown { button: MouseButton },
    MouseUp { button: MouseButton },
    Resize { width: u16, height: u16 },
}

/// A key together with the edge that it had.
#[derive(Clone, Copy, Debug, PartialEq, Eq, Structural)]
pub struct KeyEdge {
    pub key: char,
    pub edge: InputEvent,
}

/// One flag for each mouse button.
#[derive(Clone, Copy, Debug, PartialEq, Eq, Structural)]
pub struct Buttons {
    pub left: bool,
    pub middle: bool,
    pub right: bool,
}

impl Buttons {
    /// The flag of `button`.
    pub open spec fn get(self, button: MouseButton) -> bool {
        match button {
            MouseButton::Left => self.left,
            MouseButton::Middle => self.middle,
            MouseButton::Right => self.right,
        }
    }

    /// The flags with that of `button` set to `value`.
    pub open spec fn with(self, button: MouseButton, value: bool) -> Buttons {
        match button {
            MouseButton::Left => Buttons { left: value, ..self },
            MouseButton::Middle => Buttons { middle: value, ..self },
            MouseButton::Right => Buttons { right: value, ..self },
        }
    }

    /// No flag set.
    pub open spec fn none() -> Buttons {
        Buttons { left: false, middle: false, right: false }
    }

    fn read(&self, button: MouseButton) -> (flag: bool)
        ensures
            flag == self.get(button),
    {
        match button {
            MouseButton::Left => self.left,
            MouseButton::Middle => self.middle,
            MouseButton::Right => self.right,
        }
    }

    fn write(&mut self, button: MouseButton, value: bool)
        ensures
            *final(self) == old(self).with(button, value),
    {
        match button {
            MouseButton::Left => {
                self.left = value;
            },
            MouseButton::Middle => {
                self.middle = value;
            },
            MouseButton::Right => {
                self.right = value;
            },
        }
    }
}

/// The mathematical content of the input model.
pub struct InputState {
    /// Where the mouse was last seen.
    pub mouse_position: (u16, u16),
    /// Which buttons are held.
    pub down: Buttons,
    /// Which buttons were released during the current frame.
    pub up: Buttons,
    /// The key edges of the current frame, in the order in which they came.
    pub keys: Seq<KeyEdge>,
}

impl InputState {
    /// The state before any event: the mouse at the origin, nothing held,
    /// no edge.
    pub open spec fn initial() -> InputState {
        InputState {
            mouse_position: (0, 0),
            down: Buttons::none(),
            up: Buttons::none(),
            keys: Seq::empty(),
        }
    }

    /// The state at the start of a frame: what lasts is kept (the position
    /// and the held buttons), the edges of the frame before are gone.
    pub open spec fn begin_frame(self) -> InputState {
        InputState { up: Buttons::none(), keys: Seq::empty(), ..self }
    }

    /// The state after one raw event.
    pub open spec fn apply(self, event: RawEvent) -> InputState {
        match event {
            RawEvent::Key { key, edge } => InputState {
                keys: self.keys.push(KeyEdge { key, edge }),
                ..self
            },
            RawEvent::MouseMove { x, y } => InputState { mouse_position: (x, y), ..self },
            RawEvent::MouseDown { button } => InputState {
                down: self.down.with(button, true),
                ..self
            },
            RawEvent::MouseUp { button } => InputState {
                down: self.down.with(button, false),
                up: self.up.with(button, true),
                ..self
            },
            RawEvent::Resize { width, height } => self,
        }
    }

    /// The state after the first `n` of `events`, in their order.
    pub open spec fn apply_first(self, events: Seq<RawEvent>, n: int) -> InputState
        decreases n,
    {
        if n <= 0 {
            self
        } else {
            self.apply_first(events, n - 1).apply(events[n - 1])
        }
    }

    /// The state after one whole frame in which `events` came.
    pub open spec fn refresh(self, events: Seq<RawEvent>) -> InputState {
        self.begin_frame().apply_first(events, events.len() as int)
    }

    /// The latest edge of `key` among the first `n` key edges of the frame,
    /// if it has one.
    pub open spec fn key_edge_within(self, key: char, n: int) -> Option<InputEvent>
        decreases n,
    {
        if n <= 0 {
            None
        } else if self.keys[n - 1].key == key {
            Some(self.keys[n - 1].edge)
        } else {
            self.key_edge_within(key, n - 1)
        }
    }

    /// The edge that `key` has in the current frame: its latest, or none.
    pub open spec fn key_edge(self, key: char) -> Option<InputEvent> {
        self.key_edge_within(key, self.keys.len() as int)
    }
}

/// The size that the latest resize event among the first `n` of `events`
/// announced, if there is one.
pub open spec fn last_resize(events: Seq<RawEvent>, n: int) -> Option<(u16, u16)>
    decreases n,
{
    if n <= 0 {
        None
    } else {
        match events[n - 1] {
            RawEvent::Resize { width, height } => Some((width, height)),
            _ => last_resize(events, n - 1),
        }
    }
}

/// Keyboard and mouse state for the current frame.
pub struct Input {
    mouse_position: (u16, u16),
    down: Buttons,
    up: Buttons,
    keys: Vec<KeyEdge>,
}

impl View for Input {
    type V = InputState;

    closed spec fn view(&self) -> InputState {
        InputState {
            mouse_position: self.mouse_position,
            down: self.down,
            up: self.up,
            keys: self.keys@,
        }
    }
}

impl Input {
    /// An input model that has seen no event.
    pub fn new() -> (input: Input)
        ensures
            input@ == InputState::initial(),
    {
        Input {
            mouse_position: (0, 0),
            down: Buttons { left: false, middle: false, right: false },
            up: Buttons { left: false, middle: false, right: false },
            keys: Vec::new(),
        }
    }

    /// Where the mouse was last seen.
    pub fn mouse_position(&self) -> (position: (u16, u16))
        ensures
            position == self@.mouse_position,
    {
        self.mouse_position
    }

    /// Whether `button` is held.
    pub fn is_mouse_down(&self, button: MouseButton) -> (held: bool)
        ensures
            held == self@.down.get(button),
    {
        self.down.read(button)
    }

    /// Whether `button` was released during the current frame.
    pub fn is_mouse_up(&self, button: MouseButton) -> (released: bool)
        ensures
            released == self@.up.get(button),
    {
        self.up.read(button)
    }

    /// The edge that `key` has in the current frame, if any.
    pub fn key_event(&self, key: char) -> (edge: Option<InputEvent>)
        ensures
            edge == self@.key_edge(key),
    {
        let mut i: usize = self.keys.len();
        while i > 0
            invariant
                0 <= i <= self.keys@.len(),
                self@.key_edge(key) == self@.key_edge_within(key, i as int),
            decreases i,
        {
            i -= 1;
            if self.keys[i].key == key {
                return Some(self.keys[i].edge);
            }
        }
        None
    }

    /// Whether `key` went down during the current frame and did not come up
    /// again.
    pub fn is_key_down(&self, key: char) -> (down: bool)
        ensures
            down == (self@.key_edge(key) == Some(InputEvent::Down)),
    {
        match self.key_event(key) {
            Some(InputEvent::Down) => true,
            _ => false,
        }
    }

    /// Whether the latest edge of `key` in the current frame is a release.
    pub fn is_key_up(&self, key: char) -> (up: bool)
        ensures
            up == (self@.key_edge(key) == Some(InputEvent::Up)),
    {
        match self.key_event(key) {
            Some(InputEvent::Up) => true,
            _ => false,
        }
    }

    /// The key edges of the current frame, in the order in which they came.
    pub fn keymap(&self) -> (edges: Vec<KeyEdge>)
        ensures
            edges@ == self@.keys,
    {
        let n: usize = self.keys.len();
        let mut edges: Vec<KeyEdge> = Vec::new();
        let mut i: usize = 0;
        while i < n
            invariant
                n == self.keys@.len(),
                0 <= i <= n,
                edges@ == self.keys@.take(i as int),
            decreases n - i,
        {
            edges.push(self.keys[i]);
            i += 1;
        }
        assert(self.keys@.take(n as int) =~= self.keys@);
        edges
    }

    /// Starts a frame: forgets the edges of the frame before.
    pub fn begin_frame(&mut self)
        ensures
            final(self)@ == old(self)@.begin_frame(),
    {
        self.up = Buttons { left: false, middle: false, right: false };
        self.keys = Vec::new();
    }

    /// Folds one raw event into the model. Returns the new size where the
    /// event is a resize.
    pub fn apply(&mut self, event: RawEvent) -> (resized: Option<(u16, u16)>)
        ensures
            final(self)@ == old(self)@.apply(event),
            resized == last_resize(seq![event], 1),
    {
        assert(last_resize(seq![event], 0) is None);
        match event {
            RawEvent::Key { key, edge } => {
                self.keys.push(KeyEdge { key, edge });
                None
            },
            RawEvent::MouseMove { x, y } => {
                self.mouse_position = (x, y);
                None
            },
            RawEvent::MouseDown { button } => {
                self.down.write(button, true);
                None
            },
            RawEvent::MouseUp { button } => {
                self.down.write(button, false);
                self.up.write(button, true);
                None
            },
            RawEvent::Resize { width, height } => Some((width, height)),
        }
    }

    /// Refreshes the model for a new frame from what the raw input source
    /// gave: either all events that were pending, in their order, or the
    /// failure to read them.
    ///
    /// The edges of the frame before are forgotten first, in either case.
    /// Then the events are folded in, and the size of the latest resize among
    /// them is returned. A failure is handed back to the caller as it came.
    pub fn update<E>(&mut self, polled: Result<Vec<RawEvent>, E>) -> (outcome: Result<
        Option<(u16, u16)>,
        E,
    >)
        ensures
            match polled {
                Ok(events) => {
                    &&& final(self)@ == old(self)@.refresh(events@)
                    &&& outcome == Ok::<Option<(u16, u16)>, E>(
                        last_resize(events@, events@.len() as int),
                    )
                },
                Err(failure) => {
                    &&& final(self)@ == old(self)@.begin_frame()
                    &&& outcome == Err::<Option<(u16, u16)>, E>(failure)
                },
            },
    {
        self.begin_frame();
        match polled {
            Ok(events) => {
                let n: usize = events.len();
                let mut resized: Option<(u16, u16)> = None;
                let mut i: usize = 0;
                while i < n
                    invariant
                        n == events@.len(),
                        0 <= i <= n,
                        self@ == old(self)@.begin_frame().apply_first(events@, i as int),
                        resized == last_resize(events@, i as int),
                    decreases n - i,
                {
                    let event = events[i];
                    assert(last_resize(seq![event], 0) is None);
                    match self.apply(event) {
                        Some(size) => {
                            resized = Some(size);
                        },
                        None => {},
                    }
                    i += 1;
                }
                Ok(resized)
            },
            Err(failure) => Err(failure),
        }
    }
}

/// A release is an edge: a button counts as released in a frame exactly when
/// a release of it was among the events of that frame. So one release event
/// is seen in the frame in which it came and no longer in the next.
pub proof fn lemma_release_seen_in_its_frame_only(
    state: InputState,
    events: Seq<RawEvent>,
    button: MouseButton,
)
    ensures
        state.refresh(events).up.get(button) <==> events.contains(RawEvent::MouseUp { button }),
        !state.refresh(events).refresh(Seq::empty()).up.get(button),
{
    lemma_release_within(state.begin_frame(), events, events.len() as int, button);
    assert(events.take(events.len() as int) =~= events);
}

/// A button is flagged as released after the first `n` events exactly when it
/// was flagged before or one of them released it.
proof fn lemma_release_within(state: InputState, events: Seq<RawEvent>, n: int, button: MouseButton)
    requires
        0 <= n <= events.len(),
    ensures
        state.apply_first(events, n).up.get(button) <==> state.up.get(button) || events.take(
            n,
        ).contains(RawEvent::MouseUp { button }),
    decreases n,
{
    let release = RawEvent::MouseUp { button };
    if n > 0 {
        lemma_release_within(state, events, n - 1, button);
        let before = events.take(n - 1);
        let upto = events.take(n);
        assert(upto =~= before.push(events[n - 1]));
        if before.contains(release) {
            let k = choose|k: int| 0 <= k < before.len() && before[k] == release;
            assert(upto[k] == release);
        }
        if events[n - 1] == release {
            assert(upto[n - 1] == release);
        }
        if upto.contains(release) {
            let k = choose|k: int| 0 <= k < upto.len() && upto[k] == release;
            if k < n - 1 {
                assert(before[k] == release);
            }
        }
    } else {
        assert(events.take(0).len() == 0);
    }
}

/// A key edge, too, lasts one frame: the edge that a key has in a frame is
/// that of its latest event in that frame, and a frame without events leaves
/// no key with an edge.
pub proof fn lemma_key_edge_lasts_one_frame(state: InputState, key: char, edge: InputEvent)
    ensures
        state.refresh(seq![RawEvent::Key { key, edge }]).key_edge(key) == Some(edge),
        state.refresh(seq![RawEvent::Key { key, edge }]).refresh(Seq::empty()).key_edge(key)
            is None,
{
    let events = seq![RawEvent::Key { key, edge }];
    let start = state.begin_frame();
    assert(start.apply_first(events, 0) == start);
    assert(start.apply_first(events, 1) == start.apply(events[0]));
    let after = state.refresh(events);
    assert(after.keys =~= seq![KeyEdge { key, edge }]);
    assert(after.key_edge_within(key, 1) == Some(edge));
}

/// What lasts across frames is only changed by events: a frame without any
/// leaves the position and the held buttons as they were.
pub proof fn lemma_quiet_frame_keeps_levels(state: InputState)
    ensures
        state.refresh(Seq::empty()).mouse_position == state.mouse_position,
        state.refresh(Seq::empty()).down == state.down,
{
}

} // verus!
