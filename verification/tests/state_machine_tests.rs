use scene_engine::input::Input;
use scene_engine::screen::{Color, Screen};
use scene_engine::state_machine::{State, StateMachine};
use std::cell::RefCell;
use std::rc::Rc;

type Log = Rc<RefCell<Vec<String>>>;

/// A scene that records every call and asks for its successors in turn.
struct Recorder {
    name: String,
    log: Log,
    successors: Vec<Recorder>,
    switch_after: usize,
    updates: usize,
}

impl Recorder {
    fn new(name: &str, log: &Log) -> Recorder {
        Recorder {
            name: String::from(name),
            log: log.clone(),
            successors: Vec::new(),
            switch_after: 0,
            updates: 0,
        }
    }

    fn then(mut self, switch_after: usize, next: Recorder) -> Recorder {
        self.switch_after = switch_after;
        self.successors.push(next);
        self
    }

    fn note(&self, what: &str) {
        self.log.borrow_mut().push(format!("{}.{}", self.name, what));
    }
}

impl State for Recorder {
    type Scene = Recorder;

    fn enter(&mut self, _screen: &mut Screen, _input: &Input) {
        self.note("enter");
    }

    fn update(&mut self, screen: &mut Screen, _input: &Input, _dt: u64) -> Option<Recorder> {
        self.note("update");
        screen.draw_text(0, 0, &self.name, Color::White);
        self.updates += 1;
        if self.updates >= self.switch_after {
            self.successors.pop()
        } else {
            None
        }
    }

    fn exit(&mut self, _screen: &mut Screen, _input: &Input) {
        self.note("exit");
    }
}

fn entries(log: &Log) -> Vec<String> {
    log.borrow().clone()
}

#[test]
fn new_host_is_empty() {
    let host: StateMachine<Recorder> = StateMachine::new();
    assert!(host.current_state().is_none());
}

#[test]
fn update_on_empty_host_does_nothing() {
    let mut host: StateMachine<Recorder> = StateMachine::new();
    let mut screen = Screen::new((3, 1));
    screen.set_cell(1, 0, 'k', Color::Green);
    let before = screen.clone_buffer();
    let input = Input::new();
    host.update(&mut screen, &input, 1_000);
    host.update(&mut screen, &input, 0);
    assert!(host.current_state().is_none());
    assert_eq!(screen.clone_buffer(), before);
}

#[test]
fn change_enters_the_first_scene() {
    let log: Log = Rc::new(RefCell::new(Vec::new()));
    let mut host = StateMachine::new();
    let mut screen = Screen::new((3, 1));
    let input = Input::new();
    host.change(&mut screen, &input, Some(Recorder::new("a", &log)));
    assert_eq!(entries(&log), vec!["a.enter"]);
    assert_eq!(host.current_state().as_ref().unwrap().name, "a");
}

#[test]
fn exit_comes_strictly_before_enter() {
    let log: Log = Rc::new(RefCell::new(Vec::new()));
    let mut host = StateMachine::new();
    let mut screen = Screen::new((3, 1));
    let input = Input::new();
    host.change(&mut screen, &input, Some(Recorder::new("a", &log)));
    host.change(&mut screen, &input, Some(Recorder::new("b", &log)));
    host.change(&mut screen, &input, Some(Recorder::new("c", &log)));
    assert_eq!(entries(&log), vec!["a.enter", "a.exit", "b.enter", "b.exit", "c.enter"]);
    assert_eq!(host.current_state().as_ref().unwrap().name, "c");
}

#[test]
fn change_to_nothing_leaves_the_host_empty() {
    let log: Log = Rc::new(RefCell::new(Vec::new()));
    let mut host = StateMachine::new();
    let mut screen = Screen::new((3, 1));
    let input = Input::new();
    host.change(&mut screen, &input, Some(Recorder::new("a", &log)));
    host.change(&mut screen, &input, None);
    assert!(host.current_state().is_none());
    assert_eq!(entries(&log), vec!["a.enter", "a.exit"]);
    host.update(&mut screen, &input, 5);
    assert_eq!(entries(&log), vec!["a.enter", "a.exit"]);
    host.change(&mut screen, &input, None);
    assert_eq!(entries(&log), vec!["a.enter", "a.exit"]);
}

#[test]
fn update_forwards_to_the_active_scene_once() {
    let log: Log = Rc::new(RefCell::new(Vec::new()));
    let mut host = StateMachine::new();
    let mut screen = Screen::new((3, 1));
    let input = Input::new();
    host.change(&mut screen, &input, Some(Recorder::new("a", &log)));
    host.update(&mut screen, &input, 10);
    host.update(&mut screen, &input, 10);
    assert_eq!(entries(&log), vec!["a.enter", "a.update", "a.update"]);
    assert_eq!(screen.get_cell(0, 0).rune, 'a');
}

#[test]
fn requested_scene_is_switched_to_within_the_frame() {
    let log: Log = Rc::new(RefCell::new(Vec::new()));
    let mut host = StateMachine::new();
    let mut screen = Screen::new((3, 1));
    let input = Input::new();
    let first = Recorder::new("a", &log).then(2, Recorder::new("b", &log));
    host.change(&mut screen, &input, Some(first));
    host.update(&mut screen, &input, 10);
    assert_eq!(host.current_state().as_ref().unwrap().name, "a");
    host.update(&mut screen, &input, 10);
    assert_eq!(host.current_state().as_ref().unwrap().name, "b");
    assert_eq!(
        entries(&log),
        vec!["a.enter", "a.update", "a.update", "a.exit", "b.enter"]
    );
    host.update(&mut screen, &input, 10);
    assert_eq!(
        entries(&log),
        vec!["a.enter", "a.update", "a.update", "a.exit", "b.enter", "b.update"]
    );
}

#[test]
fn every_scene_of_a_chain_is_entered_and_left_once() {
    let log: Log = Rc::new(RefCell::new(Vec::new()));
    let mut host = StateMachine::new();
    let mut screen = Screen::new((3, 1));
    let input = Input::new();
    let chain = Recorder::new("a", &log).then(
        1,
        Recorder::new("b", &log).then(1, Recorder::new("c", &log).then(1, Recorder::new("d", &log))),
    );
    host.change(&mut screen, &input, Some(chain));
    for _ in 0..3 {
        host.update(&mut screen, &input, 1);
    }
    host.change(&mut screen, &input, None);
    let seen = entries(&log);
    for name in ["a", "b", "c", "d"] {
        let enter = format!("{}.enter", name);
        let exit = format!("{}.exit", name);
        assert_eq!(seen.iter().filter(|entry| **entry == enter).count(), 1);
        assert_eq!(seen.iter().filter(|entry| **entry == exit).count(), 1);
        let entered = seen.iter().position(|entry| *entry == enter).unwrap();
        let left = seen.iter().position(|entry| *entry == exit).unwrap();
        assert!(entered < left);
    }
    for pair in [("a", "b"), ("b", "c"), ("c", "d")] {
        let left = seen.iter().position(|entry| *entry == format!("{}.exit", pair.0)).unwrap();
        let entered = seen.iter().position(|entry| *entry == format!("{}.enter", pair.1)).unwrap();
        assert_eq!(left + 1, entered);
    }
}
