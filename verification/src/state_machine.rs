//! Scenes and the host that owns the one that is active.
//!
//! A scene is a value with three operations: `enter`, `update` and `exit`.
//! What each of them does is the scene's own business; the scene states it as
//! a relation between what the operation found and what it left. The host's
//! contracts are written over these relations: they say which operations ran,
//! on what, and in which order.
//!
//! The host also keeps a journal of the calls that it makes, as a ghost value.
//! Whatever the scenes do, the journal is in order: no scene is entered before
//! the scene before it has left, and none is called before it is entered.

use crate::input::{Input, InputState};
use crate::screen::{Frame, Screen};
use vstd::prelude::*;

verus! {

/// A scene: one screen of the application.
///
/// `Scene` is the type that stands for every scene of the application, so
/// that one scene can ask for any other; an application names its own sum of
/// scenes there.
pub trait State: Sized {
    type Scene;

    /// What `enter` does: it found the scene as `before` and the screen as
    /// `shown`, and left them as `after` and `drawn`. A scene that does not
    /// say claims nothing.
    open spec fn entered(
        before: Self,
        after: Self,
        shown: Frame,
        drawn: Frame,
        input: InputState,
    ) -> bool {
        true
    }

    /// What `update` does in a frame of `dt` ticks, and which scene it asks
    /// for, if any.
    open spec fn updated(
        before: Self,
        after: Self,
        shown: Frame,
        drawn: Frame,
        input: InputState,
        dt: u64,
        next: Option<Self::Scene>,
    ) -> bool {
        true
    }

    /// What `exit` does.
    open spec fn exited(
        before: Self,
        after: Self,
        shown: Frame,
        drawn: Frame,
        input: InputState,
    ) -> bool {
        true
    }

    /// Sets the scene up. Runs once, before the scene becomes the active one.
    fn enter(&mut self, screen: &mut Screen, input: &Input)
        ensures
            Self::entered(*old(self), *final(self), old(screen)@, final(screen)@, input@),
    ;

    /// Draws one frame, reacts to the input and advances the scene by `dt`
    /// ticks. Returns the scene to switch to, if the scene asks for one.
    fn update(&mut self, screen: &mut Screen, input: &Input, dt: u64) -> (next: Option<
        Self::Scene,
    >)
        ensures
            Self::updated(*old(self), *final(self), old(screen)@, final(screen)@, input@, dt, next),
    ;

    /// Tears the scene down. Runs once, before the scene is discarded.
    fn exit(&mut self, screen: &mut Screen, input: &Input)
        ensures
            Self::exited(*old(self), *final(self), old(screen)@, final(screen)@, input@),
    ;
}

/// That the active scene, if there is one, has left: its `exit` ran on the
/// screen `shown` and left it as `drawn`. Without an active scene the screen
/// is untouched.
pub open spec fn departed<S: State>(
    active: Option<S>,
    shown: Frame,
    drawn: Frame,
    input: InputState,
) -> bool {
    match active {
        Some(scene) => exists|gone: S| S::exited(scene, gone, shown, drawn, input),
        None => drawn == shown,
    }
}

/// That the incoming scene, if there is one, has arrived: its `enter` ran on
/// the screen `shown`, left it as `drawn`, and the scene as it is then is the
/// active one. Without an incoming scene none is active and the screen is
/// untouched.
pub open spec fn arrived<S: State>(
    incoming: Option<S>,
    active: Option<S>,
    shown: Frame,
    drawn: Frame,
    input: InputState,
) -> bool {
    match incoming {
        Some(scene) => active.is_some() && S::entered(scene, active.unwrap(), shown, drawn, input),
        None => active.is_none() && drawn == shown,
    }
}

/// A switch of scenes: the scene that was active has left, and then the
/// incoming one has arrived on the screen as the other left it.
pub open spec fn switched<S: State>(
    outgoing: Option<S>,
    incoming: Option<S>,
    active: Option<S>,
    shown: Frame,
    drawn: Frame,
    input: InputState,
) -> bool {
    exists|between: Frame| #[trigger]
        departed(outgoing, shown, between, input) && arrived(
            incoming,
            active,
            between,
            drawn,
            input,
        )
}

/// One frame of the host: nothing without an active scene; else the scene's
/// `update` ran, and where it asked for another scene, the switch to that one
/// followed within the frame.
pub open spec fn advanced<S: State<Scene = S>>(
    before: Option<S>,
    after: Option<S>,
    shown: Frame,
    drawn: Frame,
    input: InputState,
    dt: u64,
) -> bool {
    match before {
        None => after.is_none() && drawn == shown,
        Some(scene) => exists|updated: S, between: Frame, next: Option<S>| #[trigger]
            S::updated(scene, updated, shown, between, input, dt, next) && match next {
                None => after == Some(updated) && drawn == between,
                Some(requested) => switched(
                    Some(updated),
                    Some(requested),
                    after,
                    between,
                    drawn,
                    input,
                ),
            },
    }
}

/// A call that the host makes on a scene. The scenes are numbered in the
/// order in which the host took them up, from 0.
pub enum Call {
    Enter(nat),
    Update(nat),
    Exit(nat),
}

/// Whether the `i`-th call of a journal stands where the life of a scene
/// allows it. `enter` of the first scene opens the journal, and `enter` of any
/// other scene follows at once on `exit` of the scene before it. `update` and
/// `exit` of a scene follow on `enter` or on an `update` of that same scene.
pub open spec fn in_place(journal: Seq<Call>, i: int) -> bool {
    match journal[i] {
        Call::Enter(scene) => if i == 0 {
            scene == 0
        } else {
            scene > 0 && journal[i - 1] == Call::Exit((scene - 1) as nat)
        },
        Call::Update(scene) => i > 0 && (journal[i - 1] == Call::Enter(scene) || journal[i - 1]
            == Call::Update(scene)),
        Call::Exit(scene) => i > 0 && (journal[i - 1] == Call::Enter(scene) || journal[i - 1]
            == Call::Update(scene)),
    }
}

/// Whether every call of a journal stands in its place.
pub open spec fn in_order(journal: Seq<Call>) -> bool {
    forall|i: int| 0 <= i < journal.len() ==> in_place(journal, i)
}

/// The calls that a switch adds to the journal of a host that has taken up
/// `scenes` scenes so far: `exit` of the active scene, if there is one, and
/// then `enter` of the new one, if there is one.
pub open spec fn calls_of_switch(scenes: nat, leaves: bool, arrives: bool) -> Seq<Call> {
    let exit = if leaves {
        seq![Call::Exit((scenes - 1) as nat)]
    } else {
        Seq::empty()
    };
    let enter = if arrives {
        seq![Call::Enter(scenes)]
    } else {
        Seq::empty()
    };
    exit + enter
}

/// The scene host: it owns the one scene that is active, or none.
#[verifier::reject_recursive_types(S)]
pub struct StateMachine<S: State<Scene = S>> {
    current_state: Option<S>,
    journal: Ghost<Seq<Call>>,
    scenes: Ghost<nat>,
}

impl<S: State<Scene = S>> View for StateMachine<S> {
    type V = Option<S>;

    closed spec fn view(&self) -> Option<S> {
        self.current_state
    }
}

impl<S: State<Scene = S>> StateMachine<S> {
    /// All calls that the host has made on scenes, in their order.
    pub closed spec fn journal(&self) -> Seq<Call> {
        self.journal@
    }

    /// How many scenes the host has taken up.
    pub closed spec fn scenes(&self) -> nat {
        self.scenes@
    }

    #[verifier::type_invariant]
    spec fn inv(self) -> bool {
        &&& in_order(self.journal@)
        &&& match self.current_state {
            Some(_) => self.scenes@ > 0 && self.journal@.len() > 0 && (self.journal@.last()
                == Call::Enter((self.scenes@ - 1) as nat) || self.journal@.last() == Call::Update(
                (self.scenes@ - 1) as nat,
            )),
            None => if self.scenes@ == 0 {
                self.journal@.len() == 0
            } else {
                self.journal@.len() > 0 && self.journal@.last() == Call::Exit(
                    (self.scenes@ - 1) as nat,
                )
            },
        }
    }

    /// A host without a scene, which has made no call.
    pub fn new() -> (host: StateMachine<S>)
        ensures
            host@.is_none(),
            host.journal() == Seq::<Call>::empty(),
            host.scenes() == 0,
    {
        StateMachine { current_state: None, journal: Ghost(Seq::empty()), scenes: Ghost(0) }
    }

    /// The active scene, if there is one.
    pub fn current_state(&self) -> (current: &Option<S>)
        ensures
            *current == self@,
            in_order(self.journal()),
    {
        proof {
            use_type_invariant(self);
        }
        &self.current_state
    }

    /// Makes `new_state` the active scene.
    ///
    /// The scene that was active leaves first: its `exit` runs to the end.
    /// Only then does `enter` of the new one run, on the screen as `exit`
    /// left it. With no new scene the host is empty afterwards.
    pub fn change(&mut self, screen: &mut Screen, input: &Input, new_state: Option<S>)
        ensures
            switched(old(self)@, new_state, final(self)@, old(screen)@, final(screen)@, input@),
            final(self).journal() == old(self).journal() + calls_of_switch(
                old(self).scenes(),
                old(self)@.is_some(),
                new_state.is_some(),
            ),
            final(self).scenes() == old(self).scenes() + if new_state.is_some() {
                1nat
            } else {
                0nat
            },
            in_order(final(self).journal()),
    {
        proof {
            use_type_invariant(&*self);
        }
        let mut taken = StateMachine {
            current_state: None,
            journal: Ghost(Seq::empty()),
            scenes: Ghost(0),
        };
        std::mem::swap(self, &mut taken);
        let StateMachine { mut current_state, journal, scenes } = taken;
        let ghost before = journal@;
        let ghost count = scenes@;
        let ghost leaves = current_state.is_some();
        let ghost arrives = new_state.is_some();

        if let Some(state) = &mut current_state {
            state.exit(screen, input);
        }
        let ghost between = screen@;
        current_state = new_state;
        if let Some(state) = &mut current_state {
            state.enter(screen, input);
        }
        let ghost after = before + calls_of_switch(count, leaves, arrives);
        proof {
            assert(in_order(after)) by {
                assert forall|i: int| 0 <= i < after.len() implies in_place(after, i) by {
                    if i < before.len() {
                        assert(in_place(before, i));
                    }
                }
            }
        }
        *self = StateMachine {
            current_state,
            journal: Ghost(after),
            scenes: Ghost(
                if arrives {
                    count + 1
                } else {
                    count
                },
            ),
        };
        assert(departed(old(self)@, old(screen)@, between, input@));
        assert(arrived(new_state, self@, between, screen@, input@));
    }

    /// Runs one frame of `dt` ticks.
    ///
    /// An empty host does nothing: no scene is called and the screen stays
    /// as it is. Otherwise `update` of the active scene runs; where it asks
    /// for another scene, the host switches to that one before it returns.
    pub fn update(&mut self, screen: &mut Screen, input: &Input, dt: u64)
        ensures
            advanced(old(self)@, final(self)@, old(screen)@, final(screen)@, input@, dt),
            old(self)@.is_none() ==> final(self).journal() == old(self).journal()
                && final(self).scenes() == old(self).scenes(),
            old(self)@.is_some() ==> {
                let updated = old(self).journal().push(
                    Call::Update((old(self).scenes() - 1) as nat),
                );
                ||| final(self).journal() == updated && final(self).scenes() == old(self).scenes()
                ||| final(self).journal() == updated + calls_of_switch(
                    old(self).scenes(),
                    true,
                    true,
                ) && final(self).scenes() == old(self).scenes() + 1
            },
            in_order(final(self).journal()),
    {
        proof {
            use_type_invariant(&*self);
        }
        let mut taken = StateMachine {
            current_state: None,
            journal: Ghost(Seq::empty()),
            scenes: Ghost(0),
        };
        std::mem::swap(self, &mut taken);
        let StateMachine { mut current_state, journal, scenes } = taken;
        let ghost before = journal@;
        let ghost count = scenes@;

        let mut requested: Option<S> = None;
        if let Some(state) = &mut current_state {
            requested = state.update(screen, input, dt);
        }
        let ghost between = screen@;
        let ghost updated = current_state;
        let ghost after = if current_state.is_some() {
            before.push(Call::Update((count - 1) as nat))
        } else {
            before
        };
        proof {
            assert(in_order(after)) by {
                assert forall|i: int| 0 <= i < after.len() implies in_place(after, i) by {
                    if i < before.len() {
                        assert(in_place(before, i));
                    }
                }
            }
        }
        *self = StateMachine { current_state, journal: Ghost(after), scenes: Ghost(count) };
        if requested.is_some() {
            self.change(screen, input, requested);
        }
        proof {
            if old(self)@.is_some() {
                assert(S::updated(
                    old(self)@.unwrap(),
                    updated.unwrap(),
                    old(screen)@,
                    between,
                    input@,
                    dt,
                    requested,
                ));
            }
        }
    }
}

/// In every switch from one scene to another, `exit` of the scene that leaves
/// comes before `enter` of the scene that arrives: `enter` finds the screen as
/// `exit` left it, and the scene that has arrived is the one that is active.
pub proof fn lemma_exit_precedes_enter<S: State>(
    outgoing: S,
    incoming: S,
    active: Option<S>,
    shown: Frame,
    drawn: Frame,
    input: InputState,
)
    requires
        switched(Some(outgoing), Some(incoming), active, shown, drawn, input),
    ensures
        active.is_some(),
        exists|gone: S, between: Frame| #[trigger]
            S::exited(outgoing, gone, shown, between, input) && S::entered(
                incoming,
                active.unwrap(),
                between,
                drawn,
                input,
            ),
{
    let between = choose|between: Frame| #[trigger]
        departed(Some(outgoing), shown, between, input) && arrived(
            Some(incoming),
            active,
            between,
            drawn,
            input,
        );
    let gone = choose|gone: S| S::exited(outgoing, gone, shown, between, input);
    assert(S::exited(outgoing, gone, shown, between, input));
}

/// A frame of an empty host calls no scene: the host stays empty and the
/// screen is as it was.
pub proof fn lemma_empty_host_idles<S: State<Scene = S>>(
    after: Option<S>,
    shown: Frame,
    drawn: Frame,
    input: InputState,
    dt: u64,
)
    requires
        advanced(None::<S>, after, shown, drawn, input, dt),
    ensures
        after.is_none(),
        drawn == shown,
{
}

/// A switch to no scene leaves the host empty, and a switch from an empty
/// host calls no `exit`.
pub proof fn lemma_switch_without_a_scene<S: State>(
    outgoing: Option<S>,
    incoming: Option<S>,
    active: Option<S>,
    shown: Frame,
    drawn: Frame,
    input: InputState,
)
    requires
        switched(outgoing, incoming, active, shown, drawn, input),
    ensures
        incoming.is_none() ==> active.is_none(),
        incoming.is_some() ==> active.is_some(),
        outgoing.is_none() && incoming.is_none() ==> drawn == shown,
        outgoing.is_none() && incoming.is_some() ==> S::entered(
            incoming.unwrap(),
            active.unwrap(),
            shown,
            drawn,
            input,
        ),
{
}

/// In a journal that is in order, `enter` of every scene but the first comes
/// directly after `exit` of the scene before it: the scene that was active has
/// left before the next one arrives, and nothing happens in between.
pub proof fn lemma_journal_exit_precedes_enter(journal: Seq<Call>, i: int, scene: nat)
    requires
        in_order(journal),
        0 <= i < journal.len(),
        journal[i] == Call::Enter(scene),
        scene > 0,
    ensures
        i > 0,
        journal[i - 1] == Call::Exit((scene - 1) as nat),
{
    assert(in_place(journal, i));
}

/// In a journal that is in order no scene is called before it has been
/// entered: every `update` and every `exit` of a scene comes after its
/// `enter`, with nothing but its own `update`s in between.
pub proof fn lemma_journal_enter_comes_first(journal: Seq<Call>, i: int, scene: nat)
    requires
        in_order(journal),
        0 <= i < journal.len(),
        journal[i] == Call::Update(scene) || journal[i] == Call::Exit(scene),
    ensures
        exists|k: int|
            0 <= k < i && journal[k] == Call::Enter(scene) && forall|j: int|
                k < j < i ==> journal[j] == Call::Update(scene),
    decreases i,
{
    assert(in_place(journal, i));
    if journal[i - 1] == Call::Enter(scene) {
        assert(forall|j: int| i - 1 < j < i ==> journal[j] == Call::Update(scene));
    } else {
        lemma_journal_enter_comes_first(journal, i - 1, scene);
        let k = choose|k: int|
            0 <= k < i - 1 && journal[k] == Call::Enter(scene) && forall|j: int|
                k < j < i - 1 ==> journal[j] == Call::Update(scene);
        assert(forall|j: int| k < j < i ==> journal[j] == Call::Update(scene));
    }
}

} // verus!
