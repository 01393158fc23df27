//! Interaction dispatch: from signals on buttons to navigation directives
//! and domain signals.
//!
//! Every tick each interactive element reports a raw signal. The dispatcher
//! owes the element a visual state for every tick, and on a press edge —
//! a pressed signal that follows a non-pressed one — it unfolds the
//! element's bound action into the ordered list of directives the
//! surrounding application must carry out. A batch action is flattened
//! recursively, in order. Repeated pressed signals within one held press
//! fire no further dispatch.

use vstd::prelude::*;

use crate::template::Action;
use crate::template::ActionModel;
use crate::template::MenuTemplate;
use crate::template::TemplateModel;
use crate::template::actions_model;

verus! {

/// Raw interaction signal of one element for one tick.
#[derive(Debug, Clone, Copy, PartialEq, Eq, Structural)]
pub enum InteractionSignal {
    Pressed,
    Hovered,
    Idle,
}

/// Visual feedback owed to an element, reported every tick regardless of
/// whether the tick dispatched anything.
#[derive(Debug, Clone, Copy, PartialEq, Eq, Structural)]
pub enum VisualState {
    Pressed,
    Hovered,
    Idle,
}

/// The visual state owed for a signal.
pub open spec fn visual_of(sig: InteractionSignal) -> VisualState {
    match sig {
        InteractionSignal::Pressed => VisualState::Pressed,
        InteractionSignal::Hovered => VisualState::Hovered,
        InteractionSignal::Idle => VisualState::Idle,
    }
}

/// Report the visual state owed for this tick's signal.
pub fn visual_state(sig: InteractionSignal) -> (v: VisualState)
    ensures
        v == visual_of(sig),
{
    match sig {
        InteractionSignal::Pressed => VisualState::Pressed,
        InteractionSignal::Hovered => VisualState::Hovered,
        InteractionSignal::Idle => VisualState::Idle,
    }
}

/// Whether a signal constitutes a press edge after the previous one:
/// pressed now, not pressed before.
pub open spec fn press_edge(prev: InteractionSignal, now: InteractionSignal) -> bool {
    now is Pressed && !(prev is Pressed)
}

/// Tracked interaction state of one element, making dispatch edge-triggered
/// rather than level-triggered.
#[derive(Debug, Clone, Copy, PartialEq, Eq, Structural)]
pub struct ElementState {
    pub last: InteractionSignal,
}

impl ElementState {
    /// A fresh element starts idle.
    pub fn new() -> (s: ElementState)
        ensures
            s.last == InteractionSignal::Idle,
    {
        ElementState { last: InteractionSignal::Idle }
    }

    /// Observe this tick's signal: the visual state owed for the tick, and
    /// whether the bound action fires. It fires exactly on a press edge, so
    /// a held press fires at most once until released.
    pub fn observe(&mut self, now: InteractionSignal) -> (r: (VisualState, bool))
        ensures
            final(self).last == now,
            r.0 == visual_of(now),
            r.1 == press_edge(old(self).last, now),
    {
        let fired = match (now, self.last) {
            (InteractionSignal::Pressed, InteractionSignal::Pressed) => false,
            (InteractionSignal::Pressed, _) => true,
            _ => false,
        };
        self.last = now;
        (visual_state(now), fired)
    }
}

/// How many press edges fire over a sequence of signals observed in order,
/// starting from the given previous signal.
pub open spec fn edges_fired(prev: InteractionSignal, sigs: Seq<InteractionSignal>) -> nat
    decreases sigs,
{
    if sigs.len() == 0 {
        0
    } else {
        edges_fired(prev, sigs.drop_last()) + if press_edge(
            if sigs.len() == 1 {
                prev
            } else {
                sigs[sigs.len() - 2]
            },
            sigs.last(),
        ) {
            1nat
        } else {
            0nat
        }
    }
}

/// Within a single held press — every observed signal pressed, no release
/// in between — at most one press edge fires: none when the press was
/// already held, exactly one otherwise.
pub proof fn lemma_held_press_fires_at_most_once(
    prev: InteractionSignal,
    sigs: Seq<InteractionSignal>,
)
    requires
        forall|i: int| 0 <= i < sigs.len() ==> #[trigger] sigs[i] is Pressed,
    ensures
        edges_fired(prev, sigs) == if sigs.len() == 0 || prev is Pressed {
            0nat
        } else {
            1nat
        },
        edges_fired(prev, sigs) <= 1,
    decreases sigs,
{
    if sigs.len() > 0 {
        assert(forall|i: int|
            0 <= i < sigs.drop_last().len() ==> #[trigger] sigs.drop_last()[i] is Pressed);
        lemma_held_press_fires_at_most_once(prev, sigs.drop_last());
    }
}

/// One step the surrounding application must carry out for a press, in
/// order. Navigation steps drive the stack; domain steps are forwarded to
/// collaborators.
#[derive(Debug)]
pub enum Directive {
    /// Resolve this template freshly and push it (or enter with it when the
    /// subsystem is inactive).
    OpenMenu(MenuTemplate),
    /// Pop the current screen.
    Back,
    /// Forward a rebuild signal to the domain.
    Rebuild,
    /// Forward an import signal to the domain.
    ImportExternalContent,
    /// Forward the resolved path to the domain for creation.
    CreateFromPath(String),
    /// Forward the resolved path to the domain and leave the menu subsystem
    /// altogether, tearing the whole stack down.
    OpenTarget(String),
}

/// Mathematical model of a directive.
#[verifier::ext_equal]
pub enum DirectiveModel {
    OpenMenu(TemplateModel),
    Back,
    Rebuild,
    ImportExternalContent,
    CreateFromPath(Seq<char>),
    OpenTarget(Seq<char>),
}

impl Directive {
    /// Model of this directive.
    pub open spec fn model(self) -> DirectiveModel {
        match self {
            Directive::OpenMenu(t) => DirectiveModel::OpenMenu(t.model()),
            Directive::Back => DirectiveModel::Back,
            Directive::Rebuild => DirectiveModel::Rebuild,
            Directive::ImportExternalContent => DirectiveModel::ImportExternalContent,
            Directive::CreateFromPath(p) => DirectiveModel::CreateFromPath(p@),
            Directive::OpenTarget(p) => DirectiveModel::OpenTarget(p@),
        }
    }
}

/// Model of a sequence of directives, element by element.
pub open spec fn directives_model(ds: Seq<Directive>) -> Seq<DirectiveModel>
    decreases ds,
{
    if ds.len() == 0 {
        Seq::empty()
    } else {
        directives_model(ds.drop_last()).push(ds.last().model())
    }
}

/// Appending a directive appends its model.
pub proof fn lemma_directives_model_push(ds: Seq<Directive>, d: Directive)
    ensures
        directives_model(ds.push(d)) == directives_model(ds).push(d.model()),
{
    assert(ds.push(d).drop_last() =~= ds);
}

/// The ordered directives one pressed action unfolds to: a batch is
/// flattened recursively in order; every other action is one directive.
pub open spec fn action_directives(a: ActionModel) -> Seq<DirectiveModel>
    decreases a,
{
    match a {
        ActionModel::OpenMenu(t) => seq![DirectiveModel::OpenMenu(t)],
        ActionModel::Back => seq![DirectiveModel::Back],
        ActionModel::Rebuild => seq![DirectiveModel::Rebuild],
        ActionModel::ImportExternalContent => seq![DirectiveModel::ImportExternalContent],
        ActionModel::CreateFromPath(p) => seq![DirectiveModel::CreateFromPath(p)],
        ActionModel::OpenTarget(p) => seq![DirectiveModel::OpenTarget(p)],
        ActionModel::Batch(actions) => batch_directives(actions),
    }
}

/// The directives of a sequence of actions, in order.
pub open spec fn batch_directives(actions: Seq<ActionModel>) -> Seq<DirectiveModel>
    decreases actions,
{
    if actions.len() == 0 {
        Seq::empty()
    } else {
        batch_directives(actions.drop_last()) + action_directives(actions.last())
    }
}

/// The directives still owed by a work stack of actions, top of the stack
/// (the end of the sequence) first.
pub open spec fn stack_directives(work: Seq<Action>) -> Seq<DirectiveModel>
    decreases work,
{
    if work.len() == 0 {
        Seq::empty()
    } else {
        action_directives(work.last().model()) + stack_directives(work.drop_last())
    }
}

/// The size of an action: how many actions its tree holds, batches
/// included.
pub open spec fn action_size(a: ActionModel) -> nat
    decreases a,
{
    match a {
        ActionModel::Batch(actions) => 1 + batch_size(actions),
        _ => 1,
    }
}

/// The summed size of a sequence of actions.
pub open spec fn batch_size(actions: Seq<ActionModel>) -> nat
    decreases actions,
{
    if actions.len() == 0 {
        0
    } else {
        batch_size(actions.drop_last()) + action_size(actions.last())
    }
}

/// The summed size of a work stack of actions.
pub open spec fn stack_size(work: Seq<Action>) -> nat
    decreases work,
{
    if work.len() == 0 {
        0
    } else {
        stack_size(work.drop_last()) + action_size(work.last().model())
    }
}

/// The directive a single, non-batch action stands for.
fn directive_of(a: Action) -> (d: Directive)
    requires
        !(a matches Action::Batch(_)),
    ensures
        action_directives(a.model()) == seq![d.model()],
{
    match a {
        Action::OpenMenu(t) => Directive::OpenMenu(t),
        Action::Back => Directive::Back,
        Action::Rebuild => Directive::Rebuild,
        Action::ImportExternalContent => Directive::ImportExternalContent,
        Action::CreateFromPath(p) => Directive::CreateFromPath(p),
        Action::OpenTarget(p) => Directive::OpenTarget(p),
        Action::Batch(_) => vstd::pervasive::unreached(),
    }
}

/// Unfold one pressed action into the ordered directives the surrounding
/// application must carry out: batches are flattened recursively in order,
/// every other action is itself one directive.
pub fn dispatch(a: Action) -> (ds: Vec<Directive>)
    ensures
        directives_model(ds@) == action_directives(a.model()),
{
    let mut out: Vec<Directive> = Vec::new();
    let mut work: Vec<Action> = Vec::new();
    let ghost goal = action_directives(a.model());
    work.push(a);
    proof {
        assert(work@.drop_last() =~= Seq::<Action>::empty());
        assert(work@.last() == a);
        assert(stack_directives(Seq::<Action>::empty()) == Seq::<DirectiveModel>::empty());
        assert(stack_directives(work@) == action_directives(a.model()) + stack_directives(
            Seq::<Action>::empty(),
        ));
        assert(stack_directives(work@) =~= goal);
    }
    while work.len() > 0
        invariant
            directives_model(out@) + stack_directives(work@) == goal,
        decreases stack_size(work@),
    {
        let ghost work_before = work@;
        let x = work.pop().unwrap();
        proof {
            assert(work@ =~= work_before.drop_last());
            assert(x == work_before.last());
        }
        match x {
            Action::Batch(actions) => {
                let mut actions = actions;
                while actions.len() > 0
                    invariant
                        directives_model(out@) + batch_directives(actions_model(actions@))
                            + stack_directives(work@) == goal,
                        stack_size(work@) + batch_size(actions_model(actions@)) + 1
                            == stack_size(work_before),
                    decreases actions@.len(),
                {
                    let ghost actions_before = actions@;
                    let y = actions.pop().unwrap();
                    let ghost work_prev = work@;
                    work.push(y);
                    proof {
                        assert(actions@ =~= actions_before.drop_last());
                        assert(y == actions_before.last());
                        assert(work@.drop_last() =~= work_prev);
                        assert(work@.last() == y);
                        assert(actions_model(actions@) =~= actions_model(
                            actions_before,
                        ).drop_last());
                        assert(batch_directives(actions_model(actions_before))
                            == batch_directives(actions_model(actions@)) + action_directives(
                            y.model(),
                        ));
                        assert(directives_model(out@) + batch_directives(actions_model(actions@))
                            + stack_directives(work@) =~= goal);
                    }
                }
                proof {
                    assert(actions_model(actions@) =~= Seq::<ActionModel>::empty());
                    assert(directives_model(out@) + stack_directives(work@) =~= goal);
                }
            },
            other => {
                let ghost out_before = out@;
                let d = directive_of(other);
                out.push(d);
                proof {
                    lemma_directives_model_push(out_before, d);
                    assert(directives_model(out@) + stack_directives(work@) =~= goal);
                }
            },
        }
    }
    proof {
        assert(stack_directives(work@) =~= Seq::<DirectiveModel>::empty());
        assert(directives_model(out@) =~= goal);
    }
    out
}

/// One tick over every interactive element, in stable element order. Each
/// element observes its own signal: the result holds, per element, the
/// visual state owed for the tick and whether the element's bound action
/// fires, and the element states advance to this tick's signals. At most
/// one element fires per press edge per tick and each fires at most once.
pub fn tick_elements(states: Vec<ElementState>, signals: &Vec<InteractionSignal>) -> (r: (
    Vec<ElementState>,
    Vec<(VisualState, bool)>,
))
    requires
        states@.len() == signals@.len(),
    ensures
        r.0@.len() == states@.len(),
        r.1@.len() == states@.len(),
        forall|i: int|
            0 <= i < states@.len() ==> {
                &&& (#[trigger] r.0@[i]).last == signals@[i]
                &&& r.1@[i].0 == visual_of(signals@[i])
                &&& r.1@[i].1 == press_edge(states@[i].last, signals@[i])
            },
{
    let mut next: Vec<ElementState> = Vec::new();
    let mut outcomes: Vec<(VisualState, bool)> = Vec::new();
    let n = signals.len();
    let mut i: usize = 0;
    while i < n
        invariant
            n == signals@.len(),
            states@.len() == signals@.len(),
            i <= n,
            next@.len() == i,
            outcomes@.len() == i,
            forall|j: int|
                0 <= j < i ==> {
                    &&& (#[trigger] next@[j]).last == signals@[j]
                    &&& outcomes@[j].0 == visual_of(signals@[j])
                    &&& outcomes@[j].1 == press_edge(states@[j].last, signals@[j])
                },
        decreases n - i,
    {
        let mut element = states[i];
        let outcome = element.observe(signals[i]);
        next.push(element);
        outcomes.push(outcome);
        i = i + 1;
    }
    (next, outcomes)
}

} // verus!
