//! A hierarchical (pushdown) state machine.
//!
//! One unit of behaviour is active at a time; the units it suspended by
//! pushing a child wait on a stack until the child finishes and hands them
//! a value. Units never change the machine themselves: every hook returns an
//! effect, which the machine interprets, possibly cascading through further
//! hooks before control returns to the caller.
use vstd::prelude::*;

verus! {

/// Why the interpretation of an effect stopped.
#[derive(Debug, Clone, Copy, PartialEq, Eq, Structural)]
pub enum Fault {
    /// A finish effect found no parent frame to resume.
    ReturnWithoutParent,
    /// A yield effect was interpreted at frame index 0, where no parent is.
    YieldWithoutParent,
    /// The unit that a value was delivered to does not accept it.
    WrongInput,
    /// One event set off more effects than the machine interprets in a row.
    CascadeLimit,
}

/// An effect that a unit asks the machine to carry out.
pub enum PrivilegedActResult<S, V> {
    /// Exit the active unit and every suspended one, then install the unit.
    To(S),
    /// Exit the active unit and install the unit in its place.
    Replace(S),
    /// Suspend the active unit and install the unit as its child.
    Push(S),
    /// Exit the active unit and resume its parent with the value.
    Return(V),
    /// Hand the value to the parent frame without leaving the active unit.
    Yield(V),
}

/// An effect as a hook declares it, through [`StateTools`] or
/// [`ActResult::declare`].
pub struct PrivActResult<S, V>(PrivilegedActResult<S, V>);

impl<S, V> PrivActResult<S, V> {
    /// The effect inside.
    pub closed spec fn effect(self) -> PrivilegedActResult<S, V> {
        self.0
    }
}

/// What a hook returns: an effect, or nothing to do.
#[must_use]
pub enum ActResult<S, V> {
    Priv(PrivActResult<S, V>),
    Nothing,
}

impl<S, V> ActResult<S, V> {
    /// The effect declared, if any.
    pub open spec fn declared(self) -> Option<PrivilegedActResult<S, V>> {
        match self {
            ActResult::Priv(p) => Some(p.effect()),
            ActResult::Nothing => None,
        }
    }

    /// Declares an effect.
    pub fn declare(x: PrivilegedActResult<S, V>) -> (r: Self)
        ensures
            r.declared() == Some(x),
    {
        ActResult::Priv(PrivActResult(x))
    }
}

/// A unit of behaviour driven by a [`Machine`].
///
/// The machine holds one type of unit; an application with several kinds of
/// unit makes this type an enum of them. Values that a finishing or yielding
/// unit hands to its parent are of one carrier type, `Value`; each unit says
/// through `accepts` which of them it takes as input, and the machine refuses
/// to deliver any other.
///
/// Each hook comes with a relation that says what a call of it may do: the
/// unit and context before it, the unit and context after it and what it
/// declared. The machine's contract speaks of its hooks through these
/// relations alone. By default they admit anything, and a unit takes any
/// value; an implementation states its own. Every hook is written out by the
/// implementation: a default body could not be held to a relation that the
/// implementation redefines.
pub trait State: Sized {
    /// The events the machine is driven with.
    type Action;
    /// The context that every hook may change.
    type Data;
    /// The carrier of values handed from a child to its parent.
    type Value;

    /// Whether this unit takes `value` as input.
    open spec fn takes(&self, value: Self::Value) -> bool {
        true
    }

    /// What a call of `act` may do.
    open spec fn acts(
        &self,
        data: Self::Data,
        action: Self::Action,
        after: Self,
        data_after: Self::Data,
        r: ActResult<Self, Self::Value>,
    ) -> bool {
        true
    }

    /// What a call of `resume` may do.
    open spec fn resumes(
        &self,
        data: Self::Data,
        value: Self::Value,
        after: Self,
        data_after: Self::Data,
        r: ActResult<Self, Self::Value>,
    ) -> bool {
        true
    }

    /// What a call of `on_yield` may do.
    open spec fn receives(
        &self,
        data: Self::Data,
        value: Self::Value,
        after: Self,
        data_after: Self::Data,
        r: ActResult<Self, Self::Value>,
    ) -> bool {
        true
    }

    /// What a call of `on_enter` may do.
    open spec fn enters(
        &self,
        data: Self::Data,
        after: Self,
        data_after: Self::Data,
        r: ActResult<Self, Self::Value>,
    ) -> bool {
        true
    }

    /// What a call of `on_exit` may do.
    open spec fn leaves(&self, data: Self::Data, after: Self, data_after: Self::Data) -> bool {
        true
    }

    /// Handles one event while this unit is active.
    fn act(&mut self, data: &mut Self::Data, action: Self::Action) -> (r: ActResult<
        Self,
        Self::Value,
    >)
        ensures
            old(self).acts(*old(data), action, *final(self), *final(data), r),
    ;

    /// Whether this unit takes `value` as input, from a child that finishes
    /// or yields.
    fn accepts(&self, value: &Self::Value) -> (r: bool)
        ensures
            r == self.takes(*value),
    ;

    /// Called when a child this unit pushed finishes with `value`.
    fn resume(&mut self, data: &mut Self::Data, value: Self::Value) -> (r: ActResult<
        Self,
        Self::Value,
    >)
        ensures
            old(self).resumes(*old(data), value, *final(self), *final(data), r),
    ;

    /// Called when a child of this unit yields `value` without finishing.
    fn on_yield(&mut self, data: &mut Self::Data, value: Self::Value) -> (r: ActResult<
        Self,
        Self::Value,
    >)
        ensures
            old(self).receives(*old(data), value, *final(self), *final(data), r),
    ;

    /// Called right after this unit becomes active.
    fn on_enter(&mut self, data: &mut Self::Data) -> (r: ActResult<Self, Self::Value>)
        ensures
            old(self).enters(*old(data), *final(self), *final(data), r),
    ;

    /// Called right before this unit stops being active for good.
    fn on_exit(&mut self, data: &mut Self::Data)
        ensures
            old(self).leaves(*old(data), *final(self), *final(data)),
    ;
}

/// The constructors of effects, for use inside a unit's hooks.
pub trait StateTools: State {
    /// Full reset: every unit exits and `state` becomes the only one.
    fn transition(&self, state: Self) -> (r: ActResult<Self, Self::Value>)
        ensures
            r.declared() == Some(PrivilegedActResult::<Self, Self::Value>::To(state)),
    {
        ActResult::declare(PrivilegedActResult::To(state))
    }

    /// `state` takes the place of the active unit, under the same parent.
    fn replace(&self, state: Self) -> (r: ActResult<Self, Self::Value>)
        ensures
            r.declared() == Some(PrivilegedActResult::<Self, Self::Value>::Replace(state)),
    {
        ActResult::declare(PrivilegedActResult::Replace(state))
    }

    /// `state` becomes active as a child of the active unit, which waits.
    fn push(&self, state: Self) -> (r: ActResult<Self, Self::Value>)
        ensures
            r.declared() == Some(PrivilegedActResult::<Self, Self::Value>::Push(state)),
    {
        ActResult::declare(PrivilegedActResult::Push(state))
    }

    /// Hands `value` to the parent, which stays suspended.
    fn do_yield(&self, value: Self::Value) -> (r: ActResult<Self, Self::Value>)
        ensures
            r.declared() == Some(PrivilegedActResult::<Self, Self::Value>::Yield(value)),
    {
        ActResult::declare(PrivilegedActResult::Yield(value))
    }

    /// Finishes the active unit and resumes its parent with `value`.
    fn pop(&self, value: Self::Value) -> (r: ActResult<Self, Self::Value>)
        ensures
            r.declared() == Some(PrivilegedActResult::<Self, Self::Value>::Return(value)),
    {
        ActResult::declare(PrivilegedActResult::Return(value))
    }
}

impl<T: State> StateTools for T {

}


/// The shape of a machine: which units are where, by identity.
///
/// Every unit the machine installs gets a fresh identity, so that a unit can
/// be followed while its hooks change its fields. `exited` lists, in order,
/// the identities whose `on_exit` hook has run.
pub struct Frames {
    pub active: nat,
    pub stack: Seq<nat>,
    pub fresh: nat,
    pub exited: Seq<nat>,
}

/// The kinds of effect, as they act on the shape of a machine.
pub enum Move {
    Reset,
    Replace,
    Push,
    Finish,
    Signal,
}

/// The kind of an effect.
pub open spec fn move_of<S, V>(e: PrivilegedActResult<S, V>) -> Move {
    match e {
        PrivilegedActResult::To(_) => Move::Reset,
        PrivilegedActResult::Replace(_) => Move::Replace,
        PrivilegedActResult::Push(_) => Move::Push,
        PrivilegedActResult::Return(_) => Move::Finish,
        PrivilegedActResult::Yield(_) => Move::Signal,
    }
}

/// Whether the unit with identity `id` is active or suspended.
pub open spec fn is_live(f: Frames, id: nat) -> bool {
    id == f.active || f.stack.contains(id)
}

/// The shape that interpreting an effect of kind `m` at frame index `frame`
/// leads to, with the frame index that follows; `None` where the effect is
/// fatal.
pub open spec fn next_frames(f: Frames, frame: nat, m: Move) -> Option<(Frames, nat)> {
    match m {
        Move::Reset => Some(
            (
                Frames {
                    active: f.fresh,
                    stack: Seq::empty(),
                    fresh: f.fresh + 1,
                    exited: f.exited.push(f.active) + f.stack.reverse(),
                },
                0,
            ),
        ),
        Move::Replace => Some(
            (
                Frames {
                    active: f.fresh,
                    stack: f.stack,
                    fresh: f.fresh + 1,
                    exited: f.exited.push(f.active),
                },
                frame,
            ),
        ),
        Move::Push => Some(
            (
                Frames {
                    active: f.fresh,
                    stack: f.stack.push(f.active),
                    fresh: f.fresh + 1,
                    exited: f.exited,
                },
                f.stack.len() + 1,
            ),
        ),
        Move::Finish => if frame == 0 || f.stack.len() == 0 {
            None
        } else {
            Some(
                (
                    Frames {
                        active: f.stack.last(),
                        stack: f.stack.drop_last(),
                        fresh: f.fresh,
                        exited: f.exited.push(f.active),
                    },
                    (frame - 1) as nat,
                ),
            )
        },
        Move::Signal => if frame == 0 {
            None
        } else {
            Some((f, (frame - 1) as nat))
        },
    }
}

/// A call of a hook, on the unit with the given identity.
pub enum Hook {
    Act(nat),
    Enter(nat),
    Exit(nat),
    Resume(nat),
    Signal(nat),
}

/// The exits of the units with identities `ids`, in order.
pub open spec fn exits(ids: Seq<nat>) -> Seq<Hook> {
    ids.map_values(|id: nat| Hook::Exit(id))
}

/// The hooks that interpreting an effect of kind `m` at frame index `frame`
/// runs, in order: none where the effect is fatal.
pub open spec fn hooks_of(f: Frames, frame: nat, m: Move) -> Seq<Hook> {
    match m {
        Move::Reset => seq![Hook::Exit(f.active)] + exits(f.stack.reverse()) + seq![
            Hook::Enter(f.fresh),
        ],
        Move::Replace => seq![Hook::Exit(f.active), Hook::Enter(f.fresh)],
        Move::Push => seq![Hook::Enter(f.fresh)],
        Move::Finish => if frame == 0 || f.stack.len() == 0 {
            Seq::empty()
        } else {
            seq![Hook::Exit(f.active), Hook::Resume(f.stack.last())]
        },
        Move::Signal => if frame == 0 {
            Seq::empty()
        } else {
            seq![Hook::Signal(f.stack[frame - 1])]
        },
    }
}

/// The shape after a run of effects, or `None` where one of them is fatal.
pub open spec fn run(f: Frames, frame: nat, ms: Seq<Move>) -> Option<(Frames, nat)>
    decreases ms.len(),
{
    if ms.len() == 0 {
        Some((f, frame))
    } else {
        match next_frames(f, frame, ms[0]) {
            Some((g, k)) => run(g, k, ms.subrange(1, ms.len() as int)),
            None => None,
        }
    }
}

/// The hooks that a run of effects runs, in order, up to the first fatal one.
pub open spec fn run_hooks(f: Frames, frame: nat, ms: Seq<Move>) -> Seq<Hook>
    decreases ms.len(),
{
    if ms.len() == 0 {
        Seq::empty()
    } else {
        match next_frames(f, frame, ms[0]) {
            Some((g, k)) => hooks_of(f, frame, ms[0]) + run_hooks(g, k, ms.subrange(1, ms.len() as int)),
            None => Seq::empty(),
        }
    }
}

/// The invariant of a shape: identities are handed out once, no unit is in
/// two places, and every unit that was installed and is no longer live has
/// exited exactly once, while no live unit has exited.
pub open spec fn frames_wf(f: Frames) -> bool {
    &&& f.active < f.fresh
    &&& !f.stack.contains(f.active)
    &&& f.stack.no_duplicates()
    &&& forall|i: int| 0 <= i < f.stack.len() ==> f.stack[i] < f.fresh
    &&& f.exited.no_duplicates()
    &&& forall|i: int| 0 <= i < f.exited.len() ==> f.exited[i] < f.fresh
    &&& forall|id: nat| id < f.fresh ==> (f.exited.contains(id) <==> !is_live(f, id))
}

/// Running a single effect.
pub proof fn lemma_run_one(f: Frames, frame: nat, m: Move)
    ensures
        run(f, frame, seq![m]) == next_frames(f, frame, m),
        next_frames(f, frame, m) is Some ==> run_hooks(f, frame, seq![m]) == hooks_of(f, frame, m),
{
    assert(seq![m].subrange(1, 1) =~= Seq::<Move>::empty());
    reveal_with_fuel(run, 2);
    reveal_with_fuel(run_hooks, 2);
    assert(hooks_of(f, frame, m) + Seq::<Hook>::empty() =~= hooks_of(f, frame, m));
}

/// Running two sequences of effects one after the other.
pub proof fn lemma_run_append(f: Frames, frame: nat, a: Seq<Move>, b: Seq<Move>)
    ensures
        run(f, frame, a + b) == match run(f, frame, a) {
            Some((g, k)) => run(g, k, b),
            None => None,
        },
        run(f, frame, a) matches Some((g, k)) ==> run_hooks(f, frame, a + b) == run_hooks(
            f,
            frame,
            a,
        ) + run_hooks(g, k, b),
    decreases a.len(),
{
    if a.len() == 0 {
        assert(a + b =~= b);
        assert(Seq::<Hook>::empty() + run_hooks(f, frame, b) =~= run_hooks(f, frame, b));
    } else {
        assert((a + b)[0] == a[0]);
        assert((a + b).subrange(1, (a + b).len() as int) =~= a.subrange(1, a.len() as int) + b);
        match next_frames(f, frame, a[0]) {
            Some((g, k)) => {
                lemma_run_append(g, k, a.subrange(1, a.len() as int), b);
                if run(f, frame, a) is Some {
                    let (h, j) = run(f, frame, a).unwrap();
                    let x = hooks_of(f, frame, a[0]);
                    let y = run_hooks(g, k, a.subrange(1, a.len() as int));
                    let z = run_hooks(h, j, b);
                    assert(x + (y + z) =~= (x + y) + z);
                }
            },
            None => {},
        }
    }
}

/// `n` effects of kind `m` in a row.
pub open spec fn repeat(m: Move, n: nat) -> Seq<Move> {
    Seq::new(n, |i: int| m)
}

/// Pushes undone by as many finishes: after `n` push effects followed by `n`
/// finish effects, the same unit is active over the same stack.
pub proof fn lemma_push_finish_balanced(f: Frames, frame: nat, n: nat)
    ensures
        run(f, frame, repeat(Move::Push, n) + repeat(Move::Finish, n)) is Some,
        run(f, frame, repeat(Move::Push, n) + repeat(Move::Finish, n)).unwrap().0.active == f.active,
        run(f, frame, repeat(Move::Push, n) + repeat(Move::Finish, n)).unwrap().0.stack == f.stack,
        n > 0 ==> run(f, frame, repeat(Move::Push, n) + repeat(Move::Finish, n)).unwrap().1
            == f.stack.len(),
        n == 0 ==> run(f, frame, repeat(Move::Push, n) + repeat(Move::Finish, n)).unwrap().1 == frame,
    decreases n,
{
    let ms = repeat(Move::Push, n) + repeat(Move::Finish, n);
    if n == 0 {
        assert(ms =~= Seq::<Move>::empty());
        assert(run(f, frame, ms) == Some((f, frame)));
    } else {
        let inner = repeat(Move::Push, (n - 1) as nat) + repeat(Move::Finish, (n - 1) as nat);
        assert(ms =~= seq![Move::Push] + inner + seq![Move::Finish]);
        let (g, gk) = next_frames(f, frame, Move::Push).unwrap();
        lemma_push_finish_balanced(g, gk, (n - 1) as nat);
        lemma_run_append(f, frame, seq![Move::Push], inner);
        lemma_run_append(f, frame, seq![Move::Push] + inner, seq![Move::Finish]);
        lemma_run_one(f, frame, Move::Push);
        let (h, hk) = run(g, gk, inner).unwrap();
        assert(run(f, frame, seq![Move::Push] + inner) == Some((h, hk)));
        assert(h.stack == f.stack.push(f.active));
        assert(hk == f.stack.len() + 1);
        assert(h.stack.drop_last() =~= f.stack);
        lemma_run_one(h, hk, Move::Finish);
    }
}

/// A full reset leaves nothing suspended, whatever the depth before it.
pub proof fn lemma_reset_clears(f: Frames, frame: nat)
    ensures
        next_frames(f, frame, Move::Reset) is Some,
        next_frames(f, frame, Move::Reset).unwrap().0.stack.len() == 0,
        next_frames(f, frame, Move::Reset).unwrap().1 == 0,
{
}

/// A replacement keeps the stack and the frame index; only the active unit
/// changes.
pub proof fn lemma_replace_keeps_stack(f: Frames, frame: nat)
    requires
        frames_wf(f),
    ensures
        next_frames(f, frame, Move::Replace) is Some,
        next_frames(f, frame, Move::Replace).unwrap().0.stack == f.stack,
        next_frames(f, frame, Move::Replace).unwrap().1 == frame,
        next_frames(f, frame, Move::Replace).unwrap().0.active != f.active,
{
}

/// A yield keeps the depth, the stack and the active unit; the one hook it
/// runs is `on_yield` of the parent frame, and the frame index moves there.
pub proof fn lemma_yield_keeps_depth(f: Frames, frame: nat)
    requires
        0 < frame <= f.stack.len(),
    ensures
        next_frames(f, frame, Move::Signal) == Some((f, (frame - 1) as nat)),
        hooks_of(f, frame, Move::Signal) == seq![Hook::Signal(f.stack[frame - 1])],
{
}

/// A finish with nothing suspended is fatal, and so is a yield at frame
/// index 0.
pub proof fn lemma_imbalance_fatal(f: Frames, frame: nat)
    requires
        frame <= f.stack.len(),
    ensures
        f.stack.len() == 0 ==> next_frames(f, frame, Move::Finish) is None,
        next_frames(f, 0, Move::Signal) is None,
{
}

/// Every unit leaves exactly once: interpreting an effect keeps the shape's
/// invariant, so a unit that stops being active through a reset, a
/// replacement or the unwinding of the stack has had its `on_exit` run once,
/// and a unit that was only suspended by a push has not had it run.
pub proof fn lemma_exit_once(f: Frames, frame: nat, m: Move)
    requires
        frames_wf(f),
        frame <= f.stack.len(),
        next_frames(f, frame, m) is Some,
    ensures
        frames_wf(next_frames(f, frame, m).unwrap().0),
        next_frames(f, frame, m).unwrap().1 <= next_frames(f, frame, m).unwrap().0.stack.len(),
        m == Move::Push ==> next_frames(f, frame, m).unwrap().0.exited == f.exited,
        m == Move::Push ==> hooks_of(f, frame, m) == seq![Hook::Enter(f.fresh)],
{
    let g = next_frames(f, frame, m).unwrap().0;
    match m {
        Move::Reset => {
            let head = f.exited.push(f.active);
            let tail = f.stack.reverse();
            assert(tail.len() == f.stack.len());
            assert forall|i: int| 0 <= i < tail.len() implies tail[i] == f.stack[f.stack.len() - 1 - i] by {}
            assert forall|i: int| 0 <= i < f.stack.len() implies tail.contains(f.stack[i]) by {
                assert(tail[f.stack.len() - 1 - i] == f.stack[i]);
            }
            assert(head.no_duplicates()) by {
                assert(f.exited.contains(f.active) <==> !is_live(f, f.active));
                assert forall|i: int, j: int| 0 <= i < j < head.len() implies head[i] != head[j] by {
                    if j == head.len() - 1 {
                        assert(f.exited.contains(head[i]));
                    } else {
                        assert(head[i] == f.exited[i] && head[j] == f.exited[j]);
                    }
                }
            }
            assert(tail.no_duplicates()) by {
                assert forall|i: int, j: int| 0 <= i < j < tail.len() implies tail[i] != tail[j] by {
                    assert(tail[i] == f.stack[f.stack.len() - 1 - i]);
                    assert(tail[j] == f.stack[f.stack.len() - 1 - j]);
                }
            }
            assert forall|i: int, j: int| 0 <= i < head.len() && 0 <= j < tail.len() implies head[i] != tail[j] by {
                let k = f.stack.len() - 1 - j;
                let id = f.stack[k];
                assert(tail[j] == id);
                assert(f.stack.contains(id));
                assert(id < f.fresh);
                assert(f.exited.contains(id) <==> !is_live(f, id));
                if i < f.exited.len() {
                    assert(head[i] == f.exited[i]);
                    assert(f.exited.contains(head[i]));
                }
            }
            vstd::seq_lib::lemma_no_dup_in_concat(head, tail);
            assert forall|id: nat| id < g.fresh implies (g.exited.contains(id) <==> !is_live(g, id)) by {
                if id < f.fresh {
                    if f.exited.contains(id) {
                        let i = choose|i: int| 0 <= i < f.exited.len() && f.exited[i] == id;
                        assert(g.exited[i] == id);
                    } else if id == f.active {
                        assert(g.exited[f.exited.len() as int] == id);
                    } else {
                        assert(f.exited.contains(id) <==> !is_live(f, id));
                        assert(f.stack.contains(id));
                        let i = choose|i: int| 0 <= i < f.stack.len() && f.stack[i] == id;
                        assert(tail.contains(id));
                        let j = choose|j: int| 0 <= j < tail.len() && tail[j] == id;
                        assert(g.exited[head.len() + j] == id);
                    }
                } else {
                    assert forall|i: int| 0 <= i < g.exited.len() implies g.exited[i] != id by {
                        if i >= head.len() {
                            assert(tail[i - head.len()] == f.stack[f.stack.len() - 1 - (i - head.len())]);
                        }
                    }
                }
            }
            assert forall|i: int| 0 <= i < g.exited.len() implies g.exited[i] < g.fresh by {
                if i >= head.len() {
                    assert(tail[i - head.len()] == f.stack[f.stack.len() - 1 - (i - head.len())]);
                }
            }
        },
        Move::Replace => {
            assert(f.exited.contains(f.active) <==> !is_live(f, f.active));
            assert forall|i: int, j: int| 0 <= i < j < g.exited.len() implies g.exited[i] != g.exited[j] by {
                if j == g.exited.len() - 1 {
                    assert(g.exited[i] == f.exited[i]);
                    assert(f.exited.contains(g.exited[i]));
                } else {
                    assert(g.exited[i] == f.exited[i] && g.exited[j] == f.exited[j]);
                }
            }
            assert forall|id: nat| id < g.fresh implies (g.exited.contains(id) <==> !is_live(g, id)) by {
                lemma_push_contains(f.exited, f.active, id);
                if id < f.fresh {
                    assert(f.exited.contains(id) <==> !is_live(f, id));
                } else {
                    assert(!f.stack.contains(id));
                    assert(!f.exited.contains(id));
                }
            }
        },
        Move::Push => {
            assert forall|i: int, j: int| 0 <= i < j < g.stack.len() implies g.stack[i] != g.stack[j] by {
                if j == g.stack.len() - 1 {
                    assert(g.stack[i] == f.stack[i]);
                    assert(f.stack.contains(g.stack[i]));
                } else {
                    assert(g.stack[i] == f.stack[i] && g.stack[j] == f.stack[j]);
                }
            }
            assert forall|id: nat| id < g.fresh implies (g.exited.contains(id) <==> !is_live(g, id)) by {
                lemma_push_contains(f.stack, f.active, id);
                if id < f.fresh {
                    assert(f.exited.contains(id) <==> !is_live(f, id));
                } else {
                    assert(!f.stack.contains(id));
                    assert(!f.exited.contains(id));
                }
            }
        },
        Move::Finish => {
            let top = f.stack.len() - 1;
            assert(f.exited.contains(f.active) <==> !is_live(f, f.active));
            assert forall|i: int, j: int| 0 <= i < j < g.exited.len() implies g.exited[i] != g.exited[j] by {
                if j == g.exited.len() - 1 {
                    assert(g.exited[i] == f.exited[i]);
                    assert(f.exited.contains(g.exited[i]));
                } else {
                    assert(g.exited[i] == f.exited[i] && g.exited[j] == f.exited[j]);
                }
            }
            assert(!g.stack.contains(g.active)) by {
                if g.stack.contains(g.active) {
                    let i = choose|i: int| 0 <= i < g.stack.len() && g.stack[i] == g.active;
                    assert(f.stack[i] == f.stack[top]);
                }
            }
            assert(f.stack =~= g.stack.push(f.stack.last()));
            assert forall|id: nat| id < g.fresh implies (g.exited.contains(id) <==> !is_live(g, id)) by {
                lemma_push_contains(f.exited, f.active, id);
                lemma_push_contains(g.stack, f.stack.last(), id);
                assert(f.exited.contains(id) <==> !is_live(f, id));
            }
        },
        Move::Signal => {},
    }
}

proof fn lemma_push_contains(s: Seq<nat>, x: nat, id: nat)
    ensures
        s.push(x).contains(id) <==> (s.contains(id) || id == x),
{
    if s.contains(id) {
        let i = choose|i: int| 0 <= i < s.len() && s[i] == id;
        assert(s.push(x)[i] == id);
    }
    if id == x {
        assert(s.push(x)[s.len() as int] == id);
    }
    if s.push(x).contains(id) {
        let i = choose|i: int| 0 <= i < s.len() + 1 && s.push(x)[i] == id;
        if i < s.len() {
            assert(s[i] == id);
        }
    }
}

/// The units of a machine, the context and the frame index at which the
/// next effect is interpreted.
pub struct Config<S: State> {
    pub active: S,
    pub stack: Seq<S>,
    pub data: S::Data,
    pub frame: nat,
}

/// Whether `on_exit` of `unit` may take the context from `data` to
/// `data_after`.
pub open spec fn exit_step<S: State>(unit: S, data: S::Data, data_after: S::Data) -> bool {
    exists|after: S| #[trigger] unit.leaves(data, after, data_after)
}

/// Whether the `on_exit` hooks of `units`, in order, may take the context
/// from `d0` to `d`.
pub open spec fn unwound<S: State>(units: Seq<S>, d0: S::Data, d: S::Data) -> bool
    decreases units.len(),
{
    if units.len() == 0 {
        d == d0
    } else {
        exists|dm: S::Data|
            unwound(units.drop_last(), d0, dm) && #[trigger] exit_step(units.last(), dm, d)
    }
}

proof fn lemma_unwound_step<S: State>(units: Seq<S>, u: S, d0: S::Data, dm: S::Data, d: S::Data)
    requires
        unwound(units, d0, dm),
        exit_step(u, dm, d),
    ensures
        unwound(units.push(u), d0, d),
{
    let longer = units.push(u);
    assert(longer.drop_last() =~= units);
    assert(longer.last() == u);
    assert(longer.len() > 0);
    assert(unwound(longer.drop_last(), d0, dm) && exit_step(longer.last(), dm, d));
}

/// The fault that interpreting `e` at frame index `frame` over `stack` runs
/// into, if any: a finish with no parent frame, a yield at frame index 0, or
/// a value that the unit it goes to does not take. Each of them breaks the
/// discipline that the units owe the machine, and ends the cascade.
pub open spec fn effect_fault<S: State>(
    stack: Seq<S>,
    frame: nat,
    e: PrivilegedActResult<S, S::Value>,
) -> Option<Fault> {
    match e {
        PrivilegedActResult::Return(v) => if frame == 0 || stack.len() == 0 {
            Some(Fault::ReturnWithoutParent)
        } else if !stack.last().takes(v) {
            Some(Fault::WrongInput)
        } else {
            None
        },
        PrivilegedActResult::Yield(v) => if frame == 0 || frame > stack.len() {
            Some(Fault::YieldWithoutParent)
        } else if !stack[frame - 1].takes(v) {
            Some(Fault::WrongInput)
        } else {
            None
        },
        _ => None,
    }
}

/// Whether interpreting `e` in `c`, with the hooks it calls, may lead to `n`
/// with the last of those hooks declaring `next`:
/// - a full reset exits the active unit, then the stacked units newest
///   first, and enters the new unit over an empty stack;
/// - a replacement exits the active unit and enters the new one in its
///   place;
/// - a push suspends the active unit, with no exit, and enters the new one;
/// - a finish exits the active unit and resumes its parent with the value;
/// - a yield hands the value to the parent frame, and changes no other unit.
#[verifier::opaque]
pub open spec fn effect_step<S: State>(
    c: Config<S>,
    e: PrivilegedActResult<S, S::Value>,
    n: Config<S>,
    next: ActResult<S, S::Value>,
) -> bool {
    match e {
        PrivilegedActResult::To(u) => {
            &&& n.stack == Seq::<S>::empty()
            &&& n.frame == 0
            &&& exists|d1: S::Data, d2: S::Data|
                exit_step(c.active, c.data, d1) && #[trigger] unwound(c.stack.reverse(), d1, d2)
                    && u.enters(d2, n.active, n.data, next)
        },
        PrivilegedActResult::Replace(u) => {
            &&& n.stack == c.stack
            &&& n.frame == c.frame
            &&& exists|d1: S::Data|
                #[trigger] exit_step(c.active, c.data, d1) && u.enters(d1, n.active, n.data, next)
        },
        PrivilegedActResult::Push(u) => {
            &&& n.stack == c.stack.push(c.active)
            &&& n.frame == c.stack.len() + 1
            &&& u.enters(c.data, n.active, n.data, next)
        },
        PrivilegedActResult::Return(v) => {
            &&& c.stack.len() > 0
            &&& c.frame > 0
            &&& n.stack == c.stack.drop_last()
            &&& n.frame == c.frame - 1
            &&& exists|d1: S::Data|
                #[trigger] exit_step(c.active, c.data, d1) && c.stack.last().resumes(
                    d1,
                    v,
                    n.active,
                    n.data,
                    next,
                )
        },
        PrivilegedActResult::Yield(v) => {
            &&& 0 < c.frame <= c.stack.len()
            &&& n.active == c.active
            &&& n.frame == c.frame - 1
            &&& n.stack.len() == c.stack.len()
            &&& n.stack == c.stack.update(c.frame - 1, n.stack[c.frame - 1])
            &&& c.stack[c.frame - 1].receives(c.data, v, n.stack[c.frame - 1], n.data, next)
        },
    }
}

/// Whether one hook's declaration leads from one point of a cascade to the
/// next: the effect that the hook of `a` declared is not fatal, and
/// interpreting it leads to `b`.
pub open spec fn chained<S: State>(
    a: (Config<S>, ActResult<S, S::Value>),
    b: (Config<S>, ActResult<S, S::Value>),
) -> bool {
    a.1.declared() matches Some(e) && effect_fault(a.0.stack, a.0.frame, e) is None && effect_step(a.0, e, b.0, b.1)
}

/// Whether `path` is a cascade: a run of configurations, each with what the
/// last hook declared, in which every step is the interpretation of the
/// effect declared before it.
pub open spec fn is_cascade<S: State>(path: Seq<(Config<S>, ActResult<S, S::Value>)>) -> bool {
    &&& path.len() > 0
    &&& forall|i: int| 0 <= i < path.len() - 1 ==> chained(#[trigger] path[i], path[i + 1])
}

/// What one step of a cascade does to the stack of real units: a reset
/// empties it, a replacement keeps it, a push adds the unit that was active
/// without changing it, a finish removes the top, and a yield changes only
/// the parent frame and keeps the active unit.
pub proof fn lemma_step_stack<S: State>(
    c: Config<S>,
    e: PrivilegedActResult<S, S::Value>,
    n: Config<S>,
    next: ActResult<S, S::Value>,
)
    requires
        effect_step(c, e, n, next),
    ensures
        match e {
            PrivilegedActResult::To(_) => n.stack.len() == 0 && n.frame == 0,
            PrivilegedActResult::Replace(_) => n.stack == c.stack && n.frame == c.frame,
            PrivilegedActResult::Push(_) => n.stack == c.stack.push(c.active) && n.frame
                == c.stack.len() + 1,
            PrivilegedActResult::Return(_) => n.stack == c.stack.drop_last() && n.frame == c.frame
                - 1,
            PrivilegedActResult::Yield(_) => {
                &&& n.active == c.active
                &&& n.stack.len() == c.stack.len()
                &&& n.frame == c.frame - 1
                &&& forall|i: int|
                    0 <= i < c.stack.len() && i != c.frame - 1 ==> #[trigger] n.stack[i]
                        == c.stack[i]
            },
        },
{
    reveal(effect_step);
    if let PrivilegedActResult::Yield(_) = e {
        assert forall|i: int| 0 <= i < c.stack.len() && i != c.frame - 1 implies #[trigger] n.stack[i]
            == c.stack[i] by {
            assert(n.stack[i] == c.stack.update(c.frame - 1, n.stack[c.frame - 1])[i]);
        }
    }
}

/// Whether the steps of `path` are `k` pushes followed by `k` finishes.
pub open spec fn pushes_then_finishes<S: State>(
    path: Seq<(Config<S>, ActResult<S, S::Value>)>,
    k: nat,
) -> bool {
    &&& path.len() == 2 * k + 1
    &&& forall|i: int|
        0 <= i < 2 * k ==> ((#[trigger] path[i]).1.declared() matches Some(e) && effect_step(
            path[i].0,
            e,
            path[i + 1].0,
            path[i + 1].1,
        ) && (i < k ==> e is Push) && (i >= k ==> e is Return))
}

proof fn lemma_pushes_then_finishes_prefix<S: State>(
    path: Seq<(Config<S>, ActResult<S, S::Value>)>,
    k: nat,
    i: nat,
)
    requires
        pushes_then_finishes(path, k),
        i <= 2 * k,
    ensures
        path[i as int].0.stack.len() == path[0].0.stack.len() + if i <= k {
            i as int
        } else {
            2 * k - i
        },
        path[i as int].0.stack.subrange(0, path[0].0.stack.len() as int) == path[0].0.stack,
        1 <= i <= 2 * k - 1 ==> path[i as int].0.stack[path[0].0.stack.len() as int]
            == path[0].0.active,
    decreases i,
{
    let base = path[0].0.stack;
    if i == 0 {
        assert(base.subrange(0, base.len() as int) =~= base);
    } else {
        let j = (i - 1) as nat;
        lemma_pushes_then_finishes_prefix(path, k, j);
        let p = path[j as int];
        let e = p.1.declared().unwrap();
        assert(effect_step(p.0, e, path[i as int].0, path[i as int].1));
        lemma_step_stack(p.0, e, path[i as int].0, path[i as int].1);
        let st = path[i as int].0.stack;
        if j < k {
            assert(st == p.0.stack.push(p.0.active));
            assert(st.subrange(0, base.len() as int) =~= p.0.stack.subrange(0, base.len() as int));
            if j == 0 {
                assert(p.0 == path[0].0);
            }
        } else {
            assert(st == p.0.stack.drop_last());
            assert(st.subrange(0, base.len() as int) =~= p.0.stack.subrange(0, base.len() as int));
        }
    }
}

/// Pushes undone by as many finishes: along a cascade of `k` push effects
/// followed by `k` finish effects, the stack of real units ends as it began,
/// and the unit that the last finish resumes is the unit that was active
/// before the first push.
pub proof fn lemma_pushes_undone<S: State>(path: Seq<(Config<S>, ActResult<S, S::Value>)>, k: nat)
    requires
        pushes_then_finishes(path, k),
    ensures
        path[2 * k as int].0.stack == path[0].0.stack,
        k > 0 ==> path[2 * k - 1].0.stack.last() == path[0].0.active,
{
    let base = path[0].0.stack;
    lemma_pushes_then_finishes_prefix(path, k, 2 * k);
    let end = path[2 * k as int].0.stack;
    assert(end =~= end.subrange(0, base.len() as int));
    if k > 0 {
        lemma_pushes_then_finishes_prefix(path, k, (2 * k - 1) as nat);
    }
}

/// The kinds of the effects interpreted along a cascade, in order.
pub open spec fn moves_of<S: State>(path: Seq<(Config<S>, ActResult<S, S::Value>)>) -> Seq<Move> {
    Seq::new((path.len() - 1) as nat, |i: int| move_of(path[i].1.declared().unwrap()))
}

/// Whether a cascade that ends at `last` ends with the result `r`: a hook
/// that declared nothing ends it well; a fatal effect ends it with its fault;
/// the bound on effects ends it with an effect that is declared, not fatal
/// and not interpreted.
pub open spec fn ends_with<S: State>(
    last: (Config<S>, ActResult<S, S::Value>),
    r: Result<(), Fault>,
) -> bool {
    match r {
        Ok(()) => last.1 is Nothing,
        Err(Fault::CascadeLimit) => (last.1.declared() matches Some(e) && effect_fault(
            last.0.stack,
            last.0.frame,
            e,
        ) is None),
        Err(fault) => (last.1.declared() matches Some(e) && effect_fault(last.0.stack, last.0.frame, e) == Some(fault)),
    }
}

/// The most effects that one event may set off, one after another.
pub const CASCADE_LIMIT: u64 = 18446744073709551615;

/// The engine: one active unit and the stack of units it suspended, oldest
/// first.
pub struct Machine<S: State> {
    state: S,
    stack: Vec<S>,
    frames: Ghost<Frames>,
    trace: Ghost<Seq<Hook>>,
}

impl<S: State> Machine<S> {
    /// The active unit.
    pub closed spec fn active_unit(&self) -> S {
        self.state
    }

    /// The suspended units, oldest first.
    pub closed spec fn suspended(&self) -> Seq<S> {
        self.stack@
    }

    /// The shape of the machine, by identity of its units.
    pub closed spec fn frames(&self) -> Frames {
        self.frames@
    }

    /// The hooks the machine has called, in order.
    pub closed spec fn trace(&self) -> Seq<Hook> {
        self.trace@
    }

    /// The machine's invariant: its shape is well formed and matches the
    /// units it holds.
    pub closed spec fn wf(&self) -> bool {
        &&& frames_wf(self.frames@)
        &&& self.stack@.len() == self.frames@.stack.len()
    }

    /// In every state a machine reaches, each unit it installed and that is
    /// no longer active or suspended has had `on_exit` run exactly once, and
    /// no active or suspended unit has had it run.
    pub proof fn lemma_exits_match_liveness(&self)
        requires
            self.wf(),
        ensures
            frames_wf(self.frames()),
            self.frames().stack.len() == self.suspended().len(),
    {
    }

    /// A machine with `state` active and nothing suspended.
    pub fn new(state: S) -> (m: Self)
        ensures
            m.wf(),
            m.active_unit() == state,
            m.suspended().len() == 0,
            m.frames() == (Frames { active: 0, stack: Seq::empty(), fresh: 1, exited: Seq::empty() }),
            m.trace() == Seq::<Hook>::empty(),
    {
        Machine {
            state,
            stack: Vec::new(),
            frames: Ghost(Frames { active: 0, stack: Seq::empty(), fresh: 1, exited: Seq::empty() }),
            trace: Ghost(Seq::empty()),
        }
    }

    /// The number of suspended units.
    pub fn depth(&self) -> (r: usize)
        ensures
            r == self.suspended().len(),
    {
        self.stack.len()
    }

    /// The active unit.
    pub fn active(&self) -> (r: &S)
        ensures
            *r == self.active_unit(),
    {
        &self.state
    }

    /// The machine's units with the context `data`, at frame index `frame`.
    pub closed spec fn config(&self, data: S::Data, frame: nat) -> Config<S> {
        Config { active: self.state, stack: self.stack@, data, frame }
    }

    /// The units in a configuration are the machine's.
    pub broadcast proof fn lemma_config(&self, data: S::Data, frame: nat)
        ensures
            #[trigger] self.config(data, frame) == (Config {
                active: self.active_unit(),
                stack: self.suspended(),
                data,
                frame,
            }),
    {
    }

    /// Runs `on_exit` of every suspended unit, newest first, and empties the
    /// stack.
    fn exit_suspended(&mut self, data: &mut S::Data)
        requires
            old(self).stack@.len() == old(self).frames@.stack.len(),
        ensures
            final(self).stack@.len() == 0,
            final(self).state == old(self).state,
            final(self).frames@ == (Frames {
                exited: old(self).frames@.exited + old(self).frames@.stack.reverse(),
                ..old(self).frames@
            }),
            final(self).trace@ == old(self).trace@ + exits(old(self).frames@.stack.reverse()),
            unwound(old(self).stack@.reverse(), *old(data), *final(data)),
    {
        let ghost f = self.frames@;
        let ghost t = self.trace@;
        let ghost st0 = self.stack@;
        let ghost d1 = *data;
        proof {
            assert(f.stack.subrange(f.stack.len() as int, f.stack.len() as int).reverse()
                =~= Seq::<nat>::empty());
            assert(st0.subrange(st0.len() as int, st0.len() as int).reverse() =~= Seq::<S>::empty());
            assert(self.trace@ =~= t + exits(Seq::empty()));
            assert(self.frames@.exited =~= f.exited + Seq::<nat>::empty());
        }
        while self.stack.len() > 0
            invariant
                self.state == old(self).state,
                st0 == old(self).stack@,
                f == old(self).frames@,
                t == old(self).trace@,
                d1 == *old(data),
                st0.len() == f.stack.len(),
                self.stack@.len() <= st0.len(),
                self.stack@ == st0.subrange(0, self.stack@.len() as int),
                unwound(st0.subrange(self.stack@.len() as int, st0.len() as int).reverse(), d1, *data),
                self.trace@ == t + exits(
                    f.stack.subrange(self.stack@.len() as int, f.stack.len() as int).reverse(),
                ),
                self.frames@ == (Frames {
                    exited: f.exited + f.stack.subrange(
                        self.stack@.len() as int,
                        f.stack.len() as int,
                    ).reverse(),
                    ..f
                }),
            decreases self.stack@.len(),
        {
            let ghost k = self.stack@.len();
            let ghost dm = *data;
            let mut unit = self.stack.pop().unwrap();
            let ghost u0 = unit;
            unit.on_exit(data);
            proof {
                let popped = st0.subrange(k as int, st0.len() as int).reverse();
                assert(u0 == st0[k - 1]);
                assert(exit_step(u0, dm, *data));
                lemma_unwound_step(popped, u0, d1, dm, *data);
                assert(st0.subrange(k - 1, st0.len() as int).reverse() =~= popped.push(u0));
                assert(self.stack@ =~= st0.subrange(0, self.stack@.len() as int));
                let tail = f.stack.subrange(k as int, f.stack.len() as int).reverse();
                let longer = f.stack.subrange(k - 1, f.stack.len() as int).reverse();
                assert(longer =~= tail.push(f.stack[k - 1]));
                self.frames@.exited = f.exited + longer;
                assert(exits(longer) =~= exits(tail).push(Hook::Exit(f.stack[k - 1])));
                self.trace@ = t + exits(longer);
                assert(self.trace@ =~= t + exits(longer));
            }
        }
        proof {
            assert(f.stack.subrange(0, f.stack.len() as int) =~= f.stack);
            assert(st0.subrange(0, st0.len() as int) =~= st0);
        }
    }

    /// Interprets one effect declared at frame index `frame`, running the
    /// hooks it calls for, and returns what the last of them declared with
    /// the frame index it stands at. A fatal effect changes nothing.
    fn apply_effect(
        &mut self,
        data: &mut S::Data,
        effect: PrivilegedActResult<S, S::Value>,
        frame: usize,
    ) -> (r: Result<(ActResult<S, S::Value>, usize), Fault>)
        requires
            old(self).wf(),
            frame <= old(self).suspended().len(),
        ensures
            final(self).wf(),
            match r {
                Ok((next, k)) => {
                    &&& effect_fault(old(self).suspended(), frame as nat, effect) is None
                    &&& effect_step(
                        old(self).config(*old(data), frame as nat),
                        effect,
                        final(self).config(*final(data), k as nat),
                        next,
                    )
                    &&& next_frames(old(self).frames(), frame as nat, move_of(effect)) == Some(
                        (final(self).frames(), k as nat),
                    )
                    &&& final(self).trace() == old(self).trace() + hooks_of(
                        old(self).frames(),
                        frame as nat,
                        move_of(effect),
                    )
                    &&& k <= final(self).suspended().len()
                },
                Err(fault) => {
                    &&& effect_fault(old(self).suspended(), frame as nat, effect) == Some(
                        fault,
                    )
                    &&& *final(self) == *old(self)
                    &&& *final(data) == *old(data)
                },
            },
    {
        let ghost f = self.frames@;
        let ghost t = self.trace@;
        let ghost a0 = self.state;
        let ghost st0 = self.stack@;
        let ghost d0 = *data;
        let ghost e0 = effect;
        let ghost c = Config { active: a0, stack: st0, data: d0, frame: frame as nat };
        proof {
            self.lemma_config(d0, frame as nat);
        }
        proof {
            if next_frames(f, frame as nat, move_of(effect)) is Some {
                lemma_exit_once(f, frame as nat, move_of(effect));
            }
        }
        match effect {
            PrivilegedActResult::To(state) => {
                self.state.on_exit(data);
                let ghost d1 = *data;
                assert(exit_step(a0, d0, d1));
                self.frames = Ghost(Frames { exited: f.exited.push(f.active), ..f });
                self.trace = Ghost(t.push(Hook::Exit(f.active)));
                self.exit_suspended(data);
                proof {
                    assert(self.frames@.exited =~= f.exited.push(f.active) + f.stack.reverse());
                    assert(self.trace@ =~= t.push(Hook::Exit(f.active)) + exits(f.stack.reverse()));
                }
                self.state = state;
                let ghost u = self.state;
                let ghost d2 = *data;
                proof {
                    assert(unwound(st0.reverse(), d1, d2));
                }
                self.frames = Ghost(
                    Frames {
                        active: f.fresh,
                        stack: Seq::empty(),
                        fresh: f.fresh + 1,
                        exited: self.frames@.exited,
                    },
                );
                let next = self.state.on_enter(data);
                proof {
                    let before = self.trace@;
                    self.trace@ = before.push(Hook::Enter(f.fresh));
                    assert(self.trace@ =~= t + hooks_of(f, frame as nat, Move::Reset));
                    assert(self.stack@ =~= Seq::<S>::empty());
                    let n = Config { active: self.state, stack: self.stack@, data: *data, frame: 0 };
                    assert(exit_step(c.active, c.data, d1) && unwound(c.stack.reverse(), d1, d2)
                        && u.enters(d2, n.active, n.data, next));
                    assert(effect_step(c, e0, n, next)) by {
                        reveal(effect_step);
                    }
                    self.lemma_config(*data, 0);
                }
                Ok((next, 0))
            },
            PrivilegedActResult::Replace(state) => {
                self.state.on_exit(data);
                let ghost d1 = *data;
                assert(exit_step(a0, d0, d1));
                self.trace = Ghost(t.push(Hook::Exit(f.active)));
                self.state = state;
                let ghost state_ghost = self.state;
                self.frames = Ghost(next_frames(f, frame as nat, Move::Replace).unwrap().0);
                let ghost u = state_ghost;
                let next = self.state.on_enter(data);
                self.trace = Ghost(self.trace@.push(Hook::Enter(f.fresh)));
                assert(self.trace@ =~= t + hooks_of(f, frame as nat, Move::Replace));
                proof {
                    let n = Config {
                        active: self.state,
                        stack: self.stack@,
                        data: *data,
                        frame: frame as nat,
                    };
                    assert(exit_step(c.active, c.data, d1) && u.enters(d1, n.active, n.data, next));
                    assert(effect_step(c, e0, n, next)) by {
                        reveal(effect_step);
                    }
                    self.lemma_config(*data, frame as nat);
                }
                Ok((next, frame))
            },
            PrivilegedActResult::Push(state) => {
                let mut unit = state;
                core::mem::swap(&mut self.state, &mut unit);
                self.stack.push(unit);
                self.frames = Ghost(next_frames(f, frame as nat, Move::Push).unwrap().0);
                let next = self.state.on_enter(data);
                self.trace = Ghost(t.push(Hook::Enter(f.fresh)));
                assert(self.trace@ =~= t + hooks_of(f, frame as nat, Move::Push));
                proof {
                    let n = Config {
                        active: self.state,
                        stack: self.stack@,
                        data: *data,
                        frame: self.stack@.len() as nat,
                    };
                    assert(effect_step(c, e0, n, next)) by {
                        reveal(effect_step);
                    }
                    self.lemma_config(*data, self.stack@.len() as nat);
                }
                Ok((next, self.stack.len()))
            },
            PrivilegedActResult::Return(value) => {
                if frame == 0 || self.stack.len() == 0 {
                    return Err(Fault::ReturnWithoutParent);
                }
                let top = self.stack.len() - 1;
                if !self.stack[top].accepts(&value) {
                    return Err(Fault::WrongInput);
                }
                self.state.on_exit(data);
                let ghost d1 = *data;
                assert(exit_step(a0, d0, d1));
                self.trace = Ghost(t.push(Hook::Exit(f.active)));
                self.state = self.stack.pop().unwrap();
                assert(self.stack@ =~= st0.drop_last());
                self.frames = Ghost(next_frames(f, frame as nat, Move::Finish).unwrap().0);
                let ghost parent = self.state;
                let ghost v = value;
                let ghost d2 = *data;
                let next = self.state.resume(data, value);
                self.trace = Ghost(self.trace@.push(Hook::Resume(f.stack.last())));
                assert(self.trace@ =~= t + hooks_of(f, frame as nat, Move::Finish));
                proof {
                    let n = Config {
                        active: self.state,
                        stack: self.stack@,
                        data: *data,
                        frame: (frame - 1) as nat,
                    };
                    assert(parent == c.stack.last());
                    assert(exit_step(c.active, c.data, d1) && c.stack.last().resumes(
                        d1,
                        v,
                        n.active,
                        n.data,
                        next,
                    ));
                    assert(effect_step(c, e0, n, next)) by {
                        reveal(effect_step);
                    }
                    self.lemma_config(*data, (frame - 1) as nat);
                }
                Ok((next, frame - 1))
            },
            PrivilegedActResult::Yield(value) => {
                if frame == 0 {
                    return Err(Fault::YieldWithoutParent);
                }
                if !self.stack[frame - 1].accepts(&value) {
                    return Err(Fault::WrongInput);
                }
                let ghost v = value;
                let parent = &mut self.stack[frame - 1];
                let next = parent.on_yield(data, value);
                assert(self.stack@ =~= st0.update(frame - 1, self.stack@[frame - 1]));
                proof {
                    let n = Config {
                        active: self.state,
                        stack: self.stack@,
                        data: *data,
                        frame: (frame - 1) as nat,
                    };
                    assert(effect_step(c, e0, n, next)) by {
                        reveal(effect_step);
                    }
                    self.lemma_config(*data, (frame - 1) as nat);
                }
                self.trace = Ghost(t.push(Hook::Signal(f.stack[frame - 1])));
                assert(self.trace@ =~= t + hooks_of(f, frame as nat, Move::Signal));
                Ok((next, frame - 1))
            },
        }
    }

    /// The fault that what a hook declared, `result`, runs into at frame
    /// index `frame`, if any. The machine asks before it interprets an
    /// effect, so that a fatal effect is never carried out.
    pub fn fault(&self, result: &ActResult<S, S::Value>, frame: usize) -> (r: Option<Fault>)
        requires
            self.wf(),
            frame <= self.suspended().len(),
        ensures
            r == match result.declared() {
                Some(e) => effect_fault(self.suspended(), frame as nat, e),
                None => None,
            },
    {
        match result {
            ActResult::Nothing => None,
            ActResult::Priv(PrivActResult(PrivilegedActResult::Return(value))) => {
                if frame == 0 || self.stack.len() == 0 {
                    Some(Fault::ReturnWithoutParent)
                } else if !self.stack[self.stack.len() - 1].accepts(value) {
                    Some(Fault::WrongInput)
                } else {
                    None
                }
            },
            ActResult::Priv(PrivActResult(PrivilegedActResult::Yield(value))) => {
                if frame == 0 {
                    Some(Fault::YieldWithoutParent)
                } else if !self.stack[frame - 1].accepts(value) {
                    Some(Fault::WrongInput)
                } else {
                    None
                }
            },
            _ => None,
        }
    }

    /// One step of a cascade: interprets what a hook declared at frame index
    /// `frame`, which must not be fatal ([`Machine::fault`] tells). `Nothing`
    /// ends the cascade and changes nothing; an effect is interpreted as
    /// [`effect_step`] says, and what the last hook it called declared is
    /// returned with the frame index it stands at.
    pub fn apply_result(
        &mut self,
        data: &mut S::Data,
        result: ActResult<S, S::Value>,
        frame: usize,
    ) -> (r: Option<(ActResult<S, S::Value>, usize)>)
        requires
            old(self).wf(),
            frame <= old(self).suspended().len(),
            result.declared() matches Some(e) ==> effect_fault(
                old(self).suspended(),
                frame as nat,
                e,
            ) is None,
        ensures
            final(self).wf(),
            result is Nothing ==> r is None && *final(self) == *old(self) && *final(data) == *old(
                data,
            ),
            result.declared() matches Some(e) ==> match r {
                Some((next, k)) => {
                    &&& effect_step(
                        old(self).config(*old(data), frame as nat),
                        e,
                        final(self).config(*final(data), k as nat),
                        next,
                    )
                    &&& next_frames(old(self).frames(), frame as nat, move_of(e)) == Some(
                        (final(self).frames(), k as nat),
                    )
                    &&& final(self).trace() == old(self).trace() + hooks_of(
                        old(self).frames(),
                        frame as nat,
                        move_of(e),
                    )
                    &&& k <= final(self).suspended().len()
                },
                None => false,
            },
    {
        match result {
            ActResult::Nothing => None,
            ActResult::Priv(PrivActResult(effect)) => match self.apply_effect(data, effect, frame) {
                Ok((next, k)) => Some((next, k)),
                Err(_) => None,
            },
        }
    }

    /// Delivers `action` to the active unit, then interprets the effect it
    /// declares and every effect that the hooks so called declare in turn,
    /// until one declares nothing.
    ///
    /// The machine stays well formed. There is a cascade `path` (see
    /// [`is_cascade`]) that starts with what the active unit's `act` did and
    /// ends where the machine ends; its steps are exactly the effects the
    /// hooks declared, in order, and the hooks the machine ran, recorded in
    /// its trace, are the `act` call followed by the hooks of those effects.
    ///
    /// A fatal effect (a finish with no parent, a yield at frame index 0, a
    /// value its receiver does not take) is never carried out: the cascade
    /// stops before it, the machine and context stay as the effect before
    /// left them, and the fault is returned. It is a broken promise of the
    /// units, not a condition of the data, and the caller treats it as the
    /// end of the program. After [`CASCADE_LIMIT`] effects the cascade stops
    /// too, with [`Fault::CascadeLimit`].
    pub fn act(&mut self, data: &mut S::Data, action: S::Action) -> (r: Result<(), Fault>)
        requires
            old(self).wf(),
        ensures
            final(self).wf(),
            exists|path: Seq<(Config<S>, ActResult<S, S::Value>)>|
                {
                    &&& #[trigger] is_cascade(path)
                    &&& old(self).active_unit().acts(
                        *old(data),
                        action,
                        path[0].0.active,
                        path[0].0.data,
                        path[0].1,
                    )
                    &&& path[0].0.stack == old(self).suspended()
                    &&& path[0].0.frame == old(self).suspended().len()
                    &&& path.last().0.active == final(self).active_unit()
                    &&& path.last().0.stack == final(self).suspended()
                    &&& path.last().0.data == *final(data)
                    &&& ends_with(path.last(), r)
                    &&& r == Err::<(), Fault>(Fault::CascadeLimit) ==> path.len() == CASCADE_LIMIT + 1
                    &&& run(old(self).frames(), old(self).suspended().len() as nat, moves_of(path))
                        == Some((final(self).frames(), path.last().0.frame))
                    &&& final(self).trace() == old(self).trace().push(
                        Hook::Act(old(self).frames().active),
                    ) + run_hooks(
                        old(self).frames(),
                        old(self).suspended().len() as nat,
                        moves_of(path),
                    )
                },
    {
        let ghost f0 = self.frames@;
        let ghost frame0 = self.stack@.len() as nat;
        let ghost t0 = self.trace@.push(Hook::Act(f0.active));
        let ghost a0 = self.state;
        let ghost d0 = *data;
        let ghost act0 = action;
        let mut result = self.state.act(data, action);
        self.trace = Ghost(t0);
        let mut frame: usize = self.stack.len();
        let ghost start = (
            Config { active: self.state, stack: self.stack@, data: *data, frame: frame as nat },
            result,
        );
        let ghost mut path: Seq<(Config<S>, ActResult<S, S::Value>)> = seq![start];
        proof {
            assert(moves_of(path) =~= Seq::<Move>::empty());
            assert(t0 =~= t0 + run_hooks(f0, frame0, moves_of(path)));
        }
        let mut budget: u64 = CASCADE_LIMIT;
        loop
            invariant
                f0 == old(self).frames(),
                frame0 == old(self).suspended().len(),
                t0 == old(self).trace().push(Hook::Act(old(self).frames().active)),
                a0 == old(self).active_unit(),
                d0 == *old(data),
                act0 == action,
                a0.acts(d0, act0, start.0.active, start.0.data, start.1),
                start.0.stack == old(self).suspended(),
                start.0.frame == old(self).suspended().len(),
                is_cascade(path),
                path[0] == start,
                path.len() == CASCADE_LIMIT - budget + 1,
                path.last() == (
                    Config { active: self.state, stack: self.stack@, data: *data, frame: frame as nat },
                    result,
                ),
                self.trace() == t0 + run_hooks(f0, frame0, moves_of(path)),
                self.wf(),
                frame <= self.suspended().len(),
                run(f0, frame0, moves_of(path)) == Some((self.frames(), frame as nat)),
            decreases budget,
        {
            let ghost here = path.last();
            if let ActResult::Nothing = result {
                return Ok(());
            }
            proof {
                self.lemma_config(*data, frame as nat);
            }
            match self.fault(&result, frame) {
                Some(fault) => {
                    return Err(fault);
                },
                None => {},
            }
            if budget == 0 {
                return Err(Fault::CascadeLimit);
            }
            budget = budget - 1;
            let ghost e = result.declared().unwrap();
            let ghost m = move_of(e);
            let ghost ms = moves_of(path);
            let ghost before = self.frames@;
            let ghost at = frame as nat;
            match self.apply_result(data, result, frame) {
                Some((next, k)) => {
                    proof {
                        lemma_run_append(f0, frame0, ms, seq![m]);
                        lemma_run_one(before, at, m);
                        let prior = run_hooks(f0, frame0, ms);
                        assert(t0 + (prior + hooks_of(before, at, m)) =~= (t0 + prior) + hooks_of(
                            before,
                            at,
                            m,
                        ));
                        self.lemma_config(*data, k as nat);
                        let there = (
                            Config {
                                active: self.state,
                                stack: self.stack@,
                                data: *data,
                                frame: k as nat,
                            },
                            next,
                        );
                        assert(chained(here, there));
                        let longer = path.push(there);
                        assert forall|i: int| 0 <= i < longer.len() - 1 implies chained(
                            #[trigger] longer[i],
                            longer[i + 1],
                        ) by {
                            if i < path.len() - 1 {
                                assert(longer[i] == path[i] && longer[i + 1] == path[i + 1]);
                            }
                        }
                        assert(moves_of(longer) =~= ms + seq![m]);
                        path = longer;
                    }
                    result = next;
                    frame = k;
                },
                None => {
                    return Ok(());
                },
            }
        }
    }
}

} // verus!
