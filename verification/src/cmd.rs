//! Commands: descriptions of side effects that the runtime performs after
//! a render, and the algebra that combines them. The effects themselves
//! (futures to run, callbacks to call back) are carried as payloads that
//! the runtime's executor knows how to run.

use vstd::prelude::*;
use std::time::Duration;

verus! {

/// A command: nothing, several commands at once, several in order, an
/// effect to perform, a pause followed by another command, or a callback
/// after a delay (once, or as the start of a repeating timer). `F` is the
/// type of performed effects, `C` that of timer callbacks.
pub enum Cmd<F, C> {
    /// No operation
    Noop,
    /// Commands run concurrently
    Batch(Vec<Cmd<F, C>>),
    /// Commands run one after another
    Sequence(Vec<Cmd<F, C>>),
    /// An effect to perform
    Perform { future: F },
    /// A pause, then another command
    Sleep { duration: Duration, then: Box<Cmd<F, C>> },
    /// A callback after a delay
    Tick { duration: Duration, callback: C },
    /// A callback after a delay aligned to the system clock
    Every { duration: Duration, callback: C },
}

/// Whether a command is no operation.
pub open spec fn is_none_cmd<F, C>(c: Cmd<F, C>) -> bool {
    c is Noop
}

/// The commands that are not `Noop`, in order.
pub open spec fn without_none<F, C>(cmds: Seq<Cmd<F, C>>) -> Seq<Cmd<F, C>>
    decreases cmds.len(),
{
    if cmds.len() == 0 {
        Seq::empty()
    } else if is_none_cmd(cmds.last()) {
        without_none(cmds.drop_last())
    } else {
        without_none(cmds.drop_last()).push(cmds.last())
    }
}

/// Whether `r` is `first` followed by `next`: `Noop` gives `next`; a pause
/// keeps its duration and chains `next` after what follows it; any other
/// command runs together with `next` in a batch (or alone when `next` is
/// `Noop`).
pub open spec fn is_chain<F, C>(first: Cmd<F, C>, next: Cmd<F, C>, r: Cmd<F, C>) -> bool
    decreases first,
{
    match first {
        Cmd::Noop => r == next,
        Cmd::Sleep { duration, then } => match r {
            Cmd::Sleep { duration: d, then: t } => d == duration && is_chain(*then, next, *t),
            _ => false,
        },
        other => if next is Noop {
            r == other
        } else {
            match r {
                Cmd::Batch(v) => v@ == seq![other, next],
                _ => false,
            }
        },
    }
}

/// Dropping the `Noop`s of a command that is not `Noop` and another.
proof fn lemma_pair_without_none<F, C>(a: Cmd<F, C>, b: Cmd<F, C>)
    requires
        !is_none_cmd(a),
    ensures
        is_none_cmd(b) ==> without_none(seq![a, b]) == seq![a],
        !is_none_cmd(b) ==> without_none(seq![a, b]) == seq![a, b],
{
    assert(seq![a, b].drop_last() =~= seq![a]);
    assert(seq![a].drop_last() =~= Seq::<Cmd<F, C>>::empty());
    assert(seq![a].last() == a);
    assert(without_none(Seq::<Cmd<F, C>>::empty()) == Seq::<Cmd<F, C>>::empty());
    assert(without_none(seq![a]) == without_none(Seq::<Cmd<F, C>>::empty()).push(a));
    assert(Seq::<Cmd<F, C>>::empty().push(a) =~= seq![a]);
}

/// Drops the `Noop`s of a vector of commands, keeping the order.
fn drop_none<F, C>(cmds: Vec<Cmd<F, C>>) -> (kept: Vec<Cmd<F, C>>)
    ensures
        kept@ == without_none(cmds@),
{
    let ghost all = cmds@;
    let mut rest = cmds;
    let mut kept: Vec<Cmd<F, C>> = Vec::new();
    let ghost mut i: int = 0;
    while rest.len() > 0
        invariant
            0 <= i <= all.len(),
            rest@ == all.skip(i),
            kept@ == without_none(all.take(i)),
        decreases rest@.len(),
    {
        let c = rest.remove(0);
        proof {
            assert(all.take(i + 1).drop_last() =~= all.take(i));
            assert(all.take(i + 1).last() == c);
        }
        let is_none = match c {
            Cmd::Noop => true,
            _ => false,
        };
        if !is_none {
            kept.push(c);
        }
        proof {
            i = i + 1;
            assert(rest@ =~= all.skip(i));
        }
    }
    assert(all.take(i) =~= all);
    kept
}

/// Groups kept commands (see `combined`).
fn group<F, C>(kept: Vec<Cmd<F, C>>, sequential: bool) -> (r: Cmd<F, C>)
    ensures
        kept@.len() == 0 ==> r is Noop,
        kept@.len() == 1 ==> r == kept@[0],
        kept@.len() > 1 && sequential ==> (r matches Cmd::Sequence(v) && v@ == kept@),
        kept@.len() > 1 && !sequential ==> (r matches Cmd::Batch(v) && v@ == kept@),
{
    let mut kept = kept;
    if kept.len() == 0 {
        Cmd::Noop
    } else if kept.len() == 1 {
        kept.pop().unwrap()
    } else if sequential {
        Cmd::Sequence(kept)
    } else {
        Cmd::Batch(kept)
    }
}

impl<F, C> Default for Cmd<F, C> {
    /// No operation.
    fn default() -> (c: Self)
        ensures
            c is Noop,
    {
        Cmd::Noop
    }
}

impl<F, C> Cmd<F, C> {
    /// No operation.
    pub fn none() -> (c: Self)
        ensures
            c is Noop,
    {
        Cmd::Noop
    }

    /// Runs the commands concurrently: the `Noop`s are dropped; nothing
    /// left gives `Noop`, one left gives that command, more a batch.
    pub fn batch(cmds: Vec<Cmd<F, C>>) -> (c: Self)
        ensures
            without_none(cmds@).len() == 0 ==> c is Noop,
            without_none(cmds@).len() == 1 ==> c == without_none(cmds@)[0],
            without_none(cmds@).len() > 1 ==> (c matches Cmd::Batch(v) && v@ == without_none(cmds@)),
    {
        group(drop_none(cmds), false)
    }

    /// Runs the commands one after another: the `Noop`s are dropped; nothing
    /// left gives `Noop`, one left gives that command, more a sequence.
    pub fn sequence(cmds: Vec<Cmd<F, C>>) -> (c: Self)
        ensures
            without_none(cmds@).len() == 0 ==> c is Noop,
            without_none(cmds@).len() == 1 ==> c == without_none(cmds@)[0],
            without_none(cmds@).len() > 1 ==> (c matches Cmd::Sequence(v) && v@ == without_none(
                cmds@,
            )),
    {
        group(drop_none(cmds), true)
    }

    /// Performs an effect.
    pub fn perform(future: F) -> (c: Self)
        ensures
            c == (Cmd::<F, C>::Perform { future }),
    {
        Cmd::Perform { future }
    }

    /// A pause followed by nothing.
    pub fn sleep(duration: Duration) -> (c: Self)
        ensures
            c matches Cmd::Sleep { duration: d, then } && d == duration && *then is Noop,
    {
        Cmd::Sleep { duration, then: Box::new(Cmd::Noop) }
    }

    /// A callback after a delay.
    pub fn tick(duration: Duration, callback: C) -> (c: Self)
        ensures
            c == (Cmd::<F, C>::Tick { duration, callback }),
    {
        Cmd::Tick { duration, callback }
    }

    /// A callback after a delay aligned to the system clock.
    pub fn every(duration: Duration, callback: C) -> (c: Self)
        ensures
            c == (Cmd::<F, C>::Every { duration, callback }),
    {
        Cmd::Every { duration, callback }
    }

    /// This command followed by `next` (see `is_chain`).
    pub fn and_then(self, next: Cmd<F, C>) -> (c: Self)
        ensures
            is_chain(self, next, c),
        decreases self,
    {
        match self {
            Cmd::Noop => next,
            Cmd::Sleep { duration, then } => {
                let rest = (*then).and_then(next);
                Cmd::Sleep { duration, then: Box::new(rest) }
            },
            other => {
                let ghost o = other;
                let next_is_none = next.is_none();
                let mut v: Vec<Cmd<F, C>> = Vec::new();
                v.push(other);
                v.push(next);
                proof {
                    assert(v@ =~= seq![o, next]);
                    assert(!is_none_cmd(o));
                    lemma_pair_without_none(o, next);
                }
                Cmd::batch(v)
            },
        }
    }

    /// Performs an effect after a pause.
    pub fn delay(duration: Duration, future: F) -> (c: Self)
        ensures
            is_chain(
                Cmd::<F, C>::Sleep { duration, then: Box::new(Cmd::Noop) },
                Cmd::<F, C>::Perform { future },
                c,
            ),
    {
        Cmd::sleep(duration).and_then(Cmd::perform(future))
    }

    /// Whether this is no operation.
    pub fn is_none(&self) -> (r: bool)
        ensures
            r == (*self is Noop),
    {
        match self {
            Cmd::Noop => true,
            _ => false,
        }
    }

    /// Transforms the command with `f`.
    pub fn map<G: FnOnce(Self) -> Self>(self, f: G) -> (c: Self)
        requires
            call_requires(f, (self,)),
        ensures
            call_ensures(f, (self,), c),
    {
        f(self)
    }
}

/// `Noop` is an identity of `and_then` on either side: `Noop` followed by a
/// command is that command, and a command followed by `Noop` is unchanged.
pub proof fn law_noop_identity_of_and_then<F, C>(c: Cmd<F, C>, r: Cmd<F, C>)
    ensures
        is_chain(Cmd::Noop, c, r) <==> r == c,
        is_chain(c, Cmd::Noop, r) ==> r == c,
    decreases c,
{
    if let Cmd::Sleep { duration, then } = c {
        if is_chain(c, Cmd::Noop, r) {
            if let Cmd::Sleep { duration: d, then: t } = r {
                law_noop_identity_of_and_then(*then, *t);
            }
        }
    }
}

/// Dropping the `Noop`s leaves none, keeps every other command, and doing
/// it twice is doing it once: grouping sees only the commands that do
/// something.
pub proof fn law_without_none_idempotent<F, C>(cmds: Seq<Cmd<F, C>>)
    ensures
        forall|i: int| 0 <= i < without_none(cmds).len() ==> !is_none_cmd(#[trigger] without_none(cmds)[i]),
        without_none(without_none(cmds)) == without_none(cmds),
        without_none(cmds).len() <= cmds.len(),
    decreases cmds.len(),
{
    if cmds.len() > 0 {
        law_without_none_idempotent(cmds.drop_last());
        let r = without_none(cmds.drop_last());
        if !is_none_cmd(cmds.last()) {
            let w = r.push(cmds.last());
            assert(w.drop_last() =~= r);
            assert(w.last() == cmds.last());
            assert forall|i: int| 0 <= i < w.len() implies !is_none_cmd(#[trigger] w[i]) by {
                if i < r.len() {
                    assert(w[i] == r[i]);
                }
            }
        }
    }
}

/// How long an `Every` command waits from `since_epoch` (nanoseconds since
/// the Unix epoch) for its tick to land on the next multiple of `period`:
/// a whole period when it is already on one.
pub open spec fn clock_wait(since_epoch: nat, period: nat) -> nat
    recommends
        period > 0,
{
    if since_epoch % period == 0 {
        period
    } else {
        (period - since_epoch % period) as nat
    }
}

/// The wait of an `Every` command of `period_nanos` started at
/// `since_epoch_nanos` (see `clock_wait`).
pub fn every_wait_nanos(since_epoch_nanos: u64, period_nanos: u64) -> (w: u64)
    requires
        period_nanos > 0,
    ensures
        w == clock_wait(since_epoch_nanos as nat, period_nanos as nat),
{
    let remainder = since_epoch_nanos % period_nanos;
    if remainder == 0 {
        period_nanos
    } else {
        period_nanos - remainder
    }
}

/// An `Every` tick lands on the first boundary of the system clock strictly
/// after it starts: the wait is positive, at most one period, and ends on a
/// multiple of the period.
pub proof fn law_every_aligns_to_clock(since_epoch: nat, period: nat)
    requires
        period > 0,
    ensures
        0 < clock_wait(since_epoch, period) <= period,
        (since_epoch + clock_wait(since_epoch, period)) % period == 0,
{
    let r = since_epoch % period;
    let q = since_epoch / period;
    assert(since_epoch == q * period + r) by (nonlinear_arith)
        requires
            period > 0,
            r == since_epoch % period,
            q == since_epoch / period,
    ;
    if r == 0 {
        assert((since_epoch + period) % period == 0) by (nonlinear_arith)
            requires
                since_epoch == q * period,
                period > 0,
        ;
    } else {
        assert(((since_epoch + (period - r)) as nat) % period == 0) by (nonlinear_arith)
            requires
                since_epoch == q * period + r,
                period > 0,
        ;
    }
}

} // verus!
