//! The fixed-timestep scheduler and the capability contract its objects meet.
//!
//! Time is measured in whole clock units (for example microseconds). A
//! `Simulation` is constructed with a fixed tick length in those units and,
//! on every `do_tick` call, converts the elapsed wall time into a whole
//! number of discrete ticks, catching up after a slow frame by running
//! several tick passes in one call.

use vstd::prelude::*;

verus! {

/// The capability to advance by one fixed-length simulation step.
pub trait Tick: Sized {
    /// The object's state after one step of `tick_len` clock units.
    /// A step is a pure function of the current state and the tick length,
    /// so ticking is deterministic.
    spec fn ticked(self, tick_len: u64) -> Self;

    /// Advances the object's internal state by exactly one fixed-length step,
    /// mutating only this object's own state.
    fn on_tick(&mut self, tick_len: u64)
        ensures
            *final(self) == old(self).ticked(tick_len),
    ;
}

/// The capability to render the current state.
pub trait Draw {
    /// Renders the object's current state. The shared borrow guarantees that
    /// no simulation state is mutated by a draw.
    fn on_draw(&self);
}

/// The capability to report expiry.
pub trait Expire: Sized {
    /// Whether the object has expired and is eligible for removal.
    spec fn expired(self) -> bool;

    /// Pure predicate reporting expiry.
    fn is_expired(&self) -> (r: bool)
        ensures
            r == self.expired(),
    ;
}

/// The full contract a simulated object must meet to participate in a
/// `Simulation`: it can be ticked, drawn, and asked whether it has expired.
pub trait TickDrawExpire: Tick + Draw + Expire {
    /// Expiry must be monotonic within an object's lifetime: once an object
    /// has expired, a further tick never un-expires it.
    proof fn expiry_monotonic(self, tick_len: u64)
        ensures
            self.expired() ==> self.ticked(tick_len).expired(),
    ;
}

/// The state of `obj` after `n` successive steps of `tick_len` clock units each.
pub open spec fn ticked_n<T: Tick>(obj: T, tick_len: u64, n: nat) -> T
    decreases n,
{
    if n == 0 {
        obj
    } else {
        ticked_n(obj, tick_len, (n - 1) as nat).ticked(tick_len)
    }
}

/// Unfolds one step of `ticked_n`: `n + 1` steps are `n` steps followed by one.
pub proof fn lemma_ticked_n_succ<T: Tick>(obj: T, tick_len: u64, n: nat)
    ensures
        ticked_n(obj, tick_len, n + 1) == ticked_n(obj, tick_len, n).ticked(tick_len),
{
}

/// Every object of `objects` advanced by `n` steps of `tick_len` clock units
/// each, each staying at its position: an object's new state is a function of
/// its own prior state alone.
pub open spec fn all_ticked_n<T: Tick>(objects: Seq<T>, tick_len: u64, n: nat) -> Seq<T> {
    objects.map_values(|obj: T| ticked_n(obj, tick_len, n))
}

/// The objects of `objects` that survive an expiry pass: exactly those not
/// expired, in their original relative order.
pub open spec fn survivors_of<T: Expire>(objects: Seq<T>) -> Seq<T> {
    objects.filter(|obj: T| !obj.expired())
}

/// The number of whole ticks of length `units_per_tick` that fit in `elapsed`
/// clock units: the tick count the scheduler is expected to have reached.
pub open spec fn whole_ticks(units_per_tick: u64, elapsed: u64) -> int
    recommends
        units_per_tick > 0,
{
    elapsed as int / units_per_tick as int
}

/// The number of tick passes one successful `do_tick` call performs when the
/// scheduler stands at `tick_count` and the wall clock reads `elapsed`: the
/// catch-up ticks plus the one guaranteed pass.
pub open spec fn passes_for(units_per_tick: u64, tick_count: u64, elapsed: u64) -> nat
    recommends
        units_per_tick > 0,
        whole_ticks(units_per_tick, elapsed) >= tick_count,
{
    (whole_ticks(units_per_tick, elapsed) - tick_count + 1) as nat
}

/// A precondition violation reported by the scheduler.
#[derive(Clone, Copy, Debug, PartialEq, Eq, Structural)]
pub enum SimError {
    /// The requested tick length was zero: a tick must have positive length.
    NonPositiveTickLength,
    /// The elapsed wall time handed to `do_tick` regressed below a point the
    /// scheduler has already caught up to; wall time must be monotonic.
    TimeRegression,
}

/// The fixed-timestep scheduler: owns an ordered collection of simulated
/// objects, converts elapsed wall time into a whole number of discrete ticks,
/// and drives ticking, expiry pruning, and draw dispatch.
pub struct Simulation<T: TickDrawExpire> {
    units_per_tick: u64,
    objects: Vec<T>,
    tick_count: u64,
}

impl<T: TickDrawExpire> Simulation<T> {
    /// The fixed tick length in clock units, immutable for the simulation's
    /// lifetime.
    pub closed spec fn units_per_tick(self) -> u64 {
        self.units_per_tick
    }

    /// The authoritative simulated-time clock: how many whole ticks of wall
    /// time the scheduler has caught up to.
    pub closed spec fn tick_count(self) -> u64 {
        self.tick_count
    }

    /// The owned objects, in insertion order.
    pub closed spec fn objects(self) -> Seq<T> {
        self.objects@
    }

    /// Well-formedness: the tick length is positive, which the constructor
    /// establishes and every operation preserves.
    pub open spec fn wf(self) -> bool {
        self.units_per_tick() > 0
    }

    /// Creates a scheduler with the given tick length, zero ticks performed and
    /// no objects; rejects a zero tick length.
    pub fn new(units_per_tick: u64) -> (r: Result<Self, SimError>)
        ensures
            units_per_tick == 0 ==> r == Err::<Self, SimError>(SimError::NonPositiveTickLength),
            units_per_tick > 0 ==> {
                &&& r is Ok
                &&& r->Ok_0.wf()
                &&& r->Ok_0.units_per_tick() == units_per_tick
                &&& r->Ok_0.tick_count() == 0
                &&& r->Ok_0.objects() == Seq::<T>::empty()
            },
    {
        if units_per_tick == 0 {
            Err(SimError::NonPositiveTickLength)
        } else {
            Ok(Simulation { units_per_tick, objects: Vec::new(), tick_count: 0 })
        }
    }

    /// Pure accessor for the tick count.
    pub fn get_tick_count(&self) -> (r: u64)
        ensures
            r == self.tick_count(),
    {
        self.tick_count
    }

    /// Pure accessor for the number of objects currently held.
    pub fn get_object_count(&self) -> (r: usize)
        ensures
            r == self.objects().len(),
    {
        self.objects.len()
    }

    /// Borrows the object at position `i` in insertion order, or `None` when
    /// `i` is out of range.
    pub fn get_object(&self, i: usize) -> (r: Option<&T>)
        ensures
            i < self.objects().len() ==> (r is Some && *r->Some_0 == self.objects()[i as int]),
            i >= self.objects().len() ==> r is None,
    {
        if i < self.objects.len() {
            Some(&self.objects[i])
        } else {
            None
        }
    }

    /// One tick pass: invokes `on_tick` with the fixed tick length on every
    /// object currently in the collection, in insertion order. Every object
    /// of a pass observes the same tick length, and no object's tick observes
    /// another's post-tick state: each new state is a function of that
    /// object's own prior state alone.
    fn tick_pass(&mut self)
        ensures
            final(self).units_per_tick() == old(self).units_per_tick(),
            final(self).tick_count() == old(self).tick_count(),
            final(self).objects() == old(self).objects().map_values(
                |obj: T| obj.ticked(old(self).units_per_tick()),
            ),
    {
        let tick_len = self.units_per_tick;
        let n = self.objects.len();
        let mut i: usize = 0;
        while i < n
            invariant
                i <= n,
                n == self.objects().len(),
                n == old(self).objects().len(),
                tick_len == old(self).units_per_tick(),
                self.units_per_tick() == old(self).units_per_tick(),
                self.tick_count() == old(self).tick_count(),
                forall|j: int| 0 <= j < i ==> self.objects()[j] == old(self).objects()[j].ticked(tick_len),
                forall|j: int| i <= j < n ==> self.objects()[j] == old(self).objects()[j],
            decreases n - i,
        {
            let ghost before = self.objects();
            let mut obj = self.objects.remove(i);
            obj.on_tick(tick_len);
            self.objects.insert(i, obj);
            proof {
                assert forall|j: int| 0 <= j < n && j != i implies self.objects()[j] == before[j] by {
                    assert(self.objects()[j] == before.remove(i as int).insert(i as int, obj)[j]);
                }
            }
            i += 1;
        }
        proof {
            assert(self.objects() =~= old(self).objects().map_values(
                |obj: T| obj.ticked(old(self).units_per_tick()),
            ));
        }
    }

    /// The central algorithm. Computes the expected tick count
    /// `floor(elapsed / units_per_tick)`, rejects a regression of the wall
    /// clock below what has already been caught up to, and otherwise performs
    /// one tick pass for each outstanding tick plus one guaranteed pass, then
    /// advances the tick count to the expected count. The extra pass trades a
    /// small amount of determinism for guaranteed forward progress even when
    /// wall time has not yet crossed a tick boundary.
    pub fn do_tick(&mut self, elapsed: u64) -> (r: Result<(), SimError>)
        requires
            old(self).wf(),
        ensures
            final(self).wf(),
            final(self).units_per_tick() == old(self).units_per_tick(),
            whole_ticks(old(self).units_per_tick(), elapsed) < old(self).tick_count() ==> {
                &&& r == Err::<(), SimError>(SimError::TimeRegression)
                &&& *final(self) == *old(self)
            },
            whole_ticks(old(self).units_per_tick(), elapsed) >= old(self).tick_count() ==> {
                &&& r == Ok::<(), SimError>(())
                &&& final(self).tick_count() == whole_ticks(old(self).units_per_tick(), elapsed)
                &&& final(self).objects() == all_ticked_n(
                    old(self).objects(),
                    old(self).units_per_tick(),
                    passes_for(old(self).units_per_tick(), old(self).tick_count(), elapsed),
                )
            },
    {
        let expected: u64 = elapsed / self.units_per_tick;
        if expected < self.tick_count {
            return Err(SimError::TimeRegression);
        }
        let catch_up: u64 = expected - self.tick_count;
        let ghost upt = self.units_per_tick();
        self.tick_pass();
        proof {
            assert forall|k: int| 0 <= k < old(self).objects().len() implies self.objects()[k]
                == ticked_n(old(self).objects()[k], upt, 1) by {
                assert(ticked_n(old(self).objects()[k], upt, 0) == old(self).objects()[k]);
                lemma_ticked_n_succ(old(self).objects()[k], upt, 0);
            }
            assert(self.objects() =~= old(self).objects().map_values(
                |obj: T| ticked_n(obj, upt, 1),
            ));
        }
        let mut performed: u64 = 0;
        while performed < catch_up
            invariant
                performed <= catch_up,
                self.wf(),
                upt == old(self).units_per_tick(),
                self.units_per_tick() == old(self).units_per_tick(),
                self.tick_count() == old(self).tick_count(),
                self.objects() == old(self).objects().map_values(
                    |obj: T| ticked_n(obj, upt, (performed + 1) as nat),
                ),
            decreases catch_up - performed,
        {
            let ghost prev = self.objects();
            self.tick_pass();
            proof {
                assert forall|k: int| 0 <= k < old(self).objects().len() implies self.objects()[k]
                    == ticked_n(old(self).objects()[k], upt, (performed + 2) as nat) by {
                    assert(prev[k] == ticked_n(old(self).objects()[k], upt, (performed + 1) as nat));
                    lemma_ticked_n_succ(old(self).objects()[k], upt, (performed + 1) as nat);
                }
                assert(self.objects() =~= old(self).objects().map_values(
                    |obj: T| ticked_n(obj, upt, (performed + 2) as nat),
                ));
            }
            performed += 1;
        }
        self.tick_count = expected;
        proof {
            let passes = passes_for(upt, old(self).tick_count(), elapsed);
            assert(self.objects() =~= all_ticked_n(old(self).objects(), upt, passes));
        }
        Ok(())
    }

    /// Invokes `on_draw` on every currently-held object, in insertion order.
    /// Draws are read-only with respect to simulation state; this may be
    /// called any number of times per tick.
    pub fn do_draw(&self) {
        let mut i: usize = 0;
        let n = self.objects.len();
        while i < n
            invariant
                n == self.objects().len(),
            decreases n - i,
        {
            self.objects[i].on_draw();
            i += 1;
        }
    }

    /// Removes, in one pass, every object that currently reports itself
    /// expired; the surviving objects keep their relative order. Expiry is
    /// evaluated only here, never inside `do_tick`.
    #[verifier::loop_isolation(false)]
    pub fn do_handle_expiry(&mut self)
        ensures
            final(self).units_per_tick() == old(self).units_per_tick(),
            final(self).tick_count() == old(self).tick_count(),
            final(self).objects() == survivors_of(old(self).objects()),
    {
        let ghost pred = |obj: T| !obj.expired();
        let mut survivors: Vec<T> = Vec::new();
        let n = self.objects.len();
        let mut i: usize = 0;
        while i < n
            invariant
                i <= n,
                n == old(self).objects().len(),
                self.units_per_tick() == old(self).units_per_tick(),
                self.tick_count() == old(self).tick_count(),
                self.objects() == old(self).objects().skip(i as int),
                survivors@ == old(self).objects().take(i as int).filter(pred),
            decreases n - i,
        {
            let ghost taken = old(self).objects().take(i as int);
            let obj = self.objects.remove(0);
            proof {
                assert(obj == old(self).objects()[i as int]);
                assert(self.objects() =~= old(self).objects().skip(i as int + 1));
                taken.lemma_filter_push(obj, pred);
                assert(old(self).objects().take(i as int + 1) =~= taken.push(obj));
            }
            if !obj.is_expired() {
                survivors.push(obj);
            }
            i += 1;
        }
        proof {
            assert(old(self).objects().take(n as int) =~= old(self).objects());
        }
        self.objects = survivors;
        proof {
            assert(self.objects() =~= survivors_of(old(self).objects()));
        }
    }

    /// Transfers exclusive ownership of `object` into the collection,
    /// appending it after all previously-added objects.
    pub fn add_object(&mut self, object: T)
        ensures
            final(self).units_per_tick() == old(self).units_per_tick(),
            final(self).tick_count() == old(self).tick_count(),
            final(self).objects() == old(self).objects().push(object),
    {
        self.objects.push(object);
    }
}

} // verus!
