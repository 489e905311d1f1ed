//! The laws the scheduler obeys, stated over the same spec functions that the
//! `Simulation` contracts use and proved once and for all.

use vstd::prelude::*;

use crate::simulator::{
    all_ticked_n, lemma_ticked_n_succ, passes_for, survivors_of, ticked_n, whole_ticks, Expire,
    TickDrawExpire,
};
use vstd::arithmetic::div_mod::{
    lemma_div_is_ordered, lemma_div_multiples_vanish, lemma_div_pos_is_pos,
};

verus! {

/// The tick count one `do_tick` call leaves behind, mirroring its contract:
/// `None` when the elapsed wall time has regressed below what the scheduler
/// already caught up to (the call reports an error and changes nothing), and
/// otherwise the expected tick count `floor(elapsed / units_per_tick)`.
pub open spec fn tick_count_step(units_per_tick: u64, count: int, elapsed: u64) -> Option<int> {
    if whole_ticks(units_per_tick, elapsed) < count {
        None
    } else {
        Some(whole_ticks(units_per_tick, elapsed))
    }
}

/// The tick count after a whole sequence of `do_tick` calls starting from a
/// fresh scheduler, or `None` if any call reported a wall-clock regression.
pub open spec fn tick_count_run(units_per_tick: u64, times: Seq<u64>) -> Option<int>
    decreases times.len(),
{
    if times.len() == 0 {
        Some(0)
    } else {
        match tick_count_run(units_per_tick, times.drop_last()) {
            Some(count) => tick_count_step(units_per_tick, count, times.last()),
            None => None,
        }
    }
}

/// Tick accounting: for every non-decreasing sequence of elapsed wall times,
/// every `do_tick` call succeeds, and afterwards the tick count equals
/// `floor(last elapsed / units_per_tick)`.
pub proof fn lemma_tick_accounting(units_per_tick: u64, times: Seq<u64>)
    requires
        units_per_tick > 0,
        times.len() > 0,
        forall|i: int, j: int| 0 <= i <= j < times.len() ==> times[i] <= times[j],
    ensures
        tick_count_run(units_per_tick, times) == Some(
            whole_ticks(units_per_tick, times.last()),
        ),
    decreases times.len(),
{
    if times.len() == 1 {
        lemma_div_pos_is_pos(times.last() as int, units_per_tick as int);
    } else {
        let front = times.drop_last();
        assert(forall|i: int, j: int| 0 <= i <= j < front.len() ==> front[i] <= front[j]) by {
            assert(forall|i: int| 0 <= i < front.len() ==> front[i] == times[i]);
        }
        lemma_tick_accounting(units_per_tick, front);
        lemma_div_is_ordered(front.last() as int, times.last() as int, units_per_tick as int);
    }
}

/// Catch-up correctness: a single `do_tick` call at an elapsed wall time of
/// exactly ten tick lengths, starting from tick count zero, performs eleven
/// tick passes (ten catch-up ticks plus the guaranteed one), so every object
/// held by the scheduler is ticked exactly eleven times.
pub proof fn lemma_catch_up<T: TickDrawExpire>(
    objects: Seq<T>,
    units_per_tick: u64,
    elapsed: u64,
    i: int,
)
    requires
        units_per_tick > 0,
        elapsed == 10 * units_per_tick as int,
        0 <= i < objects.len(),
    ensures
        passes_for(units_per_tick, 0, elapsed) == 11,
        all_ticked_n(objects, units_per_tick, passes_for(units_per_tick, 0, elapsed))[i]
            == ticked_n(objects[i], units_per_tick, 11),
{
    lemma_div_multiples_vanish(10, units_per_tick as int);
}

/// Builds the strictly increasing map from the positions of `s.filter(pred)`
/// back to positions of `s`: filtering deletes elements but never reorders.
proof fn lemma_filter_index_map<T>(s: Seq<T>, pred: spec_fn(T) -> bool) -> (positions: Seq<int>)
    ensures
        positions.len() == s.filter(pred).len(),
        forall|k: int| 0 <= k < positions.len() ==> 0 <= #[trigger] positions[k] < s.len(),
        forall|k1: int, k2: int|
            0 <= k1 < k2 < positions.len() ==> positions[k1] < positions[k2],
        forall|k: int| 0 <= k < positions.len() ==> s.filter(pred)[k] == s[positions[k]],
    decreases s.len(),
{
    reveal(Seq::filter);
    if s.len() == 0 {
        Seq::<int>::empty()
    } else {
        let front = s.drop_last();
        let sub = lemma_filter_index_map(front, pred);
        assert(forall|k: int| 0 <= k < sub.len() ==> front[sub[k]] == s[sub[k]]);
        if pred(s.last()) {
            let positions = sub.push(s.len() - 1);
            assert(s.filter(pred) == front.filter(pred).push(s.last()));
            assert(forall|k: int| 0 <= k < sub.len() ==> positions[k] == sub[k]);
            positions
        } else {
            sub
        }
    }
}

/// Order preservation under expiry: the survivors of an expiry pass are the
/// original objects with the expired ones deleted and nothing reordered,
/// witnessed by a strictly increasing map from each survivor's position back
/// to its original position.
pub proof fn lemma_expiry_preserves_order<T: TickDrawExpire>(objects: Seq<T>) -> (positions: Seq<
    int,
>)
    ensures
        positions.len() == survivors_of(objects).len(),
        forall|k: int| 0 <= k < positions.len() ==> 0 <= #[trigger] positions[k] < objects.len(),
        forall|k1: int, k2: int|
            0 <= k1 < k2 < positions.len() ==> positions[k1] < positions[k2],
        forall|k: int| 0 <= k < positions.len() ==> survivors_of(objects)[k]
            == objects[positions[k]],
{
    lemma_filter_index_map(objects, |obj: T| !obj.expired())
}

/// Expiry monotonicity: an object that has expired is still expired after any
/// further number of ticks; it never flaps back.
pub proof fn lemma_expired_stays_expired<T: TickDrawExpire>(obj: T, tick_len: u64, n: nat)
    requires
        obj.expired(),
    ensures
        ticked_n(obj, tick_len, n).expired(),
    decreases n,
{
    if n > 0 {
        lemma_expired_stays_expired(obj, tick_len, (n - 1) as nat);
        ticked_n(obj, tick_len, (n - 1) as nat).expiry_monotonic(tick_len);
        lemma_ticked_n_succ(obj, tick_len, (n - 1) as nat);
    }
}

/// Expiry removal: an expiry pass shrinks the collection by exactly the
/// number of objects that had expired, and every survivor had not.
pub proof fn lemma_expiry_removal<T: TickDrawExpire>(objects: Seq<T>)
    ensures
        survivors_of(objects).len() + objects.filter(|obj: T| obj.expired()).len()
            == objects.len(),
        forall|k: int| 0 <= k < survivors_of(objects).len() ==> !survivors_of(objects)[k].expired(),
    decreases objects.len(),
{
    broadcast use vstd::seq_lib::group_seq_properties;

    reveal(Seq::filter);
    let lives = |obj: T| !obj.expired();
    let dies = |obj: T| obj.expired();
    if objects.len() > 0 {
        let front = objects.drop_last();
        lemma_expiry_removal(front);
        front.lemma_filter_push(objects.last(), lives);
        front.lemma_filter_push(objects.last(), dies);
        assert(front.push(objects.last()) =~= objects);
    }
}

/// Isolation: ticking never lets one object's state influence another's. Two
/// objects with equal states, held at any positions of any two simulations
/// that tick with the same tick length, are still equal after any number of
/// tick passes, whatever other objects stand around them.
pub proof fn lemma_isolation<T: TickDrawExpire>(
    objects_a: Seq<T>,
    objects_b: Seq<T>,
    i: int,
    j: int,
    tick_len: u64,
    n: nat,
)
    requires
        0 <= i < objects_a.len(),
        0 <= j < objects_b.len(),
        objects_a[i] == objects_b[j],
    ensures
        all_ticked_n(objects_a, tick_len, n)[i] == all_ticked_n(objects_b, tick_len, n)[j],
        all_ticked_n(objects_a, tick_len, n)[i] == ticked_n(objects_a[i], tick_len, n),
{
}

} // verus!
