//! Selection of the schedule slot that covers the current time: the entry
//! with the greatest wall-clock time not after now — the image whose slot
//! started most recently — wrapping to the final entry when no slot has
//! started yet today. A schedule may wrap across midnight, so its entries
//! need not be sorted; when several entries carry the same greatest time,
//! the last of them wins.

use crate::clock::{hm_minutes, local_now_hm, parse_hm, valid_hm};
use crate::schedule::FlowyError;
use vstd::prelude::*;

verus! {

/// The index selected among the first `n` entries: the last index holding
/// the greatest time at or before `now`, or -1 when every one of those
/// entries is after `now`.
pub open spec fn best_before(times: Seq<u32>, now: int, n: int) -> int
    decreases n,
{
    if n <= 0 {
        -1
    } else {
        let prev = best_before(times, now, n - 1);
        if times[n - 1] <= now && (prev == -1 || times[n - 1] >= times[prev]) {
            n - 1
        } else {
            prev
        }
    }
}

/// The slot covering `now`: the entry with the greatest time not after
/// `now`, the last such entry when several carry that time; when `now` lies
/// before every entry, the final entry, whose slot wraps around midnight.
pub open spec fn slot_index(times: Seq<u32>, now: int) -> int {
    if best_before(times, now, times.len() as int) == -1 {
        times.len() - 1
    } else {
        best_before(times, now, times.len() as int)
    }
}

/// What `best_before` selects among the first `n` entries: nothing exactly
/// when none of them is at or before `now`; otherwise an entry at or before
/// `now` that no other such entry exceeds, and that no later such entry even
/// reaches.
pub proof fn lemma_best_before_props(times: Seq<u32>, now: int, n: int)
    requires
        0 <= n <= times.len(),
    ensures
        -1 <= best_before(times, now, n) < n,
        best_before(times, now, n) == -1 ==> (forall|k: int|
            0 <= k < n ==> #[trigger] times[k] > now),
        best_before(times, now, n) != -1 ==> times[best_before(times, now, n)] <= now,
        forall|k: int|
            0 <= k < n && #[trigger] times[k] <= now ==> best_before(times, now, n) != -1
                && times[k] <= times[best_before(times, now, n)],
        forall|k: int|
            best_before(times, now, n) < k < n && #[trigger] times[k] <= now ==> times[k]
                < times[best_before(times, now, n)],
    decreases n,
{
    if n > 0 {
        lemma_best_before_props(times, now, n - 1);
    }
}

/// Two instants with no entry in the half-open span between them select the
/// same entry.
proof fn lemma_best_before_stable(times: Seq<u32>, now1: int, now2: int, n: int)
    requires
        0 <= n <= times.len(),
        now1 <= now2,
        forall|k: int| 0 <= k < times.len() ==> !(now1 < #[trigger] times[k] <= now2),
    ensures
        best_before(times, now1, n) == best_before(times, now2, n),
    decreases n,
{
    if n > 0 {
        lemma_best_before_stable(times, now1, now2, n - 1);
        assert(times[n - 1] <= now1 <==> times[n - 1] <= now2);
    }
}

/// Selecting the current slot is stable between boundary crossings: as long
/// as no entry's time falls in the half-open span between two instants, both
/// instants select the same slot.
pub proof fn lemma_slot_selection_stable(times: Seq<u32>, now1: int, now2: int)
    requires
        times.len() > 0,
        now1 <= now2,
        forall|k: int| 0 <= k < times.len() ==> !(now1 < #[trigger] times[k] <= now2),
    ensures
        slot_index(times, now1) == slot_index(times, now2),
{
    lemma_best_before_stable(times, now1, now2, times.len() as int);
}

/// The selected slot dominates `now` whenever some slot has started: its
/// time is not after `now`, no started entry exceeds it, and among entries
/// carrying that time it is the last. This holds of every schedule, sorted
/// or wrapped.
pub proof fn lemma_slot_index_dominates(times: Seq<u32>, now: int)
    requires
        times.len() > 0,
        exists|i: int| 0 <= i < times.len() && #[trigger] times[i] <= now,
    ensures
        times[slot_index(times, now)] <= now,
        forall|j: int|
            0 <= j < times.len() && #[trigger] times[j] <= now ==> times[j] <= times[slot_index(
                times,
                now,
            )],
        forall|j: int|
            slot_index(times, now) < j < times.len() && #[trigger] times[j] <= now ==> times[j]
                < times[slot_index(times, now)],
{
    lemma_best_before_props(times, now, times.len() as int);
    let w = choose|i: int| 0 <= i < times.len() && #[trigger] times[i] <= now;
    assert(times[w] <= now);
}

/// When `now` is earlier than every entry, selection wraps to the last slot.
pub proof fn lemma_slot_index_wraps(times: Seq<u32>, now: int)
    requires
        times.len() > 0,
        forall|k: int| 0 <= k < times.len() ==> #[trigger] times[k] > now,
    ensures
        slot_index(times, now) == times.len() - 1,
{
    lemma_best_before_props(times, now, times.len() as int);
    let b = best_before(times, now, times.len() as int);
    if b != -1 {
        assert(times[b] <= now);
    }
}

/// The selected slot is always a valid index.
pub proof fn lemma_slot_index_in_range(times: Seq<u32>, now: int)
    requires
        times.len() > 0,
    ensures
        0 <= slot_index(times, now) < times.len(),
{
    lemma_best_before_props(times, now, times.len() as int);
}

/// Selects the slot covering minute `now` of the day among entries given as
/// minutes of the day: the last entry holding the greatest time at or before
/// `now`, or the final entry when none has started yet.
pub fn current_slot_minutes(times: &Vec<u32>, now: u32) -> (idx: usize)
    requires
        times@.len() > 0,
    ensures
        idx == slot_index(times@, now as int),
        idx < times@.len(),
{
    let n = times.len();
    let mut found = false;
    let mut best: usize = 0;
    let mut i: usize = 0;
    while i < n
        invariant
            i <= n,
            n == times@.len(),
            found ==> best < i && best_before(times@, now as int, i as int) == best,
            !found ==> best_before(times@, now as int, i as int) == -1,
        decreases n - i,
    {
        if times[i] <= now {
            if !found {
                best = i;
                found = true;
            } else if times[i] >= times[best] {
                best = i;
            }
        }
        i = i + 1;
    }
    proof {
        lemma_slot_index_in_range(times@, now as int);
    }
    if found {
        best
    } else {
        n - 1
    }
}

/// The minutes of the day denoted by each wall-clock string.
pub open spec fn minutes_of(times: Seq<String>) -> Seq<u32> {
    times.map_values(|s: String| hm_minutes(s@) as u32)
}

/// Parses the schedule's `HH:MM` strings and selects the slot covering minute
/// `now` of the day. Fails exactly when some entry is not a wall-clock
/// string.
pub fn current_slot_of(wall_times: &Vec<String>, now: u32) -> (r: Result<usize, FlowyError>)
    requires
        wall_times@.len() > 0,
    ensures
        r is Ok <==> (forall|k: int|
            0 <= k < wall_times@.len() ==> valid_hm(#[trigger] wall_times@[k]@)),
        r matches Err(e) ==> e == FlowyError::InvalidTimeString,
        r matches Ok(idx) ==> idx == slot_index(minutes_of(wall_times@), now as int) && idx
            < wall_times@.len(),
{
    let mut parsed: Vec<u32> = Vec::new();
    proof {
        assert(parsed@ =~= minutes_of(wall_times@.take(0)));
    }
    let mut i: usize = 0;
    while i < wall_times.len()
        invariant
            i <= wall_times@.len(),
            parsed@ == minutes_of(wall_times@.take(i as int)),
            parsed@.len() == i,
            forall|k: int| 0 <= k < i ==> valid_hm(#[trigger] wall_times@[k]@),
        decreases wall_times@.len() - i,
    {
        match parse_hm(wall_times[i].as_str()) {
            Some(m) => {
                parsed.push(m);
                proof {
                    assert(wall_times@.take(i + 1) =~= wall_times@.take(i as int).push(
                        wall_times@[i as int],
                    ));
                    assert(parsed@ =~= minutes_of(wall_times@.take(i + 1)));
                }
            },
            None => {
                return Err(FlowyError::InvalidTimeString);
            },
        }
        i = i + 1;
    }
    proof {
        assert(wall_times@.take(wall_times@.len() as int) =~= wall_times@);
    }
    let idx = current_slot_minutes(&parsed, now);
    Ok(idx)
}

/// Parses the schedule's wall-clock strings and selects the slot covering the
/// current local time. The selected index is always in range, so it can index
/// the walls directly; which slot it is depends on the clock, so the contract
/// promises only that some minute of the day selected it.
pub fn get_current_wallpaper_idx(wall_times: &Vec<String>) -> (r: Result<usize, FlowyError>)
    requires
        wall_times@.len() > 0,
    ensures
        r is Ok <==> (forall|k: int|
            0 <= k < wall_times@.len() ==> valid_hm(#[trigger] wall_times@[k]@)),
        r matches Err(e) ==> e == FlowyError::InvalidTimeString,
        r matches Ok(idx) ==> idx < wall_times@.len() && exists|now: int|
            0 <= now < 1440 && idx == slot_index(minutes_of(wall_times@), now),
{
    let (h, m) = local_now_hm();
    let now = h * 60 + m;
    let r = current_slot_of(wall_times, now);
    proof {
        if r is Ok {
            let idx = r->Ok_0;
            assert(0 <= now < 1440 && idx == slot_index(minutes_of(wall_times@), now as int));
        }
    }
    r
}

} // verus!
