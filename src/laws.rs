//! Properties of the display state machine over several frames.
use vstd::prelude::*;
use crate::display::{
    accepts, after_key, after_tick, after_update, appended, model_wf, DisplayModel, DEBOUNCE_MS,
    MAX_BUFFER_SIZE,
};
use crate::fade::{elapsed_between, lemma_opacity_in_range, OPACITY_FULL};
use crate::keymap::is_delimiter;

verus! {

/// The state after the frames `events`, each a received key (if any) and the
/// frame's time, taken in order from `m`.
pub open spec fn run(m: DisplayModel, events: Seq<(Option<Seq<char>>, int)>) -> DisplayModel
    decreases events.len(),
{
    if events.len() == 0 {
        m
    } else {
        let pre = run(m, events.drop_last());
        after_update(pre, events.last().0, events.last().1)
    }
}

/// One frame keeps the state well formed.
pub proof fn lemma_update_keeps_wf(m: DisplayModel, key: Option<Seq<char>>, now: int)
    requires
        model_wf(m),
    ensures
        model_wf(after_update(m, key, now)),
{
    let n = match key {
        Some(k) => after_key(m, k, now),
        None => m,
    };
    lemma_opacity_in_range(elapsed_between(n.last_press, now));
    lemma_opacity_in_range(0);
}

/// Whatever keys arrive and whenever, the buffer never holds more than
/// `MAX_BUFFER_SIZE` symbols.
pub proof fn lemma_buffer_bounded(m: DisplayModel, events: Seq<(Option<Seq<char>>, int)>)
    requires
        model_wf(m),
    ensures
        model_wf(run(m, events)),
        run(m, events).buffer.len() <= MAX_BUFFER_SIZE,
    decreases events.len(),
{
    if events.len() > 0 {
        lemma_buffer_bounded(m, events.drop_last());
        lemma_update_keeps_wf(run(m, events.drop_last()), events.last().0, events.last().1);
    }
}

/// A delimiter key empties the buffer, whatever it held; a key that would
/// be the eighth symbol empties it too.
pub proof fn lemma_buffer_clears(buf: Seq<Seq<char>>, k: Seq<char>)
    ensures
        is_delimiter(k) ==> appended(buf, k).len() == 0,
        buf.len() == MAX_BUFFER_SIZE ==> appended(buf, k).len() == 0,
{
}

/// Debounce: after key `k` is accepted at `t0`, a repeat of `k` at `t1` is
/// accepted exactly when more than `DEBOUNCE_MS` have passed; a rejected
/// repeat leaves the last key and its time alone, so a further repeat at `t2`
/// more than `DEBOUNCE_MS` after `t0` is accepted.
pub proof fn lemma_debounce(m: DisplayModel, k: Seq<char>, t0: int, t1: int, t2: int)
    requires
        accepts(m, k, t0),
    ensures
        accepts(after_update(m, Some(k), t0), k, t1) <==> t1 - t0 > DEBOUNCE_MS,
        !accepts(after_update(m, Some(k), t0), k, t1) ==> {
            &&& after_update(after_update(m, Some(k), t0), Some(k), t1).last_key == Some(k)
            &&& after_update(after_update(m, Some(k), t0), Some(k), t1).last_press == t0
            &&& (t2 > t0 + DEBOUNCE_MS ==> accepts(
                after_update(after_update(m, Some(k), t0), Some(k), t1),
                k,
                t2,
            ))
        },
{
}

/// An accepted keystroke restarts the fade: full opacity, measured from now,
/// whatever the fade had reached before.
pub proof fn lemma_keystroke_resets_fade(m: DisplayModel, k: Seq<char>, now: int)
    requires
        accepts(m, k, now),
    ensures
        after_update(m, Some(k), now).opacity == OPACITY_FULL,
        after_update(m, Some(k), now).last_press == now,
        after_update(m, Some(k), now).last_key == Some(k),
{
}

/// Expiry: a tick that brings opacity to zero empties the buffer, and an
/// empty buffer stays empty through every frame without an accepted key.
pub proof fn lemma_expiry_clears(m: DisplayModel, key: Option<Seq<char>>, now: int)
    ensures
        after_tick(m, now).opacity == 0 ==> after_tick(m, now).buffer.len() == 0,
        m.buffer.len() == 0 && match key {
            Some(k) => !accepts(m, k, now),
            None => true,
        } ==> after_update(m, key, now).buffer.len() == 0,
{
}

/// Whether no frame of `events`, taken in order from `m`, accepts a key.
pub open spec fn none_accepted(m: DisplayModel, events: Seq<(Option<Seq<char>>, int)>) -> bool
    decreases events.len(),
{
    if events.len() == 0 {
        true
    } else {
        &&& none_accepted(m, events.drop_last())
        &&& match events.last().0 {
            Some(k) => !accepts(run(m, events.drop_last()), k, events.last().1),
            None => true,
        }
    }
}

/// An empty buffer stays empty through any frames that accept no key.
pub proof fn lemma_empty_until_accepted(m: DisplayModel, events: Seq<(Option<Seq<char>>, int)>)
    requires
        m.buffer.len() == 0,
        none_accepted(m, events),
    ensures
        run(m, events).buffer.len() == 0,
    decreases events.len(),
{
    if events.len() > 0 {
        lemma_empty_until_accepted(m, events.drop_last());
        lemma_expiry_clears(run(m, events.drop_last()), events.last().0, events.last().1);
    }
}

} // verus!
