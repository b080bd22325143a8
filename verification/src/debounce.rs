//! Debounce classifier for a push button sampled on a periodic tick.
//!
//! A single counter measures for how long the input has been held. A hold
//! that reaches the long threshold is reported once, while the button is
//! still down; a shorter hold that reached the short threshold is reported
//! when the button comes up; anything briefer decays without a report.

use vstd::prelude::*;

verus! {

/// A classified press of the button.
#[derive(Clone, Copy, Debug, PartialEq, Eq, Structural)]
pub enum Press {
    /// Held for at least the short threshold, released before the long one
    /// was passed.
    Short,
    /// Held beyond the long threshold.
    Long,
}

/// Counter after a tick that sees the level `pressed` at the counter `t`.
pub open spec fn next_count(t_short: int, t_long: int, t: int, pressed: bool) -> int {
    if pressed && t < t_long {
        t + 1
    } else if pressed && t == t_long {
        t + 1
    } else if !pressed && t > t_long {
        t_short / 2
    } else if !pressed && t_short <= t <= t_long {
        t_short / 2
    } else if !pressed && 0 < t < t_short {
        t - 1
    } else {
        t
    }
}

/// Press that a tick reports when it sees the level `pressed` at the
/// counter `t`.
pub open spec fn event(t_short: int, t_long: int, t: int, pressed: bool) -> Option<Press> {
    if pressed && t == t_long {
        Some(Press::Long)
    } else if !pressed && t_short <= t <= t_long {
        Some(Press::Short)
    } else {
        None
    }
}

/// Counter after ticks that see `levels` in turn, starting from `t`.
pub open spec fn count_after(t_short: int, t_long: int, t: int, levels: Seq<bool>) -> int
    decreases levels.len(),
{
    if levels.len() == 0 {
        t
    } else {
        next_count(
            t_short,
            t_long,
            count_after(t_short, t_long, t, levels.drop_last()),
            levels.last(),
        )
    }
}

/// Number of ticks that report `press` while they see `levels` in turn,
/// starting from the counter `t`.
pub open spec fn reports(
    t_short: int,
    t_long: int,
    t: int,
    levels: Seq<bool>,
    press: Press,
) -> nat
    decreases levels.len(),
{
    if levels.len() == 0 {
        0
    } else {
        let before = levels.drop_last();
        let at = count_after(t_short, t_long, t, before);
        let here: nat = if event(t_short, t_long, at, levels.last()) == Some(press) {
            1
        } else {
            0
        };
        reports(t_short, t_long, t, before, press) + here
    }
}

/// The level held down for `n` ticks.
pub open spec fn held(n: nat) -> Seq<bool> {
    Seq::new(n, |i: int| true)
}

/// The level seen up for `n` ticks.
pub open spec fn idle(n: nat) -> Seq<bool> {
    Seq::new(n, |i: int| false)
}

/// The level held down for `n` ticks and then seen up for one tick.
pub open spec fn held_then_released(n: nat) -> Seq<bool> {
    held(n).push(false)
}

/// Debounce classifier: the thresholds and the counter.
#[derive(Clone, Copy, Debug, PartialEq, Eq, Structural)]
pub struct Debounce {
    /// Ticks that a hold must last to count as a short press.
    pub t_short: u32,
    /// Ticks beyond which a hold counts as a long press.
    pub t_long: u32,
    /// Ticks that the current hold has lasted, at most `t_long + 1`.
    pub t: u32,
}

impl Debounce {
    /// The short threshold is below the long one, the counter can pass the
    /// long threshold by one without overflow, and it is not beyond that.
    pub open spec fn wf(&self) -> bool {
        &&& self.t_short < self.t_long
        &&& self.t_long < u32::MAX
        &&& self.t <= self.t_long + 1
    }

    /// A classifier at rest, or `None` where the thresholds are not in
    /// order or the long one leaves no room above it.
    pub fn new(t_short: u32, t_long: u32) -> (r: Option<Debounce>)
        ensures
            r.is_some() <==> t_short < t_long && t_long < u32::MAX,
            r matches Some(d) ==> d.t_short == t_short && d.t_long == t_long && d.t == 0
                && d.wf(),
    {
        if t_short < t_long && t_long < u32::MAX {
            Some(Debounce { t_short, t_long, t: 0 })
        } else {
            None
        }
    }

    /// Says whether `wf` holds.
    pub fn is_wf(&self) -> (ok: bool)
        ensures
            ok == self.wf(),
    {
        self.t_short < self.t_long && self.t_long < u32::MAX && self.t <= self.t_long + 1
    }

    /// Evaluates one tick with the level `pressed` and reports the press
    /// that it completes, if any.
    pub fn tick(&mut self, pressed: bool) -> (e: Option<Press>)
        requires
            old(self).wf(),
        ensures
            e == event(
                old(self).t_short as int,
                old(self).t_long as int,
                old(self).t as int,
                pressed,
            ),
            final(self).t == next_count(
                old(self).t_short as int,
                old(self).t_long as int,
                old(self).t as int,
                pressed,
            ),
            final(self).t_short == old(self).t_short,
            final(self).t_long == old(self).t_long,
            final(self).wf(),
    {
        if pressed {
            if self.t < self.t_long {
                self.t = self.t + 1;
                None
            } else if self.t == self.t_long {
                self.t = self.t + 1;
                Some(Press::Long)
            } else {
                None
            }
        } else if self.t > self.t_long {
            self.t = self.t_short / 2;
            None
        } else if self.t >= self.t_short {
            self.t = self.t_short / 2;
            Some(Press::Short)
        } else if self.t > 0 {
            self.t = self.t - 1;
            None
        } else {
            None
        }
    }
}

/// While the level is held down, the counter rises by one per tick until
/// it has passed the long threshold by one; the tick that finds it at the
/// long threshold reports a long press, and no tick reports a short one.
pub proof fn lemma_held(t_short: int, t_long: int, t: int, n: nat)
    requires
        0 <= t_short < t_long,
        0 <= t <= t_long + 1,
    ensures
        count_after(t_short, t_long, t, held(n)) == (if t + n <= t_long + 1 {
            t + n
        } else {
            t_long + 1
        }),
        reports(t_short, t_long, t, held(n), Press::Long) == (if t <= t_long && t + n > t_long {
            1nat
        } else {
            0nat
        }),
        reports(t_short, t_long, t, held(n), Press::Short) == 0,
    decreases n,
{
    if n > 0 {
        lemma_held(t_short, t_long, t, (n - 1) as nat);
        assert(held(n).drop_last() =~= held((n - 1) as nat));
        assert(held(n).last());
    }
}

/// A hold that lasts beyond the long threshold, from rest to release,
/// reports exactly one long press and no short press.
pub proof fn law_long_press(t_short: int, t_long: int, n: nat)
    requires
        0 <= t_short < t_long,
        n > t_long,
    ensures
        reports(t_short, t_long, 0, held_then_released(n), Press::Long) == 1,
        reports(t_short, t_long, 0, held_then_released(n), Press::Short) == 0,
{
    lemma_held(t_short, t_long, 0, n);
    assert(held_then_released(n).drop_last() =~= held(n));
    assert(!held_then_released(n).last());
}

/// A hold that lasts for at least the short threshold and no longer than
/// the long one, from rest to release, reports exactly one short press and
/// no long press.
pub proof fn law_short_press(t_short: int, t_long: int, n: nat)
    requires
        0 <= t_short < t_long,
        t_short <= n <= t_long,
    ensures
        reports(t_short, t_long, 0, held_then_released(n), Press::Short) == 1,
        reports(t_short, t_long, 0, held_then_released(n), Press::Long) == 0,
{
    lemma_held(t_short, t_long, 0, n);
    assert(held_then_released(n).drop_last() =~= held(n));
    assert(!held_then_released(n).last());
}

/// A hold that ends before the short threshold, from rest to release,
/// reports nothing.
pub proof fn law_brief_press(t_short: int, t_long: int, n: nat)
    requires
        0 <= t_short < t_long,
        n < t_short,
    ensures
        reports(t_short, t_long, 0, held_then_released(n), Press::Short) == 0,
        reports(t_short, t_long, 0, held_then_released(n), Press::Long) == 0,
{
    lemma_held(t_short, t_long, 0, n);
    assert(held_then_released(n).drop_last() =~= held(n));
    assert(!held_then_released(n).last());
}

/// Ticks after ticks: the counter goes on from where the first run left
/// it, and the reports of both runs add up.
pub proof fn lemma_concat(
    t_short: int,
    t_long: int,
    t: int,
    first: Seq<bool>,
    second: Seq<bool>,
    press: Press,
)
    ensures
        count_after(t_short, t_long, t, first + second) == count_after(
            t_short,
            t_long,
            count_after(t_short, t_long, t, first),
            second,
        ),
        reports(t_short, t_long, t, first + second, press) == reports(
            t_short,
            t_long,
            t,
            first,
            press,
        ) + reports(t_short, t_long, count_after(t_short, t_long, t, first), second, press),
    decreases second.len(),
{
    if second.len() == 0 {
        assert(first + second =~= first);
    } else {
        lemma_concat(t_short, t_long, t, first, second.drop_last(), press);
        assert((first + second).drop_last() =~= first + second.drop_last());
        assert((first + second).last() == second.last());
    }
}

/// While the level is up and the counter is below the short threshold,
/// the counter falls by one per tick until it is zero, and nothing is
/// reported.
pub proof fn lemma_idle(t_short: int, t_long: int, t: int, n: nat, press: Press)
    requires
        0 < t_short < t_long,
        0 <= t < t_short,
    ensures
        count_after(t_short, t_long, t, idle(n)) == (if t >= n {
            t - n
        } else {
            0
        }),
        reports(t_short, t_long, t, idle(n), press) == 0,
    decreases n,
{
    if n > 0 {
        lemma_idle(t_short, t_long, t, (n - 1) as nat, press);
        assert(idle(n).drop_last() =~= idle((n - 1) as nat));
        assert(!idle(n).last());
    }
}

/// A press from rest, held for `n` ticks and followed by any number of
/// ticks with the level up, is classified once and for all: it reports
/// one long press if it lasted beyond the long threshold, one short press
/// if it lasted for at least the short threshold and no longer than the
/// long one, and nothing if it was briefer; it never reports both.
pub proof fn law_press_classified(t_short: int, t_long: int, n: nat, m: nat)
    requires
        0 < t_short < t_long,
        m >= 1,
    ensures
        reports(t_short, t_long, 0, held(n) + idle(m), Press::Long) == (if n > t_long {
            1nat
        } else {
            0nat
        }),
        reports(t_short, t_long, 0, held(n) + idle(m), Press::Short) == (if t_short <= n
            <= t_long {
            1nat
        } else {
            0nat
        }),
{
    let up = (m - 1) as nat;
    let first = held_then_released(n);
    assert(held(n) + idle(m) =~= first + idle(up));
    lemma_held(t_short, t_long, 0, n);
    assert(first.drop_last() =~= held(n));
    assert(!first.last());
    let t = count_after(t_short, t_long, 0, first);
    assert(0 <= t < t_short);
    lemma_concat(t_short, t_long, 0, first, idle(up), Press::Long);
    lemma_concat(t_short, t_long, 0, first, idle(up), Press::Short);
    lemma_idle(t_short, t_long, t, up, Press::Long);
    lemma_idle(t_short, t_long, t, up, Press::Short);
}

/// After a long press was reported, holding on and releasing reports
/// nothing more: the counter stays above the long threshold while the
/// level is down and falls below the short threshold at the release.
pub proof fn law_long_press_consumed(t_short: int, t_long: int, n: nat)
    requires
        0 <= t_short < t_long,
    ensures
        reports(t_short, t_long, t_long + 1, held_then_released(n), Press::Long) == 0,
        reports(t_short, t_long, t_long + 1, held_then_released(n), Press::Short) == 0,
        count_after(t_short, t_long, t_long + 1, held_then_released(n)) == t_short / 2,
{
    lemma_held(t_short, t_long, t_long + 1, n);
    assert(held_then_released(n).drop_last() =~= held(n));
    assert(!held_then_released(n).last());
}

} // verus!
