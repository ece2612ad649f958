use vstd::prelude::*;

verus! {

/// GPIO of the mode button (wired to ground, internal pull-up).
pub const BUTTON_GPIO: u8 = 7;

/// Ticks a new level must stay unchanged before it counts.
pub const DEBOUNCE_TICKS: u8 = 5;

/// Debounce state of the mode button.
#[derive(Clone, Copy, Debug, PartialEq, Eq, Structural)]
pub struct Button {
    /// The debounced level: `true` while the button counts as held down.
    pub stable_down: bool,
    /// The level seen at the previous tick.
    pub last_raw_down: bool,
    /// Ticks left before the current level is accepted; 0 when idle.
    pub debounce_ticks: u8,
}

/// One tick of the debouncer: the next state, and whether a click (a
/// debounced press) happened.
///
/// A level change restarts the wait; once the level has been seen for
/// DEBOUNCE_TICKS more ticks it becomes the debounced level, and a press
/// counts as a click.
pub open spec fn debounce_step(b: Button, raw_down: bool) -> (Button, bool) {
    if raw_down != b.last_raw_down {
        (Button { stable_down: b.stable_down, last_raw_down: raw_down, debounce_ticks: DEBOUNCE_TICKS }, false)
    } else if b.debounce_ticks == 0 {
        (b, false)
    } else if b.debounce_ticks == 1 && raw_down != b.stable_down {
        (Button { stable_down: raw_down, last_raw_down: b.last_raw_down, debounce_ticks: 0 }, raw_down)
    } else {
        (Button { stable_down: b.stable_down, last_raw_down: b.last_raw_down, debounce_ticks: (b.debounce_ticks - 1) as u8 }, false)
    }
}

impl Button {
    /// A debouncer that takes the level read at start-up as settled.
    pub fn new(down: bool) -> (button: Self)
        ensures
            button == (Button { stable_down: down, last_raw_down: down, debounce_ticks: 0 }),
    {
        Button { stable_down: down, last_raw_down: down, debounce_ticks: 0 }
    }

    /// Feeds the level read this tick (`true` = pressed) and reports whether
    /// a debounced press completed.
    pub fn was_clicked(&mut self, raw_down: bool) -> (clicked: bool)
        ensures
            (*final(self), clicked) == debounce_step(*old(self), raw_down),
            clicked ==> raw_down && final(self).stable_down && !old(self).stable_down,
    {
        if raw_down != self.last_raw_down {
            self.last_raw_down = raw_down;
            self.debounce_ticks = DEBOUNCE_TICKS;
            return false;
        }

        if self.debounce_ticks == 0 {
            return false;
        }

        self.debounce_ticks -= 1;

        if self.debounce_ticks == 0 && raw_down != self.stable_down {
            self.stable_down = raw_down;
            return self.stable_down;
        }

        false
    }
}

/// The clicks reported while `levels` are fed in one per tick from `b`.
pub open spec fn clicks(b: Button, levels: Seq<bool>) -> Seq<bool>
    decreases levels.len(),
{
    if levels.len() == 0 {
        seq![]
    } else {
        let (next, clicked) = debounce_step(b, levels[0]);
        seq![clicked] + clicks(next, levels.drop_first())
    }
}

/// The state after `levels` are fed in one per tick from `b`.
pub open spec fn after(b: Button, levels: Seq<bool>) -> Button
    decreases levels.len(),
{
    if levels.len() == 0 {
        b
    } else {
        after(debounce_step(b, levels[0]).0, levels.drop_first())
    }
}

/// A press of a released button that is held steady is reported exactly
/// once, on the (DEBOUNCE_TICKS + 1)-th tick, and the button then counts as
/// held down.
pub proof fn lemma_held_press_clicks_once(b: Button)
    requires
        !b.stable_down,
        !b.last_raw_down,
    ensures
        clicks(b, seq![true, true, true, true, true, true]) == seq![false, false, false, false, false, true],
        after(b, seq![true, true, true, true, true, true]).stable_down,
{
    reveal_with_fuel(clicks, 7);
    reveal_with_fuel(after, 7);
    let s = seq![true, true, true, true, true, true];
    assert(s.drop_first() =~= seq![true, true, true, true, true]);
    assert(s.drop_first().drop_first() =~= seq![true, true, true, true]);
    assert(s.drop_first().drop_first().drop_first() =~= seq![true, true, true]);
    assert(s.drop_first().drop_first().drop_first().drop_first() =~= seq![true, true]);
    assert(s.drop_first().drop_first().drop_first().drop_first().drop_first() =~= seq![true]);
    assert(seq![true].drop_first() =~= Seq::<bool>::empty());
    assert(clicks(b, s) =~= seq![false, false, false, false, false, true]);
}

/// `n` ticks at the same level.
pub open spec fn steady(level: bool, n: nat) -> Seq<bool> {
    Seq::new(n, |i: int| level)
}

proof fn lemma_clicks_append(b: Button, first: Seq<bool>, second: Seq<bool>)
    ensures
        clicks(b, first + second) == clicks(b, first) + clicks(after(b, first), second),
        after(b, first + second) == after(after(b, first), second),
    decreases first.len(),
{
    if first.len() == 0 {
        assert(first + second =~= second);
        assert(clicks(b, first) =~= Seq::<bool>::empty());
        assert(clicks(b, first) + clicks(after(b, first), second) =~= clicks(b, second));
    } else {
        let next = debounce_step(b, first[0]).0;
        assert((first + second).drop_first() =~= first.drop_first() + second);
        assert((first + second)[0] == first[0]);
        lemma_clicks_append(next, first.drop_first(), second);
        assert(clicks(b, first + second) =~= clicks(b, first) + clicks(after(b, first), second));
    }
}

proof fn lemma_released_stays_quiet(b: Button, n: nat)
    requires
        !b.stable_down,
    ensures
        forall|i: int| 0 <= i < n ==> !#[trigger] clicks(b, steady(false, n))[i],
        clicks(b, steady(false, n)).len() == n,
        !after(b, steady(false, n)).stable_down,
    decreases n,
{
    if n > 0 {
        let next = debounce_step(b, false).0;
        assert(steady(false, n).drop_first() =~= steady(false, (n - 1) as nat));
        lemma_released_stays_quiet(next, (n - 1) as nat);
        let rest = clicks(next, steady(false, (n - 1) as nat));
        assert forall|i: int| 0 <= i < n implies !#[trigger] clicks(b, steady(false, n))[i] by {
            if i > 0 {
                assert(clicks(b, steady(false, n))[i] == rest[i - 1]);
            }
        }
    }
}

proof fn lemma_pressed_waiting(b: Button, n: nat)
    requires
        !b.stable_down,
        b.last_raw_down,
        n < b.debounce_ticks,
    ensures
        forall|i: int| 0 <= i < n ==> !#[trigger] clicks(b, steady(true, n))[i],
        clicks(b, steady(true, n)).len() == n,
        !after(b, steady(true, n)).stable_down,
    decreases n,
{
    if n > 0 {
        let next = debounce_step(b, true).0;
        assert(steady(true, n).drop_first() =~= steady(true, (n - 1) as nat));
        lemma_pressed_waiting(next, (n - 1) as nat);
        let rest = clicks(next, steady(true, (n - 1) as nat));
        assert forall|i: int| 0 <= i < n implies !#[trigger] clicks(b, steady(true, n))[i] by {
            if i > 0 {
                assert(clicks(b, steady(true, n))[i] == rest[i - 1]);
            }
        }
    }
}

/// A press shorter than the debounce time (at most DEBOUNCE_TICKS ticks) on a
/// released button is never reported, however long the release after it.
pub proof fn lemma_short_press_ignored(b: Button, pressed: nat, released: nat)
    requires
        !b.stable_down,
        !b.last_raw_down,
        pressed <= DEBOUNCE_TICKS,
    ensures
        forall|i: int| 0 <= i < pressed + released ==>
            !#[trigger] clicks(b, steady(true, pressed) + steady(false, released))[i],
{
    let press = steady(true, pressed);
    let release = steady(false, released);
    lemma_clicks_append(b, press, release);
    if pressed > 0 {
        let armed = debounce_step(b, true).0;
        assert(press.drop_first() =~= steady(true, (pressed - 1) as nat));
        lemma_pressed_waiting(armed, (pressed - 1) as nat);
        let rest = clicks(armed, steady(true, (pressed - 1) as nat));
        assert forall|i: int| 0 <= i < pressed implies !#[trigger] clicks(b, press)[i] by {
            if i > 0 {
                assert(clicks(b, press)[i] == rest[i - 1]);
            }
        }
    } else {
        assert(press =~= Seq::<bool>::empty());
    }
    lemma_released_stays_quiet(after(b, press), released);
    let all = clicks(b, press + release);
    assert forall|i: int| 0 <= i < pressed + released implies !#[trigger] all[i] by {
        if i >= pressed {
            assert(all[i] == clicks(after(b, press), release)[i - pressed]);
        } else {
            assert(all[i] == clicks(b, press)[i]);
        }
    }
}

proof fn lemma_settled_stays_quiet(b: Button, level: bool, n: nat)
    requires
        b.stable_down == level,
        b.last_raw_down == level,
    ensures
        forall|i: int| 0 <= i < n ==> !#[trigger] clicks(b, steady(level, n))[i],
        clicks(b, steady(level, n)).len() == n,
        after(b, steady(level, n)).stable_down == level,
    decreases n,
{
    if n > 0 {
        let next = debounce_step(b, level).0;
        assert(steady(level, n).drop_first() =~= steady(level, (n - 1) as nat));
        lemma_settled_stays_quiet(next, level, (n - 1) as nat);
        let rest = clicks(next, steady(level, (n - 1) as nat));
        assert forall|i: int| 0 <= i < n implies !#[trigger] clicks(b, steady(level, n))[i] by {
            if i > 0 {
                assert(clicks(b, steady(level, n))[i] == rest[i - 1]);
            }
        }
    }
}

/// Holding the button down longer gives no further click: a press of a
/// released button held for DEBOUNCE_TICKS + 1 + `extra` ticks clicks only on
/// the (DEBOUNCE_TICKS + 1)-th tick.
pub proof fn lemma_long_press_clicks_once(b: Button, extra: nat)
    requires
        !b.stable_down,
        !b.last_raw_down,
    ensures
        forall|i: int| 0 <= i < 6 + extra ==> #[trigger] clicks(b, steady(true, 6 + extra))[i] == (i == 5),
{
    let first = seq![true, true, true, true, true, true];
    assert(steady(true, 6 + extra) =~= first + steady(true, extra));
    lemma_held_press_clicks_once(b);
    lemma_clicks_append(b, first, steady(true, extra));
    let held = after(b, first);
    assert(held.last_raw_down) by {
        reveal_with_fuel(after, 7);
        assert(first.drop_first().drop_first().drop_first().drop_first().drop_first().drop_first()
            =~= Seq::<bool>::empty());
    }
    lemma_settled_stays_quiet(held, true, extra);
    let all = clicks(b, steady(true, 6 + extra));
    assert forall|i: int| 0 <= i < 6 + extra implies #[trigger] all[i] == (i == 5) by {
        if i >= 6 {
            assert(all[i] == clicks(held, steady(true, extra))[i - 6]);
        } else {
            assert(all[i] == clicks(b, first)[i]);
        }
    }
}

/// Releasing the button is never reported as a click.
pub proof fn lemma_release_never_clicks(b: Button)
    ensures
        !debounce_step(b, false).1,
{
}

} // verus!
