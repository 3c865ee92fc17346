//! What is highlighted in the test table and in the log.

use crate::app::{valid, App, AppView};
use vstd::prelude::*;

verus! {

/// The position of the selection, or `fallback` where nothing is selected.
pub open spec fn position(selected: Option<usize>, fallback: int) -> int {
    match selected {
        Some(i) => i as int,
        None => fallback,
    }
}

/// `x`, or the bound that it lies beyond.
pub open spec fn clamped(x: int, low: int, high: int) -> int {
    if x < low {
        low
    } else if x > high {
        high
    } else {
        x
    }
}

/// The state after the selection in the test table moved by `delta`; it comes
/// in again at the other end.
pub open spec fn table_scrolled(v: AppView, delta: int) -> AppView {
    if v.rows.len() == 0 {
        v
    } else {
        AppView {
            selected_test: Some(
                ((position(v.selected_test, 0) + delta) % (v.rows.len() as int)) as usize,
            ),
            ..v
        }
    }
}

/// The state after the selection in the log moved by `delta`; it stays at
/// either end.
pub open spec fn logs_scrolled(v: AppView, delta: int) -> AppView {
    if v.logs.len() == 0 {
        v
    } else {
        AppView {
            selected_log: Some(
                clamped(
                    position(v.selected_log, v.logs.len() - 1) + delta,
                    0,
                    v.logs.len() - 1,
                ) as usize,
            ),
            ..v
        }
    }
}

impl App {
    /// Moves the selection in the test table by `delta`.
    pub fn scroll_table(&mut self, delta: isize)
        requires
            old(self).wf(),
            old(self)@.rows.len() > 0 ==> isize::MIN <= position(old(self)@.selected_test, 0)
                + delta <= isize::MAX,
        ensures
            final(self)@ == table_scrolled(old(self)@, delta as int),
            final(self).wf(),
    {
        let n = self.test_stats.len();
        if n == 0 {
            return;
        }
        let current: usize = match self.selected_test {
            Some(i) => i,
            None => 0,
        };
        let moved: isize = current as isize + delta;
        let next: usize = match moved.checked_rem_euclid(n as isize) {
            Some(r) => r as usize,
            None => 0,
        };
        proof {
            assert(0 <= (moved as int) % (n as int) < n) by (nonlinear_arith)
                requires
                    n > 0,
            ;
        }
        self.selected_test = Some(next);
    }

    /// Moves the selection in the log by `delta`.
    pub fn scroll_logs(&mut self, delta: isize)
        requires
            old(self).wf(),
            old(self)@.logs.len() > 0 ==> isize::MIN <= position(
                old(self)@.selected_log,
                old(self)@.logs.len() - 1,
            ) + delta <= isize::MAX,
        ensures
            final(self)@ == logs_scrolled(old(self)@, delta as int),
            final(self).wf(),
    {
        let n = self.event_logs.len();
        if n == 0 {
            return;
        }
        let current: usize = match self.selected_log {
            Some(i) => i,
            None => n - 1,
        };
        let moved: isize = current as isize + delta;
        let last: isize = n as isize - 1;
        let next: isize = if moved < 0 {
            0
        } else if moved > last {
            last
        } else {
            moved
        };
        self.selected_log = Some(next as usize);
    }
}

/// Moving the selection in the test table and moving it back leaves the state
/// as it was.
pub proof fn law_table_scroll_is_undone(v: AppView, delta: int)
    requires
        valid(v),
    ensures
        table_scrolled(table_scrolled(v, delta), -delta) == v,
{
    if v.rows.len() > 0 {
        let n = v.rows.len() as int;
        let p = position(v.selected_test, 0);
        assert(((p + delta) % n + (-delta)) % n == p) by {
            vstd::arithmetic::div_mod::lemma_add_mod_noop(p + delta, -delta, n);
            vstd::arithmetic::div_mod::lemma_add_mod_noop((p + delta) % n, -delta, n);
            vstd::arithmetic::div_mod::lemma_mod_twice(p + delta, n);
            vstd::arithmetic::div_mod::lemma_small_mod(p as nat, n as nat);
        }
        assert(0 <= (p + delta) % n < n) by (nonlinear_arith)
            requires
                n > 0,
        ;
    }
}

/// Moving the selection in the test table twice is moving it by both distances
/// together.
pub proof fn law_table_scrolls_add_up(v: AppView, a: int, b: int)
    requires
        valid(v),
    ensures
        table_scrolled(table_scrolled(v, a), b) == table_scrolled(v, a + b),
{
    if v.rows.len() > 0 {
        let n = v.rows.len() as int;
        let p = position(v.selected_test, 0);
        assert(((p + a) % n + b) % n == (p + a + b) % n) by {
            vstd::arithmetic::div_mod::lemma_add_mod_noop(p + a, b, n);
            vstd::arithmetic::div_mod::lemma_add_mod_noop((p + a) % n, b, n);
            vstd::arithmetic::div_mod::lemma_mod_twice(p + a, n);
        }
        assert(0 <= (p + a) % n < n) by (nonlinear_arith)
            requires
                n > 0,
        ;
    }
}

/// Moving the selection in the test table by as many places as there are tests
/// leaves the state as it was.
pub proof fn law_table_scroll_goes_round(v: AppView)
    requires
        valid(v),
    ensures
        table_scrolled(v, v.rows.len() as int) == v,
{
    if v.rows.len() > 0 {
        let n = v.rows.len() as int;
        let p = position(v.selected_test, 0);
        vstd::arithmetic::div_mod::lemma_mod_add_multiples_vanish(p, n);
        vstd::arithmetic::div_mod::lemma_small_mod(p as nat, n as nat);
    }
}

/// The selection in the log stays in the log: moved far enough it is the first
/// line or the last.
pub proof fn law_log_scroll_stops_at_the_ends(v: AppView, delta: int)
    requires
        valid(v),
        v.logs.len() > 0,
    ensures
        delta <= -(v.logs.len() as int) ==> logs_scrolled(v, delta).selected_log == Some(0usize),
        delta >= v.logs.len() ==> logs_scrolled(v, delta).selected_log == Some(
            (v.logs.len() - 1) as usize,
        ),
        valid(logs_scrolled(v, delta)),
{
}

} // verus!
