//! What holds of a bar over any run of calls.

use vstd::prelude::*;
use crate::render::{bar, filled_cells, partial_step};
use crate::screen::{Reading, ScreenView};
use crate::state::BarView;

verus! {

/// The state after the calls `events`, each a time and a number of steps,
/// have advanced `bar` one after the other.
pub open spec fn run(bar: BarView, events: Seq<(u64, u64)>) -> BarView
    decreases events.len(),
{
    if events.len() == 0 {
        bar
    } else {
        run(bar, events.drop_last()).advanced(events.last().0, events.last().1)
    }
}

/// The steps that `events` bring in, all together.
pub open spec fn steps(events: Seq<(u64, u64)>) -> nat
    decreases events.len(),
{
    if events.len() == 0 {
        0
    } else {
        steps(events.drop_last()) + events.last().1 as nat
    }
}

/// The number of calls among `events` that redraw the bar.
pub open spec fn redraw_count(bar: BarView, events: Seq<(u64, u64)>) -> nat
    decreases events.len(),
{
    if events.len() == 0 {
        0
    } else {
        let before = run(bar, events.drop_last());
        redraw_count(bar, events.drop_last()) + (if before.redraws(
            events.last().0,
            events.last().1,
        ) {
            1nat
        } else {
            0nat
        })
    }
}

/// The counts of a bar that started fresh with the bound `total`, after
/// `sum` steps have come in: below the bound all of them are held, committed
/// or buffered; from the bound on the bar shows the bound and buffers nothing.
pub open spec fn tracks(bar: BarView, total: u64, sum: nat) -> bool {
    &&& bar.total == Some(total)
    &&& sum < total ==> bar.n + bar.cached == sum
    &&& sum >= total ==> bar.n == total && bar.cached == 0
}

proof fn lemma_run_tracks(bar: BarView, total: u64, events: Seq<(u64, u64)>)
    requires
        bar.n == 0,
        bar.cached == 0,
        bar.total == Some(total),
    ensures
        tracks(run(bar, events), total, steps(events)),
    decreases events.len(),
{
    if events.len() > 0 {
        lemma_run_tracks(bar, total, events.drop_last());
    }
}

/// The bound is reached and never exceeded. Take a bar with a bound that
/// has nothing done and nothing buffered, and any calls of `advance`. After
/// each of them the committed progress is at most the bound. Once the steps
/// add up to the bound, and so when they add up to it exactly, the committed
/// progress is the bound. It gets there in one step: the call that reaches
/// the bound commits everything at once and redraws, whatever the interval.
pub proof fn law_bound_is_reached_and_never_exceeded(
    bar: BarView,
    total: u64,
    events: Seq<(u64, u64)>,
)
    requires
        bar.n == 0,
        bar.cached == 0,
        bar.total == Some(total),
    ensures
        forall|k: int| 0 <= k <= events.len() ==> (#[trigger] run(bar, events.take(k))).n <= total,
        forall|k: int|
            0 <= k <= events.len() && steps(events.take(k)) >= total ==> (#[trigger] run(
                bar,
                events.take(k),
            )).n == total,
        steps(events) >= total ==> run(bar, events).n == total,
        forall|k: int|
            0 <= k < events.len() && run(bar, events.take(k)).n < total && (#[trigger] run(
                bar,
                events.take(k + 1),
            )).n == total ==> run(bar, events.take(k)).forced(events[k].1) && run(
                bar,
                events.take(k),
            ).redraws(events[k].0, events[k].1),
{
    assert forall|k: int| 0 <= k <= events.len() implies tracks(
        #[trigger] run(bar, events.take(k)),
        total,
        steps(events.take(k)),
    ) by {
        lemma_run_tracks(bar, total, events.take(k));
    }
    assert(events.take(events.len() as int) == events);
    assert forall|k: int|
        0 <= k < events.len() && run(bar, events.take(k)).n < total && (#[trigger] run(
            bar,
            events.take(k + 1),
        )).n == total implies run(bar, events.take(k)).forced(events[k].1) && run(
        bar,
        events.take(k),
    ).redraws(events[k].0, events[k].1) by {
        assert(events.take(k + 1).drop_last() == events.take(k));
        assert(events.take(k + 1).last() == events[k]);
        assert(tracks(run(bar, events.take(k)), total, steps(events.take(k))));
    }
}

/// Committed progress never goes back while the bound holds: a call of
/// `advance` on a bar that is within its bound leaves the committed progress
/// where it was or moves it forward, and within the bound.
pub proof fn law_progress_is_monotonic(bar: BarView, now: u64, delta: u64)
    requires
        bar.fits(delta),
        bar.total matches Some(t) ==> bar.n <= t,
    ensures
        bar.advanced(now, delta).n >= bar.n,
        bar.total matches Some(t) ==> bar.advanced(now, delta).n <= t,
{
}

proof fn lemma_throttled(bar: BarView, events: Seq<(u64, u64)>, span: nat)
    requires
        bar.interval > 0,
        bar.total matches Some(t) ==> bar.n + bar.cached + steps(events) < t,
        forall|i: int| 0 <= i < events.len() ==> (#[trigger] events[i]).0 <= bar.last + span,
    ensures
        redraw_count(bar, events) * bar.interval + bar.last <= run(bar, events).last,
        run(bar, events).last <= bar.last + span,
        run(bar, events).interval == bar.interval,
        run(bar, events).total == bar.total,
        bar.total matches Some(t) ==> run(bar, events).n + run(bar, events).cached == bar.n
            + bar.cached + steps(events),
    decreases events.len(),
{
    if events.len() > 0 {
        let front = events.drop_last();
        assert forall|i: int| 0 <= i < front.len() implies (#[trigger] front[i]).0 <= bar.last
            + span by {
            assert(front[i] == events[i]);
        }
        lemma_throttled(bar, front, span);
        let before = run(bar, front);
        let c = redraw_count(bar, front);
        assert(events.last() == events[events.len() - 1]);
        assert(steps(events) == steps(front) + events.last().1);
        assert(!before.forced(events.last().1));
        if before.due(events.last().0) {
            assert(redraw_count(bar, events) == c + 1);
            assert((c + 1) * bar.interval == c * bar.interval + bar.interval) by (nonlinear_arith);
            assert(run(bar, events).last == events.last().0);
        } else {
            assert(redraw_count(bar, events) == c);
            assert(run(bar, events).last == before.last);
        }
    } else {
        assert(redraw_count(bar, events) * bar.interval == 0) by (nonlinear_arith)
            requires
                redraw_count(bar, events) == 0,
        ;
    }
}

/// Redraws are throttled. Take a bar that does not reach a bound during a
/// burst of calls of `advance`, all of them made no later than `span` after
/// progress was last committed. However many calls there are, the redraws
/// are at least one interval apart: their number times the interval is at
/// most `span`.
pub proof fn law_redraws_are_throttled(bar: BarView, events: Seq<(u64, u64)>, span: nat)
    requires
        bar.total matches Some(t) ==> bar.n + bar.cached + steps(events) < t,
        forall|i: int| 0 <= i < events.len() ==> (#[trigger] events[i]).0 <= bar.last + span,
    ensures
        redraw_count(bar, events) * bar.interval <= span,
{
    if bar.interval > 0 {
        lemma_throttled(bar, events, span);
    } else {
        assert(redraw_count(bar, events) * 0 == 0) by (nonlinear_arith);
    }
}

/// The calls come in the order of their times, the first no earlier than
/// `start`, and no two neighbours, nor `start` and the first, are more than
/// `gap` apart.
pub open spec fn paced(start: u64, events: Seq<(u64, u64)>, gap: nat) -> bool {
    &&& events.len() > 0 ==> start <= events[0].0 <= start + gap
    &&& forall|i: int|
        0 < i < events.len() ==> events[i - 1].0 <= (#[trigger] events[i]).0 <= events[i - 1].0
            + gap
}

proof fn lemma_keeps_pace(bar: BarView, events: Seq<(u64, u64)>, gap: nat)
    requires
        bar.interval > 0,
        events.len() > 0,
        bar.total matches Some(t) ==> bar.n + bar.cached + steps(events) < t,
        paced(bar.last, events, gap),
    ensures
        run(bar, events).last <= events.last().0 < run(bar, events).last + bar.interval,
        run(bar, events).last <= bar.last + redraw_count(bar, events) * (bar.interval + gap),
        run(bar, events).interval == bar.interval,
        run(bar, events).total == bar.total,
        bar.total matches Some(t) ==> run(bar, events).n + run(bar, events).cached == bar.n
            + bar.cached + steps(events),
    decreases events.len(),
{
    let front = events.drop_last();
    let now = events.last().0;
    assert(events.last() == events[events.len() - 1]);
    if front.len() > 0 {
        assert(front[0] == events[0]);
        assert forall|i: int| 0 < i < front.len() implies front[i - 1].0 <= (#[trigger] front[i]).0
            <= front[i - 1].0 + gap by {
            assert(front[i] == events[i]);
            assert(front[i - 1] == events[i - 1]);
        }
        lemma_keeps_pace(bar, front, gap);
        assert(front.last() == events[events.len() - 2]);
        let before = run(bar, front);
        let c = redraw_count(bar, front);
        assert(!before.forced(events.last().1));
        if before.due(now) {
            assert((c + 1) * (bar.interval + gap) == c * (bar.interval + gap) + bar.interval + gap)
                by (nonlinear_arith);
        }
    } else {
        assert(run(bar, front) == bar);
        assert(redraw_count(bar, front) == 0);
        assert(steps(front) == 0);
        assert(!bar.forced(events.last().1));
        if bar.due(now) {
            assert(1 * (bar.interval + gap) == bar.interval + gap) by (nonlinear_arith);
        } else {
            assert(0 * (bar.interval + gap) == 0) by (nonlinear_arith);
        }
    }
}

/// Redraws keep pace with the calls. Take a bar that does not reach a bound
/// during a burst of calls of `advance` that come in the order of their
/// times and at most `gap` apart. Then a redraw follows the one before after
/// less than the interval and one gap, so the time from the last commit
/// before the burst to its last call is less than one such stretch for each
/// redraw, and one interval more. With `law_redraws_are_throttled`: over a
/// burst that lasts `T`, with calls much closer to each other than the
/// interval `I`, the number of redraws is between `T / I - 1` and `T / I`
/// as `gap` goes to 0.
pub proof fn law_redraws_keep_pace(bar: BarView, events: Seq<(u64, u64)>, gap: nat)
    requires
        bar.interval > 0,
        events.len() > 0,
        bar.total matches Some(t) ==> bar.n + bar.cached + steps(events) < t,
        paced(bar.last, events, gap),
    ensures
        events.last().0 - bar.last < redraw_count(bar, events) * (bar.interval + gap)
            + bar.interval,
{
    lemma_keeps_pace(bar, events, gap);
}

/// Closing is idempotent. Once a call of `close` has closed the bar, the
/// bar has no row, and another call of `close`, whatever the terminal and
/// the clock report by then, changes neither the bar nor the screen and
/// writes nothing. Two calls under the same reading come to the same as one.
pub proof fn law_close_is_idempotent(
    bar: BarView,
    screen: ScreenView,
    first: Reading,
    second: Reading,
)
    ensures
        bar.drawable(screen, first) ==> !bar.closed(screen, first).1.rows.dom().contains(bar.id),
        bar.drawable(screen, first) ==> bar.closed(screen, first).0.closed(
            bar.closed(screen, first).1,
            second,
        ) == bar.closed(screen, first),
        bar.closed(screen, first).0.closed(bar.closed(screen, first).1, first) == bar.closed(
            screen,
            first,
        ),
{
}

/// A bar at nothing is all background.
pub proof fn law_fill_at_zero(limit: nat, den: nat, background: char, pattern: Seq<char>)
    requires
        den > 0,
        pattern.len() > 0,
    ensures
        bar(limit, 0, den, background, pattern) == Seq::new(limit, |i: int| background),
{
    assert(limit * 0 == 0) by (nonlinear_arith);
    assert(0nat * pattern.len() == 0) by (nonlinear_arith);
    assert(filled_cells(limit, 0, den) == 0);
    assert(partial_step(limit, 0, den, pattern.len()) == 0);
    assert(bar(limit, 0, den, background, pattern) =~= Seq::new(limit, |i: int| background));
}

/// A bar at everything is all of the last fill glyph, with no background.
pub proof fn law_fill_at_one(limit: nat, den: nat, background: char, pattern: Seq<char>)
    requires
        den > 0,
        pattern.len() > 0,
    ensures
        bar(limit, den, den, background, pattern) == Seq::new(limit, |i: int| pattern.last()),
{
    vstd::arithmetic::div_mod::lemma_div_multiples_vanish(limit as int, den as int);
    assert(limit * den == den * limit) by (nonlinear_arith);
    assert(filled_cells(limit, den, den) == limit);
    assert(bar(limit, den, den, background, pattern) =~= Seq::new(
        limit,
        |i: int| pattern.last(),
    ));
}

/// The full cells and the step in the cell after them are quotient and
/// remainder of the fill counted in steps: with `m` fill glyphs, the bar of
/// `limit` cells at `num / den` holds `limit * num * m / den` steps in whole.
pub proof fn law_fill_counts_steps(limit: nat, num: nat, den: nat, m: nat)
    requires
        den > 0,
        m > 0,
    ensures
        filled_cells(limit, num, den) == (limit * num * m / den) / m,
        partial_step(limit, num, den, m) == (limit * num * m / den) % m,
        partial_step(limit, num, den, m) < m,
{
    let x = limit * num;
    let a = x / den;
    let b = x % den;
    vstd::arithmetic::div_mod::lemma_fundamental_div_mod(x as int, den as int);
    assert(x == den * a + b);
    assert(x * m == (a * m) * den + b * m) by (nonlinear_arith)
        requires
            x == den * a + b,
    ;
    // (a * m * den + b * m) / den == a * m + (b * m) / den
    vstd::arithmetic::div_mod::lemma_div_multiples_vanish_fancy(
        (a * m) as int,
        0,
        den as int,
    );
    let s = (b * m) / den;
    let r = (b * m) % den;
    vstd::arithmetic::div_mod::lemma_fundamental_div_mod((b * m) as int, den as int);
    assert(b * m == den * s + r);
    assert(0 <= r < den);
    assert(x * m == den * (a * m + s) + r) by (nonlinear_arith)
        requires
            x * m == (a * m) * den + b * m,
            b * m == den * s + r,
    ;
    vstd::arithmetic::div_mod::lemma_fundamental_div_mod_converse(
        (x * m) as int,
        den as int,
        (a * m + s) as int,
        r as int,
    );
    assert(x * m / den == a * m + s);
    assert(s < m) by {
        assert(b * m < den * m) by (nonlinear_arith)
            requires
                b < den,
                m > 0,
        ;
        if s >= m {
            assert(den * s >= den * m) by (nonlinear_arith)
                requires
                    s >= m,
                    den > 0,
            ;
        }
    }
    vstd::arithmetic::div_mod::lemma_fundamental_div_mod_converse(
        (a * m + s) as int,
        m as int,
        a as int,
        s as int,
    );
    assert(a * m == m * a) by (nonlinear_arith);
}

} // verus!
