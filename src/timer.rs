//! The countdown of a session, in milliseconds.
use vstd::prelude::*;

verus! {

/// Milliseconds from `start` to `now`, none when `now` is not later.
pub open spec fn elapsed_between(start: int, now: int) -> int {
    if now >= start {
        now - start
    } else {
        0
    }
}

/// Milliseconds left of `duration` at `now`, counted from `start`, and zero
/// once it has run out.
pub open spec fn remaining_at(start: int, now: int, duration: int) -> int {
    let e = elapsed_between(start, now);
    if e >= duration {
        0
    } else {
        duration - e
    }
}

/// The part of `width` cells that stands for the time used up when
/// `remaining` of `duration` milliseconds are left, rounded down: none at the
/// start, all of them once nothing is left.
pub open spec fn progress(remaining: int, duration: int, width: int) -> int {
    if remaining == 0 || duration == 0 {
        width
    } else if remaining >= duration {
        0
    } else {
        width * (duration - remaining) / duration
    }
}

/// Milliseconds left of `duration_ms` at `now_ms`, from `start_ms`, saturating
/// at zero.
pub fn remaining(start_ms: u64, now_ms: u64, duration_ms: u64) -> (r: u64)
    ensures
        r == remaining_at(start_ms as int, now_ms as int, duration_ms as int),
{
    let elapsed = if now_ms >= start_ms {
        now_ms - start_ms
    } else {
        0
    };
    if elapsed >= duration_ms {
        0
    } else {
        duration_ms - elapsed
    }
}

/// Whether the countdown has run out.
pub fn timed_out(remaining_ms: u64) -> (r: bool)
    ensures
        r == (remaining_ms == 0),
{
    remaining_ms == 0
}

/// How many of `width` cells the progress bar fills.
pub fn progress_cells(remaining_ms: u64, duration_ms: u64, width: u16) -> (r: u16)
    ensures
        r == progress(remaining_ms as int, duration_ms as int, width as int),
{
    if remaining_ms == 0 || duration_ms == 0 {
        width
    } else if remaining_ms >= duration_ms {
        0
    } else {
        let used = (duration_ms - remaining_ms) as u128;
        let w = width as u128;
        let d = duration_ms as u128;
        proof {
            lemma_scaled_share(w as int, used as int, d as int);
        }
        ((w * used) / d) as u16
    }
}

/// `w * used / d` is at most `w` when `used <= d`, and the product stays
/// small.
proof fn lemma_scaled_share(w: int, used: int, d: int)
    requires
        0 <= w <= 0xffff,
        0 <= used <= d,
        0 < d <= 0xffff_ffff_ffff_ffff,
    ensures
        0 <= w * used <= 0xffff * 0xffff_ffff_ffff_ffff,
        w * used / d <= w,
{
    assert(0 <= w * used <= w * d) by (nonlinear_arith)
        requires
            0 <= w,
            0 <= used <= d,
    ;
    assert(w * d <= 0xffff * 0xffff_ffff_ffff_ffff) by (nonlinear_arith)
        requires
            0 <= w <= 0xffff,
            0 < d <= 0xffff_ffff_ffff_ffff,
    ;
    assert(w * used / d <= w) by (nonlinear_arith)
        requires
            w * used <= w * d,
            d > 0,
    ;
}

/// What the timer shows: whole seconds left and the filled part of the bar.
#[derive(Debug, Clone, Copy, PartialEq, Eq, Structural)]
pub struct TimerView {
    pub seconds_left: u64,
    pub bar_cells: u16,
}

/// The timer display for `remaining_ms` of `duration_ms` left on a screen
/// `width` cells wide.
pub fn timer_view(remaining_ms: u64, duration_ms: u64, width: u16) -> (r: TimerView)
    ensures
        r.seconds_left == remaining_ms / 1000,
        r.bar_cells == progress(remaining_ms as int, duration_ms as int, width as int),
{
    TimerView {
        seconds_left: remaining_ms / 1000,
        bar_cells: progress_cells(remaining_ms, duration_ms, width),
    }
}

/// The share of `width` used up grows as the time does.
proof fn lemma_progress_ordered(r1: int, r2: int, duration: int, width: int)
    requires
        0 <= r2 <= r1,
        r1 <= duration,
        width >= 0,
    ensures
        progress(r1, duration, width) <= progress(r2, duration, width),
        0 <= progress(r1, duration, width) <= width,
{
    if duration > 0 && r1 > 0 && r1 < duration {
        assert(width * (duration - r1) <= width * duration) by (nonlinear_arith)
            requires
                width >= 0,
                r1 > 0,
                duration > 0,
        ;
        assert(width * (duration - r1) / duration <= width) by (nonlinear_arith)
            requires
                width * (duration - r1) <= width * duration,
                duration > 0,
        ;
        assert(0 <= width * (duration - r1)) by (nonlinear_arith)
            requires
                width >= 0,
                duration > r1,
        ;
        assert(0 <= width * (duration - r1) / duration) by (nonlinear_arith)
            requires
                0 <= width * (duration - r1),
                duration > 0,
        ;
        if r2 > 0 {
            assert(width * (duration - r1) <= width * (duration - r2)) by (nonlinear_arith)
                requires
                    width >= 0,
                    r2 <= r1,
            ;
            assert(width * (duration - r1) / duration <= width * (duration - r2) / duration)
                by (nonlinear_arith)
                requires
                    width * (duration - r1) <= width * (duration - r2),
                    duration > 0,
            ;
        }
    }
}

/// The progress bar never shrinks as time goes on; it is empty at the start
/// of a countdown that has any duration and full once the duration has
/// passed.
pub proof fn law_progress_monotone(start: int, t1: int, t2: int, duration: int, width: int)
    requires
        t1 <= t2,
        duration >= 0,
        width >= 0,
    ensures
        progress(remaining_at(start, t1, duration), duration, width) <= progress(
            remaining_at(start, t2, duration),
            duration,
            width,
        ),
        duration > 0 ==> progress(remaining_at(start, start, duration), duration, width) == 0,
        t2 >= start + duration ==> progress(remaining_at(start, t2, duration), duration, width)
            == width,
{
    lemma_progress_ordered(
        remaining_at(start, t1, duration),
        remaining_at(start, t2, duration),
        duration,
        width,
    );
}

} // verus!
