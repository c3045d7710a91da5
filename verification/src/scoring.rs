//! Scoring: a stopwatch of survival time, a counter of platforms passed,
//! and the scoreboard text derived from them.
//!
//! The counter counts chain advances, not frames: it increments exactly
//! once per distinct previous-ground value observed in the chain state,
//! de-duplicated through a remembered last-seen id.

use vstd::prelude::*;

use crate::resources::{GroundsResource, ScoresResource};

verus! {

/// The stopwatch after a frame: unchanged while unstarted, otherwise
/// advanced by the frame's elapsed time (pinned at the maximum on overflow).
pub open spec fn spec_update_stopwatch(scores: ScoresResource, delta_ms: u64) -> ScoresResource {
    match scores.stopwatch {
        None => scores,
        Some(t) => ScoresResource {
            stopwatch: Some(
                if t + delta_ms <= u64::MAX {
                    (t + delta_ms) as u64
                } else {
                    u64::MAX
                },
            ),
            ..scores
        },
    }
}

/// The score state after a frame of the passed-platform counter: it
/// increments exactly when the chain has a previous ground that differs
/// from the last counted one (pinned at the maximum on overflow), and the
/// last counted id follows along.
pub open spec fn spec_update_grounds_passed(
    res: GroundsResource,
    scores: ScoresResource,
    last_counted: Option<u64>,
) -> (ScoresResource, Option<u64>) {
    match res.previous_ground {
        Some(p) => if last_counted == Some(p) {
            (scores, last_counted)
        } else {
            (
                ScoresResource {
                    grounds_passed: if scores.grounds_passed < u64::MAX {
                        (scores.grounds_passed + 1) as u64
                    } else {
                        u64::MAX
                    },
                    ..scores
                },
                Some(p),
            )
        },
        None => (scores, last_counted),
    }
}

/// Starts a run's scoring: the stopwatch begins at zero and the counter
/// resets. Runs on entering play.
pub fn setup_scoring(scores: &mut ScoresResource)
    ensures
        *final(scores) == (ScoresResource { stopwatch: Some(0u64), grounds_passed: 0u64 }),
{
    scores.stopwatch = Some(0);
    scores.grounds_passed = 0;
}

/// Advances the stopwatch by the frame's elapsed milliseconds.
pub fn update_stopwatch(scores: &mut ScoresResource, delta_ms: u64)
    ensures
        *final(scores) == spec_update_stopwatch(*old(scores), delta_ms),
{
    match scores.stopwatch {
        Some(t) => {
            if t <= u64::MAX - delta_ms {
                scores.stopwatch = Some(t + delta_ms);
            } else {
                scores.stopwatch = Some(u64::MAX);
            }
        },
        None => {},
    }
}

/// Counts a passed platform when the chain's previous ground changed since
/// the last count. Repeated frames with the same previous ground never
/// double-count.
pub fn update_grounds_passed(
    res: &GroundsResource,
    scores: &mut ScoresResource,
    last_counted: &mut Option<u64>,
)
    ensures
        *final(scores) == spec_update_grounds_passed(
            *res,
            *old(scores),
            *old(last_counted),
        ).0,
        *final(last_counted) == spec_update_grounds_passed(
            *res,
            *old(scores),
            *old(last_counted),
        ).1,
{
    let p = match res.previous_ground {
        Some(p) => p,
        None => {
            return ;
        },
    };
    let already = match *last_counted {
        Some(c) => c == p,
        None => false,
    };
    if !already {
        if scores.grounds_passed < u64::MAX {
            scores.grounds_passed = scores.grounds_passed + 1;
        }
        *last_counted = Some(p);
    }
}

/// The decimal digit characters of a number, most significant first.
pub open spec fn spec_decimal(n: nat) -> Seq<char>
    decreases n,
{
    if n < 10 {
        seq![spec_digit_char(n)]
    } else {
        spec_decimal(n / 10) + seq![spec_digit_char(n % 10)]
    }
}

/// The character of one decimal digit.
pub open spec fn spec_digit_char(d: nat) -> char {
    if d == 0 {
        '0'
    } else if d == 1 {
        '1'
    } else if d == 2 {
        '2'
    } else if d == 3 {
        '3'
    } else if d == 4 {
        '4'
    } else if d == 5 {
        '5'
    } else if d == 6 {
        '6'
    } else if d == 7 {
        '7'
    } else if d == 8 {
        '8'
    } else {
        '9'
    }
}

/// A number padded to at least two digits, as the scoreboard clock shows
/// minutes and seconds.
pub open spec fn spec_two_digits(n: nat) -> Seq<char> {
    if n < 10 {
        seq!['0'] + spec_decimal(n)
    } else {
        spec_decimal(n)
    }
}

/// One decimal digit as a string slice.
fn digit_str(d: u64) -> (r: &'static str)
    requires
        d < 10,
    ensures
        r@ == seq![spec_digit_char(d as nat)],
{
    let r = if d == 0 {
        "0"
    } else if d == 1 {
        "1"
    } else if d == 2 {
        "2"
    } else if d == 3 {
        "3"
    } else if d == 4 {
        "4"
    } else if d == 5 {
        "5"
    } else if d == 6 {
        "6"
    } else if d == 7 {
        "7"
    } else if d == 8 {
        "8"
    } else {
        "9"
    };
    proof {
        reveal_strlit("0");
        reveal_strlit("1");
        reveal_strlit("2");
        reveal_strlit("3");
        reveal_strlit("4");
        reveal_strlit("5");
        reveal_strlit("6");
        reveal_strlit("7");
        reveal_strlit("8");
        reveal_strlit("9");
        assert(r@ =~= seq![spec_digit_char(d as nat)]);
    }
    r
}

/// A number rendered in decimal.
pub fn format_u64(n: u64) -> (r: String)
    ensures
        r@ == spec_decimal(n as nat),
    decreases n,
{
    if n < 10 {
        let mut s = String::new();
        s.append(digit_str(n));
        proof {
            assert(s@ =~= spec_decimal(n as nat));
        }
        s
    } else {
        let mut s = format_u64(n / 10);
        s.append(digit_str(n % 10));
        proof {
            assert(s@ =~= spec_decimal(n as nat));
        }
        s
    }
}

/// A number rendered in decimal, padded to at least two digits.
pub fn format_two_digits(n: u64) -> (r: String)
    ensures
        r@ == spec_two_digits(n as nat),
{
    if n < 10 {
        let mut s = String::new();
        s.append("0");
        s.append(digit_str(n));
        proof {
            reveal_strlit("0");
            assert(s@ =~= spec_two_digits(n as nat));
        }
        s
    } else {
        format_u64(n)
    }
}

/// The scoreboard line for a score record: the survival time as MM:SS and
/// the platforms passed. Minutes and seconds are whole (the clock shows
/// full elapsed seconds); minutes grow past two digits if a run lasts that
/// long. `None` while the stopwatch has not started.
pub open spec fn spec_score_line(scores: ScoresResource) -> Option<Seq<char>> {
    match scores.stopwatch {
        None => None,
        Some(ms) => Some(
            "Time: "@ + spec_two_digits((ms as nat / 1000) / 60) + ":"@ + spec_two_digits(
                (ms as nat / 1000) % 60,
            ) + "  Panels: "@ + spec_decimal(scores.grounds_passed as nat),
        ),
    }
}

/// Renders the scoreboard line, or nothing before play has started. The
/// surrounding overlay only displays this string.
pub fn display_scoreboard(scores: &ScoresResource) -> (r: Option<String>)
    ensures
        match r {
            Some(line) => Some(line@) == spec_score_line(*scores),
            None => spec_score_line(*scores) is None,
        },
{
    let ms = match scores.stopwatch {
        Some(ms) => ms,
        None => {
            return None;
        },
    };
    let total_secs = ms / 1000;
    let mut s = String::new();
    s.append("Time: ");
    let mm = format_two_digits(total_secs / 60);
    s.append(mm.as_str());
    s.append(":");
    let ss = format_two_digits(total_secs % 60);
    s.append(ss.as_str());
    s.append("  Panels: ");
    let count = format_u64(scores.grounds_passed);
    s.append(count.as_str());
    proof {
        assert(s@ =~= spec_score_line(*scores).unwrap());
    }
    Some(s)
}

} // verus!
