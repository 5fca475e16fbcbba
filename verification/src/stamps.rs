//! Stamps: the reading of the clock in words, and the stamp of an update,
//! moved forward where the clock has not gone on since the row was last
//! stamped.

use vstd::prelude::*;
use vstd::string::*;
use crate::ambient::{fraction_nanos, since_unix_epoch, system_now, whole_secs};
use crate::calendar::{instant_of, is_utc_stamp, read_stamp, stamp_text, write_stamp};

verus! {

/// Whether the instant `a` lies before the instant `b`, each given as whole
/// seconds and nanoseconds.
pub open spec fn before(a: (int, int), b: (int, int)) -> bool {
    a.0 * 1_000_000_000 + a.1 < b.0 * 1_000_000_000 + b.1
}

/// The instant one nanosecond after `instant`.
pub open spec fn just_after(instant: (int, int)) -> (int, int) {
    if instant.1 + 1 < 1_000_000_000 {
        (instant.0, instant.1 + 1)
    } else {
        (instant.0 + 1, instant.1 + 1 - 1_000_000_000)
    }
}

/// The text of an instant, where its numbers can be counted and chrono can
/// write it.
pub open spec fn written(instant: (int, int)) -> Option<Seq<char>> {
    if i64::MIN <= instant.0 <= i64::MAX && 0 <= instant.1 <= u32::MAX {
        stamp_text(instant.0, instant.1)
    } else {
        None
    }
}

/// The stamp of the instant from which the clock counts.
pub open spec fn epoch_text() -> Seq<char> {
    "1970-01-01T00:00:00+00:00"@
}

/// The stamp of a reading of the clock, `secs` seconds and `nanos`
/// nanoseconds after 1970-01-01T00:00:00Z: the instant as chrono writes it,
/// and the stamp of the epoch where the instant cannot be written.
pub open spec fn reading_text(secs: int, nanos: int) -> Seq<char> {
    match written((secs, nanos)) {
        Some(text) => text,
        None => epoch_text(),
    }
}

/// Puts a reading of the clock into words.
pub fn stamp_of(secs: u64, nanos: u32) -> (stamp: String)
    ensures
        stamp@ == reading_text(secs as int, nanos as int),
        is_utc_stamp(stamp@),
{
    let text = if secs <= 0x7fff_ffff_ffff_ffff {
        write_stamp(secs as i64, nanos)
    } else {
        None
    };
    match text {
        Some(t) => t,
        None => {
            proof {
                reveal_strlit("1970-01-01T00:00:00+00:00");
                reveal_strlit("+00:00");
                assert("1970-01-01T00:00:00+00:00"@.subrange(19, 25) =~= "+00:00"@);
            }
            String::from_str("1970-01-01T00:00:00+00:00")
        },
    }
}

/// The current instant in UTC as RFC 3339 text.
///
/// Which reading the clock gives is left open; the stamp is that reading in
/// words. A clock that stands before 1970 reads as the epoch.
pub fn clock_stamp() -> (stamp: String)
    ensures
        is_utc_stamp(stamp@),
        exists|secs: int, nanos: int| stamp@ == #[trigger] reading_text(secs, nanos),
{
    let now = system_now();
    let stamp = match since_unix_epoch(&now) {
        Some(elapsed) => {
            let secs = whole_secs(&elapsed);
            let nanos = fraction_nanos(&elapsed);
            let stamp = stamp_of(secs, nanos);
            assert(stamp@ == reading_text(secs as int, nanos as int));
            stamp
        },
        None => {
            let stamp = stamp_of(0, 0);
            assert(stamp@ == reading_text(0, 0));
            stamp
        },
    };
    stamp
}

/// The stamp of an update made at `now` to a row last stamped `stored`.
///
/// It is `now`, unless both are stamps and `now` does not lie after
/// `stored`: then it is the stamp of the instant one nanosecond after
/// `stored`, so that the row's stamps never stand still or go back. Where
/// that instant cannot be written, or is not read back as an instant after
/// `stored`, the stamp is `now` all the same.
pub open spec fn next_stamp(stored: Seq<char>, now: Seq<char>) -> Seq<char> {
    match (instant_of(stored), instant_of(now)) {
        (Some(last), Some(read)) => if before(last, read) {
            now
        } else {
            match written(just_after(last)) {
                Some(text) => if instant_of(text) is Some && before(last, instant_of(text)->0) {
                    text
                } else {
                    now
                },
                None => now,
            }
        },
        _ => now,
    }
}

/// Whether the instant `a` lies before the instant `b`.
fn lies_before(a: (i64, u32), b: (i64, u32)) -> (yes: bool)
    ensures
        yes == before((a.0 as int, a.1 as int), (b.0 as int, b.1 as int)),
{
    let a_total: i128 = (a.0 as i128) * 1_000_000_000 + (a.1 as i128);
    let b_total: i128 = (b.0 as i128) * 1_000_000_000 + (b.1 as i128);
    a_total < b_total
}

/// Stamps an update made at `now` to a row last stamped `stored`.
pub fn stamp_after(stored: &str, now: String) -> (stamp: String)
    ensures
        stamp@ == next_stamp(stored@, now@),
        is_utc_stamp(now@) ==> is_utc_stamp(stamp@),
{
    let last = match read_stamp(stored) {
        Some(instant) => instant,
        None => {
            return now;
        },
    };
    let read = match read_stamp(now.as_str()) {
        Some(instant) => instant,
        None => {
            return now;
        },
    };
    if lies_before(last, read) {
        return now;
    }
    let moved: Option<String> = if last.1 < 999_999_999 {
        write_stamp(last.0, last.1 + 1)
    } else if last.0 < i64::MAX {
        write_stamp(last.0 + 1, last.1 - 999_999_999)
    } else {
        None
    };
    match moved {
        Some(text) => {
            let later = match read_stamp(text.as_str()) {
                Some(instant) => lies_before(last, instant),
                None => false,
            };
            if later {
                text
            } else {
                now
            }
        },
        None => now,
    }
}

} // verus!
