//! The calendar arithmetic behind time-bucketed artifact storage: a
//! timestamp in seconds since the Unix epoch is mapped to its UTC calendar
//! date, rendered as `YYYY-MM-DD`. The date is computed in the proleptic
//! Gregorian calendar with the usual era-based day-count conversion, so the
//! bucket is a pure function of the timestamp.

use vstd::prelude::*;
use crate::chars::padded_dec;
use crate::chars::push_char;
use crate::chars::u64_to_dec_padded;

verus! {

/// Truncating subtraction on mathematical integers.
pub open spec fn monus(a: int, b: int) -> int {
    if a >= b {
        a - b
    } else {
        0
    }
}

/// The calendar date `(year, month, day)` of a count of days since
/// 1970-01-01, in the proleptic Gregorian calendar.
pub open spec fn civil_of_days(days: nat) -> (int, int, int) {
    let z = days + 719468;
    let era = z / 146097;
    let doe = z % 146097;
    let yoe = (doe - doe / 1460 + doe / 36524 - doe / 146096) / 365;
    let doy = monus(doe as int, 365 * yoe + yoe / 4 - yoe / 100);
    let mp = (5 * doy + 2) / 153;
    let dom = monus(doy, (153 * mp + 2) / 5) + 1;
    let month = if mp < 10 {
        mp + 3
    } else {
        monus(mp, 9)
    };
    let year = yoe + era * 400 + if month <= 2 {
        1int
    } else {
        0int
    };
    (year, month, dom)
}

/// The `YYYY-MM-DD` storage bucket for a timestamp in seconds since the
/// epoch, the calendar date taken in UTC.
pub open spec fn date_bucket_spec(ts: nat) -> Seq<char> {
    let c = civil_of_days(ts / 86400);
    padded_dec(4, c.0 as nat) + seq!['-'] + padded_dec(2, c.1 as nat) + seq!['-'] + padded_dec(
        2,
        c.2 as nat,
    )
}

pub fn date_bucket(ts: u64) -> (r: String)
    ensures
        r@ == date_bucket_spec(ts as nat),
{
    let days: u64 = ts / 86400;
    proof {
        assert((ts as int) == 86400 * ((ts as int) / 86400) + (ts as int) % 86400);
        assert(days <= 213503982334601);
    }
    let z: u64 = days + 719468;
    let era: u64 = z / 146097;
    let doe: u64 = z % 146097;
    proof {
        assert((z as int) == 146097 * ((z as int) / 146097) + (z as int) % 146097);
        assert(era <= z);
        assert(doe < 146097);
        assert(doe / 1460 <= doe) by {
            assert((doe as int) == 1460 * ((doe as int) / 1460) + (doe as int) % 1460);
        }
        assert(doe / 36524 <= 4) by {
            assert((doe as int) == 36524 * ((doe as int) / 36524) + (doe as int) % 36524);
        }
        assert(doe / 146096 <= 1) by {
            assert((doe as int) == 146096 * ((doe as int) / 146096) + (doe as int) % 146096);
        }
        assert(doe / 146096 <= doe - doe / 1460 + doe / 36524) by {
            assert((doe as int) == 1460 * ((doe as int) / 1460) + (doe as int) % 1460);
            assert((doe as int) == 146096 * ((doe as int) / 146096) + (doe as int) % 146096);
        }
    }
    let num: u64 = doe - doe / 1460 + doe / 36524 - doe / 146096;
    let yoe: u64 = num / 365;
    proof {
        assert(yoe <= 400) by {
            assert((num as int) == 365 * ((num as int) / 365) + (num as int) % 365);
        }
    }
    let ys: u64 = 365 * yoe + yoe / 4 - yoe / 100;
    let doy: u64 = if doe >= ys {
        doe - ys
    } else {
        0
    };
    let mp: u64 = (5 * doy + 2) / 153;
    proof {
        assert(mp <= 4775) by {
            let v: int = 5 * (doy as int) + 2;
            assert(v == 153 * (v / 153) + v % 153);
        }
    }
    let md: u64 = (153 * mp + 2) / 5;
    let dom: u64 = if doy >= md {
        doy - md
    } else {
        0
    } + 1;
    let month: u64 = if mp < 10 {
        mp + 3
    } else {
        mp - 9
    };
    let year: u64 = yoe + era * 400 + if month <= 2 {
        1
    } else {
        0
    };
    let ghost c = civil_of_days((ts as nat) / 86400);
    proof {
        assert(year == c.0 && month == c.1 && dom == c.2);
    }
    let mut s = u64_to_dec_padded(4, year);
    push_char(&mut s, '-');
    let ms = u64_to_dec_padded(2, month);
    s.append(ms.as_str());
    push_char(&mut s, '-');
    let ds = u64_to_dec_padded(2, dom);
    s.append(ds.as_str());
    proof {
        assert(s@ =~= date_bucket_spec(ts as nat));
    }
    s
}

} // verus!
