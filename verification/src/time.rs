//! Unix timestamps: construction from a caller-supplied clock, deterministic
//! tweaking from a caller-supplied generator, and rendering as a civil
//! datetime.
use vstd::prelude::*;
use vstd::string::StringExecFns;
use crate::basecore::ParseError;
use crate::decutil::{
    dec_digit_char, dec_chars_of, dec_parseable, dec_parsed, parse_dec_u64, u64_to_dec_bytes,
};
use crate::rng::{CryptoHashRng, rng_next_u64};
use crate::strutil::{ascii_chars_of, ascii_to_string};

verus! {

/// Timestamps at and above this read as the year 10000 and are not rendered.
pub const TIMESTAMP_RENDER_LIMIT: u64 = 253402300800;

/// A saturating difference.
pub open spec fn sat_sub_u64(a: u64, b: u64) -> u64 {
    if a >= b {
        (a - b) as u64
    } else {
        0
    }
}

/// A saturating sum.
pub open spec fn sat_add_u64(a: u64, b: u64) -> u64 {
    if a + b <= u64::MAX {
        (a + b) as u64
    } else {
        u64::MAX
    }
}

/// Split the day of a March-based year into month (1 is March) and leftover
/// days, by the cumulative month lengths 31,30,31,30,31,31,30,31,30,31,31,29.
pub open spec fn month_split(rem: int) -> (int, int) {
    if rem < 31 {
        (1int, rem)
    } else if rem < 61 {
        (2int, rem - 31)
    } else if rem < 92 {
        (3int, rem - 61)
    } else if rem < 122 {
        (4int, rem - 92)
    } else if rem < 153 {
        (5int, rem - 122)
    } else if rem < 184 {
        (6int, rem - 153)
    } else if rem < 214 {
        (7int, rem - 184)
    } else if rem < 245 {
        (8int, rem - 214)
    } else if rem < 275 {
        (9int, rem - 245)
    } else if rem < 306 {
        (10int, rem - 275)
    } else if rem < 337 {
        (11int, rem - 306)
    } else {
        (12int, rem - 337)
    }
}

/// The `YYYY-MM-DDThh:mm:ssZ` rendering of a timestamp, through the Gregorian
/// cycle decomposition: whole days shifted to a March-2000-based count plus
/// one 400-year cycle, split into 400-year, 100-year, 4-year and single-year
/// cycles, then months. Timestamps at year 10000 and beyond render as
/// `Unavailable`.
pub open spec fn human_datetime_chars(ts: u64) -> Seq<char> {
    if ts >= TIMESTAMP_RENDER_LIMIT {
        "Unavailable"@
    } else {
        let ds = ts as int / 86400 + 135080;
        let secs_of_day = ts as int % 86400;
        let qc = ds / 146097;
        let rd0 = ds % 146097;
        let cc = if rd0 / 36524 == 4 {
            3int
        } else {
            rd0 / 36524
        };
        let rd1 = rd0 - cc * 36524;
        let q = if rd1 / 1461 == 25 {
            24int
        } else {
            rd1 / 1461
        };
        let rd2 = rd1 - q * 1461;
        let ry = if rd2 / 365 == 4 {
            3int
        } else {
            rd2 / 365
        };
        let rd3 = rd2 - ry * 365;
        let year0 = 1600 + ry + 4 * q + 100 * cc + 400 * qc;
        let ms = month_split(rd3);
        let mday = ms.1 + 1;
        let year = if ms.0 + 2 > 12 {
            year0 + 1
        } else {
            year0
        };
        let mon = if ms.0 + 2 > 12 {
            ms.0 - 10
        } else {
            ms.0 + 2
        };
        seq![
            dec_digit_char((year / 1000 % 10) as u8),
            dec_digit_char((year / 100 % 10) as u8),
            dec_digit_char((year / 10 % 10) as u8),
            dec_digit_char((year % 10) as u8),
            '-',
            dec_digit_char((mon / 10) as u8),
            dec_digit_char((mon % 10) as u8),
            '-',
            dec_digit_char((mday / 10) as u8),
            dec_digit_char((mday % 10) as u8),
            'T',
            dec_digit_char((secs_of_day / 3600 / 10) as u8),
            dec_digit_char((secs_of_day / 3600 % 10) as u8),
            ':',
            dec_digit_char((secs_of_day / 60 / 10 % 6) as u8),
            dec_digit_char((secs_of_day / 60 % 10) as u8),
            ':',
            dec_digit_char((secs_of_day / 10 % 6) as u8),
            dec_digit_char((secs_of_day % 10) as u8),
            'Z',
        ]
    }
}

/// A clock, for the host to implement; the core never reads time on its own.
/// The implementor says through `clock_ok` what it promises of the values its
/// clock hands out, and every reading carries that promise.
pub trait TimeSupplier {
    /// What the implementor promises of a seconds reading.
    spec fn clock_ok(&self, secs: u64) -> bool;

    /// Seconds since the Unix epoch, as this clock sees them.
    fn now_seconds(&self) -> (r: u64)
        ensures
            self.clock_ok(r),
    ;
}

/// Relies on std::time::SystemTime::now and duration_since(UNIX_EPOCH): the
/// seconds since the epoch, zero when the clock reads before it. Nothing is
/// known of the value.
#[verifier::external_body]
fn unix_now_seconds() -> u64 {
    match std::time::SystemTime::now().duration_since(std::time::UNIX_EPOCH) {
        Ok(d) => d.as_secs(),
        Err(_) => 0,
    }
}

/// A Unix timestamp in seconds.
#[derive(Debug, Clone, Copy, PartialEq, Eq, Structural, Hash)]
pub struct Timestamp(pub u64);

impl Timestamp {
    /// The current Unix time, from the system clock.
    pub fn now() -> Timestamp {
        Timestamp(unix_now_seconds())
    }

    /// The current Unix time, from a caller-supplied clock: exactly one
    /// reading of that clock, no ambient one.
    pub fn now_with_supplier<T: TimeSupplier>(supplier: &T) -> (r: Timestamp)
        ensures
            supplier.clock_ok(r.0),
    {
        Timestamp(supplier.now_seconds())
    }

    /// The current time from a caller-supplied clock, lowered by a number of
    /// seconds drawn from the generator within the given range.
    pub fn tweaked_with_supplier_and_rng<T: TimeSupplier>(
        supplier: &T,
        rng: &mut CryptoHashRng,
        range_start: u64,
        range_end: u64,
    ) -> (r: Timestamp)
        requires
            range_start < range_end,
        ensures
            exists|base: u64, s: u64|
                supplier.clock_ok(base) && range_start <= s < range_end && r.0 == sat_sub_u64(
                    base,
                    s,
                ),
    {
        let now = Self::now_with_supplier(supplier);
        let ghost base = now.0;
        let mut tweaked = now;
        tweaked.tweak_with_rng(rng, range_start, range_end);
        proof {
            let s = choose|s: u64|
                range_start <= s < range_end && tweaked.0 == sat_sub_u64(base, s);
            assert(supplier.clock_ok(base) && range_start <= s < range_end && tweaked.0
                == sat_sub_u64(base, s));
        }
        tweaked
    }

    /// Lower the timestamp by a number of seconds drawn from the generator
    /// within the given range, saturating at zero.
    pub fn tweak_with_rng(&mut self, rng: &mut CryptoHashRng, range_start: u64, range_end: u64)
        requires
            range_start < range_end,
        ensures
            exists|s: u64|
                range_start <= s < range_end && final(self).0 == sat_sub_u64(old(self).0, s),
            final(self).0 <= old(self).0,
    {
        let ghost old_secs = self.0;
        let n = rng_next_u64(rng);
        let span = range_end - range_start;
        let secs = range_start + (n % span);
        if self.0 >= secs {
            self.0 = self.0 - secs;
        } else {
            self.0 = 0;
        }
        proof {
            assert(range_start <= secs < range_end);
            assert(self.0 == sat_sub_u64(old_secs, secs));
            assert(exists|s: u64|
                range_start <= s < range_end && self.0 == sat_sub_u64(old_secs, s));
        }
    }

    /// Wrap a seconds count.
    pub fn from_u64(timestamp: u64) -> (r: Timestamp)
        ensures
            r.0 == timestamp,
    {
        Timestamp(timestamp)
    }

    /// The seconds count.
    pub fn as_u64(&self) -> (r: u64)
        ensures
            r == self.0,
    {
        self.0
    }

    /// Parse a timestamp from its decimal rendering.
    pub fn parse_str(s: &str) -> (r: Result<Timestamp, ParseError>)
        ensures
            match r {
                Ok(t) => dec_parseable(s@, u64::MAX as int) && t.0 == dec_parsed(s@),
                Err(e) => !dec_parseable(s@, u64::MAX as int) && e == ParseError::ParseInt,
            },
    {
        match parse_dec_u64(s) {
            Some(v) => Ok(Timestamp(v)),
            None => Err(ParseError::ParseInt),
        }
    }

    /// The decimal rendering of the seconds count.
    pub fn to_dec_string(&self) -> (r: String)
        ensures
            r@ =~= dec_chars_of(self.0 as nat),
    {
        ascii_to_string(u64_to_dec_bytes(self.0))
    }

    /// Raise the timestamp, saturating at the largest count.
    pub fn saturating_add(self, rhs: u64) -> (r: Timestamp)
        ensures
            r.0 == sat_add_u64(self.0, rhs),
    {
        if self.0 <= u64::MAX - rhs {
            Timestamp(self.0 + rhs)
        } else {
            Timestamp(u64::MAX)
        }
    }

    /// Lower the timestamp, saturating at zero.
    pub fn saturating_sub(self, rhs: u64) -> (r: Timestamp)
        ensures
            r.0 == sat_sub_u64(self.0, rhs),
    {
        if self.0 >= rhs {
            Timestamp(self.0 - rhs)
        } else {
            Timestamp(0)
        }
    }

    /// Render the timestamp as a civil `YYYY-MM-DDThh:mm:ssZ` datetime, or
    /// `Unavailable` from the year 10000 on.
    #[verifier::rlimit(60)]
    pub fn to_human_datetime(&self) -> (r: String)
        ensures
            r@ =~= human_datetime_chars(self.0),
    {
        let timestamp = self.0;
        if timestamp >= TIMESTAMP_RENDER_LIMIT {
            return "Unavailable".to_owned();
        }
        let ds = timestamp / 86400 + 135080;
        let secs_of_day = timestamp % 86400;
        let qc = ds / 146097;
        let rd0 = ds % 146097;
        proof {
            vstd::arithmetic::div_mod::lemma_fundamental_div_mod(rd0 as int, 36524);
        }
        let cc = if rd0 / 36524 == 4 {
            3
        } else {
            rd0 / 36524
        };
        let rd1 = rd0 - cc * 36524;
        proof {
            vstd::arithmetic::div_mod::lemma_fundamental_div_mod(rd1 as int, 1461);
        }
        let q = if rd1 / 1461 == 25 {
            24
        } else {
            rd1 / 1461
        };
        let rd2 = rd1 - q * 1461;
        proof {
            vstd::arithmetic::div_mod::lemma_fundamental_div_mod(rd2 as int, 365);
        }
        let ry = if rd2 / 365 == 4 {
            3
        } else {
            rd2 / 365
        };
        let rd3 = rd2 - ry * 365;
        let year0 = 1600 + ry + 4 * q + 100 * cc + 400 * qc;
        let (mon0, rem) = if rd3 < 31 {
            (1u64, rd3)
        } else if rd3 < 61 {
            (2, rd3 - 31)
        } else if rd3 < 92 {
            (3, rd3 - 61)
        } else if rd3 < 122 {
            (4, rd3 - 92)
        } else if rd3 < 153 {
            (5, rd3 - 122)
        } else if rd3 < 184 {
            (6, rd3 - 153)
        } else if rd3 < 214 {
            (7, rd3 - 184)
        } else if rd3 < 245 {
            (8, rd3 - 214)
        } else if rd3 < 275 {
            (9, rd3 - 245)
        } else if rd3 < 306 {
            (10, rd3 - 275)
        } else if rd3 < 337 {
            (11, rd3 - 306)
        } else {
            (12, rd3 - 337)
        };
        let mday = rem + 1;
        let (year, mon) = if mon0 + 2 > 12 {
            (year0 + 1, mon0 - 10)
        } else {
            (year0, mon0 + 2)
        };
        let mut out: Vec<u8> = Vec::new();
        out.push(48 + (year / 1000 % 10) as u8);
        out.push(48 + (year / 100 % 10) as u8);
        out.push(48 + (year / 10 % 10) as u8);
        out.push(48 + (year % 10) as u8);
        out.push(45);
        out.push(48 + (mon / 10) as u8);
        out.push(48 + (mon % 10) as u8);
        out.push(45);
        out.push(48 + (mday / 10) as u8);
        out.push(48 + (mday % 10) as u8);
        out.push(84);
        out.push(48 + (secs_of_day / 3600 / 10) as u8);
        out.push(48 + (secs_of_day / 3600 % 10) as u8);
        out.push(58);
        out.push(48 + (secs_of_day / 60 / 10 % 6) as u8);
        out.push(48 + (secs_of_day / 60 % 10) as u8);
        out.push(58);
        out.push(48 + (secs_of_day / 10 % 6) as u8);
        out.push(48 + (secs_of_day % 10) as u8);
        out.push(90);
        let r = ascii_to_string(out);
        proof {
            assert(r@ =~= human_datetime_chars(timestamp));
        }
        r
    }
}

} // verus!
