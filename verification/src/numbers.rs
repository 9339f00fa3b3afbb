//! Number formatting: decimal rendering, human-readable byte sizes,
//! durations, percentages in basis points, and clamping helpers.
//!
//! Fractions are carried as basis points: ten-thousandths of the whole,
//! so 10000 stands for 1.0. Rounding to fewer digits rounds half up.

use vstd::prelude::*;
use vstd::string::StringExecFns;

verus! {

/// The decimal digit character for `d`.
pub open spec fn digit_char(d: int) -> char {
    if d == 0 {
        '0'
    } else if d == 1 {
        '1'
    } else if d == 2 {
        '2'
    } else if d == 3 {
        '3'
    } else if d == 4 {
        '4'
    } else if d == 5 {
        '5'
    } else if d == 6 {
        '6'
    } else if d == 7 {
        '7'
    } else if d == 8 {
        '8'
    } else {
        '9'
    }
}

/// The decimal digits of `n`, most significant first.
pub open spec fn spec_dec(n: nat) -> Seq<char>
    decreases n,
{
    if n < 10 {
        seq![digit_char(n as int)]
    } else {
        spec_dec(n / 10).push(digit_char((n % 10) as int))
    }
}

/// `n` in decimal, padded with a leading zero to at least two digits.
pub open spec fn spec_pad2(n: nat) -> Seq<char> {
    if n < 10 {
        seq!['0', digit_char(n as int)]
    } else {
        spec_dec(n)
    }
}

fn digit_of(d: u64) -> (c: char)
    requires
        d < 10,
    ensures
        c == digit_char(d as int),
{
    if d == 0 {
        '0'
    } else if d == 1 {
        '1'
    } else if d == 2 {
        '2'
    } else if d == 3 {
        '3'
    } else if d == 4 {
        '4'
    } else if d == 5 {
        '5'
    } else if d == 6 {
        '6'
    } else if d == 7 {
        '7'
    } else if d == 8 {
        '8'
    } else {
        '9'
    }
}

/// Renders `n` in decimal.
pub fn u64_to_string(n: u64) -> (r: String)
    ensures
        r@ == spec_dec(n as nat),
    decreases n,
{
    if n < 10 {
        let mut s = String::new();
        crate::strings::push_char(&mut s, digit_of(n));
        proof {
            assert(s@ =~= spec_dec(n as nat));
        }
        s
    } else {
        let mut s = u64_to_string(n / 10);
        crate::strings::push_char(&mut s, digit_of(n % 10));
        s
    }
}

/// Renders `n` in decimal with at least two digits.
pub fn pad2(n: u64) -> (r: String)
    ensures
        r@ == spec_pad2(n as nat),
{
    if n < 10 {
        let mut s = String::new();
        crate::strings::push_char(&mut s, '0');
        crate::strings::push_char(&mut s, digit_of(n));
        proof {
            assert(s@ =~= spec_pad2(n as nat));
        }
        s
    } else {
        u64_to_string(n)
    }
}

/// A signed number in decimal, with a leading minus where negative.
pub open spec fn spec_i64_dec(x: int) -> Seq<char> {
    if x >= 0 {
        spec_dec(x as nat)
    } else {
        seq!['-'] + spec_dec((-x) as nat)
    }
}

/// Renders a signed number in decimal.
pub fn i64_to_string(x: i64) -> (r: String)
    ensures
        r@ == spec_i64_dec(x as int),
{
    if x >= 0 {
        u64_to_string(x as u64)
    } else {
        let wide: i128 = -(x as i128);
        let mut s = String::new();
        crate::strings::push_char(&mut s, '-');
        let digits = u64_to_string(wide as u64);
        s.append(digits.as_str());
        proof {
            assert(s@ =~= spec_i64_dec(x as int));
        }
        s
    }
}

/// A kilobyte count as text: plain KiB below one MiB, otherwise MiB or GiB
/// with two decimals, rounded half up.
pub open spec fn spec_format_kb(kb: nat) -> Seq<char> {
    if kb < 1024 {
        spec_dec(kb) + " KiB"@
    } else if kb < 1048576 {
        let h = (kb * 100 + 512) / 1024;
        spec_dec(h / 100) + "."@ + spec_pad2(h % 100) + " MiB"@
    } else {
        let h = (kb * 100 + 524288) / 1048576;
        spec_dec(h / 100) + "."@ + spec_pad2(h % 100) + " GiB"@
    }
}

/// A byte count as text: plain bytes below one KiB, otherwise KiB, MiB or
/// GiB with two decimals, rounded half up.
pub open spec fn spec_format_bytes(b: nat) -> Seq<char> {
    if b < 1024 {
        spec_dec(b) + " B"@
    } else if b < 1048576 {
        let h = (b * 100 + 512) / 1024;
        spec_dec(h / 100) + "."@ + spec_pad2(h % 100) + " KiB"@
    } else if b < 1073741824 {
        let h = (b * 100 + 524288) / 1048576;
        spec_dec(h / 100) + "."@ + spec_pad2(h % 100) + " MiB"@
    } else {
        let h = (b * 100 + 536870912) / 1073741824;
        spec_dec(h / 100) + "."@ + spec_pad2(h % 100) + " GiB"@
    }
}

fn format_with_unit(h: u64, unit: &str) -> (r: String)
    ensures
        r@ == spec_dec((h / 100) as nat) + "."@ + spec_pad2((h % 100) as nat) + unit@,
{
    let mut s = u64_to_string(h / 100);
    s.append(".");
    let frac = pad2(h % 100);
    s.append(frac.as_str());
    s.append(unit);
    proof {
        assert(s@ =~= spec_dec((h / 100) as nat) + "."@ + spec_pad2((h % 100) as nat) + unit@);
    }
    s
}

/// Format kilobytes as KiB, MiB or GiB, with two decimals.
pub fn format_kb(kilobytes: u64) -> (r: String)
    ensures
        r@ == spec_format_kb(kilobytes as nat),
{
    if kilobytes < 1024 {
        let mut s = u64_to_string(kilobytes);
        s.append(" KiB");
        proof {
            assert(s@ =~= spec_format_kb(kilobytes as nat));
        }
        s
    } else if kilobytes < 1048576 {
        let h = (kilobytes * 100 + 512) / 1024;
        format_with_unit(h, " MiB")
    } else {
        let wide = ((kilobytes as u128) * 100 + 524288) / 1048576;
        proof {
            assert(wide <= ((u64::MAX as u128) * 100 + 524288) / 1048576) by {
                vstd::arithmetic::div_mod::lemma_div_is_ordered(
                    ((kilobytes as u128) * 100 + 524288) as int,
                    ((u64::MAX as u128) * 100 + 524288) as int,
                    1048576,
                );
            }
        }
        let h = wide as u64;
        format_with_unit(h, " GiB")
    }
}

/// Format a byte count as B, KiB, MiB or GiB, with two decimals.
pub fn format_bytes(bytes: u64) -> (r: String)
    ensures
        r@ == spec_format_bytes(bytes as nat),
{
    if bytes < 1024 {
        let mut s = u64_to_string(bytes);
        s.append(" B");
        proof {
            assert(s@ =~= spec_format_bytes(bytes as nat));
        }
        s
    } else if bytes < 1048576 {
        let h = (bytes * 100 + 512) / 1024;
        format_with_unit(h, " KiB")
    } else if bytes < 1073741824 {
        let h = (bytes * 100 + 524288) / 1048576;
        format_with_unit(h, " MiB")
    } else {
        let wide = ((bytes as u128) * 100 + 536870912) / 1073741824;
        proof {
            assert(wide <= ((u64::MAX as u128) * 100 + 536870912) / 1073741824) by {
                vstd::arithmetic::div_mod::lemma_div_is_ordered(
                    ((bytes as u128) * 100 + 536870912) as int,
                    ((u64::MAX as u128) * 100 + 536870912) as int,
                    1073741824,
                );
            }
        }
        let h = wide as u64;
        format_with_unit(h, " GiB")
    }
}

/// A duration in seconds as text: seconds only under a minute, then
/// minutes and seconds, then hours (modulo a day), minutes and seconds.
pub open spec fn spec_format_duration(d: nat) -> Seq<char> {
    let s = d % 60;
    let m = (d / 60) % 60;
    let h = (d / 3600) % 24;
    if d < 60 {
        spec_dec(s) + "s"@
    } else if d < 3600 {
        spec_dec(m) + "m"@ + spec_dec(s) + "s"@
    } else {
        spec_dec(h) + "h"@ + spec_dec(m) + "m"@ + spec_dec(s) + "s"@
    }
}

/// Format a duration of seconds as `3s`, `5m3s` or `2h5m3s`.
pub fn format_duration(duration: u64) -> (r: String)
    ensures
        r@ == spec_format_duration(duration as nat),
{
    let seconds = duration % 60;
    let minutes = (duration / 60) % 60;
    let hours = (duration / 3600) % 24;
    if duration < 60 {
        let mut s = u64_to_string(seconds);
        s.append("s");
        proof {
            assert(s@ =~= spec_format_duration(duration as nat));
        }
        s
    } else if duration < 3600 {
        let mut s = u64_to_string(minutes);
        s.append("m");
        let sec = u64_to_string(seconds);
        s.append(sec.as_str());
        s.append("s");
        proof {
            assert(s@ =~= spec_format_duration(duration as nat));
        }
        s
    } else {
        let mut s = u64_to_string(hours);
        s.append("h");
        let min = u64_to_string(minutes);
        s.append(min.as_str());
        s.append("m");
        let sec = u64_to_string(seconds);
        s.append(sec.as_str());
        s.append("s");
        proof {
            assert(s@ =~= spec_format_duration(duration as nat));
        }
        s
    }
}

/// A fraction in basis points as a percentage with two decimals, e.g.
/// 123 basis points render as `1.23%`.
pub open spec fn spec_percent2(bp: nat) -> Seq<char> {
    spec_dec(bp / 100) + "."@ + spec_pad2(bp % 100) + "%"@
}

/// A fraction in basis points as a percentage with one decimal, rounded
/// half up, e.g. 126 basis points render as `1.3%`.
pub open spec fn spec_percent1(bp: nat) -> Seq<char> {
    let t = (bp + 5) / 10;
    spec_dec(t / 10) + "."@ + spec_dec(t % 10) + "%"@
}

/// A fraction in basis points in at most five characters: whole percent
/// from 1.0 upward, one decimal below that.
pub open spec fn spec_percent_len5(bp: nat) -> Seq<char> {
    if bp >= 10000 {
        spec_dec((bp + 50) / 100) + "%"@
    } else {
        spec_percent1(bp)
    }
}

/// Unsigned machine integers that fit into a u64 without loss.
pub trait Numeric: Sized + Copy {
    /// The value as a mathematical u64.
    spec fn spec_u64(self) -> u64;

    /// Widens the value to a u64.
    fn into_u64(self) -> (r: u64)
        ensures
            r == self.spec_u64(),
    ;
}

impl Numeric for u16 {
    open spec fn spec_u64(self) -> u64 {
        self as u64
    }

    fn into_u64(self) -> u64 {
        self as u64
    }
}

impl Numeric for u32 {
    open spec fn spec_u64(self) -> u64 {
        self as u64
    }

    fn into_u64(self) -> u64 {
        self as u64
    }
}

impl Numeric for u64 {
    open spec fn spec_u64(self) -> u64 {
        self
    }

    fn into_u64(self) -> u64 {
        self
    }
}

/// Byte- and kilobyte-count rendering for integer types.
pub trait BytesFormatterExt {
    /// The count that is rendered, after any widening the type needs.
    spec fn spec_byte_value(&self) -> u64;

    /// Renders the value, read as kilobytes.
    fn to_kilobytes(&self) -> (r: String)
        ensures
            r@ == spec_format_kb(self.spec_byte_value() as nat),
    ;

    /// Renders the value, read as bytes.
    fn to_bytes(&self) -> (r: String)
        ensures
            r@ == spec_format_bytes(self.spec_byte_value() as nat),
    ;
}

impl<T: Numeric> BytesFormatterExt for T {
    open spec fn spec_byte_value(&self) -> u64 {
        self.spec_u64()
    }

    fn to_kilobytes(&self) -> String {
        format_kb(self.into_u64())
    }

    fn to_bytes(&self) -> String {
        format_bytes(self.into_u64())
    }
}

impl BytesFormatterExt for i32 {
    /// A negative count wraps around as the 32-bit two's complement reading.
    open spec fn spec_byte_value(&self) -> u64 {
        if *self >= 0 {
            *self as u64
        } else {
            (*self + 0x1_0000_0000i64) as u64
        }
    }

    fn to_kilobytes(&self) -> String {
        if *self >= 0 {
            format_kb(*self as u64)
        } else {
            format_kb(((*self as i64) + 0x1_0000_0000i64) as u64)
        }
    }

    fn to_bytes(&self) -> String {
        if *self >= 0 {
            format_bytes(*self as u64)
        } else {
            format_bytes(((*self as i64) + 0x1_0000_0000i64) as u64)
        }
    }
}

impl BytesFormatterExt for i64 {
    /// A negative count wraps around as the 64-bit two's complement reading.
    open spec fn spec_byte_value(&self) -> u64 {
        if *self >= 0 {
            *self as u64
        } else {
            (*self + 0x1_0000_0000_0000_0000i128) as u64
        }
    }

    fn to_kilobytes(&self) -> String {
        if *self >= 0 {
            format_kb(*self as u64)
        } else {
            format_kb(((*self as i128) + 0x1_0000_0000_0000_0000i128) as u64)
        }
    }

    fn to_bytes(&self) -> String {
        if *self >= 0 {
            format_bytes(*self as u64)
        } else {
            format_bytes(((*self as i128) + 0x1_0000_0000_0000_0000i128) as u64)
        }
    }
}

/// The number types that offer the clamping helpers.
pub trait ClampNumType: Sized + Copy {

}

impl ClampNumType for usize {

}

impl ClampNumType for u16 {

}

impl ClampNumType for u32 {

}

impl ClampNumType for u64 {

}

impl ClampNumType for i32 {

}

impl ClampNumType for i64 {

}

/// Clamping against a single bound.
pub trait ClampNumExt<T>: Sized {
    /// The value being clamped, as the bound's type.
    spec fn spec_val(&self) -> T;

    /// The order the clamp goes by.
    spec fn spec_lt(a: &T, b: &T) -> bool;

    /// The value, raised to `min` when it lies below it.
    fn clamp_min(&self, min: T) -> (r: T)
        ensures
            r == if Self::spec_lt(&self.spec_val(), &min) {
                min
            } else {
                self.spec_val()
            },
    ;

    /// The value, lowered to `max` when it lies above it.
    fn clamp_max(&self, max: T) -> (r: T)
        ensures
            r == if Self::spec_lt(&max, &self.spec_val()) {
                max
            } else {
                self.spec_val()
            },
    ;
}

impl ClampNumExt<usize> for usize {
    open spec fn spec_val(&self) -> usize {
        *self
    }

    open spec fn spec_lt(a: &usize, b: &usize) -> bool {
        *a < *b
    }

    fn clamp_min(&self, min: usize) -> usize {
        if *self < min {
            min
        } else {
            *self
        }
    }

    fn clamp_max(&self, max: usize) -> usize {
        if *self > max {
            max
        } else {
            *self
        }
    }
}

impl ClampNumExt<u16> for u16 {
    open spec fn spec_val(&self) -> u16 {
        *self
    }

    open spec fn spec_lt(a: &u16, b: &u16) -> bool {
        *a < *b
    }

    fn clamp_min(&self, min: u16) -> u16 {
        if *self < min {
            min
        } else {
            *self
        }
    }

    fn clamp_max(&self, max: u16) -> u16 {
        if *self > max {
            max
        } else {
            *self
        }
    }
}

impl ClampNumExt<u32> for u32 {
    open spec fn spec_val(&self) -> u32 {
        *self
    }

    open spec fn spec_lt(a: &u32, b: &u32) -> bool {
        *a < *b
    }

    fn clamp_min(&self, min: u32) -> u32 {
        if *self < min {
            min
        } else {
            *self
        }
    }

    fn clamp_max(&self, max: u32) -> u32 {
        if *self > max {
            max
        } else {
            *self
        }
    }
}

impl ClampNumExt<u64> for u64 {
    open spec fn spec_val(&self) -> u64 {
        *self
    }

    open spec fn spec_lt(a: &u64, b: &u64) -> bool {
        *a < *b
    }

    fn clamp_min(&self, min: u64) -> u64 {
        if *self < min {
            min
        } else {
            *self
        }
    }

    fn clamp_max(&self, max: u64) -> u64 {
        if *self > max {
            max
        } else {
            *self
        }
    }
}

impl ClampNumExt<i32> for i32 {
    open spec fn spec_val(&self) -> i32 {
        *self
    }

    open spec fn spec_lt(a: &i32, b: &i32) -> bool {
        *a < *b
    }

    fn clamp_min(&self, min: i32) -> i32 {
        if *self < min {
            min
        } else {
            *self
        }
    }

    fn clamp_max(&self, max: i32) -> i32 {
        if *self > max {
            max
        } else {
            *self
        }
    }
}

impl ClampNumExt<i64> for i64 {
    open spec fn spec_val(&self) -> i64 {
        *self
    }

    open spec fn spec_lt(a: &i64, b: &i64) -> bool {
        *a < *b
    }

    fn clamp_min(&self, min: i64) -> i64 {
        if *self < min {
            min
        } else {
            *self
        }
    }

    fn clamp_max(&self, max: i64) -> i64 {
        if *self > max {
            max
        } else {
            *self
        }
    }
}

/// Conversion through an i32 midpoint, for cursor arithmetic on mixed
/// integer types.
pub trait ConvertibleIntExt<T>: Sized + Copy {
    /// Whether the value can be carried by an i32 unchanged.
    spec fn spec_fits_i32(&self) -> bool;

    /// The value as an i32, where it fits.
    spec fn spec_as_i32(&self) -> i32;

    /// Whether an i32 can be carried by the type unchanged.
    spec fn spec_from_fits(x: i32) -> bool;

    /// The i32 as a value of the type, where it fits.
    spec fn spec_from(x: i32) -> T;

    /// Narrows or widens the value to an i32.
    fn into_intermediary(&self) -> (r: i32)
        ensures
            self.spec_fits_i32() ==> r == self.spec_as_i32(),
    ;

    /// Carries an i32 back into the type.
    fn from_intermediary(intermediary: i32) -> (r: T)
        ensures
            Self::spec_from_fits(intermediary) ==> r == Self::spec_from(intermediary),
    ;
}

impl ConvertibleIntExt<u16> for u16 {
    open spec fn spec_fits_i32(&self) -> bool {
        true
    }

    open spec fn spec_as_i32(&self) -> i32 {
        *self as i32
    }

    open spec fn spec_from_fits(x: i32) -> bool {
        0 <= x <= u16::MAX as i32
    }

    open spec fn spec_from(x: i32) -> u16 {
        x as u16
    }

    fn into_intermediary(&self) -> i32 {
        *self as i32
    }

    fn from_intermediary(intermediary: i32) -> u16 {
        if 0 <= intermediary && intermediary <= u16::MAX as i32 {
            intermediary as u16
        } else {
            0
        }
    }
}

impl ConvertibleIntExt<usize> for usize {
    open spec fn spec_fits_i32(&self) -> bool {
        *self <= i32::MAX as usize
    }

    open spec fn spec_as_i32(&self) -> i32 {
        *self as i32
    }

    open spec fn spec_from_fits(x: i32) -> bool {
        x >= 0
    }

    open spec fn spec_from(x: i32) -> usize {
        x as usize
    }

    fn into_intermediary(&self) -> i32 {
        if *self <= i32::MAX as usize {
            *self as i32
        } else {
            i32::MAX
        }
    }

    fn from_intermediary(intermediary: i32) -> usize {
        if intermediary >= 0 {
            intermediary as usize
        } else {
            0
        }
    }
}

impl ConvertibleIntExt<i32> for i32 {
    open spec fn spec_fits_i32(&self) -> bool {
        true
    }

    open spec fn spec_as_i32(&self) -> i32 {
        *self
    }

    open spec fn spec_from_fits(x: i32) -> bool {
        true
    }

    open spec fn spec_from(x: i32) -> i32 {
        x
    }

    fn into_intermediary(&self) -> i32 {
        *self
    }

    fn from_intermediary(intermediary: i32) -> i32 {
        intermediary
    }
}

/// Percentage rendering for fractions carried in basis points.
pub trait PercentFormatterExt {
    /// The fraction, in basis points of the whole.
    spec fn spec_bp(&self) -> u64;

    /// Renders the fraction as a percentage with two decimals.
    fn to_percent2(&self) -> (r: String)
        ensures
            r@ == spec_percent2(self.spec_bp() as nat),
    ;

    /// Renders the fraction as a percentage with one decimal.
    fn to_percent1(&self) -> (r: String)
        ensures
            r@ == spec_percent1(self.spec_bp() as nat),
    ;

    /// Renders the fraction as a percentage in at most five characters.
    fn to_percent_len5(&self) -> (r: String)
        ensures
            r@ == spec_percent_len5(self.spec_bp() as nat),
    ;
}

impl PercentFormatterExt for u64 {
    open spec fn spec_bp(&self) -> u64 {
        *self
    }

    fn to_percent2(&self) -> (r: String) {
        let bp = *self;
        let mut s = u64_to_string(bp / 100);
        s.append(".");
        let frac = pad2(bp % 100);
        s.append(frac.as_str());
        s.append("%");
        proof {
            assert(s@ =~= spec_percent2(bp as nat));
        }
        s
    }

    fn to_percent1(&self) -> (r: String) {
        let bp = *self;
        let t = (bp / 10) + if bp % 10 >= 5 {
            1
        } else {
            0
        };
        proof {
            assert(t == (bp + 5) / 10) by {
                assert(bp == 10 * (bp / 10) + bp % 10);
            }
        }
        let mut s = u64_to_string(t / 10);
        s.append(".");
        let frac = u64_to_string(t % 10);
        s.append(frac.as_str());
        s.append("%");
        proof {
            assert(s@ =~= spec_percent1(bp as nat));
        }
        s
    }

    fn to_percent_len5(&self) -> (r: String) {
        let bp = *self;
        if bp >= 10000 {
            let p = (bp / 100) + if bp % 100 >= 50 {
                1
            } else {
                0
            };
            proof {
                assert(p == (bp + 50) / 100) by {
                    assert(bp == 100 * (bp / 100) + bp % 100);
                }
            }
            let mut s = u64_to_string(p);
            s.append("%");
            proof {
                assert(s@ =~= spec_percent_len5(bp as nat));
            }
            s
        } else {
            self.to_percent1()
        }
    }
}

} // verus!
