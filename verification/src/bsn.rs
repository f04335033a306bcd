//! A checksum-validated Dutch personal identification number
//! (burgerservicenummer).

use vstd::prelude::*;
use vstd::string::StringSliceAdditionalSpecFns;

verus! {

/// Why a string was rejected as a BSN.
#[derive(Debug)]
pub enum Error {
    /// The BSN was invalid
    InvalidBsn,
}

/// A valid BSN (burgerservicenummer), a Dutch personal identification
/// number that is similar to the US Social Security Number.
#[derive(Debug, PartialEq, Eq, Clone)]
pub struct Bsn {
    inner: String,
}

impl View for Bsn {
    type V = Seq<char>;

    /// The characters of the number.
    closed spec fn view(&self) -> Seq<char> {
        self.inner@
    }
}

/// The checksum of the characters of a candidate number: each
/// character's distance from the digit zero, weighted first by nine
/// down to two and then by minus one, summed left to right.
pub open spec fn weighted_sum(s: Seq<char>, m: int) -> int
    decreases s.len(),
{
    if s.len() == 0 {
        0
    } else {
        ((s[0] as u32) - ('0' as u32)) * m + weighted_sum(
            s.drop_first(),
            if m - 1 == 1 {
                -1
            } else {
                m - 1
            },
        )
    }
}

/// The checksum criterion on the characters alone: the weighted sum is
/// a multiple of eleven.
pub open spec fn checksum_ok(chars: Seq<char>) -> bool {
    weighted_sum(chars, 9) % 11 == 0
}

/// A string passes validation when it is eight or nine bytes long, its
/// character count does not exceed its byte count's bound of nine (which
/// holds of every string, since a character occupies at least one byte),
/// and its checksum criterion holds.
pub open spec fn valid_bsn(s: &str) -> bool {
    &&& (s.spec_bytes().len() == 8 || s.spec_bytes().len() == 9)
    &&& s@.len() <= 9
    &&& checksum_ok(s@)
}

impl Bsn {
    /// Tries to build a BSN from anything that renders itself as a
    /// string. The rendered string decides: exactly the strings that
    /// `validate` accepts are kept.
    pub fn try_from_string<B: std::fmt::Display>(bsn: B) -> (r: Result<Self, Error>)
        ensures
            r matches Ok(b) ==> b@.len() <= 9 && checksum_ok(b@),
            r matches Err(e) ==> e is InvalidBsn,
    {
        let bsn_string = bsn.to_string();

        if Self::validate(bsn_string.as_str()).is_err() {
            return Err(Error::InvalidBsn);
        }

        Ok(Self { inner: bsn_string })
    }

    /// Checks whether the passed string represents a valid BSN: the
    /// result is `Ok` exactly on the strings that `valid_bsn` accepts.
    pub fn validate(bsn: &str) -> (r: Result<(), Error>)
        ensures
            r is Ok <==> valid_bsn(bsn),
            r matches Err(e) ==> e is InvalidBsn,
    {
        let bsn_string_len = bsn.as_bytes().len();

        if bsn_string_len != 8 && bsn_string_len != 9 {
            return Err(Error::InvalidBsn);
        }

        let n = bsn.unicode_len();
        if n > 9 {
            // A character occupies at least one byte, so an eight- or
            // nine-byte string can never reach this arm.
            return Err(Error::InvalidBsn);
        }

        let mut result: i32 = 0;
        let mut multiplier: i32 = 9;

        let mut idx: usize = 0;
        proof {
            assert(bsn@.skip(0) =~= bsn@);
        }
        while idx < n
            invariant
                idx <= n <= 9,
                n == bsn@.len(),
                idx <= 7 ==> multiplier == 9 - idx,
                idx == 8 ==> multiplier == -1,
                idx == 9 ==> multiplier == -2,
                -1114063 * (idx as int) <= result <= 10026567 * (idx as int),
                weighted_sum(bsn@, 9) == result + weighted_sum(
                    bsn@.skip(idx as int),
                    multiplier as int,
                ),
            decreases n - idx,
        {
            let c = bsn.get_char(idx);
            let cv: i32 = (c as u32) as i32;
            proof {
                assert(bsn@.skip(idx as int).drop_first() =~= bsn@.skip(idx + 1));
                assert(0 <= cv <= 0x10FFFF);
                assert(-1114063 <= ((cv - 48) as int) * (multiplier as int) <= 10026567)
                    by (nonlinear_arith)
                    requires
                        -48 <= cv - 48 <= 1114063,
                        -1 <= multiplier <= 9,
                ;
            }
            result += (cv - 48) * multiplier;
            multiplier -= 1;
            if multiplier == 1 {
                multiplier = -1;
            }
            idx += 1;
        }

        proof {
            assert(bsn@.skip(n as int).len() == 0);
            assert(weighted_sum(bsn@.skip(n as int), multiplier as int) == 0);
            assert(result == weighted_sum(bsn@, 9));
            lemma_divisible_by_eleven_neg(result as int);
        }

        if result % 11 != 0 {
            return Err(Error::InvalidBsn);
        }

        Ok(())
    }

    /// The characters of the number, as a borrowed string.
    pub fn as_str(&self) -> (r: &str)
        ensures
            r@ == self@,
    {
        self.inner.as_str()
    }
}

/// A number and its negation are divisible by eleven together.
proof fn lemma_divisible_by_eleven_neg(w: int)
    ensures
        (w % 11 == 0) <==> ((-w) % 11 == 0),
{
    vstd::arithmetic::div_mod::lemma_fundamental_div_mod(w, 11);
    vstd::arithmetic::div_mod::lemma_fundamental_div_mod(-w, 11);
    vstd::arithmetic::div_mod::lemma_mod_bound(w, 11);
    vstd::arithmetic::div_mod::lemma_mod_bound(-w, 11);
}

} // verus!
