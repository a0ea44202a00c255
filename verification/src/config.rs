//! Run configuration: the step-size resolution policy that turns requested
//! board dimensions into pixel step sizes, and the decimal parsing used for
//! the numeric command-line values (with the threshold's silent fallback).

use vstd::prelude::*;

verus! {

/// Default number of cell columns when no board dimension is requested.
pub const DEFAULT_WIDTH: u32 = 16;

/// Default brightness threshold, also the fallback when the requested
/// threshold does not parse.
pub const DEFAULT_THRESHOLD: u8 = 100;

/// A fatal configuration error: sampling never starts on such a
/// configuration.
#[derive(Clone, Copy, Debug, PartialEq, Eq)]
pub enum ConfigError {
    /// A requested board width or height was zero.
    ZeroDimension,
    /// A requested board dimension exceeds the image's pixel dimension along
    /// that axis, so the derived step size would be zero.
    ZeroStepSize,
}

/// The horizontal step size the policy derives, assuming the relevant
/// divisor is positive.
pub open spec fn spec_x_step(img_w: int, img_h: int, w_req: Option<u32>, h_req: Option<u32>) -> int {
    match (w_req, h_req) {
        (Option::None, Option::None) => img_w / (DEFAULT_WIDTH as int),
        (Option::Some(w), Option::None) => img_w / (w as int),
        (Option::None, Option::Some(h)) => img_h / (h as int),
        (Option::Some(w), Option::Some(h)) => img_w / (w as int),
    }
}

/// The vertical step size the policy derives, assuming the relevant divisor
/// is positive.
pub open spec fn spec_y_step(img_w: int, img_h: int, w_req: Option<u32>, h_req: Option<u32>) -> int {
    match (w_req, h_req) {
        (Option::None, Option::None) => img_w / (DEFAULT_WIDTH as int),
        (Option::Some(w), Option::None) => img_w / (w as int),
        (Option::None, Option::Some(h)) => img_h / (h as int),
        (Option::Some(w), Option::Some(h)) => img_h / (h as int),
    }
}

/// Resolves the step-size pair from the image dimensions and the requested
/// board dimensions:
/// - neither dimension requested: both step sizes are `img_width`
///   divided by the default width;
/// - only a width requested: both step sizes are `img_width / width`;
/// - only a height requested: both step sizes are `img_height / height`;
/// - both requested: the step sizes are derived independently.
///
/// A requested dimension of zero, or one so large that the derived step size
/// would be zero, is reported as a configuration error before any sampling.
pub fn resolve_step_sizes(
    img_width: u32,
    img_height: u32,
    width_request: Option<u32>,
    height_request: Option<u32>,
) -> (r: Result<(u32, u32), ConfigError>)
    ensures
        match r {
            Ok(steps) => {
                &&& width_request != Some(0u32)
                &&& height_request != Some(0u32)
                &&& steps.0 == spec_x_step(img_width as int, img_height as int, width_request, height_request)
                &&& steps.1 == spec_y_step(img_width as int, img_height as int, width_request, height_request)
                &&& steps.0 >= 1
                &&& steps.1 >= 1
            },
            Err(e) => match e {
                ConfigError::ZeroDimension =>
                    width_request == Some(0u32) || height_request == Some(0u32),
                ConfigError::ZeroStepSize => {
                    &&& width_request != Some(0u32)
                    &&& height_request != Some(0u32)
                    &&& (spec_x_step(img_width as int, img_height as int, width_request, height_request) == 0
                        || spec_y_step(img_width as int, img_height as int, width_request, height_request) == 0)
                },
            },
        },
{
    let steps: (u32, u32) = match (width_request, height_request) {
        (None, None) => {
            let step: u32 = img_width / DEFAULT_WIDTH;
            (step, step)
        },
        (Some(w), None) => {
            if w == 0 {
                return Err(ConfigError::ZeroDimension);
            }
            let step: u32 = img_width / w;
            (step, step)
        },
        (None, Some(h)) => {
            if h == 0 {
                return Err(ConfigError::ZeroDimension);
            }
            let step: u32 = img_height / h;
            (step, step)
        },
        (Some(w), Some(h)) => {
            if w == 0 || h == 0 {
                return Err(ConfigError::ZeroDimension);
            }
            (img_width / w, img_height / h)
        },
    };
    if steps.0 == 0 || steps.1 == 0 {
        Err(ConfigError::ZeroStepSize)
    } else {
        Ok(steps)
    }
}

/// The byte is an ASCII decimal digit.
pub open spec fn is_ascii_digit(b: u8) -> bool {
    48 <= b <= 57
}

/// Every byte of the sequence is an ASCII decimal digit.
pub open spec fn all_digits(s: Seq<u8>) -> bool {
    forall|i: int| 0 <= i < s.len() ==> is_ascii_digit(#[trigger] s[i])
}

/// The value of a sequence of ASCII decimal digits, most significant first.
pub open spec fn digits_value(s: Seq<u8>) -> int
    decreases s.len(),
{
    if s.len() == 0 {
        0
    } else {
        digits_value(s.drop_last()) * 10 + (s.last() - 48)
    }
}

/// The digit part of an unsigned decimal numeral: everything after an
/// optional leading `+` sign.
pub open spec fn numeral_digits(s: Seq<u8>) -> Seq<u8> {
    if s.len() > 0 && s[0] == 43 {
        s.subrange(1, s.len() as int)
    } else {
        s
    }
}

/// The byte string has the form of an unsigned decimal numeral: an optional
/// leading `+` sign followed by at least one ASCII digit and nothing else.
pub open spec fn is_numeral(s: Seq<u8>) -> bool {
    numeral_digits(s).len() >= 1 && all_digits(numeral_digits(s))
}

proof fn lemma_digits_value_nonneg(s: Seq<u8>)
    requires
        all_digits(s),
    ensures
        digits_value(s) >= 0,
    decreases s.len(),
{
    if s.len() > 0 {
        assert(all_digits(s.drop_last()));
        lemma_digits_value_nonneg(s.drop_last());
    }
}

proof fn lemma_digits_value_mono(s: Seq<u8>, i: int)
    requires
        all_digits(s),
        0 <= i <= s.len(),
    ensures
        digits_value(s.take(i)) <= digits_value(s),
    decreases s.len() - i,
{
    if i < s.len() {
        lemma_digits_value_mono(s, i + 1);
        let t = s.take(i + 1);
        assert(t.drop_last() =~= s.take(i));
        assert(all_digits(t.drop_last()));
        lemma_digits_value_nonneg(t.drop_last());
        assert(digits_value(t) == digits_value(s.take(i)) * 10 + (t.last() - 48));
    } else {
        assert(s.take(i) =~= s);
    }
}

/// Parses an unsigned decimal numeral (an optional `+` sign, then digits) as
/// a 32-bit value, exactly as the standard library's string-to-`u32`
/// conversion does: the result is the numeral's value when the byte string
/// is such a numeral and its value fits, and nothing otherwise.
pub fn parse_u32(s: &[u8]) -> (r: Option<u32>)
    ensures
        match r {
            Some(n) => is_numeral(s@) && digits_value(numeral_digits(s@)) == n,
            None => !is_numeral(s@) || digits_value(numeral_digits(s@)) > u32::MAX,
        },
{
    let len: usize = s.len();
    let start: usize = if len > 0 && s[0] == 43 {
        1
    } else {
        0
    };
    if len == start {
        proof {
            assert(numeral_digits(s@).len() == 0);
        }
        return None;
    }
    let ghost nd = numeral_digits(s@);
    proof {
        assert(nd =~= s@.subrange(start as int, len as int));
    }
    let mut acc: u32 = 0;
    let mut i: usize = start;
    while i < len
        invariant
            start <= i <= len,
            len == s@.len(),
            nd == numeral_digits(s@),
            nd =~= s@.subrange(start as int, len as int),
            all_digits(s@.subrange(start as int, i as int)),
            acc == digits_value(s@.subrange(start as int, i as int)),
        decreases len - i,
    {
        let b = s[i];
        if b < 48 || b > 57 {
            proof {
                assert(nd[i - start] == s@[i as int]);
                assert(!is_ascii_digit(nd[i - start]));
            }
            return None;
        }
        let d: u32 = (b - 48) as u32;
        let wide: u64 = (acc as u64) * 10 + (d as u64);
        proof {
            let prefix = s@.subrange(start as int, i as int);
            let next = s@.subrange(start as int, i + 1);
            assert(next.drop_last() =~= prefix);
            assert(next.last() == s@[i as int]);
            assert(digits_value(next) == digits_value(prefix) * 10 + (s@[i as int] - 48));
            assert(all_digits(next)) by {
                assert(forall|j: int| 0 <= j < next.len() - 1 ==> next[j] == prefix[j]);
            }
        }
        if wide > u32::MAX as u64 {
            proof {
                if is_numeral(s@) {
                    lemma_digits_value_mono(nd, i + 1 - start);
                    assert(nd.take(i + 1 - start) =~= s@.subrange(start as int, i + 1));
                }
            }
            return None;
        }
        acc = wide as u32;
        i = i + 1;
    }
    proof {
        assert(s@.subrange(start as int, i as int) =~= nd);
    }
    Some(acc)
}

/// The threshold a byte string selects: the value of the numeral when it is
/// one and its value fits the 8-bit range, and the default threshold
/// otherwise.
pub open spec fn spec_threshold(s: Seq<u8>) -> int {
    if is_numeral(s) && digits_value(numeral_digits(s)) <= 255 {
        digits_value(numeral_digits(s))
    } else {
        DEFAULT_THRESHOLD as int
    }
}

/// Parses the threshold argument as an 8-bit value, silently falling back to
/// the default threshold on any byte string that does not parse as an 8-bit
/// decimal numeral.
pub fn parse_threshold(s: &[u8]) -> (t: u8)
    ensures
        t == spec_threshold(s@),
{
    match parse_u32(s) {
        Some(v) => {
            if v <= 255 {
                v as u8
            } else {
                DEFAULT_THRESHOLD
            }
        },
        None => {
            proof {
                if is_numeral(s@) {
                    assert(digits_value(numeral_digits(s@)) > u32::MAX);
                }
            }
            DEFAULT_THRESHOLD
        },
    }
}

} // verus!
