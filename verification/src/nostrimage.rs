//! Image dimensions as tags carry them: `<width>x<height>` in decimal.
use vstd::prelude::*;
use crate::basecore::ParseError;
use crate::coordinate::{find_char, find_char_from};
use crate::decutil::{dec_chars_of, dec_parseable, dec_parsed, parse_dec_u64, u64_to_dec_bytes};
use crate::strutil::ascii_to_string;
use vstd::string::{StrSliceExecFns, StringExecFns};

verus! {

/// Width and height of an image, in pixels.
#[derive(Debug, Clone, Copy, PartialEq, Eq, Structural, Hash)]
pub struct ImageDimensions {
    /// Width.
    pub width: u64,
    /// Height.
    pub height: u64,
}

/// The `WxH` rendering of dimensions.
pub open spec fn dimensions_chars(d: ImageDimensions) -> Seq<char> {
    dec_chars_of(d.width as nat) + seq!['x'] + dec_chars_of(d.height as nat)
}

/// The dimensions a `WxH` text names, if the two decimal parts are usable.
pub open spec fn dimensions_of_chars(s: Seq<char>) -> Option<ImageDimensions> {
    let i = find_char_from(s, 'x', 0);
    if i == s.len() {
        None
    } else if dec_parseable(s.take(i), u64::MAX as int) && dec_parseable(
        s.skip(i + 1),
        u64::MAX as int,
    ) {
        Some(
            ImageDimensions {
                width: dec_parsed(s.take(i)) as u64,
                height: dec_parsed(s.skip(i + 1)) as u64,
            },
        )
    } else {
        None
    }
}

impl ImageDimensions {
    /// Pack a width and height.
    pub fn new(width: u64, height: u64) -> (r: ImageDimensions)
        ensures
            r.width == width,
            r.height == height,
    {
        ImageDimensions { width, height }
    }

    /// The `WxH` rendering.
    pub fn to_dim_string(&self) -> (r: String)
        ensures
            r@ == dimensions_chars(*self),
    {
        let w = ascii_to_string(u64_to_dec_bytes(self.width));
        let h = ascii_to_string(u64_to_dec_bytes(self.height));
        let mut out = w;
        out.append("x");
        out.append(h.as_str());
        proof {
            reveal_strlit("x");
            assert(out@ =~= dimensions_chars(*self));
        }
        out
    }

    /// Parse dimensions from a `WxH` text; reject anything else.
    pub fn parse_str(s: &str) -> (r: Result<ImageDimensions, ParseError>)
        ensures
            match r {
                Ok(d) => dimensions_of_chars(s@) == Some(d),
                Err(e) => dimensions_of_chars(s@) is None && e == ParseError::ParseInt,
            },
    {
        let n = s.unicode_len();
        let i = find_char(s, 'x', 0);
        if i == n {
            return Err(ParseError::ParseInt);
        }
        let w_str = s.substring_char(0, i);
        let h_str = s.substring_char(i + 1, n);
        let width = match parse_dec_u64(w_str) {
            Some(v) => v,
            None => {
                return Err(ParseError::ParseInt);
            },
        };
        let height = match parse_dec_u64(h_str) {
            Some(v) => v,
            None => {
                return Err(ParseError::ParseInt);
            },
        };
        Ok(ImageDimensions { width, height })
    }
}

} // verus!
