//! Sink declarations: a presentation surface per sink, and the mode in
//! which it occupies screen space.  A resolution is carried on the wire
//! as the text `WIDTHxHEIGHT`; rendering and reading that text is
//! verified against one spec of the format.

use vstd::prelude::*;
use vstd::string::StrSliceExecFns;
use vstd::string::StringExecFns;
use crate::digits::dec_digits;
use crate::digits::dec_val;
use crate::digits::is_digit_seq;
use crate::digits::lemma_dec_digits_are_digits;
use crate::digits::lemma_dec_val_of_dec_digits;
use crate::digits::parse_u32_dec;
use crate::digits::u32_to_dec;

verus! {

/// A refresh rate in whole hertz.
pub type RefreshRate = u32;

/// The textual `WIDTHxHEIGHT` form of a resolution.
pub type ResolutionJson = String;

/// A display resolution in pixels.
#[derive(Clone, Copy, PartialEq, Eq, Hash, Debug, Structural)]
pub struct Resolution {
    pub width: u32,
    pub height: u32,
}

/// The `WIDTHxHEIGHT` rendering of a resolution.
pub open spec fn resolution_json(w: nat, h: nat) -> Seq<char> {
    dec_digits(w) + seq!['x'] + dec_digits(h)
}

/// `s` holds exactly one `'x'`, at position `i`, with a run of decimal
/// digits on either side.
pub open spec fn resolution_json_shape(s: Seq<char>, i: int) -> bool {
    &&& 0 <= i < s.len()
    &&& s[i] == 'x'
    &&& forall|j: int| 0 <= j < s.len() && j != i ==> #[trigger] s[j] != 'x'
    &&& is_digit_seq(s.subrange(0, i))
    &&& is_digit_seq(s.subrange(i + 1, s.len() as int))
}

/// `s` denotes the resolution `r`.
pub open spec fn resolution_json_parses_to(s: Seq<char>, r: Resolution) -> bool {
    exists|i: int|
        {
            &&& #[trigger] resolution_json_shape(s, i)
            &&& dec_val(s.subrange(0, i)) <= u32::MAX
            &&& r.width == dec_val(s.subrange(0, i))
            &&& dec_val(s.subrange(i + 1, s.len() as int)) <= u32::MAX
            &&& r.height == dec_val(s.subrange(i + 1, s.len() as int))
        }
}

/// Why a resolution text was rejected.
#[derive(Clone, Copy, PartialEq, Eq, Debug, Structural)]
pub enum ResolutionJsonError {
    /// No `'x'` separates a width from a height.
    MissingSeparator,
    /// More than one `'x'` occurs.
    ExtraSeparator,
    /// The text before the `'x'` is not a decimal number that fits.
    InvalidWidth,
    /// The text after the `'x'` is not a decimal number that fits.
    InvalidHeight,
}

impl Resolution {
    /// Renders this resolution as `WIDTHxHEIGHT`.
    pub fn to_json(&self) -> (r: ResolutionJson)
        ensures
            r@ == resolution_json(self.width as nat, self.height as nat),
    {
        proof {
            reveal_strlit("x");
        }
        let w = u32_to_dec(self.width);
        let h = u32_to_dec(self.height);
        let r = w.concat("x").concat(h.as_str());
        proof {
            assert(r@ =~= resolution_json(self.width as nat, self.height as nat));
        }
        r
    }

    /// Reads a `WIDTHxHEIGHT` text back into a resolution.  Succeeds
    /// exactly on texts of that shape whose parts fit in `u32`; each
    /// error names the first defect found.
    pub fn from_json(res: &ResolutionJson) -> (r: Result<Resolution, ResolutionJsonError>)
        ensures
            match r {
                Ok(v) => resolution_json_parses_to(res@, v),
                Err(e) => match e {
                    ResolutionJsonError::MissingSeparator => forall|i: int|
                        0 <= i < res@.len() ==> #[trigger] res@[i] != 'x',
                    ResolutionJsonError::ExtraSeparator => exists|i: int, j: int|
                        0 <= i < j < res@.len() && #[trigger] res@[i] == 'x' && #[trigger] res@[j]
                            == 'x',
                    ResolutionJsonError::InvalidWidth => exists|i: int|
                        #[trigger] resolution_separator_at(res@, i) && !(is_digit_seq(
                            res@.subrange(0, i),
                        ) && dec_val(res@.subrange(0, i)) <= u32::MAX),
                    ResolutionJsonError::InvalidHeight => exists|i: int|
                        {
                            &&& #[trigger] resolution_separator_at(res@, i)
                            &&& is_digit_seq(res@.subrange(0, i))
                            &&& dec_val(res@.subrange(0, i)) <= u32::MAX
                            &&& !(is_digit_seq(res@.subrange(i + 1, res@.len() as int)) && dec_val(
                                res@.subrange(i + 1, res@.len() as int),
                            ) <= u32::MAX)
                        },
                },
            },
    {
        let s = res.as_str();
        let len = s.unicode_len();
        let mut found: Option<usize> = None;
        let mut i: usize = 0;
        while i < len
            invariant
                0 <= i <= len,
                len == s@.len(),
                s@ == res@,
                match found {
                    Some(k) => resolution_separator_within(s@, k as int, i as int),
                    None => forall|j: int| 0 <= j < i ==> #[trigger] s@[j] != 'x',
                },
            decreases len - i,
        {
            let c = s.get_char(i);
            if c == 'x' {
                match found {
                    Some(k) => {
                        proof {
                            assert(0 <= k < i < res@.len());
                            assert(res@[k as int] == 'x');
                            assert(res@[i as int] == 'x');
                        }
                        return Err(ResolutionJsonError::ExtraSeparator);
                    },
                    None => {
                        found = Some(i);
                    },
                }
            }
            i = i + 1;
        }
        match found {
            None => Err(ResolutionJsonError::MissingSeparator),
            Some(k) => {
                assert(resolution_separator_at(s@, k as int));
                match parse_u32_dec(s, 0, k) {
                    None => Err(ResolutionJsonError::InvalidWidth),
                    Some(w) => {
                        match parse_u32_dec(s, k + 1, len) {
                            None => Err(ResolutionJsonError::InvalidHeight),
                            Some(h) => {
                                let v = Resolution { width: w, height: h };
                                proof {
                                    assert(resolution_json_shape(s@, k as int));
                                }
                                Ok(v)
                            },
                        }
                    },
                }
            },
        }
    }
}

/// `s[k]` is an `'x'` and no other `'x'` occurs before position `upto`.
pub open spec fn resolution_separator_within(s: Seq<char>, k: int, upto: int) -> bool {
    &&& 0 <= k < upto <= s.len()
    &&& s[k] == 'x'
    &&& forall|j: int| 0 <= j < upto && j != k ==> #[trigger] s[j] != 'x'
}

/// `s[k]` is the only `'x'` in `s`.
pub open spec fn resolution_separator_at(s: Seq<char>, k: int) -> bool {
    resolution_separator_within(s, k, s.len() as int)
}

/// Two resolutions denoted by the same text are the same resolution.
pub proof fn lemma_resolution_json_unambiguous(s: Seq<char>, a: Resolution, b: Resolution)
    requires
        resolution_json_parses_to(s, a),
        resolution_json_parses_to(s, b),
    ensures
        a == b,
{
    let i = choose|i: int|
        {
            &&& #[trigger] resolution_json_shape(s, i)
            &&& dec_val(s.subrange(0, i)) <= u32::MAX
            &&& a.width == dec_val(s.subrange(0, i))
            &&& dec_val(s.subrange(i + 1, s.len() as int)) <= u32::MAX
            &&& a.height == dec_val(s.subrange(i + 1, s.len() as int))
        };
    let j = choose|j: int|
        {
            &&& #[trigger] resolution_json_shape(s, j)
            &&& dec_val(s.subrange(0, j)) <= u32::MAX
            &&& b.width == dec_val(s.subrange(0, j))
            &&& dec_val(s.subrange(j + 1, s.len() as int)) <= u32::MAX
            &&& b.height == dec_val(s.subrange(j + 1, s.len() as int))
        };
    assert(i == j);
}

/// A text that denotes a resolution is never rejected: each error
/// condition of [`Resolution::from_json`] contradicts
/// [`resolution_json_parses_to`], so on such a text `from_json` must
/// answer `Ok` — success is owed exactly on the parseable texts.
pub proof fn lemma_parseable_text_is_accepted(s: Seq<char>, r: Resolution)
    requires
        resolution_json_parses_to(s, r),
    ensures
        exists|i: int| 0 <= i < s.len() && #[trigger] s[i] == 'x',
        !(exists|i: int, j: int|
            0 <= i < j < s.len() && #[trigger] s[i] == 'x' && #[trigger] s[j] == 'x'),
        forall|i: int|
            #[trigger] resolution_separator_at(s, i) ==> is_digit_seq(s.subrange(0, i)) && dec_val(
                s.subrange(0, i),
            ) <= u32::MAX && is_digit_seq(s.subrange(i + 1, s.len() as int)) && dec_val(
                s.subrange(i + 1, s.len() as int),
            ) <= u32::MAX,
{
    let k = choose|k: int|
        {
            &&& #[trigger] resolution_json_shape(s, k)
            &&& dec_val(s.subrange(0, k)) <= u32::MAX
            &&& r.width == dec_val(s.subrange(0, k))
            &&& dec_val(s.subrange(k + 1, s.len() as int)) <= u32::MAX
            &&& r.height == dec_val(s.subrange(k + 1, s.len() as int))
        };
    assert(s[k] == 'x');
    if exists|i: int, j: int| 0 <= i < j < s.len() && #[trigger] s[i] == 'x' && #[trigger] s[j]
        == 'x' {
        let (i, j) = choose|i: int, j: int|
            0 <= i < j < s.len() && #[trigger] s[i] == 'x' && #[trigger] s[j] == 'x';
        assert(i == k && j == k);
    }
    assert forall|i: int| #[trigger] resolution_separator_at(s, i) implies is_digit_seq(
        s.subrange(0, i),
    ) && dec_val(s.subrange(0, i)) <= u32::MAX && is_digit_seq(s.subrange(i + 1, s.len() as int))
        && dec_val(s.subrange(i + 1, s.len() as int)) <= u32::MAX by {
        assert(i == k);
    }
}

/// Rendering then reading gives back the same resolution: the law that
/// `to_json` and `from_json` are inverse on every resolution.
pub proof fn lemma_resolution_round_trip(r: Resolution)
    ensures
        resolution_json_parses_to(resolution_json(r.width as nat, r.height as nat), r),
{
    let w = r.width as nat;
    let h = r.height as nat;
    let s = resolution_json(w, h);
    let i = dec_digits(w).len() as int;
    lemma_dec_digits_are_digits(w);
    lemma_dec_digits_are_digits(h);
    lemma_dec_val_of_dec_digits(w);
    lemma_dec_val_of_dec_digits(h);
    assert(s.subrange(0, i) =~= dec_digits(w));
    assert(s.subrange(i + 1, s.len() as int) =~= dec_digits(h));
    assert(s[i] == 'x');
    assert forall|j: int| 0 <= j < s.len() && j != i implies #[trigger] s[j] != 'x' by {
        if j < i {
            assert(s[j] == dec_digits(w)[j]);
            assert(crate::digits::is_dec_digit(dec_digits(w)[j]));
        } else {
            assert(s[j] == dec_digits(h)[j - i - 1]);
            assert(crate::digits::is_dec_digit(dec_digits(h)[j - i - 1]));
        }
    }
    assert(resolution_json_shape(s, i));
}

/// A monitor at a concrete resolution and refresh rate, named by the
/// monitor's name.
#[derive(Clone, PartialEq, Eq, Debug)]
pub struct MonitorInfo {
    pub name: String,
    pub resolution: ResolutionJson,
    pub refresh_rate_hz: RefreshRate,
}

/// How a sink occupies screen space.
#[derive(Clone, PartialEq, Eq, Debug)]
pub enum FullScreenMode {
    Windowed {},
    Borderless { name: String },
    Exclusive { info: MonitorInfo },
}

/// The closed set of sink kinds.
#[derive(Clone, PartialEq, Eq, Debug)]
pub enum SinkType {
    OpenGLWindow { full_screen: FullScreenMode },
}

/// A declared sink: a unique id, a display name and its presentation.
#[derive(Clone, PartialEq, Eq, Debug)]
pub struct SinkConfig {
    pub name: String,
    pub id: u32,
    pub sink: SinkType,
}

} // verus!
