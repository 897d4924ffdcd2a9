//! Decimal notation for `u32` values: rendering a number as the sequence
//! of its decimal digits and reading such a sequence back.

use vstd::prelude::*;
use vstd::string::StrSliceExecFns;
use vstd::string::StringExecFns;

verus! {

/// The character for a single decimal digit.
pub open spec fn digit_char(d: nat) -> char
    recommends
        d < 10,
{
    if d == 0 {
        '0'
    } else if d == 1 {
        '1'
    } else if d == 2 {
        '2'
    } else if d == 3 {
        '3'
    } else if d == 4 {
        '4'
    } else if d == 5 {
        '5'
    } else if d == 6 {
        '6'
    } else if d == 7 {
        '7'
    } else if d == 8 {
        '8'
    } else {
        '9'
    }
}

/// The decimal rendering of `n`, most significant digit first, with no
/// leading zeros (a single `'0'` for zero).
pub open spec fn dec_digits(n: nat) -> Seq<char>
    decreases n,
{
    if n < 10 {
        seq![digit_char(n)]
    } else {
        dec_digits(n / 10) + seq![digit_char(n % 10)]
    }
}

/// Whether `c` is a decimal digit character.
pub open spec fn is_dec_digit(c: char) -> bool {
    ('0' as u32) <= (c as u32) && (c as u32) <= ('9' as u32)
}

/// The numeric value of a decimal digit character.
pub open spec fn digit_val(c: char) -> nat
    recommends
        is_dec_digit(c),
{
    ((c as u32) - ('0' as u32)) as nat
}

/// A non-empty sequence of decimal digit characters.
pub open spec fn is_digit_seq(s: Seq<char>) -> bool {
    s.len() > 0 && forall|i: int| 0 <= i < s.len() ==> is_dec_digit(#[trigger] s[i])
}

/// The numeric value of a sequence of decimal digit characters.
pub open spec fn dec_val(s: Seq<char>) -> nat
    decreases s.len(),
{
    if s.len() == 0 {
        0
    } else {
        dec_val(s.drop_last()) * 10 + digit_val(s.last())
    }
}

/// Rendering produces digit characters only.
pub proof fn lemma_dec_digits_are_digits(n: nat)
    ensures
        is_digit_seq(dec_digits(n)),
        forall|i: int|
            0 <= i < dec_digits(n).len() ==> is_dec_digit(#[trigger] dec_digits(n)[i]),
    decreases n,
{
    if n >= 10 {
        lemma_dec_digits_are_digits(n / 10);
    }
}

/// Reading a rendered number back yields the number: `dec_val` inverts
/// `dec_digits`.
pub proof fn lemma_dec_val_of_dec_digits(n: nat)
    ensures
        dec_val(dec_digits(n)) == n,
    decreases n,
{
    if n < 10 {
        let s = dec_digits(n);
        assert(s =~= seq![digit_char(n)]);
        assert(s.len() == 1);
        assert(s.last() == digit_char(n));
        assert(s.drop_last() =~= Seq::<char>::empty());
        assert(dec_val(s.drop_last()) == 0);
        assert(dec_val(s) == dec_val(s.drop_last()) * 10 + digit_val(s.last()));
        assert(digit_val(digit_char(n)) == n);
    } else {
        let s = dec_digits(n);
        lemma_dec_val_of_dec_digits(n / 10);
        assert(s =~= dec_digits(n / 10) + seq![digit_char(n % 10)]);
        assert(s.len() > 0);
        assert(s.last() == digit_char(n % 10));
        assert(s.drop_last() =~= dec_digits(n / 10));
        assert(dec_val(s) == dec_val(s.drop_last()) * 10 + digit_val(s.last()));
        assert(digit_val(digit_char(n % 10)) == n % 10);
        assert(n == (n / 10) * 10 + n % 10) by (nonlinear_arith);
    }
}

/// Appending further digits never decreases the value.
pub proof fn lemma_dec_val_prefix_le(s: Seq<char>, i: int)
    requires
        0 <= i <= s.len(),
        forall|j: int| 0 <= j < s.len() ==> is_dec_digit(#[trigger] s[j]),
    ensures
        dec_val(s.subrange(0, i)) <= dec_val(s),
    decreases s.len() - i,
{
    if i < s.len() {
        let t = s.subrange(0, i + 1);
        assert(t.drop_last() =~= s.subrange(0, i));
        assert(dec_val(s.subrange(0, i)) <= dec_val(t));
        lemma_dec_val_prefix_le(s, i + 1);
        assert(s.subrange(0, s.len() as int) =~= s);
    } else {
        assert(s.subrange(0, i) =~= s);
    }
}

/// The digit character for a digit value, as a string slice.
fn digit_str(d: u32) -> (s: &'static str)
    requires
        d < 10,
    ensures
        s@ =~= seq![digit_char(d as nat)],
{
    proof {
        reveal_strlit("0");
        reveal_strlit("1");
        reveal_strlit("2");
        reveal_strlit("3");
        reveal_strlit("4");
        reveal_strlit("5");
        reveal_strlit("6");
        reveal_strlit("7");
        reveal_strlit("8");
        reveal_strlit("9");
    }
    if d == 0 {
        "0"
    } else if d == 1 {
        "1"
    } else if d == 2 {
        "2"
    } else if d == 3 {
        "3"
    } else if d == 4 {
        "4"
    } else if d == 5 {
        "5"
    } else if d == 6 {
        "6"
    } else if d == 7 {
        "7"
    } else if d == 8 {
        "8"
    } else {
        "9"
    }
}

/// The decimal rendering of `n` as a `String`.
pub fn u32_to_dec(n: u32) -> (s: String)
    ensures
        s@ == dec_digits(n as nat),
    decreases n,
{
    if n < 10 {
        String::from_str(digit_str(n))
    } else {
        let rest = u32_to_dec(n / 10);
        rest.concat(digit_str(n % 10))
    }
}

/// The numeric value of the digit character `c`, checked.
fn digit_of_char(c: char) -> (r: Option<u32>)
    ensures
        r matches Some(d) ==> is_dec_digit(c) && d == digit_val(c) && d < 10,
        r is None ==> !is_dec_digit(c),
{
    let u = c as u32;
    if 48 <= u && u <= 57 {
        Some(u - 48)
    } else {
        None
    }
}

/// Reads the characters `s[from .. to]` as an unsigned decimal number.
/// Returns `None` when the range is empty, holds a non-digit character,
/// or denotes a value that does not fit in `u32`.
pub fn parse_u32_dec(s: &str, from: usize, to: usize) -> (r: Option<u32>)
    requires
        from <= to <= s@.len(),
    ensures
        ({
            let part = s@.subrange(from as int, to as int);
            &&& r matches Some(v) ==> is_digit_seq(part) && v == dec_val(part) && dec_val(part)
                <= u32::MAX
            &&& r is None ==> !(is_digit_seq(part) && dec_val(part) <= u32::MAX)
        }),
{
    if from == to {
        return None;
    }
    let ghost part = s@.subrange(from as int, to as int);
    let mut acc: u32 = 0;
    let mut i: usize = from;
    while i < to
        invariant
            from <= i <= to <= s@.len(),
            part == s@.subrange(from as int, to as int),
            acc == dec_val(s@.subrange(from as int, i as int)),
            forall|j: int| from <= j < i ==> is_dec_digit(#[trigger] s@[j]),
        decreases to - i,
    {
        let c = s.get_char(i);
        match digit_of_char(c) {
            None => {
                proof {
                    assert(part[i - from] == s@[i as int]);
                    assert(!is_dec_digit(part[i - from]));
                }
                return None;
            },
            Some(d) => {
                let wide: u64 = (acc as u64) * 10 + (d as u64);
                proof {
                    let head = s@.subrange(from as int, i as int);
                    let grown = s@.subrange(from as int, i + 1);
                    assert(grown.drop_last() =~= head);
                    assert(grown.last() == s@[i as int]);
                }
                if wide > u32::MAX as u64 {
                    proof {
                        let grown = s@.subrange(from as int, i + 1);
                        if is_digit_seq(part) {
                            lemma_dec_val_prefix_le(part, i + 1 - from);
                            assert(part.subrange(0, i + 1 - from) =~= grown);
                        }
                    }
                    return None;
                }
                acc = wide as u32;
                i = i + 1;
            },
        }
    }
    proof {
        assert(s@.subrange(from as int, i as int) =~= part);
        assert forall|j: int| 0 <= j < part.len() implies is_dec_digit(#[trigger] part[j]) by {
            assert(part[j] == s@[j + from]);
        }
    }
    Some(acc)
}

} // verus!
