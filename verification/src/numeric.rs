//! Numeric strings.

use vstd::prelude::*;

verus! {

pub open spec fn is_space(b: u8) -> bool {
    b == 32 || 9 <= b <= 13
}

pub open spec fn is_digit(b: u8) -> bool {
    48 <= b <= 57
}

pub open spec fn is_sign(b: u8) -> bool {
    b == 43 || b == 45
}

/// The first place from `i` on where no white space stands.
pub open spec fn after_spaces(w: Seq<u8>, i: int) -> int
    decreases w.len() - i,
{
    if i < w.len() && is_space(w[i]) {
        after_spaces(w, i + 1)
    } else {
        i
    }
}

/// The first place from `i` on where no digit stands.
pub open spec fn after_digits(w: Seq<u8>, i: int) -> int
    decreases w.len() - i,
{
    if i < w.len() && is_digit(w[i]) {
        after_digits(w, i + 1)
    } else {
        i
    }
}

pub open spec fn after_sign(w: Seq<u8>, i: int) -> int {
    if i < w.len() && is_sign(w[i]) {
        i + 1
    } else {
        i
    }
}

/// Where the exponent that may stand at `i` ends.
pub open spec fn after_exponent(w: Seq<u8>, i: int) -> int {
    if i < w.len() && (w[i] == 101 || w[i] == 69) {
        let digits = after_sign(w, i + 1);
        if after_digits(w, digits) > digits {
            after_digits(w, digits)
        } else {
            i
        }
    } else {
        i
    }
}

/// A number in decimal notation, with white space round it allowed.
pub open spec fn is_numeric(w: Seq<u8>) -> bool {
    let whole = after_sign(w, after_spaces(w, 0));
    let point = after_digits(w, whole);
    let has_point = point < w.len() && w[point] == 46;
    let end = if has_point {
        after_digits(w, point + 1)
    } else {
        point
    };
    let digits = if has_point {
        end - whole - 1
    } else {
        end - whole
    };
    &&& digits > 0
    &&& after_spaces(w, after_exponent(w, end)) == w.len()
}

fn skip_spaces(w: &[u8], start: usize) -> (end: usize)
    requires
        start <= w.len(),
    ensures
        start <= end <= w.len(),
        end == after_spaces(w@, start as int),
{
    let mut i: usize = start;
    while i < w.len() && (w[i] == 32 || (9 <= w[i] && w[i] <= 13))
        invariant
            start <= i <= w.len(),
            after_spaces(w@, start as int) == after_spaces(w@, i as int),
        decreases w.len() - i,
    {
        i = i + 1;
    }
    i
}

fn skip_digits(w: &[u8], start: usize) -> (end: usize)
    requires
        start <= w.len(),
    ensures
        start <= end <= w.len(),
        end == after_digits(w@, start as int),
{
    let mut i: usize = start;
    while i < w.len() && 48 <= w[i] && w[i] <= 57
        invariant
            start <= i <= w.len(),
            after_digits(w@, start as int) == after_digits(w@, i as int),
        decreases w.len() - i,
    {
        i = i + 1;
    }
    i
}

fn skip_sign(w: &[u8], start: usize) -> (end: usize)
    requires
        start <= w.len(),
    ensures
        start <= end <= w.len(),
        end == after_sign(w@, start as int),
{
    if start < w.len() && (w[start] == 43 || w[start] == 45) {
        start + 1
    } else {
        start
    }
}

fn skip_exponent(w: &[u8], start: usize) -> (end: usize)
    requires
        start <= w.len(),
    ensures
        start <= end <= w.len(),
        end == after_exponent(w@, start as int),
{
    if start < w.len() && (w[start] == 101 || w[start] == 69) {
        let digits: usize = skip_sign(w, start + 1);
        let end: usize = skip_digits(w, digits);
        if end > digits {
            end
        } else {
            start
        }
    } else {
        start
    }
}

/// Whether a string is a number to the analysed program.
pub fn str_is_numeric(w: &[u8]) -> (numeric: bool)
    ensures
        numeric == is_numeric(w@),
{
    let whole: usize = skip_sign(w, skip_spaces(w, 0));
    let point: usize = skip_digits(w, whole);
    let has_point: bool = point < w.len() && w[point] == 46;
    let end: usize = if has_point {
        skip_digits(w, point + 1)
    } else {
        point
    };
    let digits: usize = if has_point {
        end - whole - 1
    } else {
        end - whole
    };
    digits > 0 && skip_spaces(w, skip_exponent(w, end)) == w.len()
}

} // verus!
