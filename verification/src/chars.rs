//! Character-level utilities shared by the primitive text parsers:
//! digit classification, decimal values of digit runs, string equality,
//! and conversion of string slices into character vectors for indexed
//! scanning.

use vstd::prelude::*;

verus! {

/// A decimal digit character.
pub open spec fn is_digit(c: char) -> bool {
    '0' <= c && c <= '9'
}

/// Numeric value of a single decimal digit character.
pub open spec fn digit_val(c: char) -> int {
    c as int - '0' as int
}

/// Every character of `s` is a decimal digit.
pub open spec fn all_digits(s: Seq<char>) -> bool {
    forall|i: int| 0 <= i < s.len() ==> is_digit(#[trigger] s[i])
}

/// The value of a digit run read as a decimal number, most significant
/// digit first.
pub open spec fn digits_val(s: Seq<char>) -> int
    decreases s.len(),
{
    if s.len() == 0 {
        0
    } else {
        digits_val(s.drop_last()) * 10 + digit_val(s.last())
    }
}

/// The first index at or after `i` that holds a non-digit, or the length
/// of `s` when digits run to the end.
pub open spec fn digit_run_end(s: Seq<char>, i: int) -> int
    decreases s.len() - i,
{
    if i < 0 || i >= s.len() {
        s.len() as int
    } else if is_digit(s[i]) {
        digit_run_end(s, i + 1)
    } else {
        i
    }
}

/// What `digit_run_end` returns: the end of the maximal digit run
/// starting at `i`.
pub proof fn lemma_digit_run_end(s: Seq<char>, i: int)
    requires
        0 <= i <= s.len(),
    ensures
        i <= digit_run_end(s, i) <= s.len(),
        forall|j: int| i <= j < digit_run_end(s, i) ==> is_digit(#[trigger] s[j]),
        digit_run_end(s, i) < s.len() ==> !is_digit(s[digit_run_end(s, i)]),
    decreases s.len() - i,
{
    if i < s.len() && is_digit(s[i]) {
        lemma_digit_run_end(s, i + 1);
    }
}

/// A run of digits has a nonnegative value.
pub proof fn lemma_digits_val_nonneg(s: Seq<char>)
    requires
        all_digits(s),
    ensures
        digits_val(s) >= 0,
    decreases s.len(),
{
    if s.len() > 0 {
        assert(all_digits(s.drop_last())) by {
            assert(forall|i: int| 0 <= i < s.len() - 1 ==> s.drop_last()[i] == s[i]);
        }
        lemma_digits_val_nonneg(s.drop_last());
    }
}

/// Once a prefix of a digit run exceeds 255, so does the whole run.
pub proof fn lemma_digits_val_exceeds(s: Seq<char>, k: int)
    requires
        all_digits(s),
        0 <= k <= s.len(),
        digits_val(s.subrange(0, k)) > 255,
    ensures
        digits_val(s) > 255,
    decreases s.len() - k,
{
    if k == s.len() {
        assert(s.subrange(0, k) =~= s);
    } else {
        let p = s.subrange(0, k + 1);
        assert(p.drop_last() =~= s.subrange(0, k));
        assert(all_digits(s.subrange(0, k + 1))) by {
            assert(forall|i: int| 0 <= i < k + 1 ==> s.subrange(0, k + 1)[i] == s[i]);
        }
        assert(digits_val(p) == digits_val(s.subrange(0, k)) * 10 + digit_val(p.last()));
        lemma_digits_val_exceeds(s, k + 1);
    }
}

/// Exec mirror of `is_digit`.
pub fn digit(c: char) -> (r: bool)
    ensures
        r == is_digit(c),
{
    '0' <= c && c <= '9'
}

/// Exec digit value; meaningful only for digit characters.
pub fn digit_value(c: char) -> (r: u8)
    requires
        is_digit(c),
    ensures
        r == digit_val(c),
{
    (c as u8) - ('0' as u8)
}

/// The byte value written by a string: an optional leading plus sign,
/// then a nonempty run of digits whose decimal value fits in a byte;
/// anything else does not parse.
pub open spec fn dec_u8(s: Seq<char>) -> Option<u8> {
    let t = if s.len() > 0 && s[0] == '+' {
        s.subrange(1, s.len() as int)
    } else {
        s
    };
    if t.len() > 0 && all_digits(t) && digits_val(t) <= 255 {
        Some(digits_val(t) as u8)
    } else {
        None
    }
}

/// The character of a single decimal digit value.
pub open spec fn digit_char(d: int) -> char {
    if d == 0 { '0' }
    else if d == 1 { '1' }
    else if d == 2 { '2' }
    else if d == 3 { '3' }
    else if d == 4 { '4' }
    else if d == 5 { '5' }
    else if d == 6 { '6' }
    else if d == 7 { '7' }
    else if d == 8 { '8' }
    else { '9' }
}

/// The decimal digit characters of a nonnegative number, most significant
/// digit first, without leading zeros.
pub open spec fn dec_digits(n: int) -> Seq<char>
    decreases n,
{
    if n < 10 {
        seq![digit_char(n)]
    } else {
        dec_digits(n / 10) + seq![digit_char(n % 10)]
    }
}

/// Exec mirror of `digit_char`.
pub fn digit_char_of(d: u8) -> (c: char)
    requires
        d < 10,
    ensures
        c == digit_char(d as int),
{
    if d == 0 { '0' }
    else if d == 1 { '1' }
    else if d == 2 { '2' }
    else if d == 3 { '3' }
    else if d == 4 { '4' }
    else if d == 5 { '5' }
    else if d == 6 { '6' }
    else if d == 7 { '7' }
    else if d == 8 { '8' }
    else { '9' }
}

/// Appends the decimal digits of `n` to `out`.
pub fn push_dec_digits(out: &mut Vec<char>, n: usize)
    ensures
        final(out)@ == old(out)@ + dec_digits(n as int),
    decreases n,
{
    if n < 10 {
        out.push(digit_char_of(n as u8));
        proof {
            assert(final(out)@ =~= old(out)@ + dec_digits(n as int));
        }
    } else {
        push_dec_digits(out, n / 10);
        out.push(digit_char_of((n % 10) as u8));
        proof {
            assert(final(out)@ =~= old(out)@ + dec_digits(n as int));
        }
    }
}

/// Appends the characters of a string slice to `out`.
pub fn push_str_chars(out: &mut Vec<char>, s: &str)
    ensures
        final(out)@ == old(out)@ + s@,
{
    let mut t = str_to_chars(s);
    out.append(&mut t);
}

/// Relies on `String`'s `FromIterator` collection over characters: the
/// collected string holds exactly the characters of the vector.
#[verifier::external_body]
pub fn chars_to_string(cs: &Vec<char>) -> (r: String)
    ensures
        r@ == cs@,
{
    cs.iter().collect()
}

/// Copies the characters of a string slice into a vector, so that callers
/// can scan by index.
pub fn str_to_chars(s: &str) -> (r: Vec<char>)
    ensures
        r@ == s@,
{
    let n: usize = s.unicode_len();
    let mut r: Vec<char> = Vec::new();
    let mut i: usize = 0;
    while i < n
        invariant
            n == s@.len(),
            i <= n,
            r@ == s@.subrange(0, i as int),
        decreases n - i,
    {
        r.push(s.get_char(i));
        i = i + 1;
        proof {
            assert(r@ =~= s@.subrange(0, i as int));
        }
    }
    proof {
        assert(r@ =~= s@);
    }
    r
}

/// Compares two string slices character by character.
pub fn str_eq(a: &str, b: &str) -> (r: bool)
    ensures
        r == (a@ == b@),
{
    let n: usize = a.unicode_len();
    let m: usize = b.unicode_len();
    if n != m {
        return false;
    }
    let mut i: usize = 0;
    while i < n
        invariant
            n == a@.len(),
            n == b@.len(),
            i <= n,
            forall|j: int| 0 <= j < i ==> a@[j] == b@[j],
        decreases n - i,
    {
        if a.get_char(i) != b.get_char(i) {
            return false;
        }
        i = i + 1;
    }
    proof {
        assert(a@ =~= b@);
    }
    true
}

/// Finds the end of the maximal digit run of `cs` starting at `from`.
pub fn scan_digits(cs: &Vec<char>, from: usize) -> (r: usize)
    requires
        from <= cs@.len(),
    ensures
        r == digit_run_end(cs@, from as int),
        from <= r <= cs@.len(),
    decreases cs@.len() - from,
{
    proof {
        lemma_digit_run_end(cs@, from as int);
    }
    if from < cs.len() && digit(cs[from]) {
        scan_digits(cs, from + 1)
    } else {
        from
    }
}

/// Parses a whole string as a decimal byte value, tolerating a leading
/// plus sign.
pub fn parse_u8(s: &str) -> (r: Option<u8>)
    ensures
        r == dec_u8(s@),
{
    let cs = str_to_chars(s);
    let n = cs.len();
    let start: usize = if n > 0 && cs[0] == '+' {
        1
    } else {
        0
    };
    let ghost t = if start == 1 {
        cs@.subrange(1, n as int)
    } else {
        cs@
    };
    if n == start {
        proof {
            assert(t.len() == 0);
        }
        return None;
    }
    let run = scan_digits(&cs, start);
    proof {
        lemma_digit_run_end(cs@, start as int);
        assert(t =~= cs@.subrange(start as int, n as int));
    }
    if run != n {
        proof {
            assert(cs@[run as int] == t[run - start]);
            assert(!all_digits(t));
        }
        return None;
    }
    proof {
        assert forall|j: int| 0 <= j < t.len() implies is_digit(#[trigger] t[j]) by {
            assert(t[j] == cs@[start + j]);
        }
        assert(all_digits(t));
        if digits_val(t) > 255 {
            assert(dec_u8(s@) is None);
        }
    }
    vec_digits_value(&cs, start, n)
}

/// Reads the decimal value of the digit run `cs[start..end]`; `None` when
/// the value does not fit in a byte.
pub fn vec_digits_value(cs: &Vec<char>, start: usize, end: usize) -> (r: Option<u8>)
    requires
        start <= end <= cs@.len(),
        forall|j: int| start <= j < end ==> is_digit(#[trigger] cs@[j]),
    ensures
        match r {
            Some(v) => digits_val(cs@.subrange(start as int, end as int)) == v,
            None => digits_val(cs@.subrange(start as int, end as int)) > 255,
        },
{
    let ghost whole = cs@.subrange(start as int, end as int);
    proof {
        assert(all_digits(whole));
    }
    let mut acc: u32 = 0;
    let mut i: usize = start;
    while i < end
        invariant
            start <= i <= end <= cs@.len(),
            forall|j: int| start <= j < end ==> is_digit(#[trigger] cs@[j]),
            whole == cs@.subrange(start as int, end as int),
            acc == digits_val(cs@.subrange(start as int, i as int)),
            acc <= 255,
        decreases end - i,
    {
        let d = digit_value(cs[i]);
        let next: u32 = acc * 10 + d as u32;
        proof {
            let p = cs@.subrange(start as int, i + 1);
            assert(p.drop_last() =~= cs@.subrange(start as int, i as int));
            assert(digits_val(p) == acc * 10 + digit_val(cs@[i as int]));
        }
        i = i + 1;
        if next > 255 {
            proof {
                assert(whole.subrange(0, i - start) =~= cs@.subrange(start as int, i as int));
                lemma_digits_val_exceeds(whole, i - start);
            }
            return None;
        }
        acc = next;
    }
    proof {
        assert(cs@.subrange(start as int, end as int) =~= whole);
    }
    Some(acc as u8)
}

} // verus!
