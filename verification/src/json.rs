//! A verified JSON codec for assembled courses.  The emitter writes one
//! canonical shape: objects with a fixed field order, no whitespace,
//! strings with backslash escapes for quotes and backslashes, and absent
//! optional fields written as explicit `null` (never conflated with an
//! empty present list).  The parser accepts exactly that shape, and
//! parsing an emitted course yields the original record.

use vstd::prelude::*;
use crate::chars::{dec_digits, digit_run_end, digits_val, is_digit, lemma_digit_run_end,
    all_digits};
use crate::types::{AmPm, ClassDays, Classtime, CourseM, CreditCount, LocationM, MeetingM,
    SectionM, Time};

verus! {

// ---------------------------------------------------------------------
// Strings.

/// The escape of one character: quotes and backslashes are preceded by a
/// backslash; everything else stands for itself.
pub open spec fn esc_char(c: char) -> Seq<char> {
    if c == '"' || c == '\\' {
        seq!['\\', c]
    } else {
        seq![c]
    }
}

/// The escaped body of a string.
pub open spec fn esc(s: Seq<char>) -> Seq<char>
    decreases s.len(),
{
    if s.len() == 0 {
        Seq::empty()
    } else {
        esc_char(s[0]) + esc(s.subrange(1, s.len() as int))
    }
}

/// A JSON string: the escaped body between quotes.
pub open spec fn ser_str(s: Seq<char>) -> Seq<char> {
    seq!['"'] + esc(s) + seq!['"']
}

/// Parses the body of a JSON string up to its closing quote, returning
/// the unescaped text and the rest of the input.
pub open spec fn parse_str_body(s: Seq<char>) -> Option<(Seq<char>, Seq<char>)>
    decreases s.len(),
{
    if s.len() == 0 {
        None
    } else if s[0] == '"' {
        Some((Seq::empty(), s.subrange(1, s.len() as int)))
    } else if s[0] == '\\' {
        if s.len() < 2 {
            None
        } else {
            match parse_str_body(s.subrange(2, s.len() as int)) {
                None => None,
                Some((t, r)) => Some((seq![s[1]] + t, r)),
            }
        }
    } else {
        match parse_str_body(s.subrange(1, s.len() as int)) {
            None => None,
            Some((t, r)) => Some((seq![s[0]] + t, r)),
        }
    }
}

/// Parses a JSON string, quotes included.
pub open spec fn parse_str(s: Seq<char>) -> Option<(Seq<char>, Seq<char>)> {
    if s.len() == 0 || s[0] != '"' {
        None
    } else {
        parse_str_body(s.subrange(1, s.len() as int))
    }
}

/// Parsing the emitted body of a string recovers the string.
proof fn lemma_str_body_round(s: Seq<char>, rest: Seq<char>)
    ensures
        parse_str_body(esc(s) + seq!['"'] + rest) == Some((s, rest)),
    decreases s.len(),
{
    let whole = esc(s) + seq!['"'] + rest;
    if s.len() == 0 {
        assert(whole[0] == '"');
        assert(whole.subrange(1, whole.len() as int) =~= rest);
    } else {
        let c = s[0];
        let tail = s.subrange(1, s.len() as int);
        lemma_str_body_round(tail, rest);
        if c == '"' || c == '\\' {
            assert(whole[0] == '\\');
            assert(whole[1] == c);
            assert(whole.len() >= 2);
            assert(whole.subrange(2, whole.len() as int) =~= esc(tail) + seq!['"'] + rest);
            assert(seq![c] + tail =~= s);
        } else {
            assert(whole[0] == c);
            assert(c != '"' && c != '\\');
            assert(whole.subrange(1, whole.len() as int) =~= esc(tail) + seq!['"'] + rest);
            assert(seq![c] + tail =~= s);
        }
    }
}

/// Parsing an emitted string recovers the string.
proof fn lemma_str_round(s: Seq<char>, rest: Seq<char>)
    ensures
        parse_str(ser_str(s) + rest) == Some((s, rest)),
{
    let whole = ser_str(s) + rest;
    assert(whole[0] == '"');
    assert(whole.subrange(1, whole.len() as int) =~= esc(s) + seq!['"'] + rest);
    lemma_str_body_round(s, rest);
}

// ---------------------------------------------------------------------
// Literals and numbers.

/// Parses an exact literal prefix, returning the rest of the input.
pub open spec fn parse_lit(s: Seq<char>, lit: Seq<char>) -> Option<Seq<char>> {
    if lit.len() <= s.len() && s.subrange(0, lit.len() as int) == lit {
        Some(s.subrange(lit.len() as int, s.len() as int))
    } else {
        None
    }
}

/// Parsing an emitted literal recovers the rest.
proof fn lemma_lit_round(lit: Seq<char>, rest: Seq<char>)
    ensures
        parse_lit(lit + rest, lit) == Some(rest),
{
    let whole = lit + rest;
    assert(whole.subrange(0, lit.len() as int) =~= lit);
    assert(whole.subrange(lit.len() as int, whole.len() as int) =~= rest);
}

/// Parses a decimal byte value: a nonempty digit run whose value fits in
/// a byte, read maximally.
pub open spec fn parse_num(s: Seq<char>) -> Option<(u8, Seq<char>)> {
    let e = digit_run_end(s, 0);
    if e == 0 {
        None
    } else {
        let v = digits_val(s.subrange(0, e));
        if v > 255 {
            None
        } else {
            Some((v as u8, s.subrange(e, s.len() as int)))
        }
    }
}

/// A digit's character reads back to the digit.
proof fn lemma_digit_char_val(d: int)
    requires
        0 <= d < 10,
    ensures
        crate::chars::digit_val(crate::chars::digit_char(d)) == d,
        is_digit(crate::chars::digit_char(d)),
{
}

/// The decimal digits of a byte are digits, nonempty, and read back to
/// the byte.
proof fn lemma_dec_digits(n: int)
    requires
        0 <= n,
    ensures
        all_digits(dec_digits(n)),
        dec_digits(n).len() >= 1,
        digits_val(dec_digits(n)) == n,
    decreases n,
{
    if n < 10 {
        lemma_digit_char_val(n);
        let d = dec_digits(n);
        assert(d =~= seq![crate::chars::digit_char(n)]);
        assert(d.drop_last() =~= Seq::<char>::empty());
        assert(d.last() == crate::chars::digit_char(n));
        assert(digits_val(d) == digits_val(d.drop_last()) * 10 + crate::chars::digit_val(
            d.last(),
        ));
        assert(digits_val(d.drop_last()) == 0);
    } else {
        lemma_dec_digits(n / 10);
        lemma_digit_char_val(n % 10);
        let d = dec_digits(n);
        assert(d =~= dec_digits(n / 10) + seq![crate::chars::digit_char(n % 10)]);
        assert(d.drop_last() =~= dec_digits(n / 10));
        assert(d.last() == crate::chars::digit_char(n % 10));
        assert(digits_val(d) == digits_val(d.drop_last()) * 10 + crate::chars::digit_val(
            d.last(),
        ));
        assert(digits_val(d.drop_last()) == n / 10);
        assert(n / 10 * 10 + n % 10 == n);
        assert(all_digits(d)) by {
            assert(forall|i: int| 0 <= i < d.len() - 1 ==> d[i] == dec_digits(n / 10)[i]);
        }
    }
}

/// A digit run of known extent ends exactly there.
proof fn lemma_digit_run_end_exact(s: Seq<char>, k: int)
    requires
        0 <= k <= s.len(),
        forall|i: int| 0 <= i < k ==> is_digit(#[trigger] s[i]),
        k < s.len() ==> !is_digit(s[k]),
    ensures
        digit_run_end(s, 0) == k,
{
    lemma_digit_run_end_exact_from(s, 0, k);
}

/// Helper: the run from `j` inside a digit prefix ends at `k`.
proof fn lemma_digit_run_end_exact_from(s: Seq<char>, j: int, k: int)
    requires
        0 <= j <= k <= s.len(),
        forall|i: int| j <= i < k ==> is_digit(#[trigger] s[i]),
        k < s.len() ==> !is_digit(s[k]),
    ensures
        digit_run_end(s, j) == k,
    decreases k - j,
{
    if j < k {
        lemma_digit_run_end_exact_from(s, j + 1, k);
    }
}

/// Parsing an emitted byte recovers the byte, provided the rest does not
/// begin with a digit.
proof fn lemma_num_round(n: u8, rest: Seq<char>)
    requires
        rest.len() == 0 || !is_digit(rest[0]),
    ensures
        parse_num(dec_digits(n as int) + rest) == Some((n, rest)),
{
    let d = dec_digits(n as int);
    let whole = d + rest;
    lemma_dec_digits(n as int);
    lemma_digit_run_end_exact(whole, d.len() as int);
    assert(whole.subrange(0, d.len() as int) =~= d);
    assert(whole.subrange(d.len() as int, whole.len() as int) =~= rest);
}

// ---------------------------------------------------------------------
// Times.

/// The name of an am/pm marker.
pub open spec fn ampm_str(a: AmPm) -> Seq<char> {
    match a {
        AmPm::Am => "Am"@,
        AmPm::Pm => "Pm"@,
    }
}

/// A time as a three-element array: hour, minute, marker.
#[verifier::opaque]
pub open spec fn ser_time(t: Time) -> Seq<char> {
    "["@ + dec_digits(t.0 as int) + ","@ + dec_digits(t.1 as int) + ","@ + ser_str(ampm_str(t.2))
        + "]"@
}

/// Parses a time array.
#[verifier::opaque]
pub open spec fn parse_time_j(s: Seq<char>) -> Option<(Time, Seq<char>)> {
    match parse_lit(s, "["@) {
        None => None,
        Some(s1) => match parse_num(s1) {
            None => None,
            Some((h, s2)) => match parse_lit(s2, ","@) {
                None => None,
                Some(s3) => match parse_num(s3) {
                    None => None,
                    Some((m, s4)) => match parse_lit(s4, ","@) {
                        None => None,
                        Some(s5) => match parse_str(s5) {
                            None => None,
                            Some((ap, s6)) => match parse_lit(s6, "]"@) {
                                None => None,
                                Some(s7) => if ap == "Am"@ {
                                    Some((Time(h, m, AmPm::Am), s7))
                                } else if ap == "Pm"@ {
                                    Some((Time(h, m, AmPm::Pm), s7))
                                } else {
                                    None
                                },
                            },
                        },
                    },
                },
            },
        },
    }
}

/// Parsing an emitted time recovers the time.
proof fn lemma_time_round(t: Time, rest: Seq<char>)
    ensures
        parse_time_j(ser_time(t) + rest) == Some((t, rest)),
{
    reveal(ser_time);
    reveal(parse_time_j);
    reveal_strlit("[");
    reveal_strlit(",");
    reveal_strlit("]");
    reveal_strlit("Am");
    reveal_strlit("Pm");
    let whole = ser_time(t) + rest;
    let r1 = dec_digits(t.0 as int) + ","@ + dec_digits(t.1 as int) + ","@ + ser_str(
        ampm_str(t.2),
    ) + "]"@ + rest;
    assert(whole =~= "["@ + r1);
    lemma_lit_round("["@, r1);
    let r2 = ","@ + dec_digits(t.1 as int) + ","@ + ser_str(ampm_str(t.2)) + "]"@ + rest;
    assert(r1 =~= dec_digits(t.0 as int) + r2);
    assert(!is_digit(r2[0]));
    lemma_num_round(t.0, r2);
    let r3 = dec_digits(t.1 as int) + ","@ + ser_str(ampm_str(t.2)) + "]"@ + rest;
    assert(r2 =~= ","@ + r3);
    lemma_lit_round(","@, r3);
    let r4 = ","@ + ser_str(ampm_str(t.2)) + "]"@ + rest;
    assert(r3 =~= dec_digits(t.1 as int) + r4);
    assert(!is_digit(r4[0]));
    lemma_num_round(t.1, r4);
    let r5 = ser_str(ampm_str(t.2)) + "]"@ + rest;
    assert(r4 =~= ","@ + r5);
    lemma_lit_round(","@, r5);
    let r6 = "]"@ + rest;
    assert(r5 =~= ser_str(ampm_str(t.2)) + r6);
    lemma_str_round(ampm_str(t.2), r6);
    lemma_lit_round("]"@, rest);
    assert(ampm_str(t.2) == "Am"@ ==> t.2 is Am);
    assert(t.2 is Pm ==> ampm_str(t.2) == "Pm"@ && "Pm"@ != "Am"@);
}

// ---------------------------------------------------------------------
// Classtimes.

/// The name of a day pattern.
pub open spec fn days_str(d: ClassDays) -> Seq<char> {
    match d {
        ClassDays::M => "M"@,
        ClassDays::Tu => "Tu"@,
        ClassDays::W => "W"@,
        ClassDays::Th => "Th"@,
        ClassDays::F => "F"@,
        ClassDays::MWF => "MWF"@,
        ClassDays::MW => "MW"@,
        ClassDays::WF => "WF"@,
        ClassDays::TuTh => "TuTh"@,
        ClassDays::MTuWThF => "MTuWThF"@,
        ClassDays::MF => "MF"@,
        ClassDays::Sa => "Sa"@,
        ClassDays::Su => "Su"@,
        ClassDays::SaSu => "SaSu"@,
        ClassDays::MTu => "MTu"@,
        ClassDays::MTuThF => "MTuThF"@,
        ClassDays::MTuWTh => "MTuWTh"@,
        ClassDays::TuF => "TuF"@,
        ClassDays::TuWTh => "TuWTh"@,
        ClassDays::WTh => "WTh"@,
        ClassDays::MWTh => "MWTh"@,
        ClassDays::MTh => "MTh"@,
    }
}

/// The name of a day pattern names that pattern and no other.
#[verifier::rlimit(100)]
proof fn lemma_day_pattern_of_name(d: ClassDays)
    ensures
        crate::types::day_pattern(days_str(d)) == Some(d),
{
    reveal_strlit("M");
    reveal_strlit("Tu");
    reveal_strlit("W");
    reveal_strlit("Th");
    reveal_strlit("F");
    reveal_strlit("MWF");
    reveal_strlit("MW");
    reveal_strlit("WF");
    reveal_strlit("TuTh");
    reveal_strlit("MTuWThF");
    reveal_strlit("MF");
    reveal_strlit("Sa");
    reveal_strlit("Su");
    reveal_strlit("SaSu");
    reveal_strlit("MTu");
    reveal_strlit("MTuThF");
    reveal_strlit("MTuWTh");
    reveal_strlit("TuF");
    reveal_strlit("TuWTh");
    reveal_strlit("WTh");
    reveal_strlit("MWTh");
    reveal_strlit("MTh");
    if d == ClassDays::M {
        assert(crate::types::day_pattern("M"@) == Some(ClassDays::M)) by {

        }
    }
    if d == ClassDays::Tu {
        assert(crate::types::day_pattern("Tu"@) == Some(ClassDays::Tu)) by {
            assert("Tu"@ != "M"@) by {
                assert("Tu"@.len() != "M"@.len());
            }
        }
    }
    if d == ClassDays::W {
        assert(crate::types::day_pattern("W"@) == Some(ClassDays::W)) by {
            assert("W"@ != "M"@) by {
                assert("W"@[0] != "M"@[0]);
            }
            assert("W"@ != "Tu"@) by {
                assert("W"@.len() != "Tu"@.len());
            }
        }
    }
    if d == ClassDays::Th {
        assert(crate::types::day_pattern("Th"@) == Some(ClassDays::Th)) by {
            assert("Th"@ != "M"@) by {
                assert("Th"@.len() != "M"@.len());
            }
            assert("Th"@ != "Tu"@) by {
                assert("Th"@[1] != "Tu"@[1]);
            }
            assert("Th"@ != "W"@) by {
                assert("Th"@.len() != "W"@.len());
            }
        }
    }
    if d == ClassDays::F {
        assert(crate::types::day_pattern("F"@) == Some(ClassDays::F)) by {
            assert("F"@ != "M"@) by {
                assert("F"@[0] != "M"@[0]);
            }
            assert("F"@ != "Tu"@) by {
                assert("F"@.len() != "Tu"@.len());
            }
            assert("F"@ != "W"@) by {
                assert("F"@[0] != "W"@[0]);
            }
            assert("F"@ != "Th"@) by {
                assert("F"@.len() != "Th"@.len());
            }
        }
    }
    if d == ClassDays::MWF {
        assert(crate::types::day_pattern("MWF"@) == Some(ClassDays::MWF)) by {
            assert("MWF"@ != "M"@) by {
                assert("MWF"@.len() != "M"@.len());
            }
            assert("MWF"@ != "Tu"@) by {
                assert("MWF"@.len() != "Tu"@.len());
            }
            assert("MWF"@ != "W"@) by {
                assert("MWF"@.len() != "W"@.len());
            }
            assert("MWF"@ != "Th"@) by {
                assert("MWF"@.len() != "Th"@.len());
            }
            assert("MWF"@ != "F"@) by {
                assert("MWF"@.len() != "F"@.len());
            }
        }
    }
    if d == ClassDays::MW {
        assert(crate::types::day_pattern("MW"@) == Some(ClassDays::MW)) by {
            assert("MW"@ != "M"@) by {
                assert("MW"@.len() != "M"@.len());
            }
            assert("MW"@ != "Tu"@) by {
                assert("MW"@[0] != "Tu"@[0]);
            }
            assert("MW"@ != "W"@) by {
                assert("MW"@.len() != "W"@.len());
            }
            assert("MW"@ != "Th"@) by {
                assert("MW"@[0] != "Th"@[0]);
            }
            assert("MW"@ != "F"@) by {
                assert("MW"@.len() != "F"@.len());
            }
            assert("MW"@ != "MWF"@) by {
                assert("MW"@.len() != "MWF"@.len());
            }
        }
    }
    if d == ClassDays::WF {
        assert(crate::types::day_pattern("WF"@) == Some(ClassDays::WF)) by {
            assert("WF"@ != "M"@) by {
                assert("WF"@.len() != "M"@.len());
            }
            assert("WF"@ != "Tu"@) by {
                assert("WF"@[0] != "Tu"@[0]);
            }
            assert("WF"@ != "W"@) by {
                assert("WF"@.len() != "W"@.len());
            }
            assert("WF"@ != "Th"@) by {
                assert("WF"@[0] != "Th"@[0]);
            }
            assert("WF"@ != "F"@) by {
                assert("WF"@.len() != "F"@.len());
            }
            assert("WF"@ != "MWF"@) by {
                assert("WF"@.len() != "MWF"@.len());
            }
            assert("WF"@ != "MW"@) by {
                assert("WF"@[0] != "MW"@[0]);
            }
        }
    }
    if d == ClassDays::TuTh {
        assert(crate::types::day_pattern("TuTh"@) == Some(ClassDays::TuTh)) by {
            assert("TuTh"@ != "M"@) by {
                assert("TuTh"@.len() != "M"@.len());
            }
            assert("TuTh"@ != "Tu"@) by {
                assert("TuTh"@.len() != "Tu"@.len());
            }
            assert("TuTh"@ != "W"@) by {
                assert("TuTh"@.len() != "W"@.len());
            }
            assert("TuTh"@ != "Th"@) by {
                assert("TuTh"@.len() != "Th"@.len());
            }
            assert("TuTh"@ != "F"@) by {
                assert("TuTh"@.len() != "F"@.len());
            }
            assert("TuTh"@ != "MWF"@) by {
                assert("TuTh"@.len() != "MWF"@.len());
            }
            assert("TuTh"@ != "MW"@) by {
                assert("TuTh"@.len() != "MW"@.len());
            }
            assert("TuTh"@ != "WF"@) by {
                assert("TuTh"@.len() != "WF"@.len());
            }
        }
    }
    if d == ClassDays::MTuWThF {
        assert(crate::types::day_pattern("MTuWThF"@) == Some(ClassDays::MTuWThF)) by {
            assert("MTuWThF"@ != "M"@) by {
                assert("MTuWThF"@.len() != "M"@.len());
            }
            assert("MTuWThF"@ != "Tu"@) by {
                assert("MTuWThF"@.len() != "Tu"@.len());
            }
            assert("MTuWThF"@ != "W"@) by {
                assert("MTuWThF"@.len() != "W"@.len());
            }
            assert("MTuWThF"@ != "Th"@) by {
                assert("MTuWThF"@.len() != "Th"@.len());
            }
            assert("MTuWThF"@ != "F"@) by {
                assert("MTuWThF"@.len() != "F"@.len());
            }
            assert("MTuWThF"@ != "MWF"@) by {
                assert("MTuWThF"@.len() != "MWF"@.len());
            }
            assert("MTuWThF"@ != "MW"@) by {
                assert("MTuWThF"@.len() != "MW"@.len());
            }
            assert("MTuWThF"@ != "WF"@) by {
                assert("MTuWThF"@.len() != "WF"@.len());
            }
            assert("MTuWThF"@ != "TuTh"@) by {
                assert("MTuWThF"@.len() != "TuTh"@.len());
            }
        }
    }
    if d == ClassDays::MF {
        assert(crate::types::day_pattern("MF"@) == Some(ClassDays::MF)) by {
            assert("MF"@ != "M"@) by {
                assert("MF"@.len() != "M"@.len());
            }
            assert("MF"@ != "Tu"@) by {
                assert("MF"@[0] != "Tu"@[0]);
            }
            assert("MF"@ != "W"@) by {
                assert("MF"@.len() != "W"@.len());
            }
            assert("MF"@ != "Th"@) by {
                assert("MF"@[0] != "Th"@[0]);
            }
            assert("MF"@ != "F"@) by {
                assert("MF"@.len() != "F"@.len());
            }
            assert("MF"@ != "MWF"@) by {
                assert("MF"@.len() != "MWF"@.len());
            }
            assert("MF"@ != "MW"@) by {
                assert("MF"@[1] != "MW"@[1]);
            }
            assert("MF"@ != "WF"@) by {
                assert("MF"@[0] != "WF"@[0]);
            }
            assert("MF"@ != "TuTh"@) by {
                assert("MF"@.len() != "TuTh"@.len());
            }
            assert("MF"@ != "MTuWThF"@) by {
                assert("MF"@.len() != "MTuWThF"@.len());
            }
        }
    }
    if d == ClassDays::Sa {
        assert(crate::types::day_pattern("Sa"@) == Some(ClassDays::Sa)) by {
            assert("Sa"@ != "M"@) by {
                assert("Sa"@.len() != "M"@.len());
            }
            assert("Sa"@ != "Tu"@) by {
                assert("Sa"@[0] != "Tu"@[0]);
            }
            assert("Sa"@ != "W"@) by {
                assert("Sa"@.len() != "W"@.len());
            }
            assert("Sa"@ != "Th"@) by {
                assert("Sa"@[0] != "Th"@[0]);
            }
            assert("Sa"@ != "F"@) by {
                assert("Sa"@.len() != "F"@.len());
            }
            assert("Sa"@ != "MWF"@) by {
                assert("Sa"@.len() != "MWF"@.len());
            }
            assert("Sa"@ != "MW"@) by {
                assert("Sa"@[0] != "MW"@[0]);
            }
            assert("Sa"@ != "WF"@) by {
                assert("Sa"@[0] != "WF"@[0]);
            }
            assert("Sa"@ != "TuTh"@) by {
                assert("Sa"@.len() != "TuTh"@.len());
            }
            assert("Sa"@ != "MTuWThF"@) by {
                assert("Sa"@.len() != "MTuWThF"@.len());
            }
            assert("Sa"@ != "MF"@) by {
                assert("Sa"@[0] != "MF"@[0]);
            }
        }
    }
    if d == ClassDays::Su {
        assert(crate::types::day_pattern("Su"@) == Some(ClassDays::Su)) by {
            assert("Su"@ != "M"@) by {
                assert("Su"@.len() != "M"@.len());
            }
            assert("Su"@ != "Tu"@) by {
                assert("Su"@[0] != "Tu"@[0]);
            }
            assert("Su"@ != "W"@) by {
                assert("Su"@.len() != "W"@.len());
            }
            assert("Su"@ != "Th"@) by {
                assert("Su"@[0] != "Th"@[0]);
            }
            assert("Su"@ != "F"@) by {
                assert("Su"@.len() != "F"@.len());
            }
            assert("Su"@ != "MWF"@) by {
                assert("Su"@.len() != "MWF"@.len());
            }
            assert("Su"@ != "MW"@) by {
                assert("Su"@[0] != "MW"@[0]);
            }
            assert("Su"@ != "WF"@) by {
                assert("Su"@[0] != "WF"@[0]);
            }
            assert("Su"@ != "TuTh"@) by {
                assert("Su"@.len() != "TuTh"@.len());
            }
            assert("Su"@ != "MTuWThF"@) by {
                assert("Su"@.len() != "MTuWThF"@.len());
            }
            assert("Su"@ != "MF"@) by {
                assert("Su"@[0] != "MF"@[0]);
            }
            assert("Su"@ != "Sa"@) by {
                assert("Su"@[1] != "Sa"@[1]);
            }
        }
    }
    if d == ClassDays::SaSu {
        assert(crate::types::day_pattern("SaSu"@) == Some(ClassDays::SaSu)) by {
            assert("SaSu"@ != "M"@) by {
                assert("SaSu"@.len() != "M"@.len());
            }
            assert("SaSu"@ != "Tu"@) by {
                assert("SaSu"@.len() != "Tu"@.len());
            }
            assert("SaSu"@ != "W"@) by {
                assert("SaSu"@.len() != "W"@.len());
            }
            assert("SaSu"@ != "Th"@) by {
                assert("SaSu"@.len() != "Th"@.len());
            }
            assert("SaSu"@ != "F"@) by {
                assert("SaSu"@.len() != "F"@.len());
            }
            assert("SaSu"@ != "MWF"@) by {
                assert("SaSu"@.len() != "MWF"@.len());
            }
            assert("SaSu"@ != "MW"@) by {
                assert("SaSu"@.len() != "MW"@.len());
            }
            assert("SaSu"@ != "WF"@) by {
                assert("SaSu"@.len() != "WF"@.len());
            }
            assert("SaSu"@ != "TuTh"@) by {
                assert("SaSu"@[0] != "TuTh"@[0]);
            }
            assert("SaSu"@ != "MTuWThF"@) by {
                assert("SaSu"@.len() != "MTuWThF"@.len());
            }
            assert("SaSu"@ != "MF"@) by {
                assert("SaSu"@.len() != "MF"@.len());
            }
            assert("SaSu"@ != "Sa"@) by {
                assert("SaSu"@.len() != "Sa"@.len());
            }
            assert("SaSu"@ != "Su"@) by {
                assert("SaSu"@.len() != "Su"@.len());
            }
        }
    }
    if d == ClassDays::MTu {
        assert(crate::types::day_pattern("MTu"@) == Some(ClassDays::MTu)) by {
            assert("MTu"@ != "M"@) by {
                assert("MTu"@.len() != "M"@.len());
            }
            assert("MTu"@ != "Tu"@) by {
                assert("MTu"@.len() != "Tu"@.len());
            }
            assert("MTu"@ != "W"@) by {
                assert("MTu"@.len() != "W"@.len());
            }
            assert("MTu"@ != "Th"@) by {
                assert("MTu"@.len() != "Th"@.len());
            }
            assert("MTu"@ != "F"@) by {
                assert("MTu"@.len() != "F"@.len());
            }
            assert("MTu"@ != "MWF"@) by {
                assert("MTu"@[1] != "MWF"@[1]);
            }
            assert("MTu"@ != "MW"@) by {
                assert("MTu"@.len() != "MW"@.len());
            }
            assert("MTu"@ != "WF"@) by {
                assert("MTu"@.len() != "WF"@.len());
            }
            assert("MTu"@ != "TuTh"@) by {
                assert("MTu"@.len() != "TuTh"@.len());
            }
            assert("MTu"@ != "MTuWThF"@) by {
                assert("MTu"@.len() != "MTuWThF"@.len());
            }
            assert("MTu"@ != "MF"@) by {
                assert("MTu"@.len() != "MF"@.len());
            }
            assert("MTu"@ != "Sa"@) by {
                assert("MTu"@.len() != "Sa"@.len());
            }
            assert("MTu"@ != "Su"@) by {
                assert("MTu"@.len() != "Su"@.len());
            }
            assert("MTu"@ != "SaSu"@) by {
                assert("MTu"@.len() != "SaSu"@.len());
            }
        }
    }
    if d == ClassDays::MTuThF {
        assert(crate::types::day_pattern("MTuThF"@) == Some(ClassDays::MTuThF)) by {
            assert("MTuThF"@ != "M"@) by {
                assert("MTuThF"@.len() != "M"@.len());
            }
            assert("MTuThF"@ != "Tu"@) by {
                assert("MTuThF"@.len() != "Tu"@.len());
            }
            assert("MTuThF"@ != "W"@) by {
                assert("MTuThF"@.len() != "W"@.len());
            }
            assert("MTuThF"@ != "Th"@) by {
                assert("MTuThF"@.len() != "Th"@.len());
            }
            assert("MTuThF"@ != "F"@) by {
                assert("MTuThF"@.len() != "F"@.len());
            }
            assert("MTuThF"@ != "MWF"@) by {
                assert("MTuThF"@.len() != "MWF"@.len());
            }
            assert("MTuThF"@ != "MW"@) by {
                assert("MTuThF"@.len() != "MW"@.len());
            }
            assert("MTuThF"@ != "WF"@) by {
                assert("MTuThF"@.len() != "WF"@.len());
            }
            assert("MTuThF"@ != "TuTh"@) by {
                assert("MTuThF"@.len() != "TuTh"@.len());
            }
            assert("MTuThF"@ != "MTuWThF"@) by {
                assert("MTuThF"@.len() != "MTuWThF"@.len());
            }
            assert("MTuThF"@ != "MF"@) by {
                assert("MTuThF"@.len() != "MF"@.len());
            }
            assert("MTuThF"@ != "Sa"@) by {
                assert("MTuThF"@.len() != "Sa"@.len());
            }
            assert("MTuThF"@ != "Su"@) by {
                assert("MTuThF"@.len() != "Su"@.len());
            }
            assert("MTuThF"@ != "SaSu"@) by {
                assert("MTuThF"@.len() != "SaSu"@.len());
            }
            assert("MTuThF"@ != "MTu"@) by {
                assert("MTuThF"@.len() != "MTu"@.len());
            }
        }
    }
    if d == ClassDays::MTuWTh {
        assert(crate::types::day_pattern("MTuWTh"@) == Some(ClassDays::MTuWTh)) by {
            assert("MTuWTh"@ != "M"@) by {
                assert("MTuWTh"@.len() != "M"@.len());
            }
            assert("MTuWTh"@ != "Tu"@) by {
                assert("MTuWTh"@.len() != "Tu"@.len());
            }
            assert("MTuWTh"@ != "W"@) by {
                assert("MTuWTh"@.len() != "W"@.len());
            }
            assert("MTuWTh"@ != "Th"@) by {
                assert("MTuWTh"@.len() != "Th"@.len());
            }
            assert("MTuWTh"@ != "F"@) by {
                assert("MTuWTh"@.len() != "F"@.len());
            }
            assert("MTuWTh"@ != "MWF"@) by {
                assert("MTuWTh"@.len() != "MWF"@.len());
            }
            assert("MTuWTh"@ != "MW"@) by {
                assert("MTuWTh"@.len() != "MW"@.len());
            }
            assert("MTuWTh"@ != "WF"@) by {
                assert("MTuWTh"@.len() != "WF"@.len());
            }
            assert("MTuWTh"@ != "TuTh"@) by {
                assert("MTuWTh"@.len() != "TuTh"@.len());
            }
            assert("MTuWTh"@ != "MTuWThF"@) by {
                assert("MTuWTh"@.len() != "MTuWThF"@.len());
            }
            assert("MTuWTh"@ != "MF"@) by {
                assert("MTuWTh"@.len() != "MF"@.len());
            }
            assert("MTuWTh"@ != "Sa"@) by {
                assert("MTuWTh"@.len() != "Sa"@.len());
            }
            assert("MTuWTh"@ != "Su"@) by {
                assert("MTuWTh"@.len() != "Su"@.len());
            }
            assert("MTuWTh"@ != "SaSu"@) by {
                assert("MTuWTh"@.len() != "SaSu"@.len());
            }
            assert("MTuWTh"@ != "MTu"@) by {
                assert("MTuWTh"@.len() != "MTu"@.len());
            }
            assert("MTuWTh"@ != "MTuThF"@) by {
                assert("MTuWTh"@[3] != "MTuThF"@[3]);
            }
        }
    }
    if d == ClassDays::TuF {
        assert(crate::types::day_pattern("TuF"@) == Some(ClassDays::TuF)) by {
            assert("TuF"@ != "M"@) by {
                assert("TuF"@.len() != "M"@.len());
            }
            assert("TuF"@ != "Tu"@) by {
                assert("TuF"@.len() != "Tu"@.len());
            }
            assert("TuF"@ != "W"@) by {
                assert("TuF"@.len() != "W"@.len());
            }
            assert("TuF"@ != "Th"@) by {
                assert("TuF"@.len() != "Th"@.len());
            }
            assert("TuF"@ != "F"@) by {
                assert("TuF"@.len() != "F"@.len());
            }
            assert("TuF"@ != "MWF"@) by {
                assert("TuF"@[0] != "MWF"@[0]);
            }
            assert("TuF"@ != "MW"@) by {
                assert("TuF"@.len() != "MW"@.len());
            }
            assert("TuF"@ != "WF"@) by {
                assert("TuF"@.len() != "WF"@.len());
            }
            assert("TuF"@ != "TuTh"@) by {
                assert("TuF"@.len() != "TuTh"@.len());
            }
            assert("TuF"@ != "MTuWThF"@) by {
                assert("TuF"@.len() != "MTuWThF"@.len());
            }
            assert("TuF"@ != "MF"@) by {
                assert("TuF"@.len() != "MF"@.len());
            }
            assert("TuF"@ != "Sa"@) by {
                assert("TuF"@.len() != "Sa"@.len());
            }
            assert("TuF"@ != "Su"@) by {
                assert("TuF"@.len() != "Su"@.len());
            }
            assert("TuF"@ != "SaSu"@) by {
                assert("TuF"@.len() != "SaSu"@.len());
            }
            assert("TuF"@ != "MTu"@) by {
                assert("TuF"@[0] != "MTu"@[0]);
            }
            assert("TuF"@ != "MTuThF"@) by {
                assert("TuF"@.len() != "MTuThF"@.len());
            }
            assert("TuF"@ != "MTuWTh"@) by {
                assert("TuF"@.len() != "MTuWTh"@.len());
            }
        }
    }
    if d == ClassDays::TuWTh {
        assert(crate::types::day_pattern("TuWTh"@) == Some(ClassDays::TuWTh)) by {
            assert("TuWTh"@ != "M"@) by {
                assert("TuWTh"@.len() != "M"@.len());
            }
            assert("TuWTh"@ != "Tu"@) by {
                assert("TuWTh"@.len() != "Tu"@.len());
            }
            assert("TuWTh"@ != "W"@) by {
                assert("TuWTh"@.len() != "W"@.len());
            }
            assert("TuWTh"@ != "Th"@) by {
                assert("TuWTh"@.len() != "Th"@.len());
            }
            assert("TuWTh"@ != "F"@) by {
                assert("TuWTh"@.len() != "F"@.len());
            }
            assert("TuWTh"@ != "MWF"@) by {
                assert("TuWTh"@.len() != "MWF"@.len());
            }
            assert("TuWTh"@ != "MW"@) by {
                assert("TuWTh"@.len() != "MW"@.len());
            }
            assert("TuWTh"@ != "WF"@) by {
                assert("TuWTh"@.len() != "WF"@.len());
            }
            assert("TuWTh"@ != "TuTh"@) by {
                assert("TuWTh"@.len() != "TuTh"@.len());
            }
            assert("TuWTh"@ != "MTuWThF"@) by {
                assert("TuWTh"@.len() != "MTuWThF"@.len());
            }
            assert("TuWTh"@ != "MF"@) by {
                assert("TuWTh"@.len() != "MF"@.len());
            }
            assert("TuWTh"@ != "Sa"@) by {
                assert("TuWTh"@.len() != "Sa"@.len());
            }
            assert("TuWTh"@ != "Su"@) by {
                assert("TuWTh"@.len() != "Su"@.len());
            }
            assert("TuWTh"@ != "SaSu"@) by {
                assert("TuWTh"@.len() != "SaSu"@.len());
            }
            assert("TuWTh"@ != "MTu"@) by {
                assert("TuWTh"@.len() != "MTu"@.len());
            }
            assert("TuWTh"@ != "MTuThF"@) by {
                assert("TuWTh"@.len() != "MTuThF"@.len());
            }
            assert("TuWTh"@ != "MTuWTh"@) by {
                assert("TuWTh"@.len() != "MTuWTh"@.len());
            }
            assert("TuWTh"@ != "TuF"@) by {
                assert("TuWTh"@.len() != "TuF"@.len());
            }
        }
    }
    if d == ClassDays::WTh {
        assert(crate::types::day_pattern("WTh"@) == Some(ClassDays::WTh)) by {
            assert("WTh"@ != "M"@) by {
                assert("WTh"@.len() != "M"@.len());
            }
            assert("WTh"@ != "Tu"@) by {
                assert("WTh"@.len() != "Tu"@.len());
            }
            assert("WTh"@ != "W"@) by {
                assert("WTh"@.len() != "W"@.len());
            }
            assert("WTh"@ != "Th"@) by {
                assert("WTh"@.len() != "Th"@.len());
            }
            assert("WTh"@ != "F"@) by {
                assert("WTh"@.len() != "F"@.len());
            }
            assert("WTh"@ != "MWF"@) by {
                assert("WTh"@[0] != "MWF"@[0]);
            }
            assert("WTh"@ != "MW"@) by {
                assert("WTh"@.len() != "MW"@.len());
            }
            assert("WTh"@ != "WF"@) by {
                assert("WTh"@.len() != "WF"@.len());
            }
            assert("WTh"@ != "TuTh"@) by {
                assert("WTh"@.len() != "TuTh"@.len());
            }
            assert("WTh"@ != "MTuWThF"@) by {
                assert("WTh"@.len() != "MTuWThF"@.len());
            }
            assert("WTh"@ != "MF"@) by {
                assert("WTh"@.len() != "MF"@.len());
            }
            assert("WTh"@ != "Sa"@) by {
                assert("WTh"@.len() != "Sa"@.len());
            }
            assert("WTh"@ != "Su"@) by {
                assert("WTh"@.len() != "Su"@.len());
            }
            assert("WTh"@ != "SaSu"@) by {
                assert("WTh"@.len() != "SaSu"@.len());
            }
            assert("WTh"@ != "MTu"@) by {
                assert("WTh"@[0] != "MTu"@[0]);
            }
            assert("WTh"@ != "MTuThF"@) by {
                assert("WTh"@.len() != "MTuThF"@.len());
            }
            assert("WTh"@ != "MTuWTh"@) by {
                assert("WTh"@.len() != "MTuWTh"@.len());
            }
            assert("WTh"@ != "TuF"@) by {
                assert("WTh"@[0] != "TuF"@[0]);
            }
            assert("WTh"@ != "TuWTh"@) by {
                assert("WTh"@.len() != "TuWTh"@.len());
            }
        }
    }
    if d == ClassDays::MWTh {
        assert(crate::types::day_pattern("MWTh"@) == Some(ClassDays::MWTh)) by {
            assert("MWTh"@ != "M"@) by {
                assert("MWTh"@.len() != "M"@.len());
            }
            assert("MWTh"@ != "Tu"@) by {
                assert("MWTh"@.len() != "Tu"@.len());
            }
            assert("MWTh"@ != "W"@) by {
                assert("MWTh"@.len() != "W"@.len());
            }
            assert("MWTh"@ != "Th"@) by {
                assert("MWTh"@.len() != "Th"@.len());
            }
            assert("MWTh"@ != "F"@) by {
                assert("MWTh"@.len() != "F"@.len());
            }
            assert("MWTh"@ != "MWF"@) by {
                assert("MWTh"@.len() != "MWF"@.len());
            }
            assert("MWTh"@ != "MW"@) by {
                assert("MWTh"@.len() != "MW"@.len());
            }
            assert("MWTh"@ != "WF"@) by {
                assert("MWTh"@.len() != "WF"@.len());
            }
            assert("MWTh"@ != "TuTh"@) by {
                assert("MWTh"@[0] != "TuTh"@[0]);
            }
            assert("MWTh"@ != "MTuWThF"@) by {
                assert("MWTh"@.len() != "MTuWThF"@.len());
            }
            assert("MWTh"@ != "MF"@) by {
                assert("MWTh"@.len() != "MF"@.len());
            }
            assert("MWTh"@ != "Sa"@) by {
                assert("MWTh"@.len() != "Sa"@.len());
            }
            assert("MWTh"@ != "Su"@) by {
                assert("MWTh"@.len() != "Su"@.len());
            }
            assert("MWTh"@ != "SaSu"@) by {
                assert("MWTh"@[0] != "SaSu"@[0]);
            }
            assert("MWTh"@ != "MTu"@) by {
                assert("MWTh"@.len() != "MTu"@.len());
            }
            assert("MWTh"@ != "MTuThF"@) by {
                assert("MWTh"@.len() != "MTuThF"@.len());
            }
            assert("MWTh"@ != "MTuWTh"@) by {
                assert("MWTh"@.len() != "MTuWTh"@.len());
            }
            assert("MWTh"@ != "TuF"@) by {
                assert("MWTh"@.len() != "TuF"@.len());
            }
            assert("MWTh"@ != "TuWTh"@) by {
                assert("MWTh"@.len() != "TuWTh"@.len());
            }
            assert("MWTh"@ != "WTh"@) by {
                assert("MWTh"@.len() != "WTh"@.len());
            }
        }
    }
    if d == ClassDays::MTh {
        assert(crate::types::day_pattern("MTh"@) == Some(ClassDays::MTh)) by {
            assert("MTh"@ != "M"@) by {
                assert("MTh"@.len() != "M"@.len());
            }
            assert("MTh"@ != "Tu"@) by {
                assert("MTh"@.len() != "Tu"@.len());
            }
            assert("MTh"@ != "W"@) by {
                assert("MTh"@.len() != "W"@.len());
            }
            assert("MTh"@ != "Th"@) by {
                assert("MTh"@.len() != "Th"@.len());
            }
            assert("MTh"@ != "F"@) by {
                assert("MTh"@.len() != "F"@.len());
            }
            assert("MTh"@ != "MWF"@) by {
                assert("MTh"@[1] != "MWF"@[1]);
            }
            assert("MTh"@ != "MW"@) by {
                assert("MTh"@.len() != "MW"@.len());
            }
            assert("MTh"@ != "WF"@) by {
                assert("MTh"@.len() != "WF"@.len());
            }
            assert("MTh"@ != "TuTh"@) by {
                assert("MTh"@.len() != "TuTh"@.len());
            }
            assert("MTh"@ != "MTuWThF"@) by {
                assert("MTh"@.len() != "MTuWThF"@.len());
            }
            assert("MTh"@ != "MF"@) by {
                assert("MTh"@.len() != "MF"@.len());
            }
            assert("MTh"@ != "Sa"@) by {
                assert("MTh"@.len() != "Sa"@.len());
            }
            assert("MTh"@ != "Su"@) by {
                assert("MTh"@.len() != "Su"@.len());
            }
            assert("MTh"@ != "SaSu"@) by {
                assert("MTh"@.len() != "SaSu"@.len());
            }
            assert("MTh"@ != "MTu"@) by {
                assert("MTh"@[2] != "MTu"@[2]);
            }
            assert("MTh"@ != "MTuThF"@) by {
                assert("MTh"@.len() != "MTuThF"@.len());
            }
            assert("MTh"@ != "MTuWTh"@) by {
                assert("MTh"@.len() != "MTuWTh"@.len());
            }
            assert("MTh"@ != "TuF"@) by {
                assert("MTh"@[0] != "TuF"@[0]);
            }
            assert("MTh"@ != "TuWTh"@) by {
                assert("MTh"@.len() != "TuWTh"@.len());
            }
            assert("MTh"@ != "WTh"@) by {
                assert("MTh"@[0] != "WTh"@[0]);
            }
            assert("MTh"@ != "MWTh"@) by {
                assert("MTh"@.len() != "MWTh"@.len());
            }
        }
    }
}

/// A classtime object: days name, start time, end time.
#[verifier::opaque]
pub open spec fn ser_ct(ct: Classtime) -> Seq<char> {
    "{\"days\":"@ + ser_str(days_str(ct.days)) + ",\"start_time\":"@ + ser_time(ct.start_time)
        + ",\"end_time\":"@ + ser_time(ct.end_time) + "}"@
}

/// Parses a classtime object.
#[verifier::opaque]
pub open spec fn parse_ct(s: Seq<char>) -> Option<(Classtime, Seq<char>)> {
    match parse_lit(s, "{\"days\":"@) {
        None => None,
        Some(s1) => match parse_str(s1) {
            None => None,
            Some((dn, s2)) => match crate::types::day_pattern(dn) {
                None => None,
                Some(d) => match parse_lit(s2, ",\"start_time\":"@) {
                    None => None,
                    Some(s3) => match parse_time_j(s3) {
                        None => None,
                        Some((st, s4)) => match parse_lit(s4, ",\"end_time\":"@) {
                            None => None,
                            Some(s5) => match parse_time_j(s5) {
                                None => None,
                                Some((et, s6)) => match parse_lit(s6, "}"@) {
                                    None => None,
                                    Some(s7) => Some((
                                        Classtime { days: d, start_time: st, end_time: et },
                                        s7,
                                    )),
                                },
                            },
                        },
                    },
                },
            },
        },
    }
}

/// Parsing an emitted classtime recovers the classtime.
#[verifier::rlimit(50)]
proof fn lemma_ct_round(ct: Classtime, rest: Seq<char>)
    ensures
        parse_ct(ser_ct(ct) + rest) == Some((ct, rest)),
{
    reveal(ser_ct);
    reveal(parse_ct);
    let whole = ser_ct(ct) + rest;
    let r1 = ser_str(days_str(ct.days)) + ",\"start_time\":"@ + ser_time(ct.start_time)
        + ",\"end_time\":"@ + ser_time(ct.end_time) + "}"@ + rest;
    assert(whole =~= "{\"days\":"@ + r1);
    lemma_lit_round("{\"days\":"@, r1);
    let r2 = ",\"start_time\":"@ + ser_time(ct.start_time) + ",\"end_time\":"@ + ser_time(
        ct.end_time,
    ) + "}"@ + rest;
    assert(r1 =~= ser_str(days_str(ct.days)) + r2);
    lemma_str_round(days_str(ct.days), r2);
    lemma_day_pattern_of_name(ct.days);
    let r3 = ser_time(ct.start_time) + ",\"end_time\":"@ + ser_time(ct.end_time) + "}"@ + rest;
    assert(r2 =~= ",\"start_time\":"@ + r3);
    lemma_lit_round(",\"start_time\":"@, r3);
    let r4 = ",\"end_time\":"@ + ser_time(ct.end_time) + "}"@ + rest;
    assert(r3 =~= ser_time(ct.start_time) + r4);
    lemma_time_round(ct.start_time, r4);
    let r5 = ser_time(ct.end_time) + "}"@ + rest;
    assert(r4 =~= ",\"end_time\":"@ + r5);
    lemma_lit_round(",\"end_time\":"@, r5);
    let r6 = "}"@ + rest;
    assert(r5 =~= ser_time(ct.end_time) + r6);
    lemma_time_round(ct.end_time, r6);
    lemma_lit_round("}"@, rest);
}

/// An optional classtime: explicit `null` when absent.
#[verifier::opaque]
pub open spec fn ser_opt_ct(o: Option<Classtime>) -> Seq<char> {
    match o {
        None => "null"@,
        Some(ct) => ser_ct(ct),
    }
}

/// Parses an optional classtime.
#[verifier::opaque]
pub open spec fn parse_opt_ct(s: Seq<char>) -> Option<(Option<Classtime>, Seq<char>)> {
    match parse_lit(s, "null"@) {
        Some(r) => Some((None, r)),
        None => match parse_ct(s) {
            None => None,
            Some((ct, r)) => Some((Some(ct), r)),
        },
    }
}

/// Parsing an emitted optional classtime recovers it.
proof fn lemma_opt_ct_round(o: Option<Classtime>, rest: Seq<char>)
    ensures
        parse_opt_ct(ser_opt_ct(o) + rest) == Some((o, rest)),
{
    reveal(ser_opt_ct);
    reveal(parse_opt_ct);
    reveal(ser_ct);
    reveal_strlit("null");
    reveal_strlit("{\"days\":");
    match o {
        None => {
            lemma_lit_round("null"@, rest);
        },
        Some(ct) => {
            let whole = ser_ct(ct) + rest;
            assert(whole[0] == '{') by {
                assert(whole[0] == "{\"days\":"@[0]);
            }
            assert(parse_lit(whole, "null"@) is None) by {
                if parse_lit(whole, "null"@) is Some {
                    assert(whole.subrange(0, 4)[0] == whole[0]);
                }
            }
            lemma_ct_round(ct, rest);
        },
    }
}

// ---------------------------------------------------------------------
// Locations and credits.

/// An optional location: `null`, or building and room as a two-element
/// array.
#[verifier::opaque]
pub open spec fn ser_opt_loc(o: Option<LocationM>) -> Seq<char> {
    match o {
        None => "null"@,
        Some(l) => "["@ + ser_str(l.building) + ","@ + ser_str(l.room) + "]"@,
    }
}

/// Parses an optional location.
#[verifier::opaque]
pub open spec fn parse_opt_loc(s: Seq<char>) -> Option<(Option<LocationM>, Seq<char>)> {
    match parse_lit(s, "null"@) {
        Some(r) => Some((None, r)),
        None => match parse_lit(s, "["@) {
            None => None,
            Some(s1) => match parse_str(s1) {
                None => None,
                Some((b, s2)) => match parse_lit(s2, ","@) {
                    None => None,
                    Some(s3) => match parse_str(s3) {
                        None => None,
                        Some((rm, s4)) => match parse_lit(s4, "]"@) {
                            None => None,
                            Some(s5) => Some((Some(LocationM { building: b, room: rm }), s5)),
                        },
                    },
                },
            },
        },
    }
}

/// Parsing an emitted optional location recovers it.
proof fn lemma_opt_loc_round(o: Option<LocationM>, rest: Seq<char>)
    ensures
        parse_opt_loc(ser_opt_loc(o) + rest) == Some((o, rest)),
{
    reveal(ser_opt_loc);
    reveal(parse_opt_loc);
    reveal_strlit("null");
    reveal_strlit("[");
    reveal_strlit(",");
    reveal_strlit("]");
    match o {
        None => {
            lemma_lit_round("null"@, rest);
        },
        Some(l) => {
            let whole = ser_opt_loc(o) + rest;
            assert(whole[0] == '[') by {
                assert(whole[0] == "["@[0]);
            }
            assert(parse_lit(whole, "null"@) is None) by {
                if parse_lit(whole, "null"@) is Some {
                    assert(whole.subrange(0, 4)[0] == whole[0]);
                }
            }
            let r1 = ser_str(l.building) + ","@ + ser_str(l.room) + "]"@ + rest;
            assert(whole =~= "["@ + r1);
            lemma_lit_round("["@, r1);
            let r2 = ","@ + ser_str(l.room) + "]"@ + rest;
            assert(r1 =~= ser_str(l.building) + r2);
            lemma_str_round(l.building, r2);
            let r3 = ser_str(l.room) + "]"@ + rest;
            assert(r2 =~= ","@ + r3);
            lemma_lit_round(","@, r3);
            let r4 = "]"@ + rest;
            assert(r3 =~= ser_str(l.room) + r4);
            lemma_str_round(l.room, r4);
            lemma_lit_round("]"@, rest);
        },
    }
}

/// A credit count: a tagged fixed amount, or a tagged two-element range.
#[verifier::opaque]
pub open spec fn ser_credits(c: CreditCount) -> Seq<char> {
    match c {
        CreditCount::Amount(n) => "{\"Amount\":"@ + dec_digits(n as int) + "}"@,
        CreditCount::Range(a, b) => "{\"Range\":["@ + dec_digits(a as int) + ","@ + dec_digits(
            b as int,
        ) + "]}"@,
    }
}

/// Parses a credit count.
#[verifier::opaque]
pub open spec fn parse_credits(s: Seq<char>) -> Option<(CreditCount, Seq<char>)> {
    match parse_lit(s, "{\"Amount\":"@) {
        Some(s1) => match parse_num(s1) {
            None => None,
            Some((n, s2)) => match parse_lit(s2, "}"@) {
                None => None,
                Some(s3) => Some((CreditCount::Amount(n), s3)),
            },
        },
        None => match parse_lit(s, "{\"Range\":["@) {
            None => None,
            Some(s1) => match parse_num(s1) {
                None => None,
                Some((a, s2)) => match parse_lit(s2, ","@) {
                    None => None,
                    Some(s3) => match parse_num(s3) {
                        None => None,
                        Some((b, s4)) => match parse_lit(s4, "]}"@) {
                            None => None,
                            Some(s5) => Some((CreditCount::Range(a, b), s5)),
                        },
                    },
                },
            },
        },
    }
}

/// Parsing emitted credits recovers them.
proof fn lemma_credits_round(c: CreditCount, rest: Seq<char>)
    ensures
        parse_credits(ser_credits(c) + rest) == Some((c, rest)),
{
    reveal(ser_credits);
    reveal(parse_credits);
    reveal_strlit("{\"Amount\":");
    reveal_strlit("{\"Range\":[");
    reveal_strlit(",");
    reveal_strlit("}");
    reveal_strlit("]}");
    match c {
        CreditCount::Amount(n) => {
            let whole = ser_credits(c) + rest;
            let r1 = dec_digits(n as int) + "}"@ + rest;
            assert(whole =~= "{\"Amount\":"@ + r1);
            lemma_lit_round("{\"Amount\":"@, r1);
            assert(!is_digit(r1[dec_digits(n as int).len() as int])) by {
                lemma_dec_digits(n as int);
                assert(r1[dec_digits(n as int).len() as int] == '}');
            }
            let r2 = "}"@ + rest;
            assert(r1 =~= dec_digits(n as int) + r2);
            assert(!is_digit(r2[0]));
            lemma_num_round(n, r2);
            lemma_lit_round("}"@, rest);
        },
        CreditCount::Range(a, b) => {
            let whole = ser_credits(c) + rest;
            assert(whole[2] == 'R') by {
                assert(whole[2] == "{\"Range\":["@[2]);
            }
            assert(parse_lit(whole, "{\"Amount\":"@) is None) by {
                if parse_lit(whole, "{\"Amount\":"@) is Some {
                    assert(whole.subrange(0, 10)[2] == whole[2]);
                }
            }
            let r1 = dec_digits(a as int) + ","@ + dec_digits(b as int) + "]}"@ + rest;
            assert(whole =~= "{\"Range\":["@ + r1);
            lemma_lit_round("{\"Range\":["@, r1);
            let r2 = ","@ + dec_digits(b as int) + "]}"@ + rest;
            assert(r1 =~= dec_digits(a as int) + r2);
            assert(!is_digit(r2[0]));
            lemma_num_round(a, r2);
            let r3 = dec_digits(b as int) + "]}"@ + rest;
            assert(r2 =~= ","@ + r3);
            lemma_lit_round(","@, r3);
            let r4 = "]}"@ + rest;
            assert(r3 =~= dec_digits(b as int) + r4);
            assert(!is_digit(r4[0]));
            lemma_num_round(b, r4);
            lemma_lit_round("]}"@, rest);
        },
    }
}

// ---------------------------------------------------------------------
// Meetings.

/// A class meeting: bare strings for the variants without payload,
/// tagged objects for the others.
#[verifier::opaque]
pub open spec fn ser_meeting(m: MeetingM) -> Seq<char> {
    match m {
        MeetingM::Unspecified => "\"Unspecified\""@,
        MeetingM::OnlineAsync => "\"OnlineAsync\""@,
        MeetingM::OnlineSync(o) => "{\"OnlineSync\":"@ + ser_opt_ct(o) + "}"@,
        MeetingM::InPerson(ct, loc) => "{\"InPerson\":{\"classtime\":"@ + ser_opt_ct(ct)
            + ",\"location\":"@ + ser_opt_loc(loc) + "}}"@,
    }
}

/// Parses a class meeting.
#[verifier::opaque]
pub open spec fn parse_meeting(s: Seq<char>) -> Option<(MeetingM, Seq<char>)> {
    match parse_lit(s, "\"Unspecified\""@) {
        Some(r) => Some((MeetingM::Unspecified, r)),
        None => match parse_lit(s, "\"OnlineAsync\""@) {
            Some(r) => Some((MeetingM::OnlineAsync, r)),
            None => match parse_lit(s, "{\"OnlineSync\":"@) {
                Some(s1) => match parse_opt_ct(s1) {
                    None => None,
                    Some((o, s2)) => match parse_lit(s2, "}"@) {
                        None => None,
                        Some(s3) => Some((MeetingM::OnlineSync(o), s3)),
                    },
                },
                None => match parse_lit(s, "{\"InPerson\":{\"classtime\":"@) {
                    None => None,
                    Some(s1) => match parse_opt_ct(s1) {
                        None => None,
                        Some((ct, s2)) => match parse_lit(s2, ",\"location\":"@) {
                            None => None,
                            Some(s3) => match parse_opt_loc(s3) {
                                None => None,
                                Some((loc, s4)) => match parse_lit(s4, "}}"@) {
                                    None => None,
                                    Some(s5) => Some((MeetingM::InPerson(ct, loc), s5)),
                                },
                            },
                        },
                    },
                },
            },
        },
    }
}

/// An emitted meeting begins with a quote or an opening brace.
proof fn lemma_meeting_first(m: MeetingM)
    ensures
        ser_meeting(m).len() > 0,
        ser_meeting(m)[0] == '"' || ser_meeting(m)[0] == '{',
{
    reveal(ser_meeting);
    reveal_strlit("\"Unspecified\"");
    reveal_strlit("\"OnlineAsync\"");
    reveal_strlit("{\"OnlineSync\":");
    reveal_strlit("{\"InPerson\":{\"classtime\":");
    match m {
        MeetingM::Unspecified => {
            assert(ser_meeting(m)[0] == "\"Unspecified\""@[0]);
        },
        MeetingM::OnlineAsync => {
            assert(ser_meeting(m)[0] == "\"OnlineAsync\""@[0]);
        },
        MeetingM::OnlineSync(o) => {
            assert(ser_meeting(m)[0] == "{\"OnlineSync\":"@[0]);
        },
        MeetingM::InPerson(ct, loc) => {
            assert(ser_meeting(m)[0] == "{\"InPerson\":{\"classtime\":"@[0]);
        },
    }
}

/// Parsing an emitted meeting recovers the meeting.
#[verifier::rlimit(100)]
proof fn lemma_meeting_round(m: MeetingM, rest: Seq<char>)
    ensures
        parse_meeting(ser_meeting(m) + rest) == Some((m, rest)),
{
    reveal(ser_meeting);
    reveal(parse_meeting);
    reveal(ser_opt_ct);
    reveal_strlit("\"Unspecified\"");
    reveal_strlit("\"OnlineAsync\"");
    reveal_strlit("{\"OnlineSync\":");
    reveal_strlit("{\"InPerson\":{\"classtime\":");
    reveal_strlit(",\"location\":");
    reveal_strlit("}");
    reveal_strlit("}}");
    let whole = ser_meeting(m) + rest;
    match m {
        MeetingM::Unspecified => {
            lemma_lit_round("\"Unspecified\""@, rest);
        },
        MeetingM::OnlineAsync => {
            if parse_lit(whole, "\"Unspecified\""@) is Some {
                assert(whole.subrange(0, 13)[1] == whole[1]);
                assert(whole[1] == "\"OnlineAsync\""@[1]);
                assert(false);
            }
            lemma_lit_round("\"OnlineAsync\""@, rest);
        },
        MeetingM::OnlineSync(o) => {
            assert(whole[0] == "{\"OnlineSync\":"@[0]);
            if parse_lit(whole, "\"Unspecified\""@) is Some {
                assert(whole.subrange(0, 13)[0] == whole[0]);
                assert(false);
            }
            if parse_lit(whole, "\"OnlineAsync\""@) is Some {
                assert(whole.subrange(0, 13)[0] == whole[0]);
                assert(false);
            }
            let r1 = ser_opt_ct(o) + "}"@ + rest;
            assert(whole =~= "{\"OnlineSync\":"@ + r1);
            lemma_lit_round("{\"OnlineSync\":"@, r1);
            let r2 = "}"@ + rest;
            assert(r1 =~= ser_opt_ct(o) + r2);
            lemma_opt_ct_round(o, r2);
            lemma_lit_round("}"@, rest);
        },
        MeetingM::InPerson(ct, loc) => {
            assert(whole[0] == "{\"InPerson\":{\"classtime\":"@[0]);
            assert(whole[2] == "{\"InPerson\":{\"classtime\":"@[2]);
            if parse_lit(whole, "\"Unspecified\""@) is Some {
                assert(whole.subrange(0, 13)[0] == whole[0]);
                assert(false);
            }
            if parse_lit(whole, "\"OnlineAsync\""@) is Some {
                assert(whole.subrange(0, 13)[0] == whole[0]);
                assert(false);
            }
            if parse_lit(whole, "{\"OnlineSync\":"@) is Some {
                assert(whole.subrange(0, 14)[2] == whole[2]);
                assert("{\"OnlineSync\":"@[2] != "{\"InPerson\":{\"classtime\":"@[2]);
                assert(false);
            }
            let r1 = ser_opt_ct(ct) + ",\"location\":"@ + ser_opt_loc(loc) + "}}"@ + rest;
            assert(whole =~= "{\"InPerson\":{\"classtime\":"@ + r1);
            lemma_lit_round("{\"InPerson\":{\"classtime\":"@, r1);
            let r2 = ",\"location\":"@ + ser_opt_loc(loc) + "}}"@ + rest;
            assert(r1 =~= ser_opt_ct(ct) + r2);
            lemma_opt_ct_round(ct, r2);
            let r3 = ser_opt_loc(loc) + "}}"@ + rest;
            assert(r2 =~= ",\"location\":"@ + r3);
            lemma_lit_round(",\"location\":"@, r3);
            let r4 = "}}"@ + rest;
            assert(r3 =~= ser_opt_loc(loc) + r4);
            lemma_opt_loc_round(loc, r4);
            lemma_lit_round("}}"@, rest);
        },
    }
}

// ---------------------------------------------------------------------
// Lists.

/// The remaining items of a string list, each preceded by a comma.
#[verifier::opaque]
pub open spec fn ser_strlist_more(xs: Seq<Seq<char>>) -> Seq<char>
    decreases xs.len(),
{
    if xs.len() == 0 {
        Seq::empty()
    } else {
        ","@ + ser_str(xs[0]) + ser_strlist_more(xs.drop_first())
    }
}

/// A list of strings.
#[verifier::opaque]
pub open spec fn ser_strlist(xs: Seq<Seq<char>>) -> Seq<char> {
    if xs.len() == 0 {
        "[]"@
    } else {
        "["@ + ser_str(xs[0]) + ser_strlist_more(xs.drop_first()) + "]"@
    }
}

/// Parses the remaining items of a string list up to the closing
/// bracket.
#[verifier::opaque]
pub open spec fn parse_strlist_more(s: Seq<char>) -> Option<(Seq<Seq<char>>, Seq<char>)>
    decreases s.len(),
{
    if s.len() == 0 {
        None
    } else if s[0] == ']' {
        Some((Seq::empty(), s.subrange(1, s.len() as int)))
    } else if s[0] == ',' {
        match parse_str(s.subrange(1, s.len() as int)) {
            None => None,
            Some((x, r)) => if r.len() < s.len() {
                match parse_strlist_more(r) {
                    None => None,
                    Some((xs, r2)) => Some((seq![x] + xs, r2)),
                }
            } else {
                None
            },
        }
    } else {
        None
    }
}

/// Parses a list of strings.
#[verifier::opaque]
pub open spec fn parse_strlist(s: Seq<char>) -> Option<(Seq<Seq<char>>, Seq<char>)> {
    match parse_lit(s, "["@) {
        None => None,
        Some(s1) => if s1.len() > 0 && s1[0] == ']' {
            Some((Seq::empty(), s1.subrange(1, s1.len() as int)))
        } else {
            match parse_str(s1) {
                None => None,
                Some((x, r)) => if r.len() < s1.len() {
                    match parse_strlist_more(r) {
                        None => None,
                        Some((xs, r2)) => Some((seq![x] + xs, r2)),
                    }
                } else {
                    None
                },
            }
        },
    }
}

/// Parsing emitted remaining string items recovers them.
proof fn lemma_strlist_more_round(xs: Seq<Seq<char>>, rest: Seq<char>)
    ensures
        parse_strlist_more(ser_strlist_more(xs) + "]"@ + rest) == Some((xs, rest)),
    decreases xs.len(),
{
    reveal(ser_strlist_more);
    reveal(parse_strlist_more);
    reveal_strlit(",");
    reveal_strlit("]");
    let whole = ser_strlist_more(xs) + "]"@ + rest;
    if xs.len() == 0 {
        assert(whole[0] == "]"@[0]);
        assert(whole.subrange(1, whole.len() as int) =~= rest);
    } else {
        assert(whole[0] == ","@[0]);
        let tail = xs.drop_first();
        let r1 = ser_str(xs[0]) + ser_strlist_more(tail) + "]"@ + rest;
        assert(whole.subrange(1, whole.len() as int) =~= r1);
        let r2 = ser_strlist_more(tail) + "]"@ + rest;
        assert(r1 =~= ser_str(xs[0]) + r2);
        lemma_str_round(xs[0], r2);
        lemma_strlist_more_round(tail, rest);
        assert(seq![xs[0]] + tail =~= xs);
    }
}

/// Parsing an emitted string list recovers it.
proof fn lemma_strlist_round(xs: Seq<Seq<char>>, rest: Seq<char>)
    ensures
        parse_strlist(ser_strlist(xs) + rest) == Some((xs, rest)),
{
    reveal(ser_strlist);
    reveal(parse_strlist);
    reveal(ser_strlist_more);
    reveal(parse_strlist_more);
    reveal_strlit("[");
    reveal_strlit("[]");
    reveal_strlit("]");
    let whole = ser_strlist(xs) + rest;
    if xs.len() == 0 {
        assert(whole =~= "["@ + ("]"@ + rest)) by {
            assert("[]"@[0] == '[');
            assert("[]"@[1] == ']');
        }
        lemma_lit_round("["@, "]"@ + rest);
        let s1 = "]"@ + rest;
        assert(s1[0] == ']');
        assert(s1.subrange(1, s1.len() as int) =~= rest);
    } else {
        let tail = xs.drop_first();
        let s1 = ser_str(xs[0]) + ser_strlist_more(tail) + "]"@ + rest;
        assert(whole =~= "["@ + s1);
        lemma_lit_round("["@, s1);
        assert(s1[0] == '"');
        let r = ser_strlist_more(tail) + "]"@ + rest;
        assert(s1 =~= ser_str(xs[0]) + r);
        lemma_str_round(xs[0], r);
        lemma_strlist_more_round(tail, rest);
        assert(seq![xs[0]] + tail =~= xs);
    }
}

/// An optional string list: explicit `null` when absent, never an empty
/// list.
#[verifier::opaque]
pub open spec fn ser_opt_strlist(o: Option<Seq<Seq<char>>>) -> Seq<char> {
    match o {
        None => "null"@,
        Some(xs) => ser_strlist(xs),
    }
}

/// Parses an optional string list.
#[verifier::opaque]
pub open spec fn parse_opt_strlist(s: Seq<char>) -> Option<(Option<Seq<Seq<char>>>, Seq<char>)> {
    match parse_lit(s, "null"@) {
        Some(r) => Some((None, r)),
        None => match parse_strlist(s) {
            None => None,
            Some((xs, r)) => Some((Some(xs), r)),
        },
    }
}

/// Parsing an emitted optional string list recovers it, `null` and the
/// empty list kept distinct.
proof fn lemma_opt_strlist_round(o: Option<Seq<Seq<char>>>, rest: Seq<char>)
    ensures
        parse_opt_strlist(ser_opt_strlist(o) + rest) == Some((o, rest)),
{
    reveal(ser_opt_strlist);
    reveal(parse_opt_strlist);
    reveal(ser_strlist);
    reveal_strlit("null");
    reveal_strlit("[");
    reveal_strlit("[]");
    match o {
        None => {
            lemma_lit_round("null"@, rest);
        },
        Some(xs) => {
            let whole = ser_opt_strlist(o) + rest;
            assert(whole[0] == '[') by {
                if xs.len() == 0 {
                    assert(whole[0] == "[]"@[0]);
                } else {
                    assert(whole[0] == "["@[0]);
                }
            }
            if parse_lit(whole, "null"@) is Some {
                assert(whole.subrange(0, 4)[0] == whole[0]);
                assert(false);
            }
            lemma_strlist_round(xs, rest);
        },
    }
}

/// The remaining meetings of a list, each preceded by a comma.
#[verifier::opaque]
pub open spec fn ser_meetlist_more(xs: Seq<MeetingM>) -> Seq<char>
    decreases xs.len(),
{
    if xs.len() == 0 {
        Seq::empty()
    } else {
        ","@ + ser_meeting(xs[0]) + ser_meetlist_more(xs.drop_first())
    }
}

/// A list of meetings.
#[verifier::opaque]
pub open spec fn ser_meetlist(xs: Seq<MeetingM>) -> Seq<char> {
    if xs.len() == 0 {
        "[]"@
    } else {
        "["@ + ser_meeting(xs[0]) + ser_meetlist_more(xs.drop_first()) + "]"@
    }
}

/// Parses the remaining meetings of a list up to the closing bracket.
#[verifier::opaque]
pub open spec fn parse_meetlist_more(s: Seq<char>) -> Option<(Seq<MeetingM>, Seq<char>)>
    decreases s.len(),
{
    if s.len() == 0 {
        None
    } else if s[0] == ']' {
        Some((Seq::empty(), s.subrange(1, s.len() as int)))
    } else if s[0] == ',' {
        match parse_meeting(s.subrange(1, s.len() as int)) {
            None => None,
            Some((x, r)) => if r.len() < s.len() {
                match parse_meetlist_more(r) {
                    None => None,
                    Some((xs, r2)) => Some((seq![x] + xs, r2)),
                }
            } else {
                None
            },
        }
    } else {
        None
    }
}

/// Parses a list of meetings.
#[verifier::opaque]
pub open spec fn parse_meetlist(s: Seq<char>) -> Option<(Seq<MeetingM>, Seq<char>)> {
    match parse_lit(s, "["@) {
        None => None,
        Some(s1) => if s1.len() > 0 && s1[0] == ']' {
            Some((Seq::empty(), s1.subrange(1, s1.len() as int)))
        } else {
            match parse_meeting(s1) {
                None => None,
                Some((x, r)) => if r.len() < s1.len() {
                    match parse_meetlist_more(r) {
                        None => None,
                        Some((xs, r2)) => Some((seq![x] + xs, r2)),
                    }
                } else {
                    None
                },
            }
        },
    }
}

/// Parsing emitted remaining meetings recovers them.
proof fn lemma_meetlist_more_round(xs: Seq<MeetingM>, rest: Seq<char>)
    ensures
        parse_meetlist_more(ser_meetlist_more(xs) + "]"@ + rest) == Some((xs, rest)),
    decreases xs.len(),
{
    reveal(ser_meetlist_more);
    reveal(parse_meetlist_more);
    reveal(ser_meeting);
    reveal_strlit(",");
    reveal_strlit("]");
    let whole = ser_meetlist_more(xs) + "]"@ + rest;
    if xs.len() == 0 {
        assert(whole[0] == "]"@[0]);
        assert(whole.subrange(1, whole.len() as int) =~= rest);
    } else {
        assert(whole[0] == ","@[0]);
        let tail = xs.drop_first();
        let r1 = ser_meeting(xs[0]) + ser_meetlist_more(tail) + "]"@ + rest;
        assert(whole.subrange(1, whole.len() as int) =~= r1);
        let r2 = ser_meetlist_more(tail) + "]"@ + rest;
        assert(r1 =~= ser_meeting(xs[0]) + r2);
        lemma_meeting_round(xs[0], r2);
        lemma_meeting_first(xs[0]);
        lemma_meetlist_more_round(tail, rest);
        assert(seq![xs[0]] + tail =~= xs);
    }
}

/// Parsing an emitted meeting list recovers it.
proof fn lemma_meetlist_round(xs: Seq<MeetingM>, rest: Seq<char>)
    ensures
        parse_meetlist(ser_meetlist(xs) + rest) == Some((xs, rest)),
{
    reveal(ser_meetlist);
    reveal(parse_meetlist);
    reveal(ser_meetlist_more);
    reveal(parse_meetlist_more);
    reveal(ser_meeting);
    reveal_strlit("[");
    reveal_strlit("[]");
    reveal_strlit("]");
    let whole = ser_meetlist(xs) + rest;
    if xs.len() == 0 {
        assert(whole =~= "["@ + ("]"@ + rest)) by {
            assert("[]"@[0] == '[');
            assert("[]"@[1] == ']');
        }
        lemma_lit_round("["@, "]"@ + rest);
        let s1 = "]"@ + rest;
        assert(s1[0] == ']');
        assert(s1.subrange(1, s1.len() as int) =~= rest);
    } else {
        let tail = xs.drop_first();
        let s1 = ser_meeting(xs[0]) + ser_meetlist_more(tail) + "]"@ + rest;
        assert(whole =~= "["@ + s1);
        lemma_lit_round("["@, s1);
        lemma_meeting_first(xs[0]);
        assert(s1[0] == ser_meeting(xs[0])[0]);
        lemma_meeting_round(xs[0], ser_meetlist_more(tail) + "]"@ + rest);
        assert(s1 =~= ser_meeting(xs[0]) + (ser_meetlist_more(tail) + "]"@ + rest));
        lemma_meetlist_more_round(tail, rest);
        assert(seq![xs[0]] + tail =~= xs);
    }
}

// ---------------------------------------------------------------------
// Sections.

/// A section object: code, instructors, class meetings.
#[verifier::opaque]
pub open spec fn ser_section(x: SectionM) -> Seq<char> {
    "{\"sec_code\":"@ + ser_str(x.sec_code) + ",\"instructors\":"@ + ser_strlist(x.instructors)
        + ",\"class_meetings\":"@ + ser_meetlist(x.class_meetings) + "}"@
}

/// Parses a section object.
#[verifier::opaque]
pub open spec fn parse_section(s: Seq<char>) -> Option<(SectionM, Seq<char>)> {
    match parse_lit(s, "{\"sec_code\":"@) {
        None => None,
        Some(s1) => match parse_str(s1) {
            None => None,
            Some((code, s2)) => match parse_lit(s2, ",\"instructors\":"@) {
                None => None,
                Some(s3) => match parse_strlist(s3) {
                    None => None,
                    Some((instrs, s4)) => match parse_lit(s4, ",\"class_meetings\":"@) {
                        None => None,
                        Some(s5) => match parse_meetlist(s5) {
                            None => None,
                            Some((ms, s6)) => match parse_lit(s6, "}"@) {
                                None => None,
                                Some(s7) => Some((
                                    SectionM {
                                        sec_code: code,
                                        instructors: instrs,
                                        class_meetings: ms,
                                    },
                                    s7,
                                )),
                            },
                        },
                    },
                },
            },
        },
    }
}

/// Parsing an emitted section recovers the section.
#[verifier::rlimit(100)]
proof fn lemma_section_round(x: SectionM, rest: Seq<char>)
    ensures
        parse_section(ser_section(x) + rest) == Some((x, rest)),
{
    reveal(ser_section);
    reveal(parse_section);
    let whole = ser_section(x) + rest;
    let r1 = ser_str(x.sec_code) + ",\"instructors\":"@ + ser_strlist(x.instructors)
        + ",\"class_meetings\":"@ + ser_meetlist(x.class_meetings) + "}"@ + rest;
    assert(whole =~= "{\"sec_code\":"@ + r1);
    lemma_lit_round("{\"sec_code\":"@, r1);
    let r2 = ",\"instructors\":"@ + ser_strlist(x.instructors) + ",\"class_meetings\":"@
        + ser_meetlist(x.class_meetings) + "}"@ + rest;
    assert(r1 =~= ser_str(x.sec_code) + r2);
    lemma_str_round(x.sec_code, r2);
    let r3 = ser_strlist(x.instructors) + ",\"class_meetings\":"@ + ser_meetlist(
        x.class_meetings,
    ) + "}"@ + rest;
    assert(r2 =~= ",\"instructors\":"@ + r3);
    lemma_lit_round(",\"instructors\":"@, r3);
    let r4 = ",\"class_meetings\":"@ + ser_meetlist(x.class_meetings) + "}"@ + rest;
    assert(r3 =~= ser_strlist(x.instructors) + r4);
    lemma_strlist_round(x.instructors, r4);
    let r5 = ser_meetlist(x.class_meetings) + "}"@ + rest;
    assert(r4 =~= ",\"class_meetings\":"@ + r5);
    lemma_lit_round(",\"class_meetings\":"@, r5);
    let r6 = "}"@ + rest;
    assert(r5 =~= ser_meetlist(x.class_meetings) + r6);
    lemma_meetlist_round(x.class_meetings, r6);
    lemma_lit_round("}"@, rest);
}

/// The remaining sections of a list, each preceded by a comma.
#[verifier::opaque]
pub open spec fn ser_seclist_more(xs: Seq<SectionM>) -> Seq<char>
    decreases xs.len(),
{
    if xs.len() == 0 {
        Seq::empty()
    } else {
        ","@ + ser_section(xs[0]) + ser_seclist_more(xs.drop_first())
    }
}

/// A list of sections.
#[verifier::opaque]
pub open spec fn ser_seclist(xs: Seq<SectionM>) -> Seq<char> {
    if xs.len() == 0 {
        "[]"@
    } else {
        "["@ + ser_section(xs[0]) + ser_seclist_more(xs.drop_first()) + "]"@
    }
}

/// Parses the remaining sections of a list up to the closing bracket.
#[verifier::opaque]
pub open spec fn parse_seclist_more(s: Seq<char>) -> Option<(Seq<SectionM>, Seq<char>)>
    decreases s.len(),
{
    if s.len() == 0 {
        None
    } else if s[0] == ']' {
        Some((Seq::empty(), s.subrange(1, s.len() as int)))
    } else if s[0] == ',' {
        match parse_section(s.subrange(1, s.len() as int)) {
            None => None,
            Some((x, r)) => if r.len() < s.len() {
                match parse_seclist_more(r) {
                    None => None,
                    Some((xs, r2)) => Some((seq![x] + xs, r2)),
                }
            } else {
                None
            },
        }
    } else {
        None
    }
}

/// Parses a list of sections.
#[verifier::opaque]
pub open spec fn parse_seclist(s: Seq<char>) -> Option<(Seq<SectionM>, Seq<char>)> {
    match parse_lit(s, "["@) {
        None => None,
        Some(s1) => if s1.len() > 0 && s1[0] == ']' {
            Some((Seq::empty(), s1.subrange(1, s1.len() as int)))
        } else {
            match parse_section(s1) {
                None => None,
                Some((x, r)) => if r.len() < s1.len() {
                    match parse_seclist_more(r) {
                        None => None,
                        Some((xs, r2)) => Some((seq![x] + xs, r2)),
                    }
                } else {
                    None
                },
            }
        },
    }
}

/// An emitted section begins with an opening brace.
proof fn lemma_section_first(x: SectionM)
    ensures
        ser_section(x).len() > 0,
        ser_section(x)[0] == '{',
{
    reveal(ser_section);
    reveal_strlit("{\"sec_code\":");
    assert(ser_section(x)[0] == "{\"sec_code\":"@[0]);
}

/// Parsing emitted remaining sections recovers them.
proof fn lemma_seclist_more_round(xs: Seq<SectionM>, rest: Seq<char>)
    ensures
        parse_seclist_more(ser_seclist_more(xs) + "]"@ + rest) == Some((xs, rest)),
    decreases xs.len(),
{
    reveal(ser_seclist_more);
    reveal(parse_seclist_more);
    reveal_strlit(",");
    reveal_strlit("]");
    let whole = ser_seclist_more(xs) + "]"@ + rest;
    if xs.len() == 0 {
        assert(whole[0] == "]"@[0]);
        assert(whole.subrange(1, whole.len() as int) =~= rest);
    } else {
        assert(whole[0] == ","@[0]);
        let tail = xs.drop_first();
        let r1 = ser_section(xs[0]) + ser_seclist_more(tail) + "]"@ + rest;
        assert(whole.subrange(1, whole.len() as int) =~= r1);
        let r2 = ser_seclist_more(tail) + "]"@ + rest;
        assert(r1 =~= ser_section(xs[0]) + r2);
        lemma_section_round(xs[0], r2);
        lemma_section_first(xs[0]);
        lemma_seclist_more_round(tail, rest);
        assert(seq![xs[0]] + tail =~= xs);
    }
}

/// Parsing an emitted section list recovers it.
proof fn lemma_seclist_round(xs: Seq<SectionM>, rest: Seq<char>)
    ensures
        parse_seclist(ser_seclist(xs) + rest) == Some((xs, rest)),
{
    reveal(ser_seclist);
    reveal(parse_seclist);
    reveal_strlit("[");
    reveal_strlit("[]");
    reveal_strlit("]");
    let whole = ser_seclist(xs) + rest;
    if xs.len() == 0 {
        assert(whole =~= "["@ + ("]"@ + rest)) by {
            assert("[]"@[0] == '[');
            assert("[]"@[1] == ']');
        }
        lemma_lit_round("["@, "]"@ + rest);
        let s1 = "]"@ + rest;
        assert(s1[0] == ']');
        assert(s1.subrange(1, s1.len() as int) =~= rest);
    } else {
        let tail = xs.drop_first();
        let s1 = ser_section(xs[0]) + ser_seclist_more(tail) + "]"@ + rest;
        assert(whole =~= "["@ + s1);
        lemma_lit_round("["@, s1);
        lemma_section_first(xs[0]);
        assert(s1[0] == ser_section(xs[0])[0]);
        lemma_section_round(xs[0], ser_seclist_more(tail) + "]"@ + rest);
        assert(s1 =~= ser_section(xs[0]) + (ser_seclist_more(tail) + "]"@ + rest));
        lemma_seclist_more_round(tail, rest);
        assert(seq![xs[0]] + tail =~= xs);
    }
}

/// An optional section list: explicit `null` when absent, never an
/// empty list.
#[verifier::opaque]
pub open spec fn ser_opt_seclist(o: Option<Seq<SectionM>>) -> Seq<char> {
    match o {
        None => "null"@,
        Some(xs) => ser_seclist(xs),
    }
}

/// Parses an optional section list.
#[verifier::opaque]
pub open spec fn parse_opt_seclist(s: Seq<char>) -> Option<(Option<Seq<SectionM>>, Seq<char>)> {
    match parse_lit(s, "null"@) {
        Some(r) => Some((None, r)),
        None => match parse_seclist(s) {
            None => None,
            Some((xs, r)) => Some((Some(xs), r)),
        },
    }
}

/// Parsing an emitted optional section list recovers it, `null` and the
/// empty list kept distinct.
proof fn lemma_opt_seclist_round(o: Option<Seq<SectionM>>, rest: Seq<char>)
    ensures
        parse_opt_seclist(ser_opt_seclist(o) + rest) == Some((o, rest)),
{
    reveal(ser_opt_seclist);
    reveal(parse_opt_seclist);
    reveal(ser_seclist);
    reveal_strlit("null");
    reveal_strlit("[");
    reveal_strlit("[]");
    match o {
        None => {
            lemma_lit_round("null"@, rest);
        },
        Some(xs) => {
            let whole = ser_opt_seclist(o) + rest;
            assert(whole[0] == '[') by {
                if xs.len() == 0 {
                    assert(whole[0] == "[]"@[0]);
                } else {
                    assert(whole[0] == "["@[0]);
                }
            }
            if parse_lit(whole, "null"@) is Some {
                assert(whole.subrange(0, 4)[0] == whole[0]);
                assert(false);
            }
            lemma_seclist_round(xs, rest);
        },
    }
}

// ---------------------------------------------------------------------
// Courses.

/// A course object, fields in a fixed order, absent optional fields
/// written as explicit `null`.
#[verifier::opaque]
pub open spec fn ser_course_tail(c: CourseM) -> Seq<char> {
    ",\"gen_eds\":"@ + ser_opt_strlist(c.gen_eds) + ",\"conditions\":"@ + ser_opt_strlist(
        c.conditions,
    ) + ",\"description\":"@ + ser_str(c.description) + ",\"sections\":"@ + ser_opt_seclist(
        c.sections,
    ) + "}"@
}

/// A course object, fields in a fixed order, absent optional fields
/// written as explicit `null`.
#[verifier::opaque]
pub open spec fn ser_course(c: CourseM) -> Seq<char> {
    "{\"code\":"@ + ser_str(c.code) + ",\"name\":"@ + ser_str(c.name) + ",\"credits\":"@
        + ser_credits(c.credits) + ser_course_tail(c)
}

/// Parses a course object.
#[verifier::opaque]
pub open spec fn parse_course_tail(s: Seq<char>) -> Option<
    ((Option<Seq<Seq<char>>>, Option<Seq<Seq<char>>>, Seq<char>, Option<Seq<SectionM>>), Seq<char>),
> {
    match parse_lit(s, ",\"gen_eds\":"@) {
        None => None,
        Some(s1) => match parse_opt_strlist(s1) {
            None => None,
            Some((gen_eds, s2)) => match parse_lit(s2, ",\"conditions\":"@) {
                None => None,
                Some(s3) => match parse_opt_strlist(s3) {
                    None => None,
                    Some((conditions, s4)) => match parse_lit(s4, ",\"description\":"@) {
                        None => None,
                        Some(s5) => match parse_str(s5) {
                            None => None,
                            Some((description, s6)) => match parse_lit(s6, ",\"sections\":"@) {
                                None => None,
                                Some(s7) => match parse_opt_seclist(s7) {
                                    None => None,
                                    Some((sections, s8)) => match parse_lit(s8, "}"@) {
                                        None => None,
                                        Some(s9) => Some((
                                            (gen_eds, conditions, description, sections),
                                            s9,
                                        )),
                                    },
                                },
                            },
                        },
                    },
                },
            },
        },
    }
}

/// Parses a course object.
#[verifier::opaque]
pub open spec fn parse_course(s: Seq<char>) -> Option<(CourseM, Seq<char>)> {
    match parse_lit(s, "{\"code\":"@) {
        None => None,
        Some(s1) => match parse_str(s1) {
            None => None,
            Some((code, s2)) => match parse_lit(s2, ",\"name\":"@) {
                None => None,
                Some(s3) => match parse_str(s3) {
                    None => None,
                    Some((name, s4)) => match parse_lit(s4, ",\"credits\":"@) {
                        None => None,
                        Some(s5) => match parse_credits(s5) {
                            None => None,
                            Some((credits, s6)) => match parse_course_tail(s6) {
                                None => None,
                                Some(((gen_eds, conditions, description, sections), s7)) => Some((
                                    CourseM {
                                        code,
                                        name,
                                        credits,
                                        gen_eds,
                                        conditions,
                                        description,
                                        sections,
                                    },
                                    s7,
                                )),
                            },
                        },
                    },
                },
            },
        },
    }
}

/// Parsing an emitted course recovers the course, including the
/// distinction between absent sections and an empty section list.
/// Parsing the emitted tail of a course recovers its optional fields.
#[verifier::rlimit(100)]
#[verifier::spinoff_prover]
proof fn lemma_course_tail_round(c: CourseM, rest: Seq<char>)
    ensures
        parse_course_tail(ser_course_tail(c) + rest) == Some((
            (c.gen_eds, c.conditions, c.description, c.sections),
            rest,
        )),
{
    reveal(ser_course_tail);
    reveal(parse_course_tail);
    let whole = ser_course_tail(c) + rest;
    let r1 = ser_opt_strlist(c.gen_eds) + ",\"conditions\":"@ + ser_opt_strlist(c.conditions)
        + ",\"description\":"@ + ser_str(c.description) + ",\"sections\":"@ + ser_opt_seclist(
        c.sections,
    ) + "}"@ + rest;
    assert(whole =~= ",\"gen_eds\":"@ + r1);
    lemma_lit_round(",\"gen_eds\":"@, r1);
    let r2 = ",\"conditions\":"@ + ser_opt_strlist(c.conditions) + ",\"description\":"@
        + ser_str(c.description) + ",\"sections\":"@ + ser_opt_seclist(c.sections) + "}"@ + rest;
    assert(r1 =~= ser_opt_strlist(c.gen_eds) + r2);
    lemma_opt_strlist_round(c.gen_eds, r2);
    let r3 = ser_opt_strlist(c.conditions) + ",\"description\":"@ + ser_str(c.description)
        + ",\"sections\":"@ + ser_opt_seclist(c.sections) + "}"@ + rest;
    assert(r2 =~= ",\"conditions\":"@ + r3);
    lemma_lit_round(",\"conditions\":"@, r3);
    let r4 = ",\"description\":"@ + ser_str(c.description) + ",\"sections\":"@
        + ser_opt_seclist(c.sections) + "}"@ + rest;
    assert(r3 =~= ser_opt_strlist(c.conditions) + r4);
    lemma_opt_strlist_round(c.conditions, r4);
    let r5 = ser_str(c.description) + ",\"sections\":"@ + ser_opt_seclist(c.sections) + "}"@
        + rest;
    assert(r4 =~= ",\"description\":"@ + r5);
    lemma_lit_round(",\"description\":"@, r5);
    let r6 = ",\"sections\":"@ + ser_opt_seclist(c.sections) + "}"@ + rest;
    assert(r5 =~= ser_str(c.description) + r6);
    lemma_str_round(c.description, r6);
    let r7 = ser_opt_seclist(c.sections) + "}"@ + rest;
    assert(r6 =~= ",\"sections\":"@ + r7);
    lemma_lit_round(",\"sections\":"@, r7);
    let r8 = "}"@ + rest;
    assert(r7 =~= ser_opt_seclist(c.sections) + r8);
    lemma_opt_seclist_round(c.sections, r8);
    lemma_lit_round("}"@, rest);
}

/// Parsing an emitted course recovers the course, including the
/// distinction between absent sections and an empty section list.
#[verifier::rlimit(100)]
#[verifier::spinoff_prover]
proof fn lemma_course_round_rest(c: CourseM, rest: Seq<char>)
    ensures
        parse_course(ser_course(c) + rest) == Some((c, rest)),
{
    reveal(ser_course);
    reveal(parse_course);
    let whole = ser_course(c) + rest;
    let r1 = ser_str(c.code) + ",\"name\":"@ + ser_str(c.name) + ",\"credits\":"@
        + ser_credits(c.credits) + ser_course_tail(c) + rest;
    assert(whole =~= "{\"code\":"@ + r1);
    lemma_lit_round("{\"code\":"@, r1);
    let r2 = ",\"name\":"@ + ser_str(c.name) + ",\"credits\":"@ + ser_credits(c.credits)
        + ser_course_tail(c) + rest;
    assert(r1 =~= ser_str(c.code) + r2);
    lemma_str_round(c.code, r2);
    let r3 = ser_str(c.name) + ",\"credits\":"@ + ser_credits(c.credits) + ser_course_tail(c)
        + rest;
    assert(r2 =~= ",\"name\":"@ + r3);
    lemma_lit_round(",\"name\":"@, r3);
    let r4 = ",\"credits\":"@ + ser_credits(c.credits) + ser_course_tail(c) + rest;
    assert(r3 =~= ser_str(c.name) + r4);
    lemma_str_round(c.name, r4);
    let r5 = ser_credits(c.credits) + ser_course_tail(c) + rest;
    assert(r4 =~= ",\"credits\":"@ + r5);
    lemma_lit_round(",\"credits\":"@, r5);
    let r6 = ser_course_tail(c) + rest;
    assert(r5 =~= ser_credits(c.credits) + r6);
    lemma_credits_round(c.credits, r6);
    lemma_course_tail_round(c, rest);
}

/// Serializing an assembled course and parsing the result yields the
/// course again, with nothing left over: absent and empty optional
/// fields, sections included, are preserved exactly.
pub proof fn lemma_course_json_round_trip(c: CourseM)
    ensures
        parse_course(ser_course(c)) == Some((c, Seq::<char>::empty())),
{
    lemma_course_round_rest(c, Seq::empty());
    assert(ser_course(c) + Seq::<char>::empty() =~= ser_course(c));
}

// ---------------------------------------------------------------------
// The exec emitter.

/// Appends the escaped characters of `cs[i..]` to `out`.
fn emit_esc(out: &mut Vec<char>, cs: &Vec<char>, i: usize)
    requires
        i <= cs@.len(),
    ensures
        final(out)@ == old(out)@ + esc(cs@.subrange(i as int, cs@.len() as int)),
    decreases cs@.len() - i,
{
    if i < cs.len() {
        let c = cs[i];
        if c == '"' || c == '\\' {
            out.push('\\');
            out.push(c);
        } else {
            out.push(c);
        }
        emit_esc(out, cs, i + 1);
        proof {
            let sub = cs@.subrange(i as int, cs@.len() as int);
            assert(sub[0] == cs@[i as int]);
            assert(sub.subrange(1, sub.len() as int) =~= cs@.subrange(
                i + 1,
                cs@.len() as int,
            ));
            assert(final(out)@ =~= old(out)@ + esc(sub));
        }
    } else {
        proof {
            assert(cs@.subrange(i as int, cs@.len() as int) =~= Seq::<char>::empty());
            assert(final(out)@ =~= old(out)@ + esc(cs@.subrange(i as int, cs@.len() as int)));
        }
    }
}

/// Appends a JSON string to `out`.
fn emit_str(out: &mut Vec<char>, s: &str)
    ensures
        final(out)@ == old(out)@ + ser_str(s@),
{
    let cs = crate::chars::str_to_chars(s);
    out.push('"');
    emit_esc(out, &cs, 0);
    out.push('"');
    proof {
        assert(cs@.subrange(0, cs@.len() as int) =~= s@);
        assert(final(out)@ =~= old(out)@ + ser_str(s@));
    }
}

/// Appends the decimal digits of a byte to `out`.
fn emit_num(out: &mut Vec<char>, n: u8)
    ensures
        final(out)@ == old(out)@ + dec_digits(n as int),
{
    crate::chars::push_dec_digits(out, n as usize);
}

/// Appends an emitted time to `out`.
fn emit_time(out: &mut Vec<char>, t: &Time)
    ensures
        final(out)@ == old(out)@ + ser_time(*t),
{
    crate::chars::push_str_chars(out, "[");
    emit_num(out, t.0);
    crate::chars::push_str_chars(out, ",");
    emit_num(out, t.1);
    crate::chars::push_str_chars(out, ",");
    match t.2 {
        AmPm::Am => {
            emit_str(out, "Am");
        },
        AmPm::Pm => {
            emit_str(out, "Pm");
        },
    }
    crate::chars::push_str_chars(out, "]");
    proof {
        reveal(ser_time);
        assert(final(out)@ =~= old(out)@ + ser_time(*t));
    }
}

/// The name of a day pattern, as a string slice.
fn days_name(d: ClassDays) -> (r: &'static str)
    ensures
        r@ == days_str(d),
{
    match d {
        ClassDays::M => "M",
        ClassDays::Tu => "Tu",
        ClassDays::W => "W",
        ClassDays::Th => "Th",
        ClassDays::F => "F",
        ClassDays::MWF => "MWF",
        ClassDays::MW => "MW",
        ClassDays::WF => "WF",
        ClassDays::TuTh => "TuTh",
        ClassDays::MTuWThF => "MTuWThF",
        ClassDays::MF => "MF",
        ClassDays::Sa => "Sa",
        ClassDays::Su => "Su",
        ClassDays::SaSu => "SaSu",
        ClassDays::MTu => "MTu",
        ClassDays::MTuThF => "MTuThF",
        ClassDays::MTuWTh => "MTuWTh",
        ClassDays::TuF => "TuF",
        ClassDays::TuWTh => "TuWTh",
        ClassDays::WTh => "WTh",
        ClassDays::MWTh => "MWTh",
        ClassDays::MTh => "MTh",
    }
}

/// Appends an emitted classtime to `out`.
fn emit_ct(out: &mut Vec<char>, ct: &Classtime)
    ensures
        final(out)@ == old(out)@ + ser_ct(*ct),
{
    crate::chars::push_str_chars(out, "{\"days\":");
    emit_str(out, days_name(ct.days));
    crate::chars::push_str_chars(out, ",\"start_time\":");
    emit_time(out, &ct.start_time);
    crate::chars::push_str_chars(out, ",\"end_time\":");
    emit_time(out, &ct.end_time);
    crate::chars::push_str_chars(out, "}");
    proof {
        reveal(ser_ct);
        assert(final(out)@ =~= old(out)@ + ser_ct(*ct));
    }
}

/// Appends an emitted optional classtime to `out`.
fn emit_opt_ct(out: &mut Vec<char>, o: &Option<Classtime>)
    ensures
        final(out)@ == old(out)@ + ser_opt_ct(*o),
{
    match o {
        None => {
            crate::chars::push_str_chars(out, "null");
        },
        Some(ct) => {
            emit_ct(out, ct);
        },
    }
    proof {
        reveal(ser_opt_ct);
        assert(final(out)@ =~= old(out)@ + ser_opt_ct(*o));
    }
}

/// Appends an emitted meeting to `out`.
fn emit_meeting(out: &mut Vec<char>, m: &crate::types::ClassMeeting)
    ensures
        final(out)@ == old(out)@ + ser_meeting(m@),
{
    match m {
        crate::types::ClassMeeting::Unspecified => {
            crate::chars::push_str_chars(out, "\"Unspecified\"");
        },
        crate::types::ClassMeeting::OnlineAsync => {
            crate::chars::push_str_chars(out, "\"OnlineAsync\"");
        },
        crate::types::ClassMeeting::OnlineSync(o) => {
            crate::chars::push_str_chars(out, "{\"OnlineSync\":");
            emit_opt_ct(out, o);
            crate::chars::push_str_chars(out, "}");
        },
        crate::types::ClassMeeting::InPerson(ipc) => {
            crate::chars::push_str_chars(out, "{\"InPerson\":{\"classtime\":");
            emit_opt_ct(out, &ipc.classtime);
            crate::chars::push_str_chars(out, ",\"location\":");
            match &ipc.location {
                None => {
                    crate::chars::push_str_chars(out, "null");
                },
                Some(loc) => {
                    crate::chars::push_str_chars(out, "[");
                    emit_str(out, loc.0.as_str());
                    crate::chars::push_str_chars(out, ",");
                    emit_str(out, loc.1.as_str());
                    crate::chars::push_str_chars(out, "]");
                },
            }
            crate::chars::push_str_chars(out, "}}");
        },
    }
    proof {
        reveal(ser_meeting);
        reveal(ser_opt_loc);
        assert(final(out)@ =~= old(out)@ + ser_meeting(m@));
    }
}

/// Appends the remaining items of a string list to `out`.
fn emit_strlist_more(out: &mut Vec<char>, items: &Vec<String>, i: usize)
    requires
        1 <= i <= items@.len(),
    ensures
        final(out)@ == old(out)@ + ser_strlist_more(
            items.deep_view().subrange(i as int, items@.len() as int),
        ),
    decreases items@.len() - i,
{
    proof {
        reveal(ser_strlist_more);
    }
    if i < items.len() {
        crate::chars::push_str_chars(out, ",");
        emit_str(out, items[i].as_str());
        emit_strlist_more(out, items, i + 1);
        proof {
            let sub = items.deep_view().subrange(i as int, items@.len() as int);
            assert(sub[0] == items.deep_view()[i as int]);
            assert(sub.drop_first() =~= items.deep_view().subrange(
                i + 1,
                items@.len() as int,
            ));
            assert(final(out)@ =~= old(out)@ + ser_strlist_more(sub));
        }
    } else {
        proof {
            assert(items.deep_view().subrange(i as int, items@.len() as int)
                =~= Seq::<Seq<char>>::empty());
            assert(final(out)@ =~= old(out)@ + ser_strlist_more(
                items.deep_view().subrange(i as int, items@.len() as int),
            ));
        }
    }
}

/// Appends an emitted string list to `out`.
fn emit_strlist(out: &mut Vec<char>, items: &Vec<String>)
    ensures
        final(out)@ == old(out)@ + ser_strlist(items.deep_view()),
{
    proof {
        reveal(ser_strlist);
    }
    if items.len() == 0 {
        crate::chars::push_str_chars(out, "[]");
    } else {
        crate::chars::push_str_chars(out, "[");
        emit_str(out, items[0].as_str());
        emit_strlist_more(out, items, 1);
        crate::chars::push_str_chars(out, "]");
        proof {
            assert(items.deep_view().subrange(1, items@.len() as int) =~= items.deep_view()
                .drop_first());
            assert(final(out)@ =~= old(out)@ + ser_strlist(items.deep_view()));
        }
    }
}

/// Appends the remaining meetings of a list to `out`.
fn emit_meetlist_more(out: &mut Vec<char>, items: &Vec<crate::types::ClassMeeting>, i: usize)
    requires
        1 <= i <= items@.len(),
    ensures
        final(out)@ == old(out)@ + ser_meetlist_more(
            items.deep_view().subrange(i as int, items@.len() as int),
        ),
    decreases items@.len() - i,
{
    proof {
        reveal(ser_meetlist_more);
    }
    if i < items.len() {
        crate::chars::push_str_chars(out, ",");
        emit_meeting(out, &items[i]);
        emit_meetlist_more(out, items, i + 1);
        proof {
            let sub = items.deep_view().subrange(i as int, items@.len() as int);
            assert(sub[0] == items.deep_view()[i as int]);
            assert(sub.drop_first() =~= items.deep_view().subrange(
                i + 1,
                items@.len() as int,
            ));
            assert(final(out)@ =~= old(out)@ + ser_meetlist_more(sub));
        }
    } else {
        proof {
            assert(items.deep_view().subrange(i as int, items@.len() as int)
                =~= Seq::<MeetingM>::empty());
            assert(final(out)@ =~= old(out)@ + ser_meetlist_more(
                items.deep_view().subrange(i as int, items@.len() as int),
            ));
        }
    }
}

/// Appends an emitted meeting list to `out`.
fn emit_meetlist(out: &mut Vec<char>, items: &Vec<crate::types::ClassMeeting>)
    ensures
        final(out)@ == old(out)@ + ser_meetlist(items.deep_view()),
{
    proof {
        reveal(ser_meetlist);
    }
    if items.len() == 0 {
        crate::chars::push_str_chars(out, "[]");
    } else {
        crate::chars::push_str_chars(out, "[");
        emit_meeting(out, &items[0]);
        emit_meetlist_more(out, items, 1);
        crate::chars::push_str_chars(out, "]");
        proof {
            assert(items.deep_view().subrange(1, items@.len() as int) =~= items.deep_view()
                .drop_first());
            assert(final(out)@ =~= old(out)@ + ser_meetlist(items.deep_view()));
        }
    }
}

/// Appends an emitted section to `out`.
fn emit_section(out: &mut Vec<char>, x: &crate::types::Section)
    ensures
        final(out)@ == old(out)@ + ser_section(x@),
{
    crate::chars::push_str_chars(out, "{\"sec_code\":");
    emit_str(out, x.sec_code.as_str());
    crate::chars::push_str_chars(out, ",\"instructors\":");
    emit_strlist(out, &x.instructors);
    crate::chars::push_str_chars(out, ",\"class_meetings\":");
    emit_meetlist(out, &x.class_meetings);
    crate::chars::push_str_chars(out, "}");
    proof {
        reveal(ser_section);
        assert(final(out)@ =~= old(out)@ + ser_section(x@));
    }
}

/// Appends the remaining sections of a list to `out`.
fn emit_seclist_more(out: &mut Vec<char>, items: &Vec<crate::types::Section>, i: usize)
    requires
        1 <= i <= items@.len(),
    ensures
        final(out)@ == old(out)@ + ser_seclist_more(
            items.deep_view().subrange(i as int, items@.len() as int),
        ),
    decreases items@.len() - i,
{
    proof {
        reveal(ser_seclist_more);
    }
    if i < items.len() {
        crate::chars::push_str_chars(out, ",");
        emit_section(out, &items[i]);
        emit_seclist_more(out, items, i + 1);
        proof {
            let sub = items.deep_view().subrange(i as int, items@.len() as int);
            assert(sub[0] == items.deep_view()[i as int]);
            assert(sub.drop_first() =~= items.deep_view().subrange(
                i + 1,
                items@.len() as int,
            ));
            assert(final(out)@ =~= old(out)@ + ser_seclist_more(sub));
        }
    } else {
        proof {
            assert(items.deep_view().subrange(i as int, items@.len() as int)
                =~= Seq::<SectionM>::empty());
            assert(final(out)@ =~= old(out)@ + ser_seclist_more(
                items.deep_view().subrange(i as int, items@.len() as int),
            ));
        }
    }
}

/// Appends an emitted optional section list to `out`.
fn emit_opt_seclist(out: &mut Vec<char>, o: &Option<Vec<crate::types::Section>>)
    ensures
        final(out)@ == old(out)@ + ser_opt_seclist(
            match o {
                Some(ref v) => Some(v.deep_view()),
                None => None,
            },
        ),
{
    proof {
        reveal(ser_opt_seclist);
        reveal(ser_seclist);
    }
    match o {
        None => {
            crate::chars::push_str_chars(out, "null");
        },
        Some(items) => {
            if items.len() == 0 {
                crate::chars::push_str_chars(out, "[]");
            } else {
                crate::chars::push_str_chars(out, "[");
                emit_section(out, &items[0]);
                emit_seclist_more(out, items, 1);
                crate::chars::push_str_chars(out, "]");
                proof {
                    assert(items.deep_view().subrange(1, items@.len() as int)
                        =~= items.deep_view().drop_first());
                    assert(final(out)@ =~= old(out)@ + ser_seclist(items.deep_view()));
                }
            }
        },
    }
}

/// Appends an emitted optional string list to `out`.
fn emit_opt_strlist(out: &mut Vec<char>, o: &Option<Vec<String>>)
    ensures
        final(out)@ == old(out)@ + ser_opt_strlist(
            match o {
                Some(ref v) => Some(v.deep_view()),
                None => None,
            },
        ),
{
    proof {
        reveal(ser_opt_strlist);
    }
    match o {
        None => {
            crate::chars::push_str_chars(out, "null");
        },
        Some(items) => {
            emit_strlist(out, items);
        },
    }
}

/// Appends emitted credits to `out`.
fn emit_credits(out: &mut Vec<char>, c: &CreditCount)
    ensures
        final(out)@ == old(out)@ + ser_credits(*c),
{
    proof {
        reveal(ser_credits);
    }
    match c {
        CreditCount::Amount(n) => {
            crate::chars::push_str_chars(out, "{\"Amount\":");
            emit_num(out, *n);
            crate::chars::push_str_chars(out, "}");
            proof {
                assert(final(out)@ =~= old(out)@ + ser_credits(*c));
            }
        },
        CreditCount::Range(a, b) => {
            crate::chars::push_str_chars(out, "{\"Range\":[");
            emit_num(out, *a);
            crate::chars::push_str_chars(out, ",");
            emit_num(out, *b);
            crate::chars::push_str_chars(out, "]}");
            proof {
                assert(final(out)@ =~= old(out)@ + ser_credits(*c));
            }
        },
    }
}

/// Emits one assembled course in the canonical shape.
pub fn course_to_json(course: &crate::types::Course) -> (r: String)
    ensures
        r@ == ser_course(course@),
{
    let mut out: Vec<char> = Vec::new();
    crate::chars::push_str_chars(&mut out, "{\"code\":");
    emit_str(&mut out, course.code.as_str());
    crate::chars::push_str_chars(&mut out, ",\"name\":");
    emit_str(&mut out, course.name.as_str());
    crate::chars::push_str_chars(&mut out, ",\"credits\":");
    emit_credits(&mut out, &course.credits);
    crate::chars::push_str_chars(&mut out, ",\"gen_eds\":");
    emit_opt_strlist(&mut out, &course.gen_eds);
    crate::chars::push_str_chars(&mut out, ",\"conditions\":");
    emit_opt_strlist(&mut out, &course.conditions);
    crate::chars::push_str_chars(&mut out, ",\"description\":");
    emit_str(&mut out, course.description.as_str());
    crate::chars::push_str_chars(&mut out, ",\"sections\":");
    emit_opt_seclist(&mut out, &course.sections);
    crate::chars::push_str_chars(&mut out, "}");
    proof {
        reveal(ser_course);
        reveal(ser_course_tail);
        assert(out@ =~= ser_course(course@));
    }
    crate::chars::chars_to_string(&out)
}

// ---------------------------------------------------------------------
// The exec parser.

/// The suffix of `cs` from position `p`.
pub open spec fn sfx(cs: Seq<char>, p: int) -> Seq<char> {
    cs.subrange(p, cs.len() as int)
}

/// Consumes an exact literal at `pos`.
fn p_lit(cs: &Vec<char>, pos: usize, lit: &str) -> (r: Option<usize>)
    requires
        pos <= cs@.len(),
    ensures
        match r {
            Some(p2) => pos <= p2 <= cs@.len() && p2 - pos == lit@.len() && parse_lit(
                sfx(cs@, pos as int),
                lit@,
            ) == Some(sfx(cs@, p2 as int)),
            None => parse_lit(sfx(cs@, pos as int), lit@) is None,
        },
{
    let lv = crate::chars::str_to_chars(lit);
    let n = lv.len();
    if n <= cs.len() - pos {
        if crate::textparse::occurs_at_exec(cs, &lv, pos) {
            proof {
                assert(sfx(cs@, pos as int).subrange(0, n as int) =~= lit@);
                assert(sfx(cs@, pos as int).subrange(
                    n as int,
                    sfx(cs@, pos as int).len() as int,
                ) =~= sfx(cs@, (pos + n) as int));
            }
            Some(pos + n)
        } else {
            proof {
                if parse_lit(sfx(cs@, pos as int), lit@) is Some {
                    assert forall|j: int| 0 <= j < n implies cs@[pos + j] == lit@[j] by {
                        assert(sfx(cs@, pos as int).subrange(0, n as int)[j] == lit@[j]);
                    }
                    assert(crate::textparse::occurs_at(cs@, lv@, pos as int));
                    assert(false);
                }
            }
            None
        }
    } else {
        None
    }
}

/// Reads a decimal byte at `pos`.
fn p_num(cs: &Vec<char>, pos: usize) -> (r: Option<(u8, usize)>)
    requires
        pos <= cs@.len(),
    ensures
        match r {
            Some((v, p2)) => pos <= p2 <= cs@.len() && parse_num(sfx(cs@, pos as int)) == Some(
                (v, sfx(cs@, p2 as int)),
            ),
            None => parse_num(sfx(cs@, pos as int)) is None,
        },
{
    let e = crate::chars::scan_digits(cs, pos);
    proof {
        lemma_digit_run_end(cs@, pos as int);
        assert forall|j: int| 0 <= j < e - pos implies is_digit(
            #[trigger] sfx(cs@, pos as int)[j],
        ) by {
            assert(sfx(cs@, pos as int)[j] == cs@[pos + j]);
        }
        if e < cs@.len() {
            assert(sfx(cs@, pos as int)[e - pos] == cs@[e as int]);
        }
        lemma_digit_run_end_exact(sfx(cs@, pos as int), e - pos);
    }
    if e == pos {
        return None;
    }
    proof {
        assert(sfx(cs@, pos as int).subrange(0, e - pos) =~= cs@.subrange(pos as int, e as int));
    }
    match crate::chars::vec_digits_value(cs, pos, e) {
        None => None,
        Some(v) => {
            proof {
                assert(sfx(cs@, pos as int).subrange(
                    e - pos,
                    sfx(cs@, pos as int).len() as int,
                ) =~= sfx(cs@, e as int));
            }
            Some((v, e))
        },
    }
}

/// Reads a string body up to its closing quote, appending the unescaped
/// characters to `out`.
fn p_str_body(cs: &Vec<char>, pos: usize, out: &mut Vec<char>) -> (r: Option<usize>)
    requires
        pos <= cs@.len(),
    ensures
        match r {
            Some(p2) => pos < p2 <= cs@.len() && (parse_str_body(sfx(cs@, pos as int)) matches
                Some((t, rest)) && rest == sfx(cs@, p2 as int) && final(out)@ == old(out)@ + t),
            None => parse_str_body(sfx(cs@, pos as int)) is None && final(out)@ == old(out)@,
        },
    decreases cs@.len() - pos,
{
    if pos >= cs.len() {
        return None;
    }
    let c = cs[pos];
    proof {
        assert(sfx(cs@, pos as int)[0] == c);
    }
    if c == '"' {
        proof {
            assert(sfx(cs@, pos as int).subrange(1, sfx(cs@, pos as int).len() as int) =~= sfx(
                cs@,
                pos + 1,
            ));
            assert(out@ =~= old(out)@ + Seq::<char>::empty());
        }
        Some(pos + 1)
    } else if c == '\\' {
        if pos + 1 >= cs.len() {
            proof {
                assert(sfx(cs@, pos as int).len() < 2);
            }
            return None;
        }
        let ghost pre = out@;
        out.push(cs[pos + 1]);
        let r = p_str_body(cs, pos + 2, out);
        proof {
            assert(sfx(cs@, pos as int).subrange(2, sfx(cs@, pos as int).len() as int) =~= sfx(
                cs@,
                pos + 2,
            ));
            assert(sfx(cs@, pos as int)[1] == cs@[pos + 1]);
        }
        match r {
            Some(p2) => {
                proof {
                    let t = parse_str_body(sfx(cs@, pos + 2))->Some_0.0;
                    assert(out@ =~= pre + (seq![cs@[pos + 1]] + t));
                }
                Some(p2)
            },
            None => {
                proof {
                    assert(out@ == pre.push(cs@[pos + 1]));
                }
                // The escaped tail did not parse; undo the pushed character.
                let _ = out.pop();
                proof {
                    assert(out@ =~= pre);
                }
                None
            },
        }
    } else {
        let ghost pre = out@;
        out.push(c);
        let r = p_str_body(cs, pos + 1, out);
        proof {
            assert(sfx(cs@, pos as int).subrange(1, sfx(cs@, pos as int).len() as int) =~= sfx(
                cs@,
                pos + 1,
            ));
        }
        match r {
            Some(p2) => {
                proof {
                    let t = parse_str_body(sfx(cs@, pos + 1))->Some_0.0;
                    assert(out@ =~= pre + (seq![c] + t));
                }
                Some(p2)
            },
            None => {
                let _ = out.pop();
                proof {
                    assert(out@ =~= pre);
                }
                None
            },
        }
    }
}

/// Reads a JSON string at `pos`.
fn p_str(cs: &Vec<char>, pos: usize) -> (r: Option<(String, usize)>)
    requires
        pos <= cs@.len(),
    ensures
        match r {
            Some((v, p2)) => pos < p2 <= cs@.len() && (parse_str(sfx(cs@, pos as int)) matches
                Some((t, rest)) && t == v@ && rest == sfx(cs@, p2 as int)),
            None => parse_str(sfx(cs@, pos as int)) is None,
        },
{
    if pos >= cs.len() {
        return None;
    }
    if cs[pos] != '"' {
        proof {
            assert(sfx(cs@, pos as int)[0] == cs@[pos as int]);
        }
        return None;
    }
    proof {
        assert(sfx(cs@, pos as int)[0] == cs@[pos as int]);
        assert(sfx(cs@, pos as int).subrange(1, sfx(cs@, pos as int).len() as int) =~= sfx(
            cs@,
            pos + 1,
        ));
    }
    let mut buf: Vec<char> = Vec::new();
    match p_str_body(cs, pos + 1, &mut buf) {
        None => None,
        Some(p2) => {
            let v = crate::chars::chars_to_string(&buf);
            Some((v, p2))
        },
    }
}

/// Reads a time array at `pos`.
fn p_time(cs: &Vec<char>, pos: usize) -> (r: Option<(Time, usize)>)
    requires
        pos <= cs@.len(),
    ensures
        match r {
            Some((t, p2)) => pos <= p2 <= cs@.len() && parse_time_j(sfx(cs@, pos as int)) == Some(
                (t, sfx(cs@, p2 as int)),
            ),
            None => parse_time_j(sfx(cs@, pos as int)) is None,
        },
{
    proof {
        reveal(parse_time_j);
    }
    let p1 = match p_lit(cs, pos, "[") {
        Some(p) => p,
        None => { return None },
    };
    let (h, p2) = match p_num(cs, p1) {
        Some(x) => x,
        None => { return None },
    };
    let p3 = match p_lit(cs, p2, ",") {
        Some(p) => p,
        None => { return None },
    };
    let (m, p4) = match p_num(cs, p3) {
        Some(x) => x,
        None => { return None },
    };
    let p5 = match p_lit(cs, p4, ",") {
        Some(p) => p,
        None => { return None },
    };
    let (ap, p6) = match p_str(cs, p5) {
        Some(x) => x,
        None => { return None },
    };
    let p7 = match p_lit(cs, p6, "]") {
        Some(p) => p,
        None => { return None },
    };
    if crate::chars::str_eq(ap.as_str(), "Am") {
        Some((Time(h, m, AmPm::Am), p7))
    } else if crate::chars::str_eq(ap.as_str(), "Pm") {
        Some((Time(h, m, AmPm::Pm), p7))
    } else {
        None
    }
}

/// Reads a classtime object at `pos`.
fn p_ct(cs: &Vec<char>, pos: usize) -> (r: Option<(Classtime, usize)>)
    requires
        pos <= cs@.len(),
    ensures
        match r {
            Some((ct, p2)) => pos <= p2 <= cs@.len() && parse_ct(sfx(cs@, pos as int)) == Some(
                (ct, sfx(cs@, p2 as int)),
            ),
            None => parse_ct(sfx(cs@, pos as int)) is None,
        },
{
    proof {
        reveal(parse_ct);
    }
    let p1 = match p_lit(cs, pos, "{\"days\":") {
        Some(p) => p,
        None => { return None },
    };
    let (dn, p2) = match p_str(cs, p1) {
        Some(x) => x,
        None => { return None },
    };
    let d = match crate::types::parse_day_pattern(dn.as_str()) {
        Ok(d) => d,
        Err(_) => { return None },
    };
    let p3 = match p_lit(cs, p2, ",\"start_time\":") {
        Some(p) => p,
        None => { return None },
    };
    let (st, p4) = match p_time(cs, p3) {
        Some(x) => x,
        None => { return None },
    };
    let p5 = match p_lit(cs, p4, ",\"end_time\":") {
        Some(p) => p,
        None => { return None },
    };
    let (et, p6) = match p_time(cs, p5) {
        Some(x) => x,
        None => { return None },
    };
    let p7 = match p_lit(cs, p6, "}") {
        Some(p) => p,
        None => { return None },
    };
    Some((Classtime { days: d, start_time: st, end_time: et }, p7))
}

/// Reads an optional classtime at `pos`.
fn p_opt_ct(cs: &Vec<char>, pos: usize) -> (r: Option<(Option<Classtime>, usize)>)
    requires
        pos <= cs@.len(),
    ensures
        match r {
            Some((o, p2)) => pos <= p2 <= cs@.len() && parse_opt_ct(sfx(cs@, pos as int)) == Some(
                (o, sfx(cs@, p2 as int)),
            ),
            None => parse_opt_ct(sfx(cs@, pos as int)) is None,
        },
{
    proof {
        reveal(parse_opt_ct);
    }
    match p_lit(cs, pos, "null") {
        Some(p2) => Some((None, p2)),
        None => match p_ct(cs, pos) {
            Some((ct, p2)) => Some((Some(ct), p2)),
            None => None,
        },
    }
}

/// Reads an optional location at `pos`.
fn p_opt_loc(cs: &Vec<char>, pos: usize) -> (r: Option<(Option<crate::types::ClassLocation>, usize)>)
    requires
        pos <= cs@.len(),
    ensures
        match r {
            Some((o, p2)) => pos <= p2 <= cs@.len() && (parse_opt_loc(sfx(cs@, pos as int))
                matches Some((om, rest)) && rest == sfx(cs@, p2 as int) && om == (match o {
                Some(ref l) => Some(l@),
                None => None,
            })),
            None => parse_opt_loc(sfx(cs@, pos as int)) is None,
        },
{
    proof {
        reveal(parse_opt_loc);
    }
    match p_lit(cs, pos, "null") {
        Some(p2) => Some((None, p2)),
        None => {
            let p1 = match p_lit(cs, pos, "[") {
                Some(p) => p,
                None => { return None },
            };
            let (b, p2) = match p_str(cs, p1) {
                Some(x) => x,
                None => { return None },
            };
            let p3 = match p_lit(cs, p2, ",") {
                Some(p) => p,
                None => { return None },
            };
            let (rm, p4) = match p_str(cs, p3) {
                Some(x) => x,
                None => { return None },
            };
            let p5 = match p_lit(cs, p4, "]") {
                Some(p) => p,
                None => { return None },
            };
            Some((Some(crate::types::ClassLocation(b, rm)), p5))
        },
    }
}

/// Reads a credit count at `pos`.
fn p_credits(cs: &Vec<char>, pos: usize) -> (r: Option<(CreditCount, usize)>)
    requires
        pos <= cs@.len(),
    ensures
        match r {
            Some((c, p2)) => pos <= p2 <= cs@.len() && parse_credits(sfx(cs@, pos as int))
                == Some((c, sfx(cs@, p2 as int))),
            None => parse_credits(sfx(cs@, pos as int)) is None,
        },
{
    proof {
        reveal(parse_credits);
    }
    match p_lit(cs, pos, "{\"Amount\":") {
        Some(p1) => {
            let (n, p2) = match p_num(cs, p1) {
                Some(x) => x,
                None => { return None },
            };
            let p3 = match p_lit(cs, p2, "}") {
                Some(p) => p,
                None => { return None },
            };
            Some((CreditCount::Amount(n), p3))
        },
        None => {
            let p1 = match p_lit(cs, pos, "{\"Range\":[") {
                Some(p) => p,
                None => { return None },
            };
            let (a, p2) = match p_num(cs, p1) {
                Some(x) => x,
                None => { return None },
            };
            let p3 = match p_lit(cs, p2, ",") {
                Some(p) => p,
                None => { return None },
            };
            let (b, p4) = match p_num(cs, p3) {
                Some(x) => x,
                None => { return None },
            };
            let p5 = match p_lit(cs, p4, "]}") {
                Some(p) => p,
                None => { return None },
            };
            Some((CreditCount::Range(a, b), p5))
        },
    }
}

/// Reads a class meeting at `pos`.
fn p_meeting(cs: &Vec<char>, pos: usize) -> (r: Option<(crate::types::ClassMeeting, usize)>)
    requires
        pos <= cs@.len(),
    ensures
        match r {
            Some((m, p2)) => pos < p2 <= cs@.len() && (parse_meeting(sfx(cs@, pos as int))
                matches Some((mm, rest)) && mm == m@ && rest == sfx(cs@, p2 as int)),
            None => parse_meeting(sfx(cs@, pos as int)) is None,
        },
{
    proof {
        reveal(parse_meeting);
        reveal_strlit("\"Unspecified\"");
        reveal_strlit("\"OnlineAsync\"");
        reveal_strlit("{\"OnlineSync\":");
        reveal_strlit("{\"InPerson\":{\"classtime\":");
    }
    match p_lit(cs, pos, "\"Unspecified\"") {
        Some(p2) => { return Some((crate::types::ClassMeeting::Unspecified, p2)) },
        None => {},
    }
    match p_lit(cs, pos, "\"OnlineAsync\"") {
        Some(p2) => { return Some((crate::types::ClassMeeting::OnlineAsync, p2)) },
        None => {},
    }
    match p_lit(cs, pos, "{\"OnlineSync\":") {
        Some(p1) => {
            let (o, p2) = match p_opt_ct(cs, p1) {
                Some(x) => x,
                None => { return None },
            };
            let p3 = match p_lit(cs, p2, "}") {
                Some(p) => p,
                None => { return None },
            };
            return Some((crate::types::ClassMeeting::OnlineSync(o), p3));
        },
        None => {},
    }
    let p1 = match p_lit(cs, pos, "{\"InPerson\":{\"classtime\":") {
        Some(p) => p,
        None => { return None },
    };
    let (ct, p2) = match p_opt_ct(cs, p1) {
        Some(x) => x,
        None => { return None },
    };
    let p3 = match p_lit(cs, p2, ",\"location\":") {
        Some(p) => p,
        None => { return None },
    };
    let (loc, p4) = match p_opt_loc(cs, p3) {
        Some(x) => x,
        None => { return None },
    };
    let p5 = match p_lit(cs, p4, "}}") {
        Some(p) => p,
        None => { return None },
    };
    Some((
        crate::types::ClassMeeting::InPerson(crate::types::InPersonClass {
            classtime: ct,
            location: loc,
        }),
        p5,
    ))
}

/// Reads the remaining items of a string list, appending them to `out`.
fn p_strlist_more(cs: &Vec<char>, pos: usize, out: &mut Vec<String>) -> (r: Option<usize>)
    requires
        pos <= cs@.len(),
    ensures
        match r {
            Some(p2) => pos <= p2 <= cs@.len() && (parse_strlist_more(sfx(cs@, pos as int))
                matches Some((xs, rest)) && rest == sfx(cs@, p2 as int) && final(out).deep_view()
                == old(out).deep_view() + xs),
            None => parse_strlist_more(sfx(cs@, pos as int)) is None && final(out)@ == old(out)@,
        },
    decreases cs@.len() - pos,
{
    proof {
        reveal(parse_strlist_more);
    }
    if pos >= cs.len() {
        return None;
    }
    let c = cs[pos];
    proof {
        assert(sfx(cs@, pos as int)[0] == c);
    }
    if c == ']' {
        proof {
            assert(sfx(cs@, pos as int).subrange(1, sfx(cs@, pos as int).len() as int) =~= sfx(
                cs@,
                pos + 1,
            ));
            assert(out.deep_view() =~= out.deep_view() + Seq::<Seq<char>>::empty());
        }
        Some(pos + 1)
    } else if c == ',' {
        proof {
            assert(sfx(cs@, pos as int).subrange(1, sfx(cs@, pos as int).len() as int) =~= sfx(
                cs@,
                pos + 1,
            ));
        }
        let (x, p2) = match p_str(cs, pos + 1) {
            Some(v) => v,
            None => { return None },
        };
        let ghost pre = out.deep_view();
        let ghost xm = x@;
        out.push(x);
        proof {
            assert(out.deep_view() =~= pre.push(xm));
        }
        match p_strlist_more(cs, p2, out) {
            Some(p3) => {
                proof {
                    let xs = parse_strlist_more(sfx(cs@, p2 as int))->Some_0.0;
                    assert(out.deep_view() =~= pre + (seq![xm] + xs));
                }
                Some(p3)
            },
            None => {
                let _ = out.pop();
                proof {
                    assert(out.deep_view() =~= pre);
                }
                None
            },
        }
    } else {
        None
    }
}

/// Reads a string list at `pos`, appending its items to `out`.
fn p_strlist(cs: &Vec<char>, pos: usize, out: &mut Vec<String>) -> (r: Option<usize>)
    requires
        pos <= cs@.len(),
        old(out)@.len() == 0,
    ensures
        match r {
            Some(p2) => pos <= p2 <= cs@.len() && (parse_strlist(sfx(cs@, pos as int)) matches
                Some((xs, rest)) && rest == sfx(cs@, p2 as int) && final(out).deep_view() == xs),
            None => parse_strlist(sfx(cs@, pos as int)) is None,
        },
{
    proof {
        reveal(parse_strlist);
    }
    let p1 = match p_lit(cs, pos, "[") {
        Some(p) => p,
        None => { return None },
    };
    if p1 < cs.len() && cs[p1] == ']' {
        proof {
            assert(sfx(cs@, p1 as int)[0] == cs@[p1 as int]);
            assert(sfx(cs@, p1 as int).subrange(1, sfx(cs@, p1 as int).len() as int) =~= sfx(
                cs@,
                p1 + 1,
            ));
            assert(out.deep_view() =~= Seq::<Seq<char>>::empty());
        }
        return Some(p1 + 1);
    }
    proof {
        if sfx(cs@, p1 as int).len() > 0 {
            assert(sfx(cs@, p1 as int)[0] == cs@[p1 as int]);
        }
    }
    let (x, p2) = match p_str(cs, p1) {
        Some(v) => v,
        None => { return None },
    };
    let ghost xm = x@;
    out.push(x);
    proof {
        assert(out.deep_view() =~= Seq::<Seq<char>>::empty().push(xm));
    }
    match p_strlist_more(cs, p2, out) {
        Some(p3) => {
            proof {
                let xs = parse_strlist_more(sfx(cs@, p2 as int))->Some_0.0;
                assert(out.deep_view() =~= seq![xm] + xs);
            }
            Some(p3)
        },
        None => {
            let _ = out.pop();
            None
        },
    }
}

/// Reads an optional string list at `pos`.
fn p_opt_strlist(cs: &Vec<char>, pos: usize) -> (r: Option<(Option<Vec<String>>, usize)>)
    requires
        pos <= cs@.len(),
    ensures
        match r {
            Some((o, p2)) => pos <= p2 <= cs@.len() && (parse_opt_strlist(sfx(cs@, pos as int))
                matches Some((om, rest)) && rest == sfx(cs@, p2 as int) && om == (match o {
                Some(ref v) => Some(v.deep_view()),
                None => None,
            })),
            None => parse_opt_strlist(sfx(cs@, pos as int)) is None,
        },
{
    proof {
        reveal(parse_opt_strlist);
    }
    match p_lit(cs, pos, "null") {
        Some(p2) => Some((None, p2)),
        None => {
            let mut items: Vec<String> = Vec::new();
            match p_strlist(cs, pos, &mut items) {
                Some(p2) => Some((Some(items), p2)),
                None => None,
            }
        },
    }
}

/// Reads the remaining meetings of a list, appending them to `out`.
fn p_meetlist_more(cs: &Vec<char>, pos: usize, out: &mut Vec<crate::types::ClassMeeting>) -> (r:
    Option<usize>)
    requires
        pos <= cs@.len(),
    ensures
        match r {
            Some(p2) => pos <= p2 <= cs@.len() && (parse_meetlist_more(sfx(cs@, pos as int))
                matches Some((xs, rest)) && rest == sfx(cs@, p2 as int) && final(out).deep_view()
                == old(out).deep_view() + xs),
            None => parse_meetlist_more(sfx(cs@, pos as int)) is None && final(out)@ == old(out)@,
        },
    decreases cs@.len() - pos,
{
    proof {
        reveal(parse_meetlist_more);
    }
    if pos >= cs.len() {
        return None;
    }
    let c = cs[pos];
    proof {
        assert(sfx(cs@, pos as int)[0] == c);
    }
    if c == ']' {
        proof {
            assert(sfx(cs@, pos as int).subrange(1, sfx(cs@, pos as int).len() as int) =~= sfx(
                cs@,
                pos + 1,
            ));
            assert(out.deep_view() =~= out.deep_view() + Seq::<MeetingM>::empty());
        }
        Some(pos + 1)
    } else if c == ',' {
        proof {
            assert(sfx(cs@, pos as int).subrange(1, sfx(cs@, pos as int).len() as int) =~= sfx(
                cs@,
                pos + 1,
            ));
        }
        let (x, p2) = match p_meeting(cs, pos + 1) {
            Some(v) => v,
            None => { return None },
        };
        let ghost pre = out.deep_view();
        let ghost xm = x@;
        out.push(x);
        proof {
            assert(out.deep_view() =~= pre.push(xm));
        }
        match p_meetlist_more(cs, p2, out) {
            Some(p3) => {
                proof {
                    let xs = parse_meetlist_more(sfx(cs@, p2 as int))->Some_0.0;
                    assert(out.deep_view() =~= pre + (seq![xm] + xs));
                }
                Some(p3)
            },
            None => {
                let _ = out.pop();
                proof {
                    assert(out.deep_view() =~= pre);
                }
                None
            },
        }
    } else {
        None
    }
}

/// Reads a meeting list at `pos`, appending its items to `out`.
fn p_meetlist(cs: &Vec<char>, pos: usize, out: &mut Vec<crate::types::ClassMeeting>) -> (r:
    Option<usize>)
    requires
        pos <= cs@.len(),
        old(out)@.len() == 0,
    ensures
        match r {
            Some(p2) => pos <= p2 <= cs@.len() && (parse_meetlist(sfx(cs@, pos as int)) matches
                Some((xs, rest)) && rest == sfx(cs@, p2 as int) && final(out).deep_view() == xs),
            None => parse_meetlist(sfx(cs@, pos as int)) is None,
        },
{
    proof {
        reveal(parse_meetlist);
    }
    let p1 = match p_lit(cs, pos, "[") {
        Some(p) => p,
        None => { return None },
    };
    if p1 < cs.len() && cs[p1] == ']' {
        proof {
            assert(sfx(cs@, p1 as int)[0] == cs@[p1 as int]);
            assert(sfx(cs@, p1 as int).subrange(1, sfx(cs@, p1 as int).len() as int) =~= sfx(
                cs@,
                p1 + 1,
            ));
            assert(out.deep_view() =~= Seq::<MeetingM>::empty());
        }
        return Some(p1 + 1);
    }
    proof {
        if sfx(cs@, p1 as int).len() > 0 {
            assert(sfx(cs@, p1 as int)[0] == cs@[p1 as int]);
        }
    }
    let (x, p2) = match p_meeting(cs, p1) {
        Some(v) => v,
        None => { return None },
    };
    let ghost xm = x@;
    out.push(x);
    proof {
        assert(out.deep_view() =~= Seq::<MeetingM>::empty().push(xm));
    }
    match p_meetlist_more(cs, p2, out) {
        Some(p3) => {
            proof {
                let xs = parse_meetlist_more(sfx(cs@, p2 as int))->Some_0.0;
                assert(out.deep_view() =~= seq![xm] + xs);
            }
            Some(p3)
        },
        None => {
            let _ = out.pop();
            None
        },
    }
}

/// Reads a section object at `pos`.
fn p_section(cs: &Vec<char>, pos: usize) -> (r: Option<(crate::types::Section, usize)>)
    requires
        pos <= cs@.len(),
    ensures
        match r {
            Some((x, p2)) => pos < p2 <= cs@.len() && (parse_section(sfx(cs@, pos as int))
                matches Some((xm, rest)) && xm == x@ && rest == sfx(cs@, p2 as int)),
            None => parse_section(sfx(cs@, pos as int)) is None,
        },
{
    proof {
        reveal(parse_section);
        reveal_strlit("{\"sec_code\":");
    }
    let p1 = match p_lit(cs, pos, "{\"sec_code\":") {
        Some(p) => p,
        None => { return None },
    };
    let (code, p2) = match p_str(cs, p1) {
        Some(x) => x,
        None => { return None },
    };
    let p3 = match p_lit(cs, p2, ",\"instructors\":") {
        Some(p) => p,
        None => { return None },
    };
    let mut instrs: Vec<String> = Vec::new();
    let p4 = match p_strlist(cs, p3, &mut instrs) {
        Some(p) => p,
        None => { return None },
    };
    let p5 = match p_lit(cs, p4, ",\"class_meetings\":") {
        Some(p) => p,
        None => { return None },
    };
    let mut meetings: Vec<crate::types::ClassMeeting> = Vec::new();
    let p6 = match p_meetlist(cs, p5, &mut meetings) {
        Some(p) => p,
        None => { return None },
    };
    let p7 = match p_lit(cs, p6, "}") {
        Some(p) => p,
        None => { return None },
    };
    Some((
        crate::types::Section { sec_code: code, instructors: instrs, class_meetings: meetings },
        p7,
    ))
}

/// Reads the remaining sections of a list, appending them to `out`.
fn p_seclist_more(cs: &Vec<char>, pos: usize, out: &mut Vec<crate::types::Section>) -> (r:
    Option<usize>)
    requires
        pos <= cs@.len(),
    ensures
        match r {
            Some(p2) => pos <= p2 <= cs@.len() && (parse_seclist_more(sfx(cs@, pos as int))
                matches Some((xs, rest)) && rest == sfx(cs@, p2 as int) && final(out).deep_view()
                == old(out).deep_view() + xs),
            None => parse_seclist_more(sfx(cs@, pos as int)) is None && final(out)@ == old(out)@,
        },
    decreases cs@.len() - pos,
{
    proof {
        reveal(parse_seclist_more);
    }
    if pos >= cs.len() {
        return None;
    }
    let c = cs[pos];
    proof {
        assert(sfx(cs@, pos as int)[0] == c);
    }
    if c == ']' {
        proof {
            assert(sfx(cs@, pos as int).subrange(1, sfx(cs@, pos as int).len() as int) =~= sfx(
                cs@,
                pos + 1,
            ));
            assert(out.deep_view() =~= out.deep_view() + Seq::<SectionM>::empty());
        }
        Some(pos + 1)
    } else if c == ',' {
        proof {
            assert(sfx(cs@, pos as int).subrange(1, sfx(cs@, pos as int).len() as int) =~= sfx(
                cs@,
                pos + 1,
            ));
        }
        let (x, p2) = match p_section(cs, pos + 1) {
            Some(v) => v,
            None => { return None },
        };
        let ghost pre = out.deep_view();
        let ghost xm = x@;
        out.push(x);
        proof {
            assert(out.deep_view() =~= pre.push(xm));
        }
        match p_seclist_more(cs, p2, out) {
            Some(p3) => {
                proof {
                    let xs = parse_seclist_more(sfx(cs@, p2 as int))->Some_0.0;
                    assert(out.deep_view() =~= pre + (seq![xm] + xs));
                }
                Some(p3)
            },
            None => {
                let _ = out.pop();
                proof {
                    assert(out.deep_view() =~= pre);
                }
                None
            },
        }
    } else {
        None
    }
}

/// Reads an optional section list at `pos`.
fn p_opt_seclist(cs: &Vec<char>, pos: usize) -> (r: Option<(
    Option<Vec<crate::types::Section>>,
    usize,
)>)
    requires
        pos <= cs@.len(),
    ensures
        match r {
            Some((o, p2)) => pos <= p2 <= cs@.len() && (parse_opt_seclist(sfx(cs@, pos as int))
                matches Some((om, rest)) && rest == sfx(cs@, p2 as int) && om == (match o {
                Some(ref v) => Some(v.deep_view()),
                None => None,
            })),
            None => parse_opt_seclist(sfx(cs@, pos as int)) is None,
        },
{
    proof {
        reveal(parse_opt_seclist);
        reveal(parse_seclist);
    }
    match p_lit(cs, pos, "null") {
        Some(p2) => { return Some((None, p2)) },
        None => {},
    }
    let p1 = match p_lit(cs, pos, "[") {
        Some(p) => p,
        None => { return None },
    };
    let mut items: Vec<crate::types::Section> = Vec::new();
    if p1 < cs.len() && cs[p1] == ']' {
        proof {
            assert(sfx(cs@, p1 as int)[0] == cs@[p1 as int]);
            assert(sfx(cs@, p1 as int).subrange(1, sfx(cs@, p1 as int).len() as int) =~= sfx(
                cs@,
                p1 + 1,
            ));
            assert(items.deep_view() =~= Seq::<SectionM>::empty());
        }
        return Some((Some(items), p1 + 1));
    }
    proof {
        if sfx(cs@, p1 as int).len() > 0 {
            assert(sfx(cs@, p1 as int)[0] == cs@[p1 as int]);
        }
    }
    let (x, p2) = match p_section(cs, p1) {
        Some(v) => v,
        None => { return None },
    };
    let ghost xm = x@;
    items.push(x);
    proof {
        assert(items.deep_view() =~= Seq::<SectionM>::empty().push(xm));
    }
    match p_seclist_more(cs, p2, &mut items) {
        Some(p3) => {
            proof {
                let xs = parse_seclist_more(sfx(cs@, p2 as int))->Some_0.0;
                assert(items.deep_view() =~= seq![xm] + xs);
            }
            Some((Some(items), p3))
        },
        None => None,
    }
}

/// Reads the tail of a course object at `pos`.
fn p_course_tail(cs: &Vec<char>, pos: usize) -> (r: Option<(
    (Option<Vec<String>>, Option<Vec<String>>, String, Option<Vec<crate::types::Section>>),
    usize,
)>)
    requires
        pos <= cs@.len(),
    ensures
        match r {
            Some((t, p2)) => pos <= p2 <= cs@.len() && (parse_course_tail(sfx(cs@, pos as int))
                matches Some((tm, rest)) && rest == sfx(cs@, p2 as int) && tm.0 == (match t.0 {
                Some(ref v) => Some(v.deep_view()),
                None => None,
            }) && tm.1 == (match t.1 {
                Some(ref v) => Some(v.deep_view()),
                None => None,
            }) && tm.2 == t.2@ && tm.3 == (match t.3 {
                Some(ref v) => Some(v.deep_view()),
                None => None,
            })),
            None => parse_course_tail(sfx(cs@, pos as int)) is None,
        },
{
    proof {
        reveal(parse_course_tail);
    }
    let p1 = match p_lit(cs, pos, ",\"gen_eds\":") {
        Some(p) => p,
        None => { return None },
    };
    let (gen_eds, p2) = match p_opt_strlist(cs, p1) {
        Some(x) => x,
        None => { return None },
    };
    let p3 = match p_lit(cs, p2, ",\"conditions\":") {
        Some(p) => p,
        None => { return None },
    };
    let (conditions, p4) = match p_opt_strlist(cs, p3) {
        Some(x) => x,
        None => { return None },
    };
    let p5 = match p_lit(cs, p4, ",\"description\":") {
        Some(p) => p,
        None => { return None },
    };
    let (description, p6) = match p_str(cs, p5) {
        Some(x) => x,
        None => { return None },
    };
    let p7 = match p_lit(cs, p6, ",\"sections\":") {
        Some(p) => p,
        None => { return None },
    };
    let (sections, p8) = match p_opt_seclist(cs, p7) {
        Some(x) => x,
        None => { return None },
    };
    let p9 = match p_lit(cs, p8, "}") {
        Some(p) => p,
        None => { return None },
    };
    Some(((gen_eds, conditions, description, sections), p9))
}

/// Reads a whole course object at `pos`.
fn p_course(cs: &Vec<char>, pos: usize) -> (r: Option<(crate::types::Course, usize)>)
    requires
        pos <= cs@.len(),
    ensures
        match r {
            Some((c, p2)) => pos <= p2 <= cs@.len() && (parse_course(sfx(cs@, pos as int))
                matches Some((cm, rest)) && cm == c@ && rest == sfx(cs@, p2 as int)),
            None => parse_course(sfx(cs@, pos as int)) is None,
        },
{
    proof {
        reveal(parse_course);
    }
    let p1 = match p_lit(cs, pos, "{\"code\":") {
        Some(p) => p,
        None => { return None },
    };
    let (code, p2) = match p_str(cs, p1) {
        Some(x) => x,
        None => { return None },
    };
    let p3 = match p_lit(cs, p2, ",\"name\":") {
        Some(p) => p,
        None => { return None },
    };
    let (name, p4) = match p_str(cs, p3) {
        Some(x) => x,
        None => { return None },
    };
    let p5 = match p_lit(cs, p4, ",\"credits\":") {
        Some(p) => p,
        None => { return None },
    };
    let (credits, p6) = match p_credits(cs, p5) {
        Some(x) => x,
        None => { return None },
    };
    let (tail, p7) = match p_course_tail(cs, p6) {
        Some(x) => x,
        None => { return None },
    };
    let (gen_eds, conditions, description, sections) = tail;
    Some((
        crate::types::Course { code, name, credits, gen_eds, conditions, description, sections },
        p7,
    ))
}

/// Reads one emitted course back from its canonical shape; `None` when
/// the text is not exactly one emitted course.
pub fn course_from_json(text: &str) -> (r: Option<crate::types::Course>)
    ensures
        match r {
            Some(c) => parse_course(text@) == Some((c@, Seq::<char>::empty())),
            None => !(parse_course(text@) matches Some((cm, rest)) && rest.len() == 0),
        },
{
    let cs = crate::chars::str_to_chars(text);
    proof {
        assert(sfx(cs@, 0) =~= text@);
    }
    match p_course(&cs, 0) {
        Some((c, p2)) => {
            if p2 == cs.len() {
                proof {
                    assert(sfx(cs@, p2 as int) =~= Seq::<char>::empty());
                }
                Some(c)
            } else {
                proof {
                    assert(sfx(cs@, p2 as int).len() > 0);
                }
                None
            }
        },
        None => None,
    }
}

} // verus!
