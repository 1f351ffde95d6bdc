//! Verified text scanning over character sequences: substring search,
//! section-code extraction, the text of a hyperlink-embedded name, and
//! capture of marked sub-fields from a room/building fragment.

use vstd::prelude::*;
use crate::chars::{digit_run_end, is_digit, lemma_digit_run_end, str_to_chars};

verus! {

/// `needle` occurs in `hay` at position `i`.
pub open spec fn occurs_at(hay: Seq<char>, needle: Seq<char>, i: int) -> bool {
    &&& 0 <= i
    &&& i + needle.len() <= hay.len()
    &&& forall|j: int| 0 <= j < needle.len() ==> hay[i + j] == needle[j]
}

/// `needle` occurs somewhere in `hay`.
pub open spec fn contains_seq(hay: Seq<char>, needle: Seq<char>) -> bool {
    exists|i: int| occurs_at(hay, needle, i)
}

/// The least position at or after `from` where `needle` occurs in `hay`,
/// if any.
pub open spec fn find_from(hay: Seq<char>, needle: Seq<char>, from: int) -> Option<int>
    decreases hay.len() - from,
{
    if from < 0 || from > hay.len() {
        None
    } else if occurs_at(hay, needle, from) {
        Some(from)
    } else if from == hay.len() {
        None
    } else {
        find_from(hay, needle, from + 1)
    }
}

/// The greatest position at or below `from` where `needle` occurs in
/// `hay`, if any.
pub open spec fn rfind_below(hay: Seq<char>, needle: Seq<char>, from: int) -> Option<int>
    decreases from + 1,
{
    if from < 0 {
        None
    } else if occurs_at(hay, needle, from) {
        Some(from)
    } else {
        rfind_below(hay, needle, from - 1)
    }
}

/// What `find_from` returns: the first occurrence at or after `from`.
pub proof fn lemma_find_from(hay: Seq<char>, needle: Seq<char>, from: int)
    requires
        0 <= from <= hay.len(),
    ensures
        match find_from(hay, needle, from) {
            Some(i) => from <= i <= hay.len() && occurs_at(hay, needle, i) && forall|j: int|
                from <= j < i ==> !occurs_at(hay, needle, j),
            None => forall|j: int| from <= j ==> !occurs_at(hay, needle, j),
        },
    decreases hay.len() - from,
{
    if occurs_at(hay, needle, from) {
    } else if from == hay.len() {
        assert forall|j: int| from <= j implies !occurs_at(hay, needle, j) by {
            if occurs_at(hay, needle, j) && j > hay.len() {
                assert(j + needle.len() > hay.len());
            }
        }
    } else {
        lemma_find_from(hay, needle, from + 1);
    }
}

/// What `rfind_below` returns: the last occurrence at or below `from`.
pub proof fn lemma_rfind_below(hay: Seq<char>, needle: Seq<char>, from: int)
    ensures
        match rfind_below(hay, needle, from) {
            Some(i) => 0 <= i <= from && occurs_at(hay, needle, i) && forall|j: int|
                i < j <= from ==> !occurs_at(hay, needle, j),
            None => forall|j: int| j <= from ==> !occurs_at(hay, needle, j),
        },
    decreases from + 1,
{
    if from >= 0 && !occurs_at(hay, needle, from) {
        lemma_rfind_below(hay, needle, from - 1);
    }
}

/// Exec check that `needle` occurs in `hay` at `i`.
pub fn occurs_at_exec(hay: &Vec<char>, needle: &Vec<char>, i: usize) -> (r: bool)
    requires
        i + needle@.len() <= hay@.len(),
    ensures
        r == occurs_at(hay@, needle@, i as int),
{
    let hn: usize = hay.len();
    let mut j: usize = 0;
    while j < needle.len()
        invariant
            hn == hay@.len(),
            i + needle@.len() <= hay@.len(),
            j <= needle@.len(),
            forall|k: int| 0 <= k < j ==> hay@[i + k] == needle@[k],
        decreases needle@.len() - j,
    {
        if hay[i + j] != needle[j] {
            return false;
        }
        j = j + 1;
    }
    true
}

/// Exec mirror of `find_from`.
pub fn find_in(hay: &Vec<char>, needle: &Vec<char>, from: usize) -> (r: Option<usize>)
    requires
        from <= hay@.len(),
    ensures
        match r {
            Some(i) => find_from(hay@, needle@, from as int) == Some(i as int),
            None => find_from(hay@, needle@, from as int) is None,
        },
    decreases hay@.len() - from,
{
    if needle.len() <= hay.len() - from && occurs_at_exec(hay, needle, from) {
        Some(from)
    } else if from == hay.len() {
        None
    } else {
        proof {
            if occurs_at(hay@, needle@, from as int) {
                assert(from + needle@.len() <= hay@.len());
            }
        }
        find_in(hay, needle, from + 1)
    }
}

/// Exec mirror of `rfind_below`.
pub fn rfind_in(hay: &Vec<char>, needle: &Vec<char>, from: usize) -> (r: Option<usize>)
    requires
        from < hay@.len() || from == 0,
        needle@.len() > 0,
    ensures
        match r {
            Some(i) => rfind_below(hay@, needle@, from as int) == Some(i as int),
            None => rfind_below(hay@, needle@, from as int) is None,
        },
    decreases from + 1,
{
    if from < hay.len() && needle.len() <= hay.len() - from && occurs_at_exec(hay, needle, from) {
        Some(from)
    } else {
        proof {
            if occurs_at(hay@, needle@, from as int) {
                assert(from + needle@.len() <= hay@.len());
            }
        }
        if from == 0 {
            proof {
                lemma_rfind_below(hay@, needle@, 0);
            }
            None
        } else {
            rfind_in(hay, needle, from - 1)
        }
    }
}

/// Whether `hay` contains `needle`.
pub fn contains_in(hay: &Vec<char>, needle: &Vec<char>) -> (r: bool)
    ensures
        r == contains_seq(hay@, needle@),
{
    proof {
        lemma_find_from(hay@, needle@, 0);
    }
    match find_in(hay, needle, 0) {
        Some(_) => true,
        None => {
            proof {
                assert forall|i: int| !occurs_at(hay@, needle@, i) by {
                    if occurs_at(hay@, needle@, i) {
                        assert(i >= 0);
                    }
                }
            }
            false
        },
    }
}

/// Whether the string `hay` contains the string `needle`.
pub fn str_contains(hay: &str, needle: &str) -> (r: bool)
    ensures
        r == contains_seq(hay@, needle@),
{
    let h = str_to_chars(hay);
    let n = str_to_chars(needle);
    contains_in(&h, &n)
}

// ---------------------------------------------------------------------
// Section codes.

/// An uppercase letter.
pub open spec fn is_upper(c: char) -> bool {
    'A' <= c && c <= 'Z'
}

/// The first index at or after `i` that holds a digit, or the length of
/// `s` when there is none.
pub open spec fn next_digit(s: Seq<char>, i: int) -> int
    decreases s.len() - i,
{
    if i < 0 || i >= s.len() {
        s.len() as int
    } else if is_digit(s[i]) {
        i
    } else {
        next_digit(s, i + 1)
    }
}

/// The start of the maximal run of uppercase letters ending just before
/// `d`.
pub open spec fn letters_start(s: Seq<char>, d: int) -> int
    decreases d,
{
    if d <= 0 {
        0
    } else if d > s.len() {
        d
    } else if is_upper(s[d - 1]) {
        letters_start(s, d - 1)
    } else {
        d
    }
}

/// The section code embedded in a raw section label: an optional block of
/// uppercase letters followed by a nonempty digit run, located at the
/// first digit of the label.  `None` when the label holds no digit.
pub open spec fn section_code(s: Seq<char>) -> Option<Seq<char>> {
    let d = next_digit(s, 0);
    if d == s.len() {
        None
    } else {
        Some(s.subrange(letters_start(s, d), digit_run_end(s, d)))
    }
}

/// Exec mirror of `next_digit`.
fn scan_to_digit(cs: &Vec<char>, from: usize) -> (r: usize)
    requires
        from <= cs@.len(),
    ensures
        r == next_digit(cs@, from as int),
        from <= r <= cs@.len(),
    decreases cs@.len() - from,
{
    if from < cs.len() {
        if crate::chars::digit(cs[from]) {
            from
        } else {
            scan_to_digit(cs, from + 1)
        }
    } else {
        from
    }
}

/// Exec mirror of `letters_start`.
fn scan_back_letters(cs: &Vec<char>, d: usize) -> (r: usize)
    requires
        d <= cs@.len(),
    ensures
        r == letters_start(cs@, d as int),
        r <= d,
    decreases d,
{
    if d > 0 {
        let c = cs[d - 1];
        if 'A' <= c && c <= 'Z' {
            scan_back_letters(cs, d - 1)
        } else {
            d
        }
    } else {
        0
    }
}

/// Extracts the section code from a raw section label by pattern match:
/// the first digit run together with the uppercase letter block
/// immediately before it.  `None` exactly when the label holds no digit.
pub fn extract_section_code(raw: &str) -> (r: Option<String>)
    ensures
        match r {
            Some(code) => section_code(raw@) == Some(code@),
            None => section_code(raw@) is None,
        },
{
    let cs = str_to_chars(raw);
    let d = scan_to_digit(&cs, 0);
    if d == cs.len() {
        return None;
    }
    let start = scan_back_letters(&cs, d);
    let end = crate::chars::scan_digits(&cs, d);
    proof {
        lemma_digit_run_end(cs@, d as int);
    }
    Some(raw.substring_char(start, end).to_owned())
}

// ---------------------------------------------------------------------
// Hyperlink-embedded names.

/// The plain text of a name cell that embeds the name in an anchor tag:
/// the characters between the closing angle bracket of the opening tag
/// and the final anchor end-tag.  Read greedily: the bracket chosen is
/// the last `'>'` that leaves at least one
/// character before the last anchor end-tag, and it must lie beyond the
/// first `"<a"` with at least one character in between.  `None` when the
/// cell has no such shape.
pub open spec fn anchor_text(s: Seq<char>) -> Option<Seq<char>> {
    match find_from(s, "<a"@, 0) {
        None => None,
        Some(ia) => match rfind_below(s, "</a>"@, s.len() as int - 4) {
            None => None,
            Some(close) => match rfind_below(s, ">"@, close - 2) {
                None => None,
                Some(gt) => if gt >= ia + 3 {
                    Some(s.subrange(gt + 1, close))
                } else {
                    None
                },
            },
        },
    }
}

/// Extracts the plain text of a hyperlink-embedded name.  `None` exactly
/// when the cell does not have the anchor shape.
pub fn extract_anchor_text(raw: &str) -> (r: Option<String>)
    ensures
        match r {
            Some(t) => anchor_text(raw@) == Some(t@),
            None => anchor_text(raw@) is None,
        },
{
    let cs = str_to_chars(raw);
    let open_tag = str_to_chars("<a");
    let close_tag = str_to_chars("</a>");
    let gt_tag = str_to_chars(">");
    proof {
        reveal_strlit("<a");
        reveal_strlit("</a>");
        reveal_strlit(">");
        assert(open_tag@ =~= "<a"@);
        assert(close_tag@ =~= "</a>"@);
        assert(gt_tag@ =~= ">"@);
    }
    let ia = match find_in(&cs, &open_tag, 0) {
        Some(i) => i,
        None => { return None },
    };
    if cs.len() < 4 {
        proof {
            lemma_rfind_below(cs@, "</a>"@, cs@.len() as int - 4);
        }
        return None;
    }
    let close = match rfind_in(&cs, &close_tag, cs.len() - 4) {
        Some(i) => i,
        None => { return None },
    };
    proof {
        lemma_rfind_below(cs@, "</a>"@, cs@.len() as int - 4);
    }
    if close < 2 {
        proof {
            lemma_rfind_below(cs@, ">"@, close - 2);
        }
        return None;
    }
    let gt = match rfind_in(&cs, &gt_tag, close - 2) {
        Some(i) => i,
        None => { return None },
    };
    proof {
        lemma_rfind_below(cs@, ">"@, close - 2);
        lemma_find_from(cs@, "<a"@, 0);
    }
    if gt >= 3 && gt - 3 >= ia {
        Some(raw.substring_char(gt + 1, close).to_owned())
    } else {
        None
    }
}

// ---------------------------------------------------------------------
// Marked sub-fields.

/// The text of a marked sub-field: the nonempty run of characters between
/// the first occurrence of `marker` and the next `'<'`.  `None` when the
/// marker is absent or no nonempty run precedes a `'<'`.
pub open spec fn capture_after(hay: Seq<char>, marker: Seq<char>) -> Option<Seq<char>> {
    match find_from(hay, marker, 0) {
        None => None,
        Some(i) => {
            let start = i + marker.len();
            match find_from(hay, "<"@, start) {
                None => None,
                Some(j) => if j > start {
                    Some(hay.subrange(start, j))
                } else {
                    None
                },
            }
        },
    }
}

/// Extracts a marked sub-field from a fragment.  `None` exactly when
/// `capture_after` has no capture.
pub fn extract_capture_after(raw: &str, marker: &str) -> (r: Option<String>)
    ensures
        match r {
            Some(t) => capture_after(raw@, marker@) == Some(t@),
            None => capture_after(raw@, marker@) is None,
        },
{
    let cs = str_to_chars(raw);
    let mk = str_to_chars(marker);
    let lt = str_to_chars("<");
    proof {
        reveal_strlit("<");
        assert(lt@ =~= "<"@);
    }
    let i = match find_in(&cs, &mk, 0) {
        Some(i) => i,
        None => { return None },
    };
    proof {
        lemma_find_from(cs@, mk@, 0);
    }
    let start = i + mk.len();
    let j = match find_in(&cs, &lt, start) {
        Some(j) => j,
        None => { return None },
    };
    proof {
        lemma_find_from(cs@, "<"@, start as int);
    }
    if j > start {
        Some(raw.substring_char(start, j).to_owned())
    } else {
        None
    }
}

} // verus!
