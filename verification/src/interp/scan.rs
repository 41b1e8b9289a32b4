//! Searches in the decoder's text rendering of an operand.

use vstd::prelude::*;

verus! {

/// `p` occurs in `s` at position `i`.
pub open spec fn occurs_at(s: Seq<u8>, p: Seq<u8>, i: int) -> bool {
    0 <= i && i + p.len() <= s.len() && s.subrange(i, i + p.len()) == p
}

/// `p` occurs somewhere in `s`.
pub open spec fn has_sub(s: Seq<u8>, p: Seq<u8>) -> bool {
    exists|i: int| occurs_at(s, p, i)
}

/// Whether `p` occurs in `s`.
pub fn contains_bytes(s: &[u8], p: &[u8]) -> (r: bool)
    ensures
        r == has_sub(s@, p@),
{
    if p.len() > s.len() {
        assert forall|i: int| !occurs_at(s@, p@, i) by {}
        return false;
    }
    let n = s.len();
    let last = n - p.len();
    let mut i: usize = 0;
    while i <= last
        invariant
            n == s@.len(),
            p@.len() <= s@.len(),
            last == s@.len() - p@.len(),
            0 <= i <= last + 1,
            forall|k: int| 0 <= k < i ==> !occurs_at(s@, p@, k),
        decreases last + 1 - i,
    {
        let mut j: usize = 0;
        let mut ok = true;
        while j < p.len()
            invariant
                n == s@.len(),
                p@.len() <= s@.len(),
                i <= last,
                last == s@.len() - p@.len(),
                0 <= j <= p@.len(),
                ok == (forall|t: int| 0 <= t < j ==> s@[i + t] == p@[t]),
            decreases p@.len() - j,
        {
            if s[i + j] != p[j] {
                ok = false;
            }
            j = j + 1;
        }
        if ok {
            assert(s@.subrange(i as int, i + p@.len()) =~= p@);
            assert(occurs_at(s@, p@, i as int));
            return true;
        }
        assert(!occurs_at(s@, p@, i as int)) by {
            if s@.subrange(i as int, i + p@.len()) == p@ {
                assert forall|t: int| 0 <= t < p@.len() implies s@[i + t] == p@[t] by {
                    assert(s@.subrange(i as int, i + p@.len())[t] == p@[t]);
                }
            }
        }
        i = i + 1;
    }
    assert forall|k: int| !occurs_at(s@, p@, k) by {
        if occurs_at(s@, p@, k) {
            assert(k < i);
        }
    }
    false
}

/// The position of the first occurrence of `p` in `s` at or after `from`.
pub open spec fn first_occurrence_from(s: Seq<u8>, p: Seq<u8>, from: int) -> Option<int>
    decreases s.len() + 1 - from,
{
    if from < 0 || from + p.len() > s.len() {
        None
    } else if occurs_at(s, p, from) {
        Some(from)
    } else {
        first_occurrence_from(s, p, from + 1)
    }
}

/// Position of the first occurrence of `p` in `s` at or after `from`.
pub fn find_bytes(s: &[u8], p: &[u8], from: usize) -> (r: Option<usize>)
    ensures
        match r {
            Some(i) => first_occurrence_from(s@, p@, from as int) == Some(i as int),
            None => first_occurrence_from(s@, p@, from as int) is None,
        },
{
    let n = s.len();
    let mut i = from;
    while i <= n && p.len() <= n - i
        invariant
            n == s@.len(),
            from <= i,
            first_occurrence_from(s@, p@, from as int) == first_occurrence_from(s@, p@, i as int),
        decreases s@.len() + 1 - i,
    {
        let mut j: usize = 0;
        let mut ok = true;
        while j < p.len()
            invariant
                n == s@.len(),
                i + p@.len() <= s@.len(),
                0 <= j <= p@.len(),
                ok == (forall|t: int| 0 <= t < j ==> s@[i + t] == p@[t]),
            decreases p@.len() - j,
        {
            if s[i + j] != p[j] {
                ok = false;
            }
            j = j + 1;
        }
        if ok {
            assert(s@.subrange(i as int, i + p@.len()) =~= p@);
            return Some(i);
        }
        assert(!occurs_at(s@, p@, i as int)) by {
            if s@.subrange(i as int, i + p@.len()) == p@ {
                assert forall|t: int| 0 <= t < p@.len() implies s@[i + t] == p@[t] by {
                    assert(s@.subrange(i as int, i + p@.len())[t] == p@[t]);
                }
            }
        }
        i = i + 1;
    }
    None
}


/// Whether the two bytes `a b` occur in `t`.
pub fn has2(t: &[u8], a: u8, b: u8) -> (r: bool)
    ensures
        r == has_sub(t@, seq![a, b]),
{
    let p: [u8; 2] = [a, b];
    assert(p@ =~= seq![a, b]);
    contains_bytes(t, &p)
}

/// Whether the three bytes `a b c` occur in `t`.
pub fn has3(t: &[u8], a: u8, b: u8, c: u8) -> (r: bool)
    ensures
        r == has_sub(t@, seq![a, b, c]),
{
    let p: [u8; 3] = [a, b, c];
    assert(p@ =~= seq![a, b, c]);
    contains_bytes(t, &p)
}

/// The text names a 64-bit vector arrangement: it holds `8B`, `4H`, `2S` or `1D`, in
/// either case.
pub open spec fn is_64bit_vector_spec(t: Seq<u8>) -> bool {
    has_sub(t, seq![56u8, 66u8]) || has_sub(t, seq![52u8, 72u8]) || has_sub(t, seq![50u8, 83u8])
        || has_sub(t, seq![49u8, 68u8]) || has_sub(t, seq![56u8, 98u8]) || has_sub(t, seq![52u8, 104u8])
        || has_sub(t, seq![50u8, 115u8]) || has_sub(t, seq![49u8, 100u8])
}

/// Element size in bytes the text names: `16B`/`8B` 1, `8H`/`4H` 2, `4S`/`2S` 4,
/// `2D`/`1D` 8 (either case), checked in that order; 1 when none occurs.
pub open spec fn vec_elem_size_spec(t: Seq<u8>) -> usize {
    if has_sub(t, seq![49u8, 54u8, 66u8]) || has_sub(t, seq![56u8, 66u8]) || has_sub(t, seq![49u8, 54u8, 98u8])
        || has_sub(t, seq![56u8, 98u8]) {
        1
    } else if has_sub(t, seq![56u8, 72u8]) || has_sub(t, seq![52u8, 72u8]) || has_sub(t, seq![56u8, 104u8])
        || has_sub(t, seq![52u8, 104u8]) {
        2
    } else if has_sub(t, seq![52u8, 83u8]) || has_sub(t, seq![50u8, 83u8]) || has_sub(t, seq![52u8, 115u8])
        || has_sub(t, seq![50u8, 115u8]) {
        4
    } else if has_sub(t, seq![50u8, 68u8]) || has_sub(t, seq![49u8, 68u8]) || has_sub(t, seq![50u8, 100u8])
        || has_sub(t, seq![49u8, 100u8]) {
        8
    } else {
        1
    }
}

pub fn is_64bit_text(t: &[u8]) -> (r: bool)
    ensures
        r == is_64bit_vector_spec(t@),
{
    has2(t, 56, 66) || has2(t, 52, 72) || has2(t, 50, 83) || has2(t, 49, 68) || has2(t, 56, 98)
        || has2(t, 52, 104) || has2(t, 50, 115) || has2(t, 49, 100)
}

pub fn vec_elem_size_text(t: &[u8]) -> (r: usize)
    ensures
        r == vec_elem_size_spec(t@),
{
    if has3(t, 49, 54, 66) || has2(t, 56, 66) || has3(t, 49, 54, 98) || has2(t, 56, 98) {
        1
    } else if has2(t, 56, 72) || has2(t, 52, 72) || has2(t, 56, 104) || has2(t, 52, 104) {
        2
    } else if has2(t, 52, 83) || has2(t, 50, 83) || has2(t, 52, 115) || has2(t, 50, 115) {
        4
    } else if has2(t, 50, 68) || has2(t, 49, 68) || has2(t, 50, 100) || has2(t, 49, 100) {
        8
    } else {
        1
    }
}

/// Where the first occurrence at or after `from` lies.
pub proof fn lemma_first_occurrence_bounds(s: Seq<u8>, p: Seq<u8>, from: int)
    ensures
        first_occurrence_from(s, p, from) matches Some(i) ==> from <= i && i + p.len() <= s.len(),
    decreases s.len() + 1 - from,
{
    if !(from < 0 || from + p.len() > s.len()) && !occurs_at(s, p, from) {
        lemma_first_occurrence_bounds(s, p, from + 1);
    }
}

// The element index of an operand text ---------------------------------------------------

/// `index:`.
pub open spec fn index_key() -> Seq<u8> {
    seq![105u8, 110u8, 100u8, 101u8, 120u8, 58u8]
}

/// An ASCII whitespace byte (space, tab, line feed, vertical tab, form feed, return).
pub open spec fn is_ws(b: u8) -> bool {
    b == 32 || (9 <= b && b <= 13)
}

/// `s` without its leading whitespace.
pub open spec fn trim_start(s: Seq<u8>) -> Seq<u8>
    decreases s.len(),
{
    if s.len() > 0 && is_ws(s[0]) {
        trim_start(s.drop_first())
    } else {
        s
    }
}

/// `s` without its trailing whitespace.
pub open spec fn trim_end(s: Seq<u8>) -> Seq<u8>
    decreases s.len(),
{
    if s.len() > 0 && is_ws(s.last()) {
        trim_end(s.drop_last())
    } else {
        s
    }
}

/// `s` without leading and trailing whitespace.
pub open spec fn trim(s: Seq<u8>) -> Seq<u8> {
    trim_end(trim_start(s))
}

/// `s` up to its first comma.
pub open spec fn before_comma(s: Seq<u8>) -> Seq<u8> {
    match first_occurrence_from(s, seq![44u8], 0) {
        Some(j) => s.subrange(0, j),
        None => s,
    }
}

/// The value of a string of decimal digits.
pub open spec fn digits_value(s: Seq<u8>) -> nat
    decreases s.len(),
{
    if s.len() == 0 {
        0
    } else {
        digits_value(s.drop_last()) * 10 + (s.last() - 48) as nat
    }
}

/// Every byte is a decimal digit.
pub open spec fn all_digits(s: Seq<u8>) -> bool {
    forall|i: int| 0 <= i < s.len() ==> 48 <= #[trigger] s[i] <= 57
}

/// What `parse::<usize>()` gives for `s`: an optional `+`, then at least one digit and
/// nothing else, the value fitting in `usize`.
pub open spec fn parse_usize(s: Seq<u8>) -> Option<usize> {
    let d = if s.len() > 0 && s[0] == 43 { s.drop_first() } else { s };
    if d.len() > 0 && all_digits(d) && digits_value(d) <= usize::MAX {
        Some(digits_value(d) as usize)
    } else {
        None
    }
}

/// The element index an operand text gives after `index:`: the text up to the next
/// `index:` (or the end), trimmed, up to its first comma, trimmed again, parsed as a
/// `usize`; 0 when there is no `index:` or the text does not parse.
pub open spec fn elem_index(t: Seq<u8>) -> usize {
    match first_occurrence_from(t, index_key(), 0) {
        None => 0,
        Some(p) => {
            let start = p + 6;
            let end = match first_occurrence_from(t, index_key(), start) {
                Some(q) => q,
                None => t.len() as int,
            };
            match parse_usize(trim(before_comma(trim(t.subrange(start, end))))) {
                Some(v) => v,
                None => 0,
            }
        },
    }
}

/// The bounds of `trim(t[lo..hi])` within `t`.
pub fn trim_range(t: &[u8], lo: usize, hi: usize) -> (r: (usize, usize))
    requires
        lo <= hi <= t@.len(),
    ensures
        lo <= r.0 <= r.1 <= hi,
        trim(t@.subrange(lo as int, hi as int)) == t@.subrange(r.0 as int, r.1 as int),
{
    let mut a = lo;
    while a < hi && (t[a] == 32 || (9 <= t[a] && t[a] <= 13))
        invariant
            lo <= a <= hi <= t@.len(),
            trim_start(t@.subrange(lo as int, hi as int)) == trim_start(t@.subrange(a as int, hi as int)),
        decreases hi - a,
    {
        assert(t@.subrange(a as int, hi as int).drop_first() =~= t@.subrange(a + 1, hi as int));
        a = a + 1;
    }
    assert(trim_start(t@.subrange(a as int, hi as int)) == t@.subrange(a as int, hi as int));
    let mut b = hi;
    while b > a && (t[b - 1] == 32 || (9 <= t[b - 1] && t[b - 1] <= 13))
        invariant
            lo <= a <= b <= hi <= t@.len(),
            trim_end(t@.subrange(a as int, hi as int)) == trim_end(t@.subrange(a as int, b as int)),
        decreases b - a,
    {
        assert(t@.subrange(a as int, b as int).drop_last() =~= t@.subrange(a as int, b - 1));
        b = b - 1;
    }
    assert(trim_end(t@.subrange(a as int, b as int)) == t@.subrange(a as int, b as int));
    (a, b)
}

/// Digit strings grow in value as they grow in length.
proof fn lemma_digits_mono(s: Seq<u8>, k: int)
    requires
        0 <= k <= s.len(),
    ensures
        digits_value(s.subrange(0, k)) <= digits_value(s),
    decreases s.len() - k,
{
    if k < s.len() {
        lemma_digits_mono(s, k + 1);
        assert(s.subrange(0, k + 1).drop_last() =~= s.subrange(0, k));
    } else {
        assert(s.subrange(0, k) =~= s);
    }
}

/// Parses `t[lo..hi]` as `parse::<usize>()` does.
pub fn parse_usize_range(t: &[u8], lo: usize, hi: usize) -> (r: Option<usize>)
    requires
        lo <= hi <= t@.len(),
    ensures
        r == parse_usize(t@.subrange(lo as int, hi as int)),
{
    let ghost s = t@.subrange(lo as int, hi as int);
    let mut a = lo;
    if a < hi && t[a] == 43 {
        a = a + 1;
        assert(s.drop_first() =~= t@.subrange(a as int, hi as int));
    } else {
        assert(s =~= t@.subrange(a as int, hi as int));
    }
    let ghost d = t@.subrange(a as int, hi as int);
    assert(d == (if s.len() > 0 && s[0] == 43 { s.drop_first() } else { s }));
    if a == hi {
        return None;
    }
    let mut v: usize = 0;
    let mut i = a;
    while i < hi
        invariant
            a <= i <= hi <= t@.len(),
            a < hi,
            d == t@.subrange(a as int, hi as int),
            s == t@.subrange(lo as int, hi as int),
            d == (if s.len() > 0 && s[0] == 43 { s.drop_first() } else { s }),
            all_digits(d.subrange(0, i - a)),
            v as nat == digits_value(d.subrange(0, i - a)),
        decreases hi - i,
    {
        let ch = t[i];
        if !(48 <= ch && ch <= 57) {
            assert(!all_digits(d)) by {
                assert(d[i - a] == ch);
            }
            return None;
        }
        assert(d.subrange(0, i + 1 - a).drop_last() =~= d.subrange(0, i - a));
        let next = match v.checked_mul(10) {
            Some(m) => m.checked_add((ch - 48) as usize),
            None => None,
        };
        match next {
            Some(n) => {
                v = n;
            },
            None => {
                proof { lemma_digits_mono(d, i + 1 - a); }
                return None;
            },
        }
        i = i + 1;
    }
    assert(d.subrange(0, hi - a) =~= d);
    Some(v)
}

/// The element index after `index:` in an operand text.
pub fn element_index(t: &[u8]) -> (r: usize)
    ensures
        r == elem_index(t@),
{
    let key: [u8; 6] = [105, 110, 100, 101, 120, 58];
    assert(key@ =~= index_key());
    assert(index_key().len() == 6);
    proof { lemma_first_occurrence_bounds(t@, index_key(), 0); }
    let p = match find_bytes(t, &key, 0) {
        Some(p) => p,
        None => return 0,
    };
    assert(first_occurrence_from(t@, key@, 0) == Some(p as int));
    assert(p + index_key().len() <= t@.len());
    let tl = t.len();
    assert(p + 6 <= tl);
    let start = p + 6;
    proof { lemma_first_occurrence_bounds(t@, index_key(), start as int); }
    let end = match find_bytes(t, &key, start) {
        Some(q) => q,
        None => t.len(),
    };
    let (a, b) = trim_range(t, start, end);
    let comma: [u8; 1] = [44];
    assert(comma@ =~= seq![44u8]);
    let piece = &t[a..b];
    proof { lemma_first_occurrence_bounds(piece@, seq![44u8], 0); }
    let c = match find_bytes(piece, &comma, 0) {
        Some(j) => j,
        None => piece.len(),
    };
    assert(piece@ =~= t@.subrange(a as int, b as int));
    assert(before_comma(t@.subrange(a as int, b as int)) =~= t@.subrange(a as int, a + c));
    let (x, y) = trim_range(t, a, a + c);
    match parse_usize_range(t, x, y) {
        Some(v) => v,
        None => 0,
    }
}

} // verus!
