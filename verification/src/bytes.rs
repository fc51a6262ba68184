//! Byte-sequence helpers for the text the engine handles.
//!
//! Text payloads, display names and blacklist entries are held as UTF-8
//! byte sequences. Case folding is ASCII-only: the store's substring search
//! and the blacklist comparison fold the bytes `A`..`Z` and leave every
//! other byte alone, which is safe on UTF-8 because every byte of a
//! multi-byte character has its high bit set. Blankness and trimming use
//! the full Unicode white-space set over its UTF-8 encodings, character by
//! character, so they agree with `str::trim` on valid UTF-8 text.

use vstd::prelude::*;

verus! {

/// The contents of an optional byte vector.
pub open spec fn opt_bytes_view(o: Option<Vec<u8>>) -> Option<Seq<u8>> {
    match o {
        Some(v) => Some(v@),
        None => None,
    }
}

/// The contents of a vector of byte vectors.
pub open spec fn seq_of_bytes_view(v: Vec<Vec<u8>>) -> Seq<Seq<u8>> {
    Seq::new(v@.len(), |i: int| v@[i]@)
}

/// ASCII lower-casing of one byte.
pub open spec fn lower_byte(b: u8) -> u8 {
    if 65 <= b && b <= 90 {
        (b + 32) as u8
    } else {
        b
    }
}

/// ASCII lower-casing of a byte sequence.
pub open spec fn lower_bytes(s: Seq<u8>) -> Seq<u8> {
    Seq::new(s.len(), |i: int| lower_byte(s[i]))
}

/// The white-space characters UTF-8 encodes in one byte: tab, line feed,
/// vertical tab, form feed, carriage return, space.
pub open spec fn is_space_byte(b: u8) -> bool {
    b == 9 || b == 10 || b == 11 || b == 12 || b == 13 || b == 32
}

/// The two-byte UTF-8 encodings of white space: next line (U+0085) and
/// no-break space (U+00A0).
pub open spec fn is_space_pair(a: u8, b: u8) -> bool {
    a == 0xc2 && (b == 0x85 || b == 0xa0)
}

/// The three-byte UTF-8 encodings of white space: the Ogham space mark
/// (U+1680), the typographic spaces U+2000..U+200A, the line and paragraph
/// separators (U+2028, U+2029), the narrow no-break space (U+202F), the
/// medium mathematical space (U+205F) and the ideographic space (U+3000).
pub open spec fn is_space_triple(a: u8, b: u8, c: u8) -> bool {
    ||| (a == 0xe1 && b == 0x9a && c == 0x80)
    ||| (a == 0xe2 && b == 0x80 && ((0x80 <= c && c <= 0x8a) || c == 0xa8 || c == 0xa9 || c
        == 0xaf))
    ||| (a == 0xe2 && b == 0x81 && c == 0x9f)
    ||| (a == 0xe3 && b == 0x80 && c == 0x80)
}

/// Length of the white-space character starting at `i`, or 0 when the
/// bytes there start none. At most one of the three patterns can match
/// (their bytes are disjoint), and on valid UTF-8 a match is always
/// aligned to a character, so this walks text exactly as
/// `char::is_whitespace` sees it.
pub open spec fn space_len_at(s: Seq<u8>, i: int) -> int {
    if 0 <= i && i < s.len() && is_space_byte(s[i]) {
        1
    } else if 0 <= i && i + 2 <= s.len() && is_space_pair(s[i], s[i + 1]) {
        2
    } else if 0 <= i && i + 3 <= s.len() && is_space_triple(s[i], s[i + 1], s[i + 2]) {
        3
    } else {
        0
    }
}

/// Index of the first byte at or after `i` that starts no white-space
/// character, or the length if there is none.
pub open spec fn skip_spaces_from(s: Seq<u8>, i: int) -> int
    decreases s.len() - i,
{
    if i < 0 || i >= s.len() {
        s.len() as int
    } else if space_len_at(s, i) > 0 {
        skip_spaces_from(s, i + space_len_at(s, i))
    } else {
        i
    }
}

/// A sequence is blank when it holds nothing but white space.
pub open spec fn is_blank(s: Seq<u8>) -> bool {
    skip_spaces_from(s, 0) == s.len()
}

/// Length of the white-space character ending just before `j`, or 0 when
/// the bytes there end none; a character never reaches below `lo`.
pub open spec fn space_len_before(s: Seq<u8>, lo: int, j: int) -> int {
    if lo + 1 <= j && j <= s.len() && is_space_byte(s[j - 1]) {
        1
    } else if lo + 2 <= j && j <= s.len() && is_space_pair(s[j - 2], s[j - 1]) {
        2
    } else if lo + 3 <= j && j <= s.len() && is_space_triple(s[j - 3], s[j - 2], s[j - 1]) {
        3
    } else {
        0
    }
}

/// End (exclusive) of the last byte before `j` that ends no white-space
/// character, never going below `lo`.
pub open spec fn rskip_spaces_until(s: Seq<u8>, lo: int, j: int) -> int
    decreases j - lo,
{
    if j <= lo || j > s.len() {
        lo
    } else if space_len_before(s, lo, j) > 0 {
        rskip_spaces_until(s, lo, j - space_len_before(s, lo, j))
    } else {
        j
    }
}

/// `s` with leading and trailing white space removed, character by
/// character: what `str::trim` leaves of the text.
pub open spec fn trim_bytes(s: Seq<u8>) -> Seq<u8> {
    let lo = skip_spaces_from(s, 0);
    let hi = rskip_spaces_until(s, lo, s.len() as int);
    s.subrange(lo, hi)
}

/// The needle matches the haystack at offset `i`, comparing bytes after
/// ASCII lower-casing.
pub open spec fn matches_ci_at(hay: Seq<u8>, needle: Seq<u8>, i: int) -> bool {
    &&& 0 <= i
    &&& i + needle.len() <= hay.len()
    &&& forall|j: int| 0 <= j < needle.len() ==> lower_byte(hay[i + j]) == lower_byte(needle[j])
}

/// The haystack holds the needle as a substring, ASCII-case-insensitively.
pub open spec fn contains_ci(hay: Seq<u8>, needle: Seq<u8>) -> bool {
    exists|i: int| matches_ci_at(hay, needle, i)
}

/// ASCII-case-insensitive equality of whole sequences.
pub open spec fn eq_ci(a: Seq<u8>, b: Seq<u8>) -> bool {
    lower_bytes(a) == lower_bytes(b)
}

/// ASCII lower-casing of one byte.
pub fn to_lower_byte(b: u8) -> (r: u8)
    ensures
        r == lower_byte(b),
{
    if 65 <= b && b <= 90 {
        b + 32
    } else {
        b
    }
}

/// Byte-for-byte equality of two slices.
pub fn bytes_eq(a: &[u8], b: &[u8]) -> (r: bool)
    ensures
        r == (a@ == b@),
{
    if a.len() != b.len() {
        proof {
            assert(a@ != b@);
        }
        return false;
    }
    let n = a.len();
    let mut i: usize = 0;
    while i < n
        invariant
            n == a@.len() == b@.len(),
            0 <= i <= n,
            forall|k: int| 0 <= k < i ==> a@[k] == b@[k],
        decreases n - i,
    {
        if a[i] != b[i] {
            return false;
        }
        i += 1;
    }
    proof {
        assert(a@ =~= b@);
    }
    true
}

/// ASCII-case-insensitive equality of two slices.
pub fn bytes_eq_ci(a: &[u8], b: &[u8]) -> (r: bool)
    ensures
        r == eq_ci(a@, b@),
{
    if a.len() != b.len() {
        proof {
            assert(lower_bytes(a@).len() != lower_bytes(b@).len());
        }
        return false;
    }
    let n = a.len();
    let mut i: usize = 0;
    while i < n
        invariant
            n == a@.len() == b@.len(),
            0 <= i <= n,
            forall|k: int| 0 <= k < i ==> lower_byte(a@[k]) == lower_byte(b@[k]),
        decreases n - i,
    {
        if to_lower_byte(a[i]) != to_lower_byte(b[i]) {
            proof {
                assert(lower_bytes(a@)[i as int] != lower_bytes(b@)[i as int]);
            }
            return false;
        }
        i += 1;
    }
    proof {
        assert(lower_bytes(a@) =~= lower_bytes(b@));
    }
    true
}

/// Length of the white-space character starting at `i`, or 0.
fn space_width_at(s: &[u8], i: usize) -> (w: usize)
    requires
        i < s@.len(),
    ensures
        w as int == space_len_at(s@, i as int),
        i + w <= s@.len(),
{
    let n = s.len();
    let a = s[i];
    if a == 9 || a == 10 || a == 11 || a == 12 || a == 13 || a == 32 {
        return 1;
    }
    if n - i >= 2 {
        let b = s[i + 1];
        if a == 0xc2 && (b == 0x85 || b == 0xa0) {
            return 2;
        }
        if n - i >= 3 {
            let c = s[i + 2];
            if (a == 0xe1 && b == 0x9a && c == 0x80) || (a == 0xe2 && b == 0x80 && ((0x80 <= c && c
                <= 0x8a) || c == 0xa8 || c == 0xa9 || c == 0xaf)) || (a == 0xe2 && b == 0x81 && c
                == 0x9f) || (a == 0xe3 && b == 0x80 && c == 0x80) {
                return 3;
            }
        }
    }
    0
}

/// Length of the white-space character ending just before `j`, or 0; a
/// character never reaches below `lo`.
fn space_width_before(s: &[u8], lo: usize, j: usize) -> (w: usize)
    requires
        lo <= j <= s@.len(),
    ensures
        w as int == space_len_before(s@, lo as int, j as int),
        w <= j - lo,
{
    if j - lo >= 1 {
        let a = s[j - 1];
        if a == 9 || a == 10 || a == 11 || a == 12 || a == 13 || a == 32 {
            return 1;
        }
        if j - lo >= 2 {
            let b = s[j - 2];
            if b == 0xc2 && (a == 0x85 || a == 0xa0) {
                return 2;
            }
            if j - lo >= 3 {
                let c = s[j - 3];
                if (c == 0xe1 && b == 0x9a && a == 0x80) || (c == 0xe2 && b == 0x80 && ((0x80 <= a
                    && a <= 0x8a) || a == 0xa8 || a == 0xa9 || a == 0xaf)) || (c == 0xe2 && b
                    == 0x81 && a == 0x9f) || (c == 0xe3 && b == 0x80 && a == 0x80) {
                    return 3;
                }
            }
        }
    }
    0
}

/// Index of the first byte that starts no white-space character.
fn trim_start_index(s: &[u8]) -> (lo: usize)
    ensures
        lo <= s@.len(),
        lo as int == skip_spaces_from(s@, 0),
{
    let n = s.len();
    let mut lo: usize = 0;
    loop
        invariant
            n == s@.len(),
            0 <= lo <= n,
            skip_spaces_from(s@, 0) == skip_spaces_from(s@, lo as int),
        decreases n - lo,
    {
        if lo >= n {
            return lo;
        }
        let w = space_width_at(s, lo);
        if w == 0 {
            proof {
                assert(skip_spaces_from(s@, lo as int) == lo);
            }
            return lo;
        }
        lo += w;
    }
}

/// End (exclusive) of the last byte at or after `lo` that ends no
/// white-space character.
fn trim_end_index(s: &[u8], lo: usize) -> (hi: usize)
    requires
        lo <= s@.len(),
    ensures
        lo <= hi <= s@.len(),
        hi as int == rskip_spaces_until(s@, lo as int, s@.len() as int),
{
    let n = s.len();
    let mut hi: usize = n;
    loop
        invariant
            n == s@.len(),
            lo <= hi <= n,
            rskip_spaces_until(s@, lo as int, n as int) == rskip_spaces_until(
                s@,
                lo as int,
                hi as int,
            ),
        decreases hi,
    {
        if hi <= lo {
            proof {
                assert(rskip_spaces_until(s@, lo as int, hi as int) == lo);
            }
            return hi;
        }
        let w = space_width_before(s, lo, hi);
        if w == 0 {
            proof {
                assert(rskip_spaces_until(s@, lo as int, hi as int) == hi);
            }
            return hi;
        }
        hi -= w;
    }
}

/// True iff the slice holds nothing but white space.
pub fn is_blank_bytes(s: &[u8]) -> (r: bool)
    ensures
        r == is_blank(s@),
{
    trim_start_index(s) == s.len()
}

/// Copies a slice into a fresh vector.
pub fn bytes_of(s: &[u8]) -> (r: Vec<u8>)
    ensures
        r@ == s@,
{
    vstd::slice::slice_to_vec(s)
}

/// Copies a byte vector.
pub fn clone_bytes(v: &Vec<u8>) -> (r: Vec<u8>)
    ensures
        r@ == v@,
{
    vstd::slice::slice_to_vec(v.as_slice())
}

/// Copies an optional byte vector.
pub fn clone_opt_bytes(v: &Option<Vec<u8>>) -> (r: Option<Vec<u8>>)
    ensures
        match v {
            Some(b) => r matches Some(rb) && rb@ == b@,
            None => r is None,
        },
{
    match v {
        Some(b) => Some(clone_bytes(b)),
        None => None,
    }
}

/// `s` with leading and trailing white space removed, as `str::trim`
/// leaves it.
pub fn trimmed(s: &[u8]) -> (r: Vec<u8>)
    ensures
        r@ == trim_bytes(s@),
{
    let n = s.len();
    let lo = trim_start_index(s);
    let hi = trim_end_index(s, lo);
    let mut r: Vec<u8> = Vec::new();
    let mut i: usize = lo;
    while i < hi
        invariant
            lo <= i <= hi <= n,
            n == s@.len(),
            r@ == s@.subrange(lo as int, i as int),
        decreases hi - i,
    {
        r.push(s[i]);
        proof {
            assert(r@ =~= s@.subrange(lo as int, i + 1 as int));
        }
        i += 1;
    }
    r
}

/// ASCII-case-insensitive substring search.
pub fn contains_ci_bytes(hay: &[u8], needle: &[u8]) -> (r: bool)
    ensures
        r == contains_ci(hay@, needle@),
{
    let h = hay.len();
    let m = needle.len();
    if m > h {
        return false;
    }
    let last = h - m;
    let mut i: usize = 0;
    loop
        invariant
            m <= h == hay@.len(),
            m == needle@.len(),
            last == h - m,
            0 <= i <= last + 1,
            forall|k: int| 0 <= k < i ==> !matches_ci_at(hay@, needle@, k),
        decreases last + 1 - i,
    {
        if i > last {
            proof {
                assert(forall|k: int|
                    matches_ci_at(hay@, needle@, k) ==> 0 <= k <= last as int);
            }
            return false;
        }
        let mut j: usize = 0;
        let mut hit = true;
        while j < m
            invariant
                m <= h == hay@.len(),
                m == needle@.len(),
                0 <= i <= last == h - m,
                0 <= j <= m,
                hit ==> forall|k: int|
                    0 <= k < j ==> lower_byte(hay@[i + k]) == lower_byte(needle@[k]),
                !hit ==> !matches_ci_at(hay@, needle@, i as int),
            decreases m - j,
        {
            if to_lower_byte(hay[i + j]) != to_lower_byte(needle[j]) {
                hit = false;
                j = m;
            } else {
                j += 1;
            }
        }
        if hit {
            proof {
                assert(matches_ci_at(hay@, needle@, i as int));
            }
            return true;
        }
        i += 1;
    }
}

} // verus!
