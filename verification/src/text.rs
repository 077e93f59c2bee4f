//! Character classes and small helpers on character sequences.

use vstd::prelude::*;

verus! {

/// The views of the items of `s`, in order.
pub open spec fn views<T: View>(s: Seq<T>) -> Seq<T::V> {
    Seq::new(s.len(), |i: int| s[i]@)
}

/// Whether `c` is an ASCII letter.
pub open spec fn is_alpha(c: char) -> bool {
    ('a' <= c && c <= 'z') || ('A' <= c && c <= 'Z')
}

/// Whether `c` is an ASCII decimal digit.
pub open spec fn is_digit(c: char) -> bool {
    '0' <= c && c <= '9'
}

/// Whether `c` may continue an identifier: an ASCII letter, a digit or `_`.
pub open spec fn is_ident_char(c: char) -> bool {
    is_alpha(c) || is_digit(c) || c == '_'
}

/// Whether `c` is white space: the characters with Unicode's `White_Space`
/// property.
pub open spec fn is_space(c: char) -> bool {
    let n = c as u32;
    (0x09 <= n && n <= 0x0d) || n == 0x20 || n == 0x85 || n == 0xa0 || n == 0x1680 || (0x2000 <= n
        && n <= 0x200a) || n == 0x2028 || n == 0x2029 || n == 0x202f || n == 0x205f || n == 0x3000
}

/// Whether `c` is an ASCII letter.
pub fn char_is_alpha(c: char) -> (r: bool)
    ensures
        r == is_alpha(c),
{
    ('a' <= c && c <= 'z') || ('A' <= c && c <= 'Z')
}

/// Whether `c` is an ASCII decimal digit.
pub fn char_is_digit(c: char) -> (r: bool)
    ensures
        r == is_digit(c),
{
    '0' <= c && c <= '9'
}

/// Whether `c` may continue an identifier.
pub fn char_is_ident(c: char) -> (r: bool)
    ensures
        r == is_ident_char(c),
{
    char_is_alpha(c) || char_is_digit(c) || c == '_'
}

/// Whether `c` is white space.
pub fn char_is_space(c: char) -> (r: bool)
    ensures
        r == is_space(c),
{
    let n: u32 = c as u32;
    (0x09 <= n && n <= 0x0d) || n == 0x20 || n == 0x85 || n == 0xa0 || n == 0x1680 || (0x2000 <= n
        && n <= 0x200a) || n == 0x2028 || n == 0x2029 || n == 0x202f || n == 0x205f || n == 0x3000
}

/// The characters of `s`, in order.
pub fn chars_of(s: &str) -> (v: Vec<char>)
    ensures
        v@ == s@,
{
    let n: usize = s.unicode_len();
    let mut v: Vec<char> = Vec::new();
    let mut i: usize = 0;
    while i < n
        invariant
            n == s@.len(),
            i <= n,
            v@ == s@.subrange(0, i as int),
        decreases n - i,
    {
        v.push(s.get_char(i));
        i = i + 1;
    }
    v
}

/// Whether two strings hold the same characters.
pub fn str_eq(a: &str, b: &str) -> (r: bool)
    ensures
        r == (a@ == b@),
{
    let x = String::from_str(a);
    let y = String::from_str(b);
    x == y
}

/// The first offset at or after `pos` at which no white space stands.
pub open spec fn skip_space(src: Seq<char>, pos: int) -> int
    decreases src.len() - pos,
{
    if 0 <= pos < src.len() && is_space(src[pos]) {
        skip_space(src, pos + 1)
    } else {
        pos
    }
}

/// White space is skipped to an offset at or after the start, within the text.
pub proof fn lemma_skip_space_bounds(src: Seq<char>, pos: int)
    requires
        0 <= pos <= src.len(),
    ensures
        pos <= skip_space(src, pos) <= src.len(),
    decreases src.len() - pos,
{
    if pos < src.len() && is_space(src[pos]) {
        lemma_skip_space_bounds(src, pos + 1);
    }
}

/// The offset behind the last character of `s` before `end` that is no white
/// space; 0 where there is none.
pub open spec fn trim_end(s: Seq<char>, end: int) -> int
    decreases end,
{
    if 0 < end <= s.len() && is_space(s[end - 1]) {
        trim_end(s, end - 1)
    } else {
        end
    }
}

/// `s` without the white space at its start and at its end.
pub open spec fn trimmed(s: Seq<char>) -> Seq<char> {
    let lo = skip_space(s, 0);
    let hi = trim_end(s, s.len() as int);
    if lo <= hi {
        s.subrange(lo, hi)
    } else {
        Seq::empty()
    }
}

/// Whether `s` starts with `p`.
pub open spec fn starts_with(s: Seq<char>, p: Seq<char>) -> bool {
    p.len() <= s.len() && s.subrange(0, p.len() as int) == p
}

/// Whether `s` ends with `p`.
pub open spec fn ends_with(s: Seq<char>, p: Seq<char>) -> bool {
    p.len() <= s.len() && s.subrange(s.len() - p.len(), s.len() as int) == p
}

/// `s` without `p` at its start, if it starts with `p`.
pub open spec fn strip_prefix(s: Seq<char>, p: Seq<char>) -> Option<Seq<char>> {
    if starts_with(s, p) {
        Some(s.subrange(p.len() as int, s.len() as int))
    } else {
        None
    }
}

/// `s` without `p` at its end, if it ends with `p`.
pub open spec fn strip_suffix(s: Seq<char>, p: Seq<char>) -> Option<Seq<char>> {
    if ends_with(s, p) {
        Some(s.subrange(0, s.len() - p.len()))
    } else {
        None
    }
}

/// The first offset at or after `from` at which `p` stands in `s`.
pub open spec fn find(s: Seq<char>, p: Seq<char>, from: int) -> Option<int>
    decreases s.len() - from,
{
    if from < 0 || from + p.len() > s.len() {
        None
    } else if s.subrange(from, from + p.len()) == p {
        Some(from)
    } else if from < s.len() {
        find(s, p, from + 1)
    } else {
        None
    }
}

/// `s` parted at the first place where `p` stands: what is before it and what
/// is behind it.
pub open spec fn split_once(s: Seq<char>, p: Seq<char>) -> Option<(Seq<char>, Seq<char>)> {
    match find(s, p, 0) {
        Some(i) => Some((s.subrange(0, i), s.subrange(i + p.len(), s.len() as int))),
        None => None,
    }
}

/// A place in a text: the characters from `lo` up to `hi`.
#[derive(Debug, Clone, Copy, PartialEq, Eq, Structural)]
pub struct Range {
    pub lo: usize,
    pub hi: usize,
}

impl Range {
    /// Whether the range lies within a text of `len` characters.
    pub open spec fn within(self, len: nat) -> bool {
        self.lo <= self.hi <= len
    }

    /// The characters of `s` in the range.
    pub open spec fn of(self, s: Seq<char>) -> Seq<char> {
        s.subrange(self.lo as int, self.hi as int)
    }
}

/// The range of `v` without the white space at its start and at its end.
pub fn trim_range(v: &Vec<char>) -> (r: Range)
    ensures
        r.within(v@.len()),
        r.of(v@) == trimmed(v@),
{
    let n: usize = v.len();
    let mut lo: usize = 0;
    while lo < n && char_is_space(v[lo])
        invariant
            n == v@.len(),
            lo <= n,
            skip_space(v@, lo as int) == skip_space(v@, 0),
        decreases n - lo,
    {
        lo = lo + 1;
    }
    let mut hi: usize = n;
    while hi > 0 && char_is_space(v[hi - 1])
        invariant
            n == v@.len(),
            hi <= n,
            trim_end(v@, hi as int) == trim_end(v@, n as int),
        decreases hi,
    {
        hi = hi - 1;
    }
    if lo <= hi {
        Range { lo, hi }
    } else {
        let r = Range { lo: 0, hi: 0 };
        assert(r.of(v@) =~= Seq::<char>::empty());
        r
    }
}

/// Whether `p` stands in `v` at the offset `at`, within the range `r`.
pub fn matches_at(v: &Vec<char>, r: Range, at: usize, p: &Vec<char>) -> (b: bool)
    requires
        r.within(v@.len()),
        r.lo <= at <= r.hi,
    ensures
        b == (at + p@.len() <= r.hi && v@.subrange(at as int, at + p@.len()) == p@),
{
    if p.len() > r.hi - at {
        return false;
    }
    let mut k: usize = 0;
    while k < p.len()
        invariant
            k <= p@.len(),
            at + p@.len() <= r.hi <= v@.len(),
            forall|j: int| 0 <= j < k ==> v@[at + j] == p@[j],
        decreases p@.len() - k,
    {
        if v[at + k] != p[k] {
            assert(v@.subrange(at as int, at + p@.len())[k as int] != p@[k as int]);
            return false;
        }
        k = k + 1;
    }
    assert(v@.subrange(at as int, at + p@.len()) =~= p@);
    true
}

/// The range `r` of `v` without `p` at its start, if it starts with `p`.
pub fn strip_prefix_in(v: &Vec<char>, r: Range, p: &Vec<char>) -> (out: Option<Range>)
    requires
        r.within(v@.len()),
    ensures
        match out {
            Some(q) => q.within(v@.len()) && r.lo <= q.lo && q.hi == r.hi && strip_prefix(
                r.of(v@),
                p@,
            ) == Some(q.of(v@)),
            None => strip_prefix(r.of(v@), p@) is None,
        },
{
    let b = matches_at(v, r, r.lo, p);
    proof {
        if p@.len() <= r.hi - r.lo {
            assert(r.of(v@).subrange(0, p@.len() as int) =~= v@.subrange(
                r.lo as int,
                r.lo + p@.len(),
            ));
        }
    }
    if b {
        let q = Range { lo: r.lo + p.len(), hi: r.hi };
        assert(r.of(v@).subrange(p@.len() as int, r.of(v@).len() as int) =~= q.of(v@));
        Some(q)
    } else {
        None
    }
}

/// The range `r` of `v` without `p` at its end, if it ends with `p`.
pub fn strip_suffix_in(v: &Vec<char>, r: Range, p: &Vec<char>) -> (out: Option<Range>)
    requires
        r.within(v@.len()),
    ensures
        match out {
            Some(q) => q.within(v@.len()) && q.lo == r.lo && q.hi <= r.hi && strip_suffix(
                r.of(v@),
                p@,
            ) == Some(q.of(v@)),
            None => strip_suffix(r.of(v@), p@) is None,
        },
{
    if p.len() > r.hi - r.lo {
        return None;
    }
    let at: usize = r.hi - p.len();
    let b = matches_at(v, r, at, p);
    proof {
        assert(r.of(v@).subrange(r.of(v@).len() - p@.len(), r.of(v@).len() as int) =~= v@.subrange(
            at as int,
            at + p@.len(),
        ));
    }
    if b {
        let q = Range { lo: r.lo, hi: at };
        assert(r.of(v@).subrange(0, r.of(v@).len() - p@.len()) =~= q.of(v@));
        Some(q)
    } else {
        None
    }
}

/// The range `r` of `v` parted at the first place where `p` stands.
pub fn split_once_in(v: &Vec<char>, r: Range, p: &Vec<char>) -> (out: Option<(Range, Range)>)
    requires
        r.within(v@.len()),
    ensures
        match out {
            Some((a, b)) => a.within(v@.len()) && b.within(v@.len()) && a.lo == r.lo && b.hi
                == r.hi && split_once(r.of(v@), p@) == Some((a.of(v@), b.of(v@))),
            None => split_once(r.of(v@), p@) is None,
        },
{
    let ghost s = r.of(v@);
    let mut at: usize = r.lo;
    loop
        invariant
            r.within(v@.len()),
            s == r.of(v@),
            r.lo <= at <= r.hi,
            find(s, p@, at - r.lo) == find(s, p@, 0),
        decreases r.hi - at,
    {
        if p.len() > r.hi - at {
            return None;
        }
        let b = matches_at(v, r, at, p);
        proof {
            assert(s.subrange(at - r.lo, at - r.lo + p@.len()) =~= v@.subrange(
                at as int,
                at + p@.len(),
            ));
            if at == r.hi {
                assert(v@.subrange(at as int, at + p@.len()) =~= p@);
            }
        }
        if b {
            let left = Range { lo: r.lo, hi: at };
            let right = Range { lo: at + p.len(), hi: r.hi };
            assert(s.subrange(0, at - r.lo) =~= left.of(v@));
            assert(s.subrange(at - r.lo + p@.len(), s.len() as int) =~= right.of(v@));
            return Some((left, right));
        }
        at = at + 1;
    }
}

/// Whether the range `r` of `v` holds exactly `p`.
pub fn range_is(v: &Vec<char>, r: Range, p: &Vec<char>) -> (b: bool)
    requires
        r.within(v@.len()),
    ensures
        b == (r.of(v@) == p@),
{
    if r.hi - r.lo != p.len() {
        return false;
    }
    let b = matches_at(v, r, r.lo, p);
    assert(r.of(v@) =~= v@.subrange(r.lo as int, r.lo + p@.len()));
    b
}

/// The characters of the range `r` of `v`.
pub fn copy_range(v: &Vec<char>, r: Range) -> (out: Vec<char>)
    requires
        r.within(v@.len()),
    ensures
        out@ == r.of(v@),
{
    let mut out: Vec<char> = Vec::new();
    let mut k: usize = r.lo;
    while k < r.hi
        invariant
            r.within(v@.len()),
            r.lo <= k <= r.hi,
            out@ == v@.subrange(r.lo as int, k as int),
        decreases r.hi - k,
    {
        out.push(v[k]);
        assert(v@.subrange(r.lo as int, k as int).push(v@[k as int]) =~= v@.subrange(
            r.lo as int,
            k + 1,
        ));
        k = k + 1;
    }
    out
}

/// The range of the range `r` of `v` without the white space at its start
/// and at its end.
pub fn trim_in(v: &Vec<char>, r: Range) -> (q: Range)
    requires
        r.within(v@.len()),
    ensures
        q.within(v@.len()),
        r.lo <= q.lo <= q.hi <= r.hi,
        q.of(v@) == trimmed(r.of(v@)),
{
    let ghost s = r.of(v@);
    let mut lo: usize = r.lo;
    while lo < r.hi && char_is_space(v[lo])
        invariant
            r.within(v@.len()),
            s == r.of(v@),
            r.lo <= lo <= r.hi,
            skip_space(s, lo - r.lo) == skip_space(s, 0),
        decreases r.hi - lo,
    {
        assert(s[lo - r.lo] == v@[lo as int]);
        lo = lo + 1;
    }
    assert(lo < r.hi ==> s[lo - r.lo] == v@[lo as int]);
    let mut hi: usize = r.hi;
    while hi > r.lo && char_is_space(v[hi - 1])
        invariant
            r.within(v@.len()),
            s == r.of(v@),
            r.lo <= hi <= r.hi,
            trim_end(s, hi - r.lo) == trim_end(s, s.len() as int),
        decreases hi,
    {
        assert(s[hi - 1 - r.lo] == v@[hi - 1]);
        hi = hi - 1;
    }
    assert(hi > r.lo ==> s[hi - 1 - r.lo] == v@[hi - 1]);
    if lo <= hi {
        let q = Range { lo, hi };
        assert(s.subrange(lo - r.lo, hi - r.lo) =~= q.of(v@));
        q
    } else {
        let q = Range { lo: r.lo, hi: r.lo };
        assert(q.of(v@) =~= Seq::<char>::empty());
        q
    }
}

/// The parts of `s` between the places where `c` stands: one more than the
/// number of those places.
pub open spec fn split_all(s: Seq<char>, c: char) -> Seq<Seq<char>>
    decreases s.len(),
{
    match find(s, seq![c], 0) {
        Some(i) => if 0 <= i < s.len() {
            seq![s.subrange(0, i)] + split_all(s.subrange(i + 1, s.len() as int), c)
        } else {
            seq![s]
        },
        None => seq![s],
    }
}

/// The texts of the ranges `rs` of `s`.
pub open spec fn ranges_of(rs: Seq<Range>, s: Seq<char>) -> Seq<Seq<char>> {
    Seq::new(rs.len(), |k: int| rs[k].of(s))
}

/// What is found stands at or after the offset from which it is looked for,
/// within the text.
pub proof fn lemma_find_bounds(s: Seq<char>, p: Seq<char>, from: int)
    requires
        0 <= from,
    ensures
        match find(s, p, from) {
            Some(i) => from <= i && i + p.len() <= s.len() && s.subrange(i, i + p.len()) == p,
            None => true,
        },
    decreases s.len() - from,
{
    if from + p.len() <= s.len() && s.subrange(from, from + p.len()) != p && from < s.len() {
        lemma_find_bounds(s, p, from + 1);
    }
}

/// The ranges of the range `r` of `v` between the places where `c` stands.
pub fn split_all_in(v: &Vec<char>, r: Range, c: char) -> (out: Vec<Range>)
    requires
        r.within(v@.len()),
    ensures
        ranges_of(out@, v@) == split_all(r.of(v@), c),
        forall|k: int| 0 <= k < out@.len() ==> (#[trigger] out@[k]).within(v@.len()),
{
    let mut out: Vec<Range> = Vec::new();
    let mut pat: Vec<char> = Vec::new();
    pat.push(c);
    assert(pat@ =~= seq![c]);
    let mut cur = r;
    assert(ranges_of(out@, v@) + split_all(cur.of(v@), c) =~= split_all(r.of(v@), c));
    loop
        invariant
            r.within(v@.len()),
            cur.within(v@.len()),
            r.lo <= cur.lo,
            cur.hi == r.hi,
            pat@ == seq![c],
            forall|k: int| 0 <= k < out@.len() ==> (#[trigger] out@[k]).within(v@.len()),
            ranges_of(out@, v@) + split_all(cur.of(v@), c) == split_all(r.of(v@), c),
        decreases cur.hi - cur.lo,
    {
        let ghost done = ranges_of(out@, v@);
        let ghost s = cur.of(v@);
        proof {
            lemma_find_bounds(s, seq![c], 0);
        }
        match split_once_in(v, cur, &pat) {
            Some((left, right)) => {
                proof {
                    let i = find(s, seq![c], 0)->Some_0;
                    assert(s.subrange(0, i) == left.of(v@));
                    assert(s.subrange(i + 1, s.len() as int) == right.of(v@));
                    assert(split_all(s, c) == seq![left.of(v@)] + split_all(right.of(v@), c));
                    assert(right.lo == left.hi + 1) by {
                        assert(left.of(v@).len() == i);
                        assert(right.of(v@).len() == s.len() - i - 1);
                    }
                }
                out.push(left);
                assert(ranges_of(out@, v@) =~= done.push(left.of(v@)));
                assert(done.push(left.of(v@)) + split_all(right.of(v@), c) =~= done + (
                seq![left.of(v@)] + split_all(right.of(v@), c)));
                cur = right;
            },
            None => {
                out.push(cur);
                assert(ranges_of(out@, v@) =~= done.push(s));
                assert(done.push(s) =~= done + seq![s]);
                return out;
            },
        }
    }
}

/// The number that the decimal digits `s` write.
pub open spec fn decimal_value(s: Seq<char>) -> nat
    decreases s.len(),
{
    if s.len() == 0 {
        0
    } else {
        decimal_value(s.drop_last()) * 10 + (s.last() as u32 - '0' as u32) as nat
    }
}

/// Whether every character of `s` is a decimal digit.
pub open spec fn all_digits(s: Seq<char>) -> bool {
    forall|i: int| 0 <= i < s.len() ==> is_digit(#[trigger] s[i])
}

/// The byte that `s` writes in decimal, if `s` is a run of digits whose value
/// fits.
pub open spec fn u8_of(s: Seq<char>) -> Option<u8> {
    if s.len() > 0 && all_digits(s) && decimal_value(s) <= 255 {
        Some(decimal_value(s) as u8)
    } else {
        None
    }
}

/// The 64-bit number that `s` writes in decimal, if `s` is a run of digits
/// whose value fits.
pub open spec fn u64_of(s: Seq<char>) -> Option<u64> {
    if s.len() > 0 && all_digits(s) && decimal_value(s) <= u64::MAX {
        Some(decimal_value(s) as u64)
    } else {
        None
    }
}

/// Reads a run of decimal digits as a number; `None` where `s` is empty, holds
/// another character, or writes a number above `u64::MAX`.
pub fn parse_u64(s: &Vec<char>) -> (r: Option<u64>)
    ensures
        r == u64_of(s@),
{
    let n: usize = s.len();
    if n == 0 {
        return None;
    }
    let mut acc: u64 = 0;
    let mut over: bool = false;
    let mut i: usize = 0;
    while i < n
        invariant
            n == s@.len(),
            i <= n,
            all_digits(s@.subrange(0, i as int)),
            over ==> decimal_value(s@.subrange(0, i as int)) > u64::MAX,
            !over ==> acc == decimal_value(s@.subrange(0, i as int)),
        decreases n - i,
    {
        let c = s[i];
        if !char_is_digit(c) {
            assert(!is_digit(s@[i as int]));
            return None;
        }
        let d: u64 = (c as u32 - '0' as u32) as u64;
        proof {
            let a = s@.subrange(0, i as int);
            let b = s@.subrange(0, i + 1);
            assert(b.drop_last() =~= a);
            assert(b.last() == c);
            assert(decimal_value(b) == decimal_value(a) * 10 + d);
            assert forall|j: int| 0 <= j < b.len() implies is_digit(#[trigger] b[j]) by {
                if j < i {
                    assert(b[j] == a[j]);
                }
            }
        }
        if !over {
            if acc > (u64::MAX - d) / 10 {
                over = true;
            } else {
                acc = acc * 10 + d;
            }
        }
        i = i + 1;
    }
    assert(s@.subrange(0, n as int) =~= s@);
    if over {
        None
    } else {
        Some(acc)
    }
}

/// Reads a run of decimal digits as a byte; `None` where `s` is empty, holds
/// another character, or writes a number above 255.
pub fn parse_u8(s: &Vec<char>) -> (r: Option<u8>)
    ensures
        r == u8_of(s@),
{
    match parse_u64(s) {
        Some(v) => if v <= 255 {
            Some(v as u8)
        } else {
            None
        },
        None => {
            proof {
                if s@.len() > 0 && all_digits(s@) {
                    assert(decimal_value(s@) > u64::MAX);
                }
            }
            None
        },
    }
}

/// What the `Debug` form of a character writes: the character between single
/// quotes, escaped where it cannot stand for itself.
pub uninterp spec fn char_debug(c: char) -> Seq<char>;

/// `<char as core::fmt::Debug>::fmt`, through `format!`: the character
/// between single quotes, with the escapes of `char::escape_debug`.
#[verifier::external_body]
pub(crate) fn char_debug_string(c: char) -> (s: String)
    ensures
        s@ == char_debug(c),
{
    format!("{:?}", c)
}

/// `String::from_iter` over the characters of `v`: the string made of exactly
/// those characters, in order.
#[verifier::external_body]
pub(crate) fn string_from_chars(v: &Vec<char>) -> (s: String)
    ensures
        s@ == v@,
{
    String::from_iter(v.iter())
}

} // verus!
