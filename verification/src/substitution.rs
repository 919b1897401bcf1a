//! Placeholders in translation texts and their substitution.
//!
//! A placeholder starts at an unescaped `%` (one not preceded by `\`). When
//! every placeholder is a plain `%s`, the arguments are used in order.
//! Otherwise each placeholder is either bare (`%` and the character after it)
//! and takes the next argument, or numbered (`%N` and the two characters
//! after the digits, as in `%1$s`) and takes argument `N` (clamped into the
//! argument list). Offsets are byte offsets into the UTF-8 text.
use vstd::prelude::*;
use vstd::utf8::*;
use vstd::string::StringSliceAdditionalSpecFns;
use crate::locale::Locale;
use crate::text::{contains_char, texts};
use crate::translation::{Translations, translation_lookup, get_translation};

verus! {

broadcast use vstd::utf8::encode_utf8_valid_utf8, vstd::utf8::encode_utf8_decode_utf8;

/// A byte range of a placeholder within a translation text.
#[derive(Clone, Copy, Debug, Default, PartialEq, Eq, Hash, Structural)]
pub struct SubstitutionRange {
    pub start: usize,
    pub end: usize,
}

impl SubstitutionRange {
    /// `end - start + 1`.
    pub fn len(&self) -> (n: usize)
        requires
            self.start <= self.end,
            self.end - self.start < usize::MAX,
        ensures
            n == self.end - self.start + 1,
    {
        (self.end - self.start) + 1
    }

    /// Whether `start` and `end` coincide.
    pub fn is_empty(&self) -> (b: bool)
        ensures
            b == (self.start == self.end),
    {
        self.start == self.end
    }
}

/// The ranges as pairs of integers.
pub open spec fn range_pairs(rs: Seq<SubstitutionRange>) -> Seq<(int, int)> {
    rs.map_values(|r: SubstitutionRange| (r.start as int, r.end as int))
}

/// Byte `i` is a `%` that is not preceded by a `\`.
pub open spec fn is_unescaped_percent(b: Seq<u8>, i: int) -> bool {
    0 <= i < b.len() && b[i] == 37u8 && (i == 0 || b[i - 1] != 92u8)
}

/// Offsets of the unescaped `%` bytes among the first `n` bytes, in order.
pub open spec fn percent_offsets_upto(b: Seq<u8>, n: int) -> Seq<int>
    decreases n,
{
    if n <= 0 {
        Seq::empty()
    } else if is_unescaped_percent(b, n - 1) {
        percent_offsets_upto(b, n - 1).push(n - 1)
    } else {
        percent_offsets_upto(b, n - 1)
    }
}

/// Offsets of all unescaped `%` bytes, in order.
pub open spec fn percent_offsets(b: Seq<u8>) -> Seq<int> {
    percent_offsets_upto(b, b.len() as int)
}

/// Bytes `i` and `i + 1` spell `%s`.
pub open spec fn is_percent_s(b: Seq<u8>, i: int) -> bool {
    0 <= i && i + 1 < b.len() && b[i] == 37u8 && b[i + 1] == 115u8
}

/// The number of `%s` that start among the first `n` bytes (escaped or not).
pub open spec fn percent_s_count_upto(b: Seq<u8>, n: int) -> int
    decreases n,
{
    if n <= 0 {
        0
    } else {
        percent_s_count_upto(b, n - 1) + if is_percent_s(b, n - 1) {
            1int
        } else {
            0int
        }
    }
}

/// There are as many `%s` in the text as unescaped `%`.
pub open spec fn only_plain_placeholders(b: Seq<u8>) -> bool {
    percent_s_count_upto(b, b.len() as int) == percent_offsets(b).len()
}

/// An ASCII digit.
pub open spec fn is_digit_byte(c: u8) -> bool {
    48u8 <= c <= 57u8
}

/// The number of ASCII digits that follow one another from byte `j` on.
pub open spec fn digit_run(b: Seq<u8>, j: int) -> nat
    decreases b.len() - j,
{
    if 0 <= j < b.len() && is_digit_byte(b[j]) {
        1 + digit_run(b, j + 1)
    } else {
        0
    }
}

/// The decimal value of the `n` digits from byte `start` on.
pub open spec fn digits_value(b: Seq<u8>, start: int, n: nat) -> nat
    decreases n,
{
    if n == 0 {
        0
    } else {
        digits_value(b, start, (n - 1) as nat) * 10 + (b[start + n - 1] - 48) as nat
    }
}

/// The end of the placeholder whose `%` is at `p`: `p + 1` for a bare one,
/// `p + digits + 2` for a numbered one.
pub open spec fn slot_end(b: Seq<u8>, p: int) -> int {
    let run = digit_run(b, p + 1);
    if run == 0 {
        p + 1
    } else {
        p + run + 2
    }
}

/// Whether the placeholder at `p` takes an argument: a bare one always, a
/// numbered one when its number fits in `usize`.
pub open spec fn slot_uses_argument(b: Seq<u8>, p: int) -> bool {
    let run = digit_run(b, p + 1);
    run == 0 || digits_value(b, p + 1, run) <= usize::MAX
}

/// The argument that the next bare placeholder takes, after the first `k`
/// placeholders: it starts at 0 and moves on by one, but not past the last
/// of `n` arguments, at each bare placeholder.
pub open spec fn next_argument(b: Seq<u8>, offs: Seq<int>, n: int, k: int) -> int
    decreases k,
{
    if k <= 0 {
        0
    } else {
        let prev = next_argument(b, offs, n, k - 1);
        if digit_run(b, offs[k - 1] + 1) == 0 {
            if prev + 1 > n - 1 {
                n - 1
            } else {
                prev + 1
            }
        } else {
            prev
        }
    }
}

/// `v` clamped into `lo..=hi`.
pub open spec fn clamp(v: int, lo: int, hi: int) -> int {
    if v < lo {
        lo
    } else if v > hi {
        hi
    } else {
        v
    }
}

/// The argument that placeholder `k` takes, or `None` for an empty text.
pub open spec fn slot_source(b: Seq<u8>, offs: Seq<int>, n: int, k: int) -> Option<int> {
    let p = offs[k];
    let run = digit_run(b, p + 1);
    if run == 0 {
        Some(next_argument(b, offs, n, k))
    } else if digits_value(b, p + 1, run) <= usize::MAX {
        Some(clamp(digits_value(b, p + 1, run) as int, 1, n) - 1)
    } else {
        None
    }
}

/// The byte range of every placeholder.
pub open spec fn placeholder_ranges(b: Seq<u8>) -> Seq<(int, int)> {
    let offs = percent_offsets(b);
    if only_plain_placeholders(b) {
        Seq::new(offs.len(), |k: int| (offs[k], offs[k] + 1))
    } else {
        Seq::new(offs.len(), |k: int| (offs[k], slot_end(b, offs[k])))
    }
}

/// The texts that fill the placeholders, given the arguments `with`: the
/// arguments themselves when every placeholder is a plain `%s`, else one text
/// per placeholder.
pub open spec fn substitution_texts(b: Seq<u8>, with: Seq<Seq<char>>) -> Seq<Seq<char>> {
    let offs = percent_offsets(b);
    if only_plain_placeholders(b) {
        with
    } else {
        Seq::new(
            offs.len(),
            |k: int|
                match slot_source(b, offs, with.len() as int, k) {
                    Some(j) => with[j],
                    None => Seq::<char>::empty(),
                },
        )
    }
}

/// The inputs on which the placeholders can be matched with `n` arguments:
/// texts of a size that memory can hold, and either some argument or no
/// placeholder that would take one.
pub open spec fn reorder_defined(b: Seq<u8>, n: nat) -> bool {
    &&& b.len() <= isize::MAX
    &&& (n > 0 || only_plain_placeholders(b) || forall|k: int|
        0 <= k < percent_offsets(b).len() ==> !slot_uses_argument(b, #[trigger] percent_offsets(b)[k]))
}

/// Where the text piece before range `k` starts: just past the character
/// that follows the previous range.
pub open spec fn piece_start(rs: Seq<(int, int)>, k: int) -> int {
    if k <= 0 {
        0
    } else {
        rs[k - 1].1 + 1
    }
}

/// The text with the first `k` ranges filled: the pieces between them, each
/// followed by the substitution of the same position (the last one once
/// there are fewer substitutions than ranges).
pub open spec fn filled_upto(b: Seq<u8>, subs: Seq<Seq<char>>, rs: Seq<(int, int)>, k: int) -> Seq<
    char,
>
    decreases k,
{
    if k <= 0 {
        Seq::empty()
    } else {
        filled_upto(b, subs, rs, k - 1) + decode_utf8(
            b.subrange(piece_start(rs, k - 1), rs[k - 1].0),
        ) + subs[if k - 1 < subs.len() - 1 {
            k - 1
        } else {
            subs.len() - 1
        }]
    }
}

/// The text with every range filled, and the rest of the text after.
pub open spec fn filled(b: Seq<u8>, subs: Seq<Seq<char>>, rs: Seq<(int, int)>) -> Seq<char> {
    filled_upto(b, subs, rs, rs.len() as int) + decode_utf8(
        b.subrange(piece_start(rs, rs.len() as int), b.len() as int),
    )
}

/// The pieces between the ranges are in order and start and end on
/// character boundaries.
pub open spec fn pieces_fit(b: Seq<u8>, rs: Seq<(int, int)>) -> bool {
    &&& forall|k: int|
        0 <= k < rs.len() ==> {
            &&& piece_start(rs, k) <= #[trigger] rs[k].0
            &&& is_char_boundary(b, piece_start(rs, k))
            &&& is_char_boundary(b, rs[k].0)
        }
    &&& is_char_boundary(b, piece_start(rs, rs.len() as int))
}

/// The text, with its placeholders filled from `with`. A text without `%`,
/// or no argument at all, leaves the text as it is.
pub open spec fn substituted(text: Seq<char>, with: Seq<Seq<char>>) -> Seq<char> {
    let b = encode_utf8(text);
    if with.len() == 0 || !text.contains('%') {
        text
    } else {
        filled(b, substitution_texts(b, with), placeholder_ranges(b))
    }
}

/// The inputs on which filling the placeholders of `text` with `n`
/// arguments is defined.
pub open spec fn substitution_defined(text: Seq<char>, n: nat) -> bool {
    let b = encode_utf8(text);
    n == 0 || !text.contains('%') || (b.len() <= isize::MAX && pieces_fit(b, placeholder_ranges(b)))
}

/// Offsets of the unescaped `%` bytes, and the number of `%s`.
fn scan_percents(bytes: &[u8]) -> (r: (Vec<usize>, usize))
    ensures
        r.0@.map_values(|x: usize| x as int) == percent_offsets(bytes@),
        r.1 as int == percent_s_count_upto(bytes@, bytes@.len() as int),
{
    let n = bytes.len();
    let mut offsets: Vec<usize> = Vec::new();
    let mut plain: usize = 0;
    let mut i: usize = 0;
    while i < n
        invariant
            n == bytes@.len(),
            i <= n,
            offsets@.map_values(|x: usize| x as int) == percent_offsets_upto(bytes@, i as int),
            plain as int == percent_s_count_upto(bytes@, i as int),
            plain <= i,
        decreases n - i,
    {
        if bytes[i] == 37u8 && (i == 0 || bytes[i - 1] != 92u8) {
            offsets.push(i);
        }
        if bytes[i] == 37u8 && i + 1 < n && bytes[i + 1] == 115u8 {
            plain = plain + 1;
        }
        i = i + 1;
        assert(offsets@.map_values(|x: usize| x as int) =~= percent_offsets_upto(bytes@, i as int));
    }
    (offsets, plain)
}

/// The digits after the `%` at `p`: how many, and their value when it fits
/// in `usize`.
fn scan_digits(bytes: &[u8], p: usize) -> (r: (usize, Option<usize>))
    requires
        p < bytes@.len(),
    ensures
        r.0 == digit_run(bytes@, p + 1),
        p + r.0 < bytes@.len() || (r.0 == 0 && p + 1 == bytes@.len()) || p + r.0 + 1 == bytes@.len(),
        r.1 == (if digits_value(bytes@, p + 1, r.0 as nat) <= usize::MAX {
            Some(digits_value(bytes@, p + 1, r.0 as nat) as usize)
        } else {
            None::<usize>
        }),
{
    let n = bytes.len();
    let mut pos: usize = 1;
    let mut acc: Option<usize> = Some(0);
    while p + pos < n && 48u8 <= bytes[p + pos] && bytes[p + pos] <= 57u8
        invariant
            n == bytes@.len(),
            p < n,
            1 <= pos,
            p + pos <= n,
            digit_run(bytes@, p + 1) == (pos - 1) + digit_run(bytes@, p + pos),
            acc == (if digits_value(bytes@, p + 1, (pos - 1) as nat) <= usize::MAX {
                Some(digits_value(bytes@, p + 1, (pos - 1) as nat) as usize)
            } else {
                None::<usize>
            }),
        decreases n - (p + pos),
    {
        let d = (bytes[p + pos] - 48u8) as usize;
        let ghost prev = digits_value(bytes@, p + 1, (pos - 1) as nat);
        assert(digits_value(bytes@, p + 1, pos as nat) == prev * 10 + d);
        acc = match acc {
            Some(v) => match v.checked_mul(10) {
                Some(w) => w.checked_add(d),
                None => None,
            },
            None => None,
        };
        pos = pos + 1;
    }
    (pos - 1, acc)
}

/// The byte range of every placeholder of a text.
fn placeholder_ranges_of(bytes: &[u8]) -> (r: Vec<SubstitutionRange>)
    requires
        bytes@.len() <= isize::MAX,
    ensures
        range_pairs(r@) == placeholder_ranges(bytes@),
{
    let (offsets, plain) = scan_percents(bytes);
    let ghost offs = percent_offsets(bytes@);
    let only_plain = plain == offsets.len();
    let mut ranges: Vec<SubstitutionRange> = Vec::new();
    let mut k: usize = 0;
    while k < offsets.len()
        invariant
            bytes@.len() <= isize::MAX,
            offsets@.map_values(|x: usize| x as int) == offs,
            offs == percent_offsets(bytes@),
            only_plain == only_plain_placeholders(bytes@),
            k <= offsets@.len(),
            ranges@.len() == k,
            forall|j: int| 0 <= j < k ==> range_pairs(ranges@)[j] == #[trigger] placeholder_ranges(bytes@)[j],
        decreases offsets@.len() - k,
    {
        let p = offsets[k];
        assert(offs[k as int] == p);
        proof { lemma_offsets_in_bounds(bytes@, k as int); }
        let end = if only_plain {
            p + 1
        } else {
            let (run, _value) = scan_digits(bytes, p);
            if run == 0 { p + 1 } else { p + run + 2 }
        };
        ranges.push(SubstitutionRange { start: p, end });
        k = k + 1;
    }
    assert(range_pairs(ranges@) =~= placeholder_ranges(bytes@));
    ranges
}

/// Every placeholder offset lies within the text.
proof fn lemma_offsets_in_bounds(b: Seq<u8>, k: int)
    requires
        0 <= k < percent_offsets(b).len(),
    ensures
        0 <= percent_offsets(b)[k] < b.len(),
        b[percent_offsets(b)[k]] == 37u8,
{
    lemma_offsets_upto(b, b.len() as int);
}

/// Offsets among the first `n` bytes are unescaped `%` before `n`.
proof fn lemma_offsets_upto(b: Seq<u8>, n: int)
    requires
        n <= b.len(),
    ensures
        forall|k: int|
            0 <= k < percent_offsets_upto(b, n).len() ==> 0 <= #[trigger] percent_offsets_upto(b, n)[k] < n
                && is_unescaped_percent(b, percent_offsets_upto(b, n)[k]),
    decreases n,
{
    if n > 0 {
        lemma_offsets_upto(b, n - 1);
        let prev = percent_offsets_upto(b, n - 1);
        let cur = percent_offsets_upto(b, n);
        assert forall|k: int| 0 <= k < cur.len() implies 0 <= #[trigger] cur[k] < n
            && is_unescaped_percent(b, cur[k]) by {
            if k < prev.len() {
                assert(cur[k] == prev[k]);
            }
        }
    }
}

/// Reorders the arguments of a translation text to match its placeholders,
/// and gives the byte range of every placeholder. When every placeholder is
/// a plain `%s`, the arguments come back as they were.
pub fn reorder_substitutions(translation: &str, with: Vec<String>) -> (r: (
    Vec<String>,
    Vec<SubstitutionRange>,
))
    requires
        reorder_defined(translation.spec_bytes(), with@.len()),
    ensures
        range_pairs(r.1@) == placeholder_ranges(translation.spec_bytes()),
        texts(r.0@) == substitution_texts(translation.spec_bytes(), texts(with@)),
        only_plain_placeholders(translation.spec_bytes()) ==> r.0@ == with@,
{
    let bytes = translation.as_bytes();
    let ghost b = bytes@;
    let ranges = placeholder_ranges_of(bytes);
    let (offsets, plain) = scan_percents(bytes);
    let ghost offs = percent_offsets(b);
    if plain == offsets.len() {
        return (with, ranges);
    }
    let n = with.len();
    let ghost w = texts(with@);
    let mut subs: Vec<String> = Vec::new();
    let mut next: usize = 0;
    let mut k: usize = 0;
    while k < offsets.len()
        invariant
            b == translation.spec_bytes(),
            b == bytes@,
            b.len() <= isize::MAX,
            reorder_defined(b, n as nat),
            !only_plain_placeholders(b),
            offsets@.map_values(|x: usize| x as int) == offs,
            offs == percent_offsets(b),
            n == with@.len(),
            w == texts(with@),
            k <= offsets@.len(),
            next as int == next_argument(b, offs, n as int, k as int),
            n > 0 ==> next < n,
            subs@.len() == k,
            forall|j: int| 0 <= j < k ==> texts(subs@)[j] == #[trigger] substitution_texts(b, w)[j],
        decreases offsets@.len() - k,
    {
        let p = offsets[k];
        assert(offs[k as int] == p);
        proof { lemma_offsets_in_bounds(b, k as int); }
        let (run, value) = scan_digits(bytes, p);
        if run == 0 {
            assert(slot_uses_argument(b, offs[k as int]));
            let s = with[next].clone();
            subs.push(s);
            next = if next + 1 > n - 1 { n - 1 } else { next + 1 };
        } else {
            match value {
                Some(v) => {
                    assert(slot_uses_argument(b, offs[k as int]));
                    let c = if v < 1 { 1 } else if v > n { n } else { v };
                    let s = with[c - 1].clone();
                    subs.push(s);
                },
                None => {
                    subs.push(String::new());
                },
            }
        }
        k = k + 1;
    }
    assert(texts(subs@) =~= substitution_texts(b, w));
    (subs, ranges)
}

/// A boundary inside the first `to` bytes stays a boundary of that prefix.
proof fn lemma_prefix_boundary(b: Seq<u8>, to: int, from: int)
    requires
        valid_utf8(b),
        is_char_boundary(b, to),
        is_char_boundary(b, from),
        0 <= from <= to,
    ensures
        is_char_boundary(b.subrange(0, to), from),
{
    reveal_with_fuel(is_char_boundary, 1);
    let h = b.subrange(0, to);
    valid_utf8_split(b, to);
    if from == to {
        is_char_boundary_start_end_of_seq(h);
    } else if from > 0 {
        is_char_boundary_iff_not_is_continuation_byte(h, from);
        is_char_boundary_iff_not_is_continuation_byte(b, from);
        assert(h[from] == b[from]);
    }
}

/// The text between two character boundaries.
fn slice_between(s: &str, from: usize, to: usize) -> (r: &str)
    requires
        from <= to,
        is_char_boundary(s.spec_bytes(), from as int),
        is_char_boundary(s.spec_bytes(), to as int),
    ensures
        r@ == decode_utf8(s.spec_bytes().subrange(from as int, to as int)),
{
    proof {
        lemma_prefix_boundary(s.spec_bytes(), to as int, from as int);
    }
    let (head, _rest) = s.split_at(to);
    let (_before, piece) = head.split_at(from);
    proof {
        assert(piece.spec_bytes() =~= s.spec_bytes().subrange(from as int, to as int));
    }
    piece
}

/// A boundary lies within the text.
proof fn lemma_boundary_in_bounds(b: Seq<u8>, i: int)
    requires
        valid_utf8(b),
        is_char_boundary(b, i),
    ensures
        0 <= i <= b.len(),
{
    reveal_with_fuel(is_char_boundary, 1);
}

/// The text with every range filled from `subs`.
fn fill_pieces(translation: &str, subs: &Vec<String>, ranges: &Vec<SubstitutionRange>) -> (r: String)
    requires
        pieces_fit(translation.spec_bytes(), range_pairs(ranges@)),
        subs@.len() > 0 || ranges@.len() == 0,
    ensures
        r@ == filled(translation.spec_bytes(), texts(subs@), range_pairs(ranges@)),
{
    let ghost b = translation.spec_bytes();
    let ghost rs = range_pairs(ranges@);
    let ghost sv = texts(subs@);
    let len = translation.as_bytes().len();
    let mut result = String::new();
    let mut pos: usize = 0;
    let mut idx: usize = 0;
    while idx < ranges.len()
        invariant
            b == translation.spec_bytes(),
            b.len() == len,
            rs == range_pairs(ranges@),
            sv == texts(subs@),
            pieces_fit(b, rs),
            subs@.len() > 0 || ranges@.len() == 0,
            idx <= ranges@.len(),
            pos as int == piece_start(rs, idx as int),
            result@ == filled_upto(b, sv, rs, idx as int),
        decreases ranges@.len() - idx,
    {
        let range = ranges[idx];
        assert(rs[idx as int] == (range.start as int, range.end as int));
        assert(piece_start(rs, idx as int) <= rs[idx as int].0);
        let last = subs.len() - 1;
        let sub_idx = if idx < last { idx } else { last };
        let piece = slice_between(translation, pos, range.start);
        result.append(piece);
        result.append(subs[sub_idx].as_str());
        proof {
            let next = piece_start(rs, idx + 1);
            if idx + 1 < rs.len() {
                assert(piece_start(rs, idx + 1) <= rs[idx + 1].0);
                assert(is_char_boundary(b, piece_start(rs, idx + 1)));
            }
            lemma_boundary_in_bounds(b, next);
        }
        pos = range.end + 1;
        idx = idx + 1;
    }
    proof {
        is_char_boundary_start_end_of_seq(b);
        lemma_boundary_in_bounds(b, pos as int);
    }
    let rest = slice_between(translation, pos, len);
    result.append(rest);
    result
}

/// The text with its placeholders filled from `with`.
fn substitute(translation: &str, with: Vec<String>) -> (r: String)
    requires
        substitution_defined(translation@, with@.len()),
    ensures
        r@ == substituted(translation@, texts(with@)),
{
    if with.len() == 0 || !contains_char(translation, '%') {
        return translation.to_owned();
    }
    let ghost w = with@;
    let (subs, ranges) = reorder_substitutions(translation, with);
    proof {
        assert(texts(subs@).len() == subs@.len());
        assert(range_pairs(ranges@).len() == ranges@.len());
        assert(texts(w).len() == w.len());
    }
    fill_pieces(translation, &subs, &ranges)
}

/// Whether filling the placeholders of `translation` with `with_len`
/// arguments is defined.
pub fn substitution_fits(translation: &str, with_len: usize) -> (r: bool)
    ensures
        r == substitution_defined(translation@, with_len as nat),
{
    if with_len == 0 || !contains_char(translation, '%') {
        return true;
    }
    let bytes = translation.as_bytes();
    let len = bytes.len();
    if len > isize::MAX as usize {
        return false;
    }
    let ranges = placeholder_ranges_of(bytes);
    let ghost b = bytes@;
    let ghost rs = range_pairs(ranges@);
    let mut pos: usize = 0;
    let mut idx: usize = 0;
    while idx < ranges.len()
        invariant
            b == translation.spec_bytes(),
            b.len() == len,
            len <= isize::MAX,
            with_len > 0,
            translation@.contains('%'),
            rs == placeholder_ranges(b),
            rs == range_pairs(ranges@),
            idx <= ranges@.len(),
            pos as int == piece_start(rs, idx as int),
            pos <= len,
            forall|k: int|
                0 <= k < idx ==> {
                    &&& piece_start(rs, k) <= #[trigger] rs[k].0
                    &&& is_char_boundary(b, piece_start(rs, k))
                    &&& is_char_boundary(b, rs[k].0)
                },
        decreases ranges@.len() - idx,
    {
        let range = ranges[idx];
        assert(rs[idx as int] == (range.start as int, range.end as int));
        assert(rs[idx as int].0 == range.start);
        if !(pos <= range.start && translation.is_char_boundary(pos)
            && translation.is_char_boundary(range.start)) {
            proof {
                if pieces_fit(b, rs) {
                    assert(piece_start(rs, idx as int) <= rs[idx as int].0);
                }
            }
            return false;
        }
        if range.end >= len {
            proof {
                if is_char_boundary(b, piece_start(rs, idx + 1)) {
                    lemma_boundary_in_bounds(b, piece_start(rs, idx + 1));
                }
                if pieces_fit(b, rs) && idx + 1 < rs.len() {
                    assert(piece_start(rs, idx + 1) <= rs[idx + 1].0);
                }
            }
            return false;
        }
        pos = range.end + 1;
        idx = idx + 1;
    }
    translation.is_char_boundary(pos)
}

/// Resolves a translation into console text: the translation of `key` for
/// `locale`, with its placeholders filled from `with`, the console
/// renderings of the arguments.
pub fn translation_to_pretty(
    translations: &Translations,
    namespaced_key: &str,
    locale: Locale,
    with: Vec<String>,
) -> (r: String)
    requires
        substitution_defined(translation_lookup(translations@, namespaced_key@, locale), with@.len()),
    ensures
        r@ == substituted(translation_lookup(translations@, namespaced_key@, locale), texts(with@)),
{
    let translation = get_translation(translations, namespaced_key, locale);
    substitute(translation.as_str(), with)
}

/// Resolves a translation into plain text: the translation of `key` for
/// `locale`, with its placeholders filled from `with`, the plain texts of the
/// arguments.
pub fn get_translation_text(
    translations: &Translations,
    namespaced_key: &str,
    locale: Locale,
    with: Vec<String>,
) -> (r: String)
    requires
        substitution_defined(translation_lookup(translations@, namespaced_key@, locale), with@.len()),
    ensures
        r@ == substituted(translation_lookup(translations@, namespaced_key@, locale), texts(with@)),
{
    let translation = get_translation(translations, namespaced_key, locale);
    substitute(translation.as_str(), with)
}

/// `translation_to_pretty` on the inputs where it is defined, `None` on the
/// others.
pub fn try_translation_to_pretty(
    translations: &Translations,
    namespaced_key: &str,
    locale: Locale,
    with: Vec<String>,
) -> (r: Option<String>)
    ensures
        match r {
            Some(s) => substitution_defined(translation_lookup(translations@, namespaced_key@, locale), with@.len())
                && s@ == substituted(translation_lookup(translations@, namespaced_key@, locale), texts(with@)),
            None => !substitution_defined(translation_lookup(translations@, namespaced_key@, locale), with@.len()),
        },
{
    let translation = get_translation(translations, namespaced_key, locale);
    if substitution_fits(translation.as_str(), with.len()) {
        Some(translation_to_pretty(translations, namespaced_key, locale, with))
    } else {
        None
    }
}

/// `get_translation_text` on the inputs where it is defined, `None` on the
/// others.
pub fn try_get_translation_text(
    translations: &Translations,
    namespaced_key: &str,
    locale: Locale,
    with: Vec<String>,
) -> (r: Option<String>)
    ensures
        match r {
            Some(s) => substitution_defined(translation_lookup(translations@, namespaced_key@, locale), with@.len())
                && s@ == substituted(translation_lookup(translations@, namespaced_key@, locale), texts(with@)),
            None => !substitution_defined(translation_lookup(translations@, namespaced_key@, locale), with@.len()),
        },
{
    let translation = get_translation(translations, namespaced_key, locale);
    if substitution_fits(translation.as_str(), with.len()) {
        Some(get_translation_text(translations, namespaced_key, locale, with))
    } else {
        None
    }
}

/// The placeholder offsets come in increasing order.
proof fn lemma_offsets_increase(b: Seq<u8>, n: int)
    requires
        n <= b.len(),
    ensures
        forall|i: int, j: int|
            0 <= i < j < percent_offsets_upto(b, n).len() ==> percent_offsets_upto(b, n)[i]
                < percent_offsets_upto(b, n)[j],
    decreases n,
{
    if n > 0 {
        lemma_offsets_increase(b, n - 1);
        lemma_offsets_upto(b, n - 1);
        let prev = percent_offsets_upto(b, n - 1);
        let cur = percent_offsets_upto(b, n);
        assert forall|i: int, j: int| 0 <= i < j < cur.len() implies cur[i] < cur[j] by {
            assert(cur[i] == prev[i]);
            if j < prev.len() {
                assert(cur[j] == prev[j]);
            } else {
                assert(cur[j] == n - 1);
                assert(prev[i] < n - 1);
            }
        }
    }
}

/// In valid UTF-8, the byte after an ASCII character starts a character (or
/// is the end).
proof fn lemma_boundary_after_ascii(b: Seq<u8>, i: int)
    requires
        valid_utf8(b),
        0 <= i < b.len(),
        b[i] < 128,
    ensures
        is_char_boundary(b, i + 1),
{
    is_char_boundary_iff_not_is_continuation_byte(b, i);
    valid_utf8_split(b, i);
    let s = b.subrange(i, b.len() as int);
    assert(s[0] == b[i]);
    assert(valid_first_scalar(s) && valid_utf8(pop_first_scalar(s)));
    assert(length_of_first_scalar(s) == 1);
    let t = pop_first_scalar(s);
    assert(t =~= b.subrange(i + 1, b.len() as int));
    if i + 1 == b.len() {
        is_char_boundary_start_end_of_seq(b);
    } else {
        assert(t.len() > 0);
        assert(valid_first_scalar(t));
        assert(t[0] == b[i + 1]);
        is_char_boundary_iff_not_is_continuation_byte(b, i + 1);
    }
}

/// Filling a text whose placeholders are all plain (`%s`) or bare (`%`
/// followed by an ASCII character that is neither a digit nor `%`, as in
/// `%d`) is defined for any number of arguments and any text that memory can
/// hold, wherever its placeholders stand, the very first byte included.
pub proof fn law_unnumbered_placeholders_fit(text: Seq<char>, n: nat)
    requires
        encode_utf8(text).len() <= isize::MAX,
        forall|k: int|
            0 <= k < percent_offsets(encode_utf8(text)).len() ==> {
                let p = #[trigger] percent_offsets(encode_utf8(text))[k];
                &&& p + 1 < encode_utf8(text).len()
                &&& encode_utf8(text)[p + 1] < 128
                &&& !is_digit_byte(encode_utf8(text)[p + 1])
                &&& encode_utf8(text)[p + 1] != 37u8
            },
    ensures
        substitution_defined(text, n),
{
    let b = encode_utf8(text);
    let offs = percent_offsets(b);
    let rs = placeholder_ranges(b);
    lemma_offsets_upto(b, b.len() as int);
    lemma_offsets_increase(b, b.len() as int);
    assert(valid_utf8(b));
    is_char_boundary_start_end_of_seq(b);
    assert forall|k: int| 0 <= k < offs.len() implies #[trigger] rs[k] == (offs[k], offs[k] + 1) by {
        let p = offs[k];
        assert(!is_digit_byte(b[p + 1]));
        assert(digit_run(b, p + 1) == 0);
    }
    assert forall|k: int| 0 <= k < rs.len() implies {
        &&& piece_start(rs, k) <= #[trigger] rs[k].0
        &&& is_char_boundary(b, piece_start(rs, k))
        &&& is_char_boundary(b, rs[k].0)
    } by {
        let p = offs[k];
        assert(rs[k] == (offs[k], offs[k] + 1));
        assert(is_unescaped_percent(b, p));
        is_char_boundary_iff_not_is_continuation_byte(b, p);
        if k > 0 {
            let q = offs[k - 1];
            assert(rs[k - 1] == (q, q + 1));
            assert(q < p);
            assert(is_unescaped_percent(b, q));
            assert(b[q + 1] != 37u8);
            assert(q + 1 != p);
            lemma_boundary_after_ascii(b, q + 1);
        }
    }
    if rs.len() > 0 {
        let q = offs[rs.len() - 1];
        assert(rs[rs.len() - 1] == (q, q + 1));
        assert(b[q + 1] < 128);
        lemma_boundary_after_ascii(b, q + 1);
    }
}

/// The encoding of two texts one after the other is the two encodings one
/// after the other.
proof fn lemma_encode_concat(a: Seq<char>, c: Seq<char>)
    ensures
        encode_utf8(a + c) == encode_utf8(a) + encode_utf8(c),
    decreases a.len(),
{
    if a.len() == 0 {
        assert(a + c =~= c);
        assert(encode_utf8(a) + encode_utf8(c) =~= encode_utf8(c));
    } else {
        lemma_encode_concat(a.drop_first(), c);
        assert((a + c).drop_first() =~= a.drop_first() + c);
        assert((a + c)[0] == a[0]);
        assert(encode_utf8(a + c) =~= encode_utf8(a) + encode_utf8(c));
    }
}

/// An ASCII character is encoded as its own code; any other character only
/// as bytes of 128 and above.
proof fn lemma_scalar_bytes(c: char)
    ensures
        (c as u32) < 128 ==> encode_scalar(c as u32) == seq![(c as u32) as u8],
        (c as u32) < 128 ==> ((c as u32) as u8) as u32 == c as u32,
        (c as u32) >= 128 ==> forall|i: int|
            0 <= i < encode_scalar(c as u32).len() ==> #[trigger] encode_scalar(c as u32)[i] >= 128,
{
    let s = c as u32;
    char_is_scalar(c);
    if s < 128 {
        assert((s & 0x7F) as u8 == s as u8) by (bit_vector)
            requires
                s < 128,
        ;
        assert((s as u8) as u32 == s) by (bit_vector)
            requires
                s < 128,
        ;
        assert(encode_scalar(s) =~= seq![s as u8]);
    } else {
        assert(forall|y: u8| #[trigger] (0xC0u8 | y) >= 128) by (bit_vector);
        assert(forall|y: u8| #[trigger] (0xE0u8 | y) >= 128) by (bit_vector);
        assert(forall|y: u8| #[trigger] (0xF0u8 | y) >= 128) by (bit_vector);
        assert(forall|y: u8| #[trigger] (0x80u8 | y) >= 128) by (bit_vector);
    }
}

/// A text without `%` encodes to bytes without `%` (37).
proof fn lemma_no_percent_byte(a: Seq<char>)
    requires
        !a.contains('%'),
    ensures
        forall|i: int| 0 <= i < encode_utf8(a).len() ==> #[trigger] encode_utf8(a)[i] != 37u8,
    decreases a.len(),
{
    if a.len() > 0 {
        let rest = a.drop_first();
        assert forall|j: int| 0 <= j < rest.len() implies rest[j] != '%' by {
            assert(rest[j] == a[j + 1]);
        }
        lemma_no_percent_byte(rest);
        let c = a[0];
        assert(c != '%');
        lemma_scalar_bytes(c);
        char_u32_cast(c, c as u32);
        let e = encode_scalar(c as u32);
        assert forall|i: int| 0 <= i < encode_utf8(a).len() implies #[trigger] encode_utf8(a)[i] != 37u8 by {
            if i < e.len() {
                assert(encode_utf8(a)[i] == e[i]);
                if (c as u32) < 128 {
                    assert(e[i] == (c as u32) as u8);
                    assert((c as u32) != 37);
                }
            } else {
                assert(encode_utf8(a)[i] == encode_utf8(rest)[i - e.len()]);
            }
        }
    }
}

/// A text that does not end in `\` encodes to bytes that do not end in `\`
/// (92).
proof fn lemma_last_byte_not_backslash(a: Seq<char>)
    requires
        a.len() > 0,
        a.last() != '\\',
    ensures
        encode_utf8(a).len() > 0,
        encode_utf8(a).last() != 92u8,
{
    let c = a.last();
    let init = a.drop_last();
    assert(a =~= init + seq![c]);
    lemma_encode_concat(init, seq![c]);
    char_is_scalar(c);
    assert(seq![c].drop_first() =~= Seq::<char>::empty());
    assert(encode_utf8(Seq::<char>::empty()) =~= Seq::<u8>::empty());
    assert(seq![c][0] == c);
    assert(encode_utf8(seq![c]) == encode_scalar(c as u32) + encode_utf8(seq![c].drop_first()));
    assert(encode_utf8(seq![c]) =~= encode_scalar(c as u32));
    lemma_scalar_bytes(c);
    char_u32_cast(c, c as u32);
    char_is_scalar(c);
    let e = encode_scalar(c as u32);
    assert(e.len() > 0);
    assert(encode_utf8(a).last() == e.last());
    if (c as u32) < 128 {
        assert((c as u32) != 92);
    } else {
        assert(e[e.len() - 1] >= 128);
    }
}

/// The only unescaped `%` of a text with a single `%` byte, itself not
/// escaped, is that one.
proof fn lemma_single_percent(b: Seq<u8>, p: int, n: int)
    requires
        0 <= p < b.len(),
        forall|i: int| 0 <= i < b.len() && i != p ==> b[i] != 37u8,
        is_unescaped_percent(b, p),
        0 <= n <= b.len(),
    ensures
        percent_offsets_upto(b, n) == (if n > p { seq![p] } else { Seq::<int>::empty() }),
    decreases n,
{
    if n > 0 {
        lemma_single_percent(b, p, n - 1);
        if n - 1 == p {
            assert(Seq::<int>::empty().push(p) =~= seq![p]);
        } else {
            assert(!is_unescaped_percent(b, n - 1));
        }
    }
}

/// ASCII characters are encoded one byte each, as their codes.
proof fn lemma_encode_ascii(cs: Seq<char>)
    requires
        forall|i: int| 0 <= i < cs.len() ==> (#[trigger] cs[i] as u32) < 128,
    ensures
        encode_utf8(cs) == Seq::new(cs.len(), |i: int| (cs[i] as u32) as u8),
    decreases cs.len(),
{
    if cs.len() == 0 {
        assert(encode_utf8(cs) =~= Seq::new(cs.len(), |i: int| (cs[i] as u32) as u8));
    } else {
        let rest = cs.drop_first();
        assert forall|i: int| 0 <= i < rest.len() implies (#[trigger] rest[i] as u32) < 128 by {
            assert(rest[i] == cs[i + 1]);
        }
        lemma_encode_ascii(rest);
        assert((cs[0] as u32) < 128);
        lemma_scalar_bytes(cs[0]);
        assert(encode_utf8(cs) =~= Seq::new(cs.len(), |i: int| (cs[i] as u32) as u8));
    }
}

/// A text with one unnumbered placeholder (`%s`, or `%` and another ASCII
/// character that is neither a digit nor `%`), standing anywhere in it (at
/// its very start too), is filled with the first argument: the text before
/// it, the argument, then the text after it. Filling is defined for any
/// number of arguments.
pub proof fn law_single_placeholder_filled(pre: Seq<char>, mark: char, post: Seq<char>, with: Seq<Seq<char>>)
    requires
        !pre.contains('%'),
        !post.contains('%'),
        pre.len() == 0 || pre.last() != '\\',
        (mark as u32) < 128,
        mark != '%',
        !('0' <= mark <= '9'),
        with.len() > 0,
        encode_utf8(pre + seq!['%', mark] + post).len() <= isize::MAX,
    ensures
        substitution_defined(pre + seq!['%', mark] + post, with.len()),
        substituted(pre + seq!['%', mark] + post, with) == pre + with[0] + post,
{
    let ps = seq!['%', mark];
    let text = pre + ps + post;
    lemma_encode_concat(pre, ps);
    lemma_encode_concat(pre + ps, post);
    assert(('%' as u32) == 37);
    lemma_scalar_bytes(mark);
    char_u32_cast(mark, mark as u32);
    let m = (mark as u32) as u8;
    assert(m != 37u8);
    assert(!is_digit_byte(m));
    lemma_encode_ascii(ps);
    assert(encode_utf8(ps) =~= seq![37u8, m]);
    let ep = encode_utf8(pre);
    let eq = encode_utf8(post);
    let b = encode_utf8(text);
    assert(b =~= ep + seq![37u8, m] + eq);
    let p = ep.len() as int;
    lemma_no_percent_byte(pre);
    lemma_no_percent_byte(post);
    assert(b[p] == 37u8);
    assert(b[p + 1] == m);
    assert forall|i: int| 0 <= i < b.len() && i != p implies b[i] != 37u8 by {
        if i < p {
            assert(b[i] == ep[i]);
        } else if i > p + 1 {
            assert(b[i] == eq[i - p - 2]);
        }
    }
    if pre.len() > 0 {
        lemma_last_byte_not_backslash(pre);
        assert(b[p - 1] == ep.last());
    } else {
        assert(ep.len() == 0);
    }
    assert(is_unescaped_percent(b, p));
    lemma_single_percent(b, p, b.len() as int);
    let offs = percent_offsets(b);
    assert(offs =~= seq![p]);
    law_unnumbered_placeholders_fit(text, with.len());
    assert(text[pre.len() as int] == '%');
    assert(text.contains('%'));
    let rs = placeholder_ranges(b);
    assert(digit_run(b, p + 1) == 0);
    assert(rs.len() == 1);
    assert(rs[0] == (p, p + 1));
    let subs = substitution_texts(b, with);
    let idx = if 0 < subs.len() - 1 { 0 } else { subs.len() - 1 };
    if only_plain_placeholders(b) {
        assert(subs == with);
    } else {
        assert(next_argument(b, offs, with.len() as int, 0) == 0);
        assert(slot_source(b, offs, with.len() as int, 0) == Some(0int));
        assert(subs.len() == 1);
    }
    assert(subs[idx] == with[0]);
    assert(b.subrange(0, p) =~= ep);
    assert(b.subrange(p + 2, b.len() as int) =~= eq);
    assert(piece_start(rs, 0) == 0);
    assert(piece_start(rs, 1) == p + 2);
    assert(filled_upto(b, subs, rs, 0) == Seq::<char>::empty());
    assert(filled_upto(b, subs, rs, 1) == Seq::<char>::empty() + decode_utf8(ep) + subs[idx]);
    assert(decode_utf8(ep) == pre);
    assert(decode_utf8(eq) == post);
    assert(substituted(text, with) =~= pre + with[0] + post);
}

/// The unescaped `%` of a text with exactly two `%` bytes, neither escaped,
/// are those two.
proof fn lemma_two_percents(b: Seq<u8>, p: int, q: int, n: int)
    requires
        0 <= p < q < b.len(),
        forall|i: int| 0 <= i < b.len() && i != p && i != q ==> b[i] != 37u8,
        is_unescaped_percent(b, p),
        is_unescaped_percent(b, q),
        0 <= n <= b.len(),
    ensures
        percent_offsets_upto(b, n) == (if n > q {
            seq![p, q]
        } else if n > p {
            seq![p]
        } else {
            Seq::<int>::empty()
        }),
    decreases n,
{
    if n > 0 {
        lemma_two_percents(b, p, q, n - 1);
        if n - 1 == p {
            assert(Seq::<int>::empty().push(p) =~= seq![p]);
        } else if n - 1 == q {
            assert(seq![p].push(q) =~= seq![p, q]);
        } else {
            assert(!is_unescaped_percent(b, n - 1));
        }
    }
}

/// Where the bytes of a text with two unnumbered placeholders lie.
proof fn lemma_two_placeholder_layout(pre: Seq<char>, mark1: char, mid: Seq<char>, mark2: char, post: Seq<char>)
    requires
        !pre.contains('%'),
        !mid.contains('%'),
        !post.contains('%'),
        pre.len() == 0 || pre.last() != '\\',
        mid.len() == 0 || mid.last() != '\\',
        mid.len() == 0 ==> mark1 != '\\',
        (mark1 as u32) < 128,
        (mark2 as u32) < 128,
        mark1 != '%',
        mark2 != '%',
    ensures
        ({
            let b = encode_utf8(pre + seq!['%', mark1] + mid + seq!['%', mark2] + post);
            let p = encode_utf8(pre).len() as int;
            let q = p + 2 + encode_utf8(mid).len();
            &&& b.len() == q + 2 + encode_utf8(post).len()
            &&& percent_offsets(b) == seq![p, q]
            &&& b[p + 1] == (mark1 as u32) as u8
            &&& b[q + 1] == (mark2 as u32) as u8
            &&& b.subrange(0, p) == encode_utf8(pre)
            &&& b.subrange(p + 2, q) == encode_utf8(mid)
            &&& b.subrange(q + 2, b.len() as int) == encode_utf8(post)
        }),
{
    let ps1 = seq!['%', mark1];
    let ps2 = seq!['%', mark2];
    let text = pre + ps1 + mid + ps2 + post;
    lemma_encode_concat(pre, ps1);
    lemma_encode_concat(pre + ps1, mid);
    lemma_encode_concat(pre + ps1 + mid, ps2);
    lemma_encode_concat(pre + ps1 + mid + ps2, post);
    assert(('%' as u32) == 37);
    lemma_scalar_bytes(mark1);
    lemma_scalar_bytes(mark2);
    char_u32_cast(mark1, mark1 as u32);
    char_u32_cast(mark2, mark2 as u32);
    let m1 = (mark1 as u32) as u8;
    let m2 = (mark2 as u32) as u8;
    assert(m1 != 37u8 && m2 != 37u8);
    lemma_encode_ascii(ps1);
    lemma_encode_ascii(ps2);
    assert(encode_utf8(ps1) =~= seq![37u8, m1]);
    assert(encode_utf8(ps2) =~= seq![37u8, m2]);
    let ep = encode_utf8(pre);
    let em = encode_utf8(mid);
    let eq = encode_utf8(post);
    let b = encode_utf8(text);
    assert(b =~= ep + seq![37u8, m1] + em + seq![37u8, m2] + eq);
    let p = ep.len() as int;
    let q = p + 2 + em.len();
    lemma_no_percent_byte(pre);
    lemma_no_percent_byte(mid);
    lemma_no_percent_byte(post);
    assert(b[p] == 37u8);
    assert(b[q] == 37u8);
    assert forall|i: int| 0 <= i < b.len() && i != p && i != q implies b[i] != 37u8 by {
        if i < p {
            assert(b[i] == ep[i]);
        } else if i == p + 1 {
        } else if p + 1 < i < q {
            assert(b[i] == em[i - p - 2]);
        } else if i == q + 1 {
        } else if i > q + 1 {
            assert(b[i] == eq[i - q - 2]);
        }
    }
    if pre.len() > 0 {
        lemma_last_byte_not_backslash(pre);
        assert(b[p - 1] == ep.last());
    } else {
        assert(ep.len() == 0);
    }
    if mid.len() > 0 {
        lemma_last_byte_not_backslash(mid);
        assert(b[q - 1] == em.last());
    } else {
        assert(em.len() == 0);
        assert(b[q - 1] == m1);
        assert((mark1 as u32) != 92);
    }
    assert(is_unescaped_percent(b, p));
    assert(is_unescaped_percent(b, q));
    lemma_two_percents(b, p, q, b.len() as int);
    assert(b.subrange(0, p) =~= ep);
    assert(b.subrange(p + 2, q) =~= em);
    assert(b.subrange(q + 2, b.len() as int) =~= eq);
}

/// A text with two unnumbered placeholders (`%s`, or `%` and another ASCII
/// character that is neither a digit nor `%`) is filled with the arguments in
/// order: the first argument in the first, the second (or the only one, when
/// there is one) in the second, with the text around them kept.
pub proof fn law_two_placeholders_filled(
    pre: Seq<char>,
    mark1: char,
    mid: Seq<char>,
    mark2: char,
    post: Seq<char>,
    with: Seq<Seq<char>>,
)
    requires
        !pre.contains('%'),
        !mid.contains('%'),
        !post.contains('%'),
        pre.len() == 0 || pre.last() != '\\',
        mid.len() == 0 || mid.last() != '\\',
        mid.len() == 0 ==> mark1 != '\\',
        (mark1 as u32) < 128,
        (mark2 as u32) < 128,
        mark1 != '%',
        mark2 != '%',
        !('0' <= mark1 <= '9'),
        !('0' <= mark2 <= '9'),
        with.len() > 0,
        encode_utf8(pre + seq!['%', mark1] + mid + seq!['%', mark2] + post).len() <= isize::MAX,
    ensures
        substitution_defined(pre + seq!['%', mark1] + mid + seq!['%', mark2] + post, with.len()),
        substituted(pre + seq!['%', mark1] + mid + seq!['%', mark2] + post, with) == pre + with[0] + mid + with[
            if with.len() > 1 { 1int } else { 0int }
        ] + post,
{
    let text = pre + seq!['%', mark1] + mid + seq!['%', mark2] + post;
    lemma_two_placeholder_layout(pre, mark1, mid, mark2, post);
    lemma_scalar_bytes(mark1);
    lemma_scalar_bytes(mark2);
    let b = encode_utf8(text);
    let ep = encode_utf8(pre);
    let em = encode_utf8(mid);
    let eq = encode_utf8(post);
    let p = ep.len() as int;
    let q = p + 2 + em.len();
    let offs = percent_offsets(b);
    assert(!is_digit_byte(b[p + 1]));
    assert(!is_digit_byte(b[q + 1]));
    law_unnumbered_placeholders_fit(text, with.len());
    assert(text[pre.len() as int] == '%');
    assert(text.contains('%'));
    let rs = placeholder_ranges(b);
    assert(digit_run(b, p + 1) == 0);
    assert(digit_run(b, q + 1) == 0);
    assert(rs.len() == 2);
    assert(rs[0] == (p, p + 1));
    assert(rs[1] == (q, q + 1));
    let subs = substitution_texts(b, with);
    let n = with.len() as int;
    let i0 = if 0 < subs.len() - 1 { 0 } else { subs.len() - 1 };
    let i1 = if 1 < subs.len() - 1 { 1 } else { subs.len() - 1 };
    let second = if with.len() > 1 { 1int } else { 0int };
    if only_plain_placeholders(b) {
        assert(subs == with);
    } else {
        assert(next_argument(b, offs, n, 0) == 0);
        assert(next_argument(b, offs, n, 1) == second);
        assert(slot_source(b, offs, n, 0) == Some(0int));
        assert(slot_source(b, offs, n, 1) == Some(second));
        assert(subs.len() == 2);
    }
    assert(subs[i0] == with[0]);
    assert(subs[i1] == with[second]);
    assert(piece_start(rs, 0) == 0);
    assert(piece_start(rs, 1) == p + 2);
    assert(piece_start(rs, 2) == q + 2);
    assert(filled_upto(b, subs, rs, 0) == Seq::<char>::empty());
    assert(filled_upto(b, subs, rs, 1) == Seq::<char>::empty() + decode_utf8(ep) + subs[i0]);
    assert(filled_upto(b, subs, rs, 2) == filled_upto(b, subs, rs, 1) + decode_utf8(em) + subs[i1]);
    assert(decode_utf8(ep) == pre);
    assert(decode_utf8(em) == mid);
    assert(decode_utf8(eq) == post);
    assert(substituted(text, with) =~= pre + with[0] + mid + with[second] + post);
}

/// A text in which no `%` is followed by `s` counts no `%s`.
proof fn lemma_no_percent_s(b: Seq<u8>, n: int)
    requires
        forall|i: int| 0 <= i < b.len() ==> !is_percent_s(b, i),
    ensures
        percent_s_count_upto(b, n) == 0,
    decreases n,
{
    if n > 0 {
        lemma_no_percent_s(b, n - 1);
    }
}

/// A text with one numbered placeholder `%N$s` (one digit `N`), standing
/// anywhere in it, is filled with argument `N` (counted from 1): the first
/// argument for `N` below 1, the last one for `N` past the last argument.
/// Filling is defined for any number of arguments.
pub proof fn law_numbered_placeholder_filled(pre: Seq<char>, digit: char, post: Seq<char>, with: Seq<Seq<char>>)
    requires
        !pre.contains('%'),
        !post.contains('%'),
        pre.len() == 0 || pre.last() != '\\',
        '0' <= digit <= '9',
        with.len() > 0,
        encode_utf8(pre + seq!['%', digit, '$', 's'] + post).len() <= isize::MAX,
    ensures
        substitution_defined(pre + seq!['%', digit, '$', 's'] + post, with.len()),
        substituted(pre + seq!['%', digit, '$', 's'] + post, with) == pre + with[
            if (digit as u32) - 48 < 1 {
                0
            } else if (digit as u32) - 48 > with.len() {
                with.len() - 1
            } else {
                (digit as u32) - 48 - 1
            }
        ] + post,
{
    let ps = seq!['%', digit, '$', 's'];
    let text = pre + ps + post;
    lemma_encode_concat(pre, ps);
    lemma_encode_concat(pre + ps, post);
    assert(('%' as u32) == 37);
    assert(('$' as u32) == 36);
    assert(('s' as u32) == 115);
    lemma_scalar_bytes(digit);
    let dd = (digit as u32) as u8;
    assert(48 <= dd <= 57);
    lemma_encode_ascii(ps);
    assert(encode_utf8(ps) =~= seq![37u8, dd, 36u8, 115u8]);
    let ep = encode_utf8(pre);
    let eq = encode_utf8(post);
    let b = encode_utf8(text);
    assert(b =~= ep + seq![37u8, dd, 36u8, 115u8] + eq);
    let p = ep.len() as int;
    lemma_no_percent_byte(pre);
    lemma_no_percent_byte(post);
    assert(b[p] == 37u8);
    assert(b[p + 1] == dd);
    assert(b[p + 2] == 36u8);
    assert(b[p + 3] == 115u8);
    assert forall|i: int| 0 <= i < b.len() && i != p implies b[i] != 37u8 by {
        if i < p {
            assert(b[i] == ep[i]);
        } else if i > p + 3 {
            assert(b[i] == eq[i - p - 4]);
        }
    }
    if pre.len() > 0 {
        lemma_last_byte_not_backslash(pre);
        assert(b[p - 1] == ep.last());
    } else {
        assert(ep.len() == 0);
    }
    assert(is_unescaped_percent(b, p));
    lemma_single_percent(b, p, b.len() as int);
    let offs = percent_offsets(b);
    assert(offs =~= seq![p]);
    lemma_no_percent_s(b, b.len() as int);
    assert(!only_plain_placeholders(b));
    assert(digit_run(b, p + 2) == 0);
    assert(digit_run(b, p + 1) == 1);
    assert(digits_value(b, p + 1, 0) == 0);
    assert(digits_value(b, p + 1, 1) == dd - 48);
    assert(slot_end(b, p) == p + 3);
    let rs = placeholder_ranges(b);
    assert(rs.len() == 1);
    assert(rs[0] == (p, p + 3));
    assert(valid_utf8(b));
    is_char_boundary_start_end_of_seq(b);
    is_char_boundary_iff_not_is_continuation_byte(b, p);
    lemma_boundary_after_ascii(b, p + 3);
    assert(piece_start(rs, 0) == 0);
    assert(piece_start(rs, 1) == p + 4);
    assert(pieces_fit(b, rs));
    assert(text[pre.len() as int] == '%');
    assert(text.contains('%'));
    let n = with.len() as int;
    let v = dd - 48;
    let chosen = if v < 1 { 0 } else if v > n { n - 1 } else { v - 1 };
    let subs = substitution_texts(b, with);
    assert(slot_source(b, offs, n, 0) == Some(clamp(v, 1, n) - 1));
    assert(clamp(v, 1, n) - 1 == chosen);
    assert(subs.len() == 1);
    assert(subs[0] == with[chosen]);
    assert(b.subrange(0, p) =~= ep);
    assert(b.subrange(p + 4, b.len() as int) =~= eq);
    assert(filled_upto(b, subs, rs, 0) == Seq::<char>::empty());
    assert(filled_upto(b, subs, rs, 1) == Seq::<char>::empty() + decode_utf8(ep) + subs[0]);
    assert(decode_utf8(ep) == pre);
    assert(decode_utf8(eq) == post);
    assert(substituted(text, with) =~= pre + with[chosen] + post);
}

/// A text ending in an ASCII character encodes to bytes ending in its code.
proof fn lemma_last_byte_ascii(a: Seq<char>)
    requires
        a.len() > 0,
        (a.last() as u32) < 128,
    ensures
        encode_utf8(a).len() > 0,
        encode_utf8(a).last() == (a.last() as u32) as u8,
{
    let c = a.last();
    let init = a.drop_last();
    assert(a =~= init + seq![c]);
    lemma_encode_concat(init, seq![c]);
    lemma_encode_ascii(seq![c]);
    assert(encode_utf8(seq![c]) =~= seq![(c as u32) as u8]);
}

/// With no argument, or no `%` in the text, filling is defined and leaves
/// the text as it is.
pub proof fn law_nothing_to_fill(text: Seq<char>, with: Seq<Seq<char>>)
    requires
        with.len() == 0 || !text.contains('%'),
    ensures
        substitution_defined(text, with.len()),
        substituted(text, with) == text,
{
}

/// A `%` right after a `\\` is no placeholder: a text whose only `%` is
/// escaped is given back as it is, whatever the arguments.
pub proof fn law_escaped_percent_kept(pre: Seq<char>, post: Seq<char>, with: Seq<Seq<char>>)
    requires
        !pre.contains('%'),
        !post.contains('%'),
        pre.len() > 0,
        pre.last() == '\\',
        encode_utf8(pre + seq!['%'] + post).len() <= isize::MAX,
    ensures
        substitution_defined(pre + seq!['%'] + post, with.len()),
        substituted(pre + seq!['%'] + post, with) == pre + seq!['%'] + post,
{
    let text = pre + seq!['%'] + post;
    if with.len() > 0 {
        lemma_encode_concat(pre, seq!['%']);
        lemma_encode_concat(pre + seq!['%'], post);
        assert(('%' as u32) == 37);
        assert(('\\' as u32) == 92);
        lemma_encode_ascii(seq!['%']);
        assert(encode_utf8(seq!['%']) =~= seq![37u8]);
        let ep = encode_utf8(pre);
        let eq = encode_utf8(post);
        let b = encode_utf8(text);
        assert(b =~= ep + seq![37u8] + eq);
        let p = ep.len() as int;
        lemma_no_percent_byte(pre);
        lemma_no_percent_byte(post);
        lemma_last_byte_ascii(pre);
        assert(b[p - 1] == ep.last());
        assert(b[p - 1] == 92u8);
        assert forall|i: int| 0 <= i < b.len() implies !is_unescaped_percent(b, i) by {
            if i < p {
                assert(b[i] == ep[i]);
            } else if i > p {
                assert(b[i] == eq[i - p - 1]);
            }
        }
        lemma_no_offsets(b, b.len() as int);
        let rs = placeholder_ranges(b);
        assert(rs.len() == 0);
        assert(valid_utf8(b));
        is_char_boundary_start_end_of_seq(b);
        assert(piece_start(rs, 0) == 0);
        assert(pieces_fit(b, rs));
        assert(b.subrange(0, b.len() as int) =~= b);
        assert(filled_upto(b, substitution_texts(b, with), rs, 0) == Seq::<char>::empty());
        assert(substituted(text, with) =~= text);
    }
}

/// A text with no unescaped `%` has no placeholder offsets.
proof fn lemma_no_offsets(b: Seq<u8>, n: int)
    requires
        forall|i: int| 0 <= i < b.len() ==> !is_unescaped_percent(b, i),
        n <= b.len(),
    ensures
        percent_offsets_upto(b, n) == Seq::<int>::empty(),
    decreases n,
{
    if n > 0 {
        lemma_no_offsets(b, n - 1);
    }
}

} // verus!
