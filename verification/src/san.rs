//! Thousands separators: a text cut into groups of three bytes from the
//! right, the groups joined by commas.

use vstd::prelude::*;
use vstd::utf8::{decode_utf8, encode_utf8, encode_utf8_decode_utf8, is_char_boundary, valid_utf8, valid_utf8_concat};

verus! {

/// The byte of a comma.
pub const COMMA: u8 = 44u8;

/// `b` cut into groups of three bytes counted from the right (the leftmost
/// group may be shorter), joined by commas.
pub open spec fn group3(b: Seq<u8>) -> Seq<u8>
    decreases b.len(),
{
    if b.len() <= 3 {
        b
    } else {
        group3(b.take(b.len() - 3)) + seq![COMMA] + b.skip(b.len() - 3)
    }
}

/// Each group of three bytes of `b`, counted from the right, is valid UTF-8
/// by itself.
pub open spec fn groups_valid(b: Seq<u8>) -> bool
    decreases b.len(),
{
    if b.len() <= 3 {
        valid_utf8(b)
    } else {
        groups_valid(b.take(b.len() - 3)) && valid_utf8(b.skip(b.len() - 3))
    }
}

/// The text whose UTF-8 encoding is `bytes`, where `bytes` is valid UTF-8.
///
/// Calls `String::from_utf8` of std, which accepts exactly the valid UTF-8
/// byte sequences and then holds the text they encode; the error is
/// dropped.
#[verifier::external_body]
fn string_from_utf8(bytes: Vec<u8>) -> (r: Option<String>)
    ensures
        r is Some <==> valid_utf8(bytes@),
        r matches Some(s) ==> s@ == decode_utf8(bytes@),
{
    String::from_utf8(bytes).ok()
}

/// A comma is valid UTF-8.
proof fn lemma_comma_valid()
    ensures
        valid_utf8(seq![COMMA]),
{
    let c = seq![COMMA];
    assert(c.len() == 1);
    assert(vstd::utf8::is_leading_byte_width_1(COMMA));
    assert(vstd::utf8::valid_first_scalar(c));
    assert(vstd::utf8::pop_first_scalar(c).len() == 0);
    assert(valid_utf8(vstd::utf8::pop_first_scalar(c)));
}

/// Groups that are each valid UTF-8 join into valid UTF-8.
proof fn lemma_group3_valid(b: Seq<u8>)
    requires
        groups_valid(b),
    ensures
        valid_utf8(group3(b)),
    decreases b.len(),
{
    if b.len() > 3 {
        let front = b.take(b.len() - 3);
        let back = b.skip(b.len() - 3);
        lemma_group3_valid(front);
        lemma_comma_valid();
        valid_utf8_concat(group3(front), seq![COMMA]);
        valid_utf8_concat(group3(front) + seq![COMMA], back);
    }
}

/// The grouped bytes of the first `end` bytes of `b`.
fn group_prefix(b: &[u8], end: usize) -> (r: Vec<u8>)
    requires
        end <= b@.len(),
    ensures
        r@ == group3(b@.take(end as int)),
    decreases end,
{
    if end <= 3 {
        let mut r: Vec<u8> = Vec::new();
        let mut k: usize = 0;
        while k < end
            invariant
                k <= end,
                end <= b@.len(),
                r@ == b@.take(k as int),
            decreases end - k,
        {
            r.push(b[k]);
            k = k + 1;
            assert(r@ =~= b@.take(k as int));
        }
        assert(b@.take(end as int).len() <= 3);
        r
    } else {
        let mut r = group_prefix(b, end - 3);
        let ghost front = r@;
        r.push(COMMA);
        let mut k: usize = end - 3;
        while k < end
            invariant
                end > 3,
                end - 3 <= k <= end,
                end <= b@.len(),
                r@ == front + seq![COMMA] + b@.subrange(end - 3, k as int),
            decreases end - k,
        {
            let ghost r0 = r@;
            r.push(b[k]);
            assert(b@.subrange(end - 3, k + 1) =~= b@.subrange(end - 3, k as int).push(b@[k as int]));
            assert(r@ =~= r0.push(b@[k as int]));
            k = k + 1;
            assert(r@ =~= front + seq![COMMA] + b@.subrange(end - 3, k as int));
        }
        let ghost p = b@.take(end as int);
        assert(p.take(p.len() - 3) =~= b@.take(end - 3));
        assert(p.skip(p.len() - 3) =~= b@.subrange(end - 3, end as int));
        r
    }
}

/// `v` with thousands separators: its bytes cut into groups of three from
/// the right, joined by commas. Each group must be valid UTF-8 by itself,
/// as every group of an ASCII text is.
pub fn san(v: &str) -> (r: String)
    requires
        groups_valid(encode_utf8(v@)),
    ensures
        r@ == decode_utf8(group3(encode_utf8(v@))),
{
    let b = v.as_bytes();
    let g = group_prefix(b, b.len());
    assert(b@.take(b@.len() as int) =~= b@);
    proof {
        lemma_group3_valid(b@);
    }
    match string_from_utf8(g) {
        Some(s) => s,
        None => String::new(),
    }
}


/// The part of `v` before its last `tail` bytes, with thousands separators.
pub fn san_front(v: &str, tail: usize) -> (r: String)
    requires
        tail <= encode_utf8(v@).len(),
        is_char_boundary(encode_utf8(v@), encode_utf8(v@).len() - tail),
        groups_valid(encode_utf8(v@).take(encode_utf8(v@).len() - tail)),
    ensures
        r@ == decode_utf8(group3(encode_utf8(v@).take(encode_utf8(v@).len() - tail))),
{
    let n: usize = v.as_bytes().len();
    let mid: usize = n - tail;
    let (front, _back) = v.split_at(mid);
    assert(encode_utf8(front@) =~= encode_utf8(v@).take(mid as int));
    san(front)
}

/// The part of `v` before its last `tail` bytes, with thousands separators,
/// followed by those last bytes as they stand.
pub fn san_split(v: &str, tail: usize) -> (r: String)
    requires
        tail <= encode_utf8(v@).len(),
        is_char_boundary(encode_utf8(v@), encode_utf8(v@).len() - tail),
        groups_valid(encode_utf8(v@).take(encode_utf8(v@).len() - tail)),
    ensures
        r@ == decode_utf8(group3(encode_utf8(v@).take(encode_utf8(v@).len() - tail)))
            + decode_utf8(encode_utf8(v@).skip(encode_utf8(v@).len() - tail)),
{
    let n: usize = v.as_bytes().len();
    let mid: usize = n - tail;
    let (front, back) = v.split_at(mid);
    assert(encode_utf8(front@) =~= encode_utf8(v@).take(mid as int));
    assert(encode_utf8(back@) =~= encode_utf8(v@).skip(mid as int));
    proof {
        encode_utf8_decode_utf8(back@);
    }
    let mut r = san(front);
    r.append(back);
    r
}


/// A number written with `i` decimals, given thousands separators: for one
/// to four decimals the part before the point and the point is grouped and
/// the decimals follow as they stand; otherwise the whole text is grouped.
pub fn san_decimals(v: &str, i: i32) -> (r: String)
    requires
        0 < i <= 4 ==> i + 1 <= encode_utf8(v@).len()
            && is_char_boundary(encode_utf8(v@), encode_utf8(v@).len() - (i + 1))
            && groups_valid(encode_utf8(v@).take(encode_utf8(v@).len() - (i + 1))),
        !(0 < i <= 4) ==> groups_valid(encode_utf8(v@)),
    ensures
        0 < i <= 4 ==> r@ == decode_utf8(group3(encode_utf8(v@).take(encode_utf8(v@).len() - (i + 1))))
            + decode_utf8(encode_utf8(v@).skip(encode_utf8(v@).len() - (i + 1))),
        !(0 < i <= 4) ==> r@ == decode_utf8(group3(encode_utf8(v@))),
{
    if i > 0 && i <= 4 {
        let tail: usize = (i + 1) as usize;
        san_split(v, tail)
    } else {
        san(v)
    }
}

/// `s` with its commas taken out.
pub open spec fn strip_commas(s: Seq<u8>) -> Seq<u8>
    decreases s.len(),
{
    if s.len() == 0 {
        s
    } else if s.last() == COMMA {
        strip_commas(s.drop_last())
    } else {
        strip_commas(s.drop_last()).push(s.last())
    }
}

/// Taking out commas works piece by piece.
proof fn lemma_strip_commas_add(a: Seq<u8>, b: Seq<u8>)
    ensures
        strip_commas(a + b) == strip_commas(a) + strip_commas(b),
    decreases b.len(),
{
    if b.len() == 0 {
        assert(a + b =~= a);
        assert(strip_commas(a) + strip_commas(b) =~= strip_commas(a));
    } else {
        lemma_strip_commas_add(a, b.drop_last());
        assert((a + b).drop_last() =~= a + b.drop_last());
        assert((a + b).last() == b.last());
        if b.last() != COMMA {
            assert(strip_commas(a) + strip_commas(b.drop_last()).push(b.last())
                =~= (strip_commas(a) + strip_commas(b.drop_last())).push(b.last()));
        }
    }
}

/// A text without commas has none to take out.
proof fn lemma_strip_commas_none(s: Seq<u8>)
    requires
        forall|k: int| 0 <= k < s.len() ==> s[k] != COMMA,
    ensures
        strip_commas(s) == s,
    decreases s.len(),
{
    if s.len() > 0 {
        lemma_strip_commas_none(s.drop_last());
        assert(s.drop_last().push(s.last()) =~= s);
    }
}

/// Taking the commas out of a text with thousands separators gives back the
/// text, where it held no comma itself.
pub proof fn lemma_group3_strips_back(b: Seq<u8>)
    requires
        forall|k: int| 0 <= k < b.len() ==> b[k] != COMMA,
    ensures
        strip_commas(group3(b)) == b,
    decreases b.len(),
{
    if b.len() <= 3 {
        lemma_strip_commas_none(b);
    } else {
        let front = b.take(b.len() - 3);
        let back = b.skip(b.len() - 3);
        lemma_group3_strips_back(front);
        lemma_strip_commas_add(group3(front) + seq![COMMA], back);
        lemma_strip_commas_add(group3(front), seq![COMMA]);
        lemma_strip_commas_none(back);
        let c = seq![COMMA];
        assert(c.len() == 1 && c.last() == COMMA);
        assert(c.drop_last() =~= Seq::<u8>::empty());
        assert(strip_commas(c.drop_last()) =~= Seq::<u8>::empty());
        assert(strip_commas(c) =~= Seq::<u8>::empty());
        assert(front + back =~= b);
    }
}


/// Grouping adds one comma for each full group of three bytes before the
/// last group, and the commas stand every fourth byte from the right: the
/// byte `4 * (j + 1)` places from the end is a comma for each such group.
pub proof fn lemma_group3_shape(b: Seq<u8>)
    requires
        b.len() >= 1,
    ensures
        group3(b).len() == b.len() + (b.len() - 1) / 3,
        forall|j: int| 0 <= j < (b.len() - 1) / 3 ==> #[trigger] group3(b)[group3(b).len() - 4 * (j + 1)] == COMMA,
    decreases b.len(),
{
    if b.len() > 3 {
        let front = b.take(b.len() - 3);
        let back = b.skip(b.len() - 3);
        lemma_group3_shape(front);
        let g = group3(front);
        let r = group3(b);
        assert(r == g + seq![COMMA] + back);
        assert((b.len() - 1) / 3 == (front.len() - 1) / 3 + 1);
        assert forall|j: int| 0 <= j < (b.len() - 1) / 3 implies #[trigger] r[r.len() - 4 * (j + 1)] == COMMA by {
            if j == 0 {
                assert(r[r.len() - 4] == r[g.len() as int]);
            } else {
                let j1 = j - 1;
                assert(r.len() - 4 * (j + 1) == g.len() - 4 * (j1 + 1));
                assert(g[g.len() - 4 * (j1 + 1)] == COMMA);
                assert(r[g.len() - 4 * (j1 + 1)] == g[g.len() - 4 * (j1 + 1)]);
            }
        }
    }
}

} // verus!
