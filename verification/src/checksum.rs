//! The Internet checksum (RFC 1071): the one's-complement sum of the 16-bit
//! big-endian words of a buffer, with end-around carry, bit-inverted.
//!
//! A buffer of odd length contributes a final word whose high-order byte is
//! the lone trailing byte and whose low-order byte is zero.

use vstd::arithmetic::div_mod::{
    lemma_add_mod_noop, lemma_mod_add_multiples_vanish, lemma_small_mod, lemma_sub_mod_noop,
};
use vstd::prelude::*;

verus! {

/// One's-complement addition of two 16-bit quantities: the 17th-bit carry of
/// an overflowing sum is folded back into the low end.
pub open spec fn oc_add(a: int, b: int) -> int {
    if a + b < 0x10000 {
        a + b
    } else {
        a + b - 0xFFFF
    }
}

/// How many 16-bit words a buffer of `len` bytes holds, the zero-padded
/// trailing word of an odd-length buffer included.
pub open spec fn word_count(len: nat) -> nat {
    ((len + 1) / 2) as nat
}

/// The `i`-th 16-bit word of the buffer, most-significant byte first.
pub open spec fn word_at(data: Seq<u8>, i: int) -> int {
    if 2 * i + 1 < data.len() {
        data[2 * i] * 256 + data[2 * i + 1]
    } else {
        data[2 * i] * 256
    }
}

/// The buffer read as a sequence of 16-bit words.
pub open spec fn words(data: Seq<u8>) -> Seq<int> {
    Seq::new(word_count(data.len()), |i: int| word_at(data, i))
}

/// Left-to-right one's-complement sum of a sequence of words.
pub open spec fn oc_fold(ws: Seq<int>) -> int
    decreases ws.len(),
{
    if ws.len() == 0 {
        0
    } else {
        oc_add(oc_fold(ws.drop_last()), ws.last())
    }
}

/// Plain (unbounded) sum of a sequence of words.
pub open spec fn int_sum(ws: Seq<int>) -> int
    decreases ws.len(),
{
    if ws.len() == 0 {
        0
    } else {
        int_sum(ws.drop_last()) + ws.last()
    }
}

/// Every word of the sequence fits in 16 bits.
pub open spec fn all_words_bounded(ws: Seq<int>) -> bool {
    forall|i: int| 0 <= i < ws.len() ==> 0 <= #[trigger] ws[i] <= 0xFFFF
}

/// The Internet checksum of a buffer: the one's-complement word sum,
/// bit-inverted.
pub open spec fn checksum_spec(data: Seq<u8>) -> int {
    0xFFFF - oc_fold(words(data))
}

/// A received buffer is checksum-valid iff the checksum computed over it,
/// transmitted checksum field included, is 0x0000 or 0xFFFF: both mean that
/// the embedded field cancels the one's-complement sum.
pub open spec fn valid_checksum(data: Seq<u8>) -> bool {
    checksum_spec(data) == 0 || checksum_spec(data) == 0xFFFF
}

/// The words of any buffer fit in 16 bits.
pub proof fn lemma_words_bounded(data: Seq<u8>)
    ensures
        all_words_bounded(words(data)),
{
    assert forall|i: int| 0 <= i < words(data).len() implies 0 <= #[trigger] words(data)[i]
        <= 0xFFFF by {
        assert(words(data)[i] == word_at(data, i));
    }
}

/// The one's-complement sum of bounded words fits in 16 bits.
pub proof fn lemma_oc_fold_bounded(ws: Seq<int>)
    requires
        all_words_bounded(ws),
    ensures
        0 <= oc_fold(ws) <= 0xFFFF,
    decreases ws.len(),
{
    if ws.len() > 0 {
        assert(all_words_bounded(ws.drop_last()));
        lemma_oc_fold_bounded(ws.drop_last());
    }
}

/// The one's-complement sum agrees with the plain sum modulo 0xFFFF.
pub proof fn lemma_oc_fold_congruent(ws: Seq<int>)
    requires
        all_words_bounded(ws),
    ensures
        oc_fold(ws) % 0xFFFF == int_sum(ws) % 0xFFFF,
    decreases ws.len(),
{
    if ws.len() > 0 {
        let dl = ws.drop_last();
        let w = ws.last();
        assert(all_words_bounded(dl));
        lemma_oc_fold_congruent(dl);
        let f = oc_fold(dl);
        let s = int_sum(dl);
        lemma_add_mod_noop(f, w, 0xFFFF);
        lemma_add_mod_noop(s, w, 0xFFFF);
        assert((f + w) % 0xFFFF == (s + w) % 0xFFFF);
        if f + w >= 0x10000 {
            lemma_mod_add_multiples_vanish(f + w - 0xFFFF, 0xFFFF);
            assert(oc_add(f, w) % 0xFFFF == (f + w) % 0xFFFF);
        }
    }
}

/// Replacing one word changes the plain sum by the difference.
pub proof fn lemma_int_sum_update(ws: Seq<int>, i: int, v: int)
    requires
        0 <= i < ws.len(),
    ensures
        int_sum(ws.update(i, v)) == int_sum(ws) - ws[i] + v,
    decreases ws.len(),
{
    if i == ws.len() - 1 {
        assert(ws.update(i, v).drop_last() =~= ws.drop_last());
    } else {
        assert(ws.update(i, v).drop_last() =~= ws.drop_last().update(i, v));
        lemma_int_sum_update(ws.drop_last(), i, v);
    }
}

/// One's-complement addition of two 16-bit values.
fn oc_add16(a: u16, b: u16) -> (r: u16)
    ensures
        r == oc_add(a as int, b as int),
{
    let s: u32 = a as u32 + b as u32;
    if s < 0x10000 {
        s as u16
    } else {
        (s - 0xFFFF) as u16
    }
}

/// Computes the Internet checksum of a buffer.
pub fn checksum(data: &[u8]) -> (r: u16)
    ensures
        r == checksum_spec(data@),
{
    let ghost ws = words(data@);
    proof {
        lemma_words_bounded(data@);
    }
    let len = data.len();
    let full: usize = len / 2;
    let mut acc: u16 = 0;
    let mut i: usize = 0;
    proof {
        assert(ws.take(0) =~= Seq::<int>::empty());
        vstd::arithmetic::div_mod::lemma_fundamental_div_mod(len as int, 2);
    }
    while i < full
        invariant
            i <= full,
            full == data@.len() / 2,
            2 * full <= data@.len(),
            data@.len() <= usize::MAX,
            ws == words(data@),
            all_words_bounded(ws),
            i <= ws.len(),
            acc == oc_fold(ws.take(i as int)),
        decreases full - i,
    {
        proof {
            assert(2 * i + 2 <= data@.len());
        }
        let pair = vstd::slice::slice_subrange(data, 2 * i, 2 * i + 2);
        let w = crate::num_serialize::be_to_u16(pair);
        proof {
            assert(ws[i as int] == word_at(data@, i as int));
            assert(w == ws[i as int]);
            assert(all_words_bounded(ws.take(i as int)));
            lemma_oc_fold_bounded(ws.take(i as int));
            assert(ws.take(i + 1).drop_last() =~= ws.take(i as int));
            assert(ws.take(i + 1).last() == ws[i as int]);
        }
        acc = oc_add16(acc, w);
        i = i + 1;
    }
    if len % 2 == 1 {
        let b = *vstd::slice::slice_index_get(data, len - 1);
        proof {
            assert(2 * full == len - 1);
            assert(ws[full as int] == word_at(data@, full as int));
            assert(ws[full as int] == b * 256);
            assert(all_words_bounded(ws.take(full as int)));
            lemma_oc_fold_bounded(ws.take(full as int));
            assert(ws.take(full + 1).drop_last() =~= ws.take(full as int));
            assert(ws.take(full + 1).last() == ws[full as int]);
        }
        acc = oc_add16(acc, (b as u16) * 256);
        proof {
            assert(ws.take(full + 1) =~= ws);
        }
    } else {
        proof {
            assert(ws.take(full as int) =~= ws);
        }
    }
    0xFFFF - acc
}

/// Embedding the checksum of a buffer (computed with the checksum field held
/// at zero) into bytes 2 and 3, most-significant byte first, yields a buffer
/// that passes checksum validation.
pub proof fn lemma_embed_checksum_valid(data: Seq<u8>)
    requires
        data.len() >= 8,
        data[2] == 0,
        data[3] == 0,
    ensures
        ({
            let cs = checksum_spec(data);
            valid_checksum(data.update(2, (cs / 256) as u8).update(3, (cs % 256) as u8))
        }),
{
    lemma_words_bounded(data);
    lemma_oc_fold_bounded(words(data));
    lemma_oc_fold_congruent(words(data));
    let fold0 = oc_fold(words(data));
    let s0 = int_sum(words(data));
    let cs = checksum_spec(data);
    assert(0 <= cs <= 0xFFFF);
    let hi = (cs / 256) as u8;
    let lo = (cs % 256) as u8;
    let out = data.update(2, hi).update(3, lo);
    assert(hi == cs / 256 && lo == cs % 256);
    assert(hi * 256 + lo == cs) by {
        vstd::arithmetic::div_mod::lemma_fundamental_div_mod(cs, 256);
    }
    assert(words(out) =~= words(data).update(1, cs)) by {
        assert forall|k: int| 0 <= k < words(out).len() implies words(out)[k] == words(
            data,
        ).update(1, cs)[k] by {
            if k == 1 {
                assert(word_at(out, 1) == out[2] * 256 + out[3]);
            } else {
                assert(out[2 * k] == data[2 * k]);
                if 2 * k + 1 < out.len() {
                    assert(out[2 * k + 1] == data[2 * k + 1]);
                }
            }
        }
    }
    assert(words(data)[1] == word_at(data, 1) == 0);
    lemma_int_sum_update(words(data), 1, cs);
    let s1 = int_sum(words(out));
    assert(s1 == s0 + cs);
    lemma_words_bounded(out);
    lemma_oc_fold_bounded(words(out));
    lemma_oc_fold_congruent(words(out));
    let fold1 = oc_fold(words(out));
    // fold1 == (s0 + 0xFFFF - fold0) mod 0xFFFF == 0 mod 0xFFFF
    lemma_small_mod(0nat, 0xFFFF as nat);
    lemma_sub_mod_noop(s0, fold0, 0xFFFF);
    assert((s0 - fold0) % 0xFFFF == 0);
    lemma_mod_add_multiples_vanish(s0 - fold0, 0xFFFF);
    assert(s0 + cs == 0xFFFF + (s0 - fold0));
    assert(s1 % 0xFFFF == 0);
    assert(fold1 % 0xFFFF == 0);
    if fold1 < 0xFFFF {
        lemma_small_mod(fold1 as nat, 0xFFFF as nat);
        assert(fold1 == 0);
    } else {
        assert(fold1 == 0xFFFF);
    }
}

/// Changing any single byte among the first eight of a checksum-valid buffer
/// leaves a buffer that fails checksum validation: a one-byte difference
/// shifts the word sum by a nonzero amount smaller than 0xFFFF.
pub proof fn lemma_byte_change_breaks_checksum(data: Seq<u8>, i: int, v: u8)
    requires
        data.len() >= 8,
        0 <= i < 8,
        v != data[i],
        valid_checksum(data),
    ensures
        !valid_checksum(data.update(i, v)),
{
    let out = data.update(i, v);
    let j = i / 2;
    assert(i == 2 * j || i == 2 * j + 1);
    let w0 = word_at(data, j);
    let w1 = word_at(out, j);
    assert(2 * j + 1 < data.len());
    let d = w1 - w0;
    if i == 2 * j {
        assert(w1 == v * 256 + out[2 * j + 1]);
        assert(w0 == data[2 * j] * 256 + data[2 * j + 1]);
        assert(out[2 * j + 1] == data[2 * j + 1]);
        assert(d == (v - data[i]) * 256);
        assert(d != 0 && -0xFFFF < d < 0xFFFF) by (nonlinear_arith)
            requires
                d == (v - data[i]) * 256,
                v != data[i],
                0 <= v < 256,
                0 <= data[i] < 256,
        ;
    } else {
        assert(w1 == out[2 * j] * 256 + v);
        assert(w0 == data[2 * j] * 256 + data[2 * j + 1]);
        assert(out[2 * j] == data[2 * j]);
        assert(d == v - data[i]);
        assert(d != 0 && -0xFFFF < d < 0xFFFF);
    }
    assert(words(out) =~= words(data).update(j, w1)) by {
        assert forall|k: int| 0 <= k < words(out).len() implies words(out)[k] == words(
            data,
        ).update(j, w1)[k] by {
            if k != j {
                assert(out[2 * k] == data[2 * k]);
                if 2 * k + 1 < out.len() {
                    assert(out[2 * k + 1] == data[2 * k + 1]);
                }
            }
        }
    }
    lemma_words_bounded(data);
    lemma_words_bounded(out);
    lemma_oc_fold_bounded(words(data));
    lemma_oc_fold_bounded(words(out));
    lemma_oc_fold_congruent(words(data));
    lemma_oc_fold_congruent(words(out));
    let fold0 = oc_fold(words(data));
    let fold1 = oc_fold(words(out));
    let s0 = int_sum(words(data));
    let s1 = int_sum(words(out));
    lemma_int_sum_update(words(data), j, w1);
    assert(words(data)[j] == w0);
    assert(s1 == s0 + d);
    // fold0 is 0 or 0xFFFF; either way it vanishes modulo 0xFFFF.
    assert(fold0 == 0 || fold0 == 0xFFFF);
    assert(fold0 % 0xFFFF == 0) by {
        lemma_small_mod(0nat, 0xFFFF as nat);
        vstd::arithmetic::div_mod::lemma_mod_self_0(0xFFFF);
    }
    assert(s0 % 0xFFFF == 0);
    // d % 0xFFFF is nonzero because 0 < |d| < 0xFFFF
    assert(d % 0xFFFF != 0) by {
        if d > 0 {
            lemma_small_mod(d as nat, 0xFFFF as nat);
        } else {
            lemma_mod_add_multiples_vanish(d, 0xFFFF);
            lemma_small_mod((0xFFFF + d) as nat, 0xFFFF as nat);
        }
    }
    assert(fold1 % 0xFFFF == d % 0xFFFF) by {
        lemma_add_mod_noop(s0, d, 0xFFFF);
        vstd::arithmetic::div_mod::lemma_mod_twice(d, 0xFFFF);
        assert(s1 % 0xFFFF == d % 0xFFFF);
    }
    assert(fold1 != 0 && fold1 != 0xFFFF) by {
        lemma_small_mod(0nat, 0xFFFF as nat);
        vstd::arithmetic::div_mod::lemma_mod_self_0(0xFFFF);
    }
}

} // verus!
