//! Decoding raw little-endian byte buffers into 32-bit scalar words.
//!
//! The container stores every tensor as a flat byte buffer.  Each
//! scalar occupies four consecutive bytes, least significant first;
//! a buffer decodes to one word per 4-byte group.

use vstd::prelude::*;
use vstd::bytes::lemma_auto_spec_u32_to_from_le_bytes;
use vstd::bytes::spec_u32_from_le_bytes;
use vstd::bytes::spec_u32_to_le_bytes;
use vstd::bytes::u32_from_le_bytes;
use vstd::slice::slice_subrange;
use crate::error::LoadError;
use crate::tensor::shape_product;
use crate::tensor::Tensor;

verus! {

/// The words stored in `b`: each consecutive 4-byte group read as a
/// little-endian 32-bit value.
pub open spec fn le_words(b: Seq<u8>) -> Seq<u32> {
    Seq::new(b.len() / 4, |i: int| spec_u32_from_le_bytes(b.subrange(4 * i, 4 * i + 4)))
}

/// The little-endian byte encoding of a word sequence, in order: four
/// bytes per word, least significant first.
pub open spec fn le_bytes_of(w: Seq<u32>) -> Seq<u8>
    decreases w.len(),
{
    if w.len() == 0 {
        Seq::empty()
    } else {
        spec_u32_to_le_bytes(w.first()) + le_bytes_of(w.drop_first())
    }
}

/// Law: decoding the little-endian encoding of any word sequence gives
/// back exactly the original sequence.
pub proof fn lemma_le_round_trip(w: Seq<u32>)
    ensures
        le_bytes_of(w).len() == 4 * w.len(),
        le_words(le_bytes_of(w)) == w,
    decreases w.len(),
{
    lemma_auto_spec_u32_to_from_le_bytes();
    if w.len() == 0 {
        assert(le_words(le_bytes_of(w)) =~= w);
    } else {
        lemma_le_round_trip(w.drop_first());
        let head = spec_u32_to_le_bytes(w.first());
        let tail = le_bytes_of(w.drop_first());
        assert forall|i: int| 0 <= i < w.len() implies le_words(head + tail)[i] == w[i] by {
            if i == 0 {
                assert((head + tail).subrange(0, 4) =~= head);
            } else {
                assert((head + tail).subrange(4 * i, 4 * i + 4) =~= tail.subrange(
                    4 * (i - 1),
                    4 * (i - 1) + 4,
                ));
                assert(le_words(tail)[i - 1] == w.drop_first()[i - 1]);
            }
        }
        assert(le_words(le_bytes_of(w)) =~= w);
    }
}

/// Whether a raw entry can be decoded against its declared shape: the
/// byte length is a whole number of 4-byte scalars, and the word count
/// equals the element count the shape calls for.
pub open spec fn entry_fits(bytes: Seq<u8>, shape: Seq<usize>) -> bool {
    &&& bytes.len() % 4 == 0
    &&& bytes.len() / 4 == shape_product(shape)
}

/// Reads every consecutive 4-byte group of `bytes` as a little-endian
/// 32-bit word.
fn words_from_le(bytes: &Vec<u8>) -> (w: Vec<u32>)
    requires
        bytes@.len() % 4 == 0,
    ensures
        w@ == le_words(bytes@),
{
    let len: usize = bytes.len();
    let n: usize = len / 4;
    proof {
        assert(4 * (n as int) == bytes@.len());
    }
    let mut w: Vec<u32> = Vec::new();
    let mut k: usize = 0;
    while k < n
        invariant
            k <= n,
            n == bytes@.len() / 4,
            4 * (n as int) == bytes@.len(),
            bytes@.len() <= usize::MAX,
            w@ == le_words(bytes@).take(k as int),
        decreases n - k,
    {
        let chunk = slice_subrange(bytes.as_slice(), 4 * k, 4 * k + 4);
        let word = u32_from_le_bytes(chunk);
        w.push(word);
        k += 1;
        proof {
            assert(w@ =~= le_words(bytes@).take(k as int));
        }
    }
    proof {
        assert(le_words(bytes@).take(n as int) =~= le_words(bytes@));
    }
    w
}

/// A zero anywhere in a shape makes its whole product zero.
proof fn lemma_shape_product_zero(s: Seq<usize>, i: int)
    requires
        0 <= i < s.len(),
        s[i] == 0,
    ensures
        shape_product(s) == 0,
    decreases s.len(),
{
    assert(shape_product(s) == shape_product(s.drop_last()) * (s.last() as nat));
    if i == s.len() - 1 {
        assert(s.last() == 0);
    } else {
        assert(s.drop_last()[i] == s[i]);
        lemma_shape_product_zero(s.drop_last(), i);
    }
}

/// With no zero dimension past a prefix, the whole product is at least
/// the prefix's product.
proof fn lemma_shape_product_prefix(s: Seq<usize>, i: int)
    requires
        0 <= i <= s.len(),
        forall|j: int| i <= j < s.len() ==> s[j] >= 1,
    ensures
        shape_product(s) >= shape_product(s.take(i)),
    decreases s.len() - i,
{
    if i == s.len() {
        assert(s.take(i) =~= s);
    } else {
        lemma_shape_product_prefix(s, i + 1);
        assert(s.take(i + 1).drop_last() =~= s.take(i));
        assert(s.take(i + 1).last() == s[i]);
        let a = shape_product(s.take(i));
        assert(shape_product(s.take(i + 1)) == a * (s[i] as nat));
        assert(a * (s[i] as nat) >= a) by (nonlinear_arith)
            requires
                s[i] >= 1,
                a >= 0,
        ;
    }
}

/// The number of elements a shape describes, when it fits in `usize`.
fn shape_elements(shape: &Vec<usize>) -> (r: Option<usize>)
    ensures
        r matches Some(p) ==> p == shape_product(shape@),
        r is None ==> shape_product(shape@) > usize::MAX,
{
    let n = shape.len();
    let mut k: usize = 0;
    while k < n
        invariant
            k <= n,
            n == shape@.len(),
            forall|j: int| 0 <= j < k ==> shape@[j] >= 1,
        decreases n - k,
    {
        if shape[k] == 0 {
            proof {
                lemma_shape_product_zero(shape@, k as int);
            }
            return Some(0);
        }
        k += 1;
    }
    let mut p: usize = 1;
    k = 0;
    while k < n
        invariant
            k <= n,
            n == shape@.len(),
            forall|j: int| 0 <= j < n ==> shape@[j] >= 1,
            p == shape_product(shape@.take(k as int)),
        decreases n - k,
    {
        proof {
            assert(shape@.take(k as int + 1).drop_last() =~= shape@.take(k as int));
        }
        match p.checked_mul(shape[k]) {
            Some(q) => {
                p = q;
            },
            None => {
                proof {
                    lemma_shape_product_prefix(shape@, k as int + 1);
                }
                return None;
            },
        }
        k += 1;
    }
    proof {
        assert(shape@.take(n as int) =~= shape@);
    }
    Some(p)
}

/// Decodes one named container entry: interprets the raw bytes as
/// consecutive little-endian 32-bit scalars and wraps them, with the
/// declared shape, into a tensor.  Fails with `MalformedTensor` naming
/// the entry exactly when the bytes do not fit the shape.
pub fn decode_entry(name: &str, bytes: Vec<u8>, shape: Vec<usize>) -> (r: Result<
    Tensor<u32>,
    LoadError,
>)
    ensures
        r is Ok <==> entry_fits(bytes@, shape@),
        r matches Ok(t) ==> {
            &&& t.data@ == le_words(bytes@)
            &&& t.shape@ == shape@
            &&& t.well_formed()
        },
        r matches Err(e) ==> e matches LoadError::MalformedTensor(n) && n@ == name@,
{
    if bytes.len() % 4 != 0 {
        return Err(LoadError::MalformedTensor(name.to_owned()));
    }
    let count = bytes.len() / 4;
    match shape_elements(&shape) {
        Some(p) => {
            if p == count {
                let data = words_from_le(&bytes);
                Ok(Tensor::new(data, shape))
            } else {
                Err(LoadError::MalformedTensor(name.to_owned()))
            }
        },
        None => Err(LoadError::MalformedTensor(name.to_owned())),
    }
}

} // verus!
