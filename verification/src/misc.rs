//! Small helpers: fresh key and nonce material, and the big-endian
//! increment-with-carry that drives the sequence counters.

use vstd::prelude::*;
use vstd::arithmetic::div_mod::{lemma_small_mod, lemma_truncate_middle};
use vstd::arithmetic::power::pow;
use crate::codec::spec_u64_from_be;
use crate::crypto::{create_sha256, random_bytes, sha256_of};

verus! {

/// A fresh 32-byte secret from the OS random source.
pub fn generate_secret_key() -> (r: Vec<u8>)
    ensures
        r@.len() == 32,
{
    random_bytes(32)
}

/// A fresh 32-byte connection nonce: the digest of a few random bytes.
pub fn generate_nonce() -> (r: Vec<u8>)
    ensures
        r@.len() == 32,
{
    let nonce = random_bytes(4);
    create_sha256(nonce.as_slice())
}

/// Whether two byte strings hold the same bytes.
pub fn bytes_eq(a: &[u8], b: &[u8]) -> (r: bool)
    ensures
        r == (a@ == b@),
{
    if a.len() != b.len() {
        proof {
            assert(a@.len() != b@.len());
        }
        return false;
    }
    let n = a.len();
    let mut i: usize = 0;
    while i < n
        invariant
            0 <= i <= n,
            n == a@.len() && n == b@.len(),
            forall|j: int| 0 <= j < i ==> a@[j] == b@[j],
        decreases n - i,
    {
        if a[i] != b[i] {
            return false;
        }
        i = i + 1;
    }
    proof {
        assert(a@ =~= b@);
    }
    true
}

/// `s` read as a big-endian counter, incremented by one with carry; the
/// all-ones buffer wraps to all zeros.
pub open spec fn spec_inc_be(s: Seq<u8>) -> Seq<u8>
    decreases s.len(),
{
    if s.len() == 0 {
        s
    } else if s.last() != 255 {
        s.update(s.len() - 1, (s.last() + 1) as u8)
    } else {
        spec_inc_be(s.drop_last()).push(0)
    }
}

/// Increments a byte buffer in place as a big-endian counter, carrying
/// through trailing 255s.
#[verifier::loop_isolation(false)]
pub fn increase_buffer_by_one(buf: &mut Vec<u8>)
    ensures
        final(buf)@ == spec_inc_be(old(buf)@),
        final(buf)@.len() == old(buf)@.len(),
{
    proof {
        lemma_spec_inc_be_len(old(buf)@);
    }
    let ghost orig = old(buf)@;
    let mut i = buf.len();
    proof {
        assert(orig.subrange(0, orig.len() as int) =~= orig);
        assert(spec_inc_be(orig) + crate::codec::zero_bytes(0) =~= spec_inc_be(orig));
    }
    loop
        invariant
            0 <= i <= orig.len(),
            buf@.len() == orig.len(),
            buf@.subrange(0, i as int) == orig.subrange(0, i as int),
            (forall|j: int| i <= j < orig.len() ==> orig[j] == 255),
            (forall|j: int| i <= j < orig.len() ==> #[trigger] buf@[j] == 0),
            spec_inc_be(orig) == spec_inc_be(orig.subrange(0, i as int)) + crate::codec::zero_bytes(
                orig.len() - i,
            ),
        decreases i,
    {
        if i == 0 {
            break;
        }
        let b = buf[i - 1];
        assert(b == orig[i - 1]);
        proof {
            let head = orig.subrange(0, i as int);
            lemma_spec_inc_be_len(head);
            lemma_spec_inc_be_len(head.drop_last());
            assert(head.last() == orig[i - 1]);
            assert(head.drop_last() =~= orig.subrange(0, i - 1));
        }
        if b != 255 {
            buf[i - 1] = b + 1;
            proof {
                let head = orig.subrange(0, i as int);
                assert(spec_inc_be(head) == head.update(i - 1, (b + 1) as u8));
                assert(buf@ =~= spec_inc_be(head) + crate::codec::zero_bytes(orig.len() - i));
                assert(buf@ =~= spec_inc_be(orig));
            }
            break;
        } else {
            buf[i - 1] = 0;
            proof {
                let head = orig.subrange(0, i as int);
                assert(spec_inc_be(head) == spec_inc_be(head.drop_last()).push(0));
                assert(spec_inc_be(head.drop_last()) + crate::codec::zero_bytes(
                    orig.len() - (i - 1),
                ) =~= spec_inc_be(head) + crate::codec::zero_bytes(orig.len() - i));
            }
            i = i - 1;
        }
    }
    proof {
        if i == 0 {
            assert(orig.subrange(0, 0) =~= Seq::<u8>::empty());
            assert(spec_inc_be(orig.subrange(0, 0)).len() == 0);
            assert(buf@ =~= spec_inc_be(orig.subrange(0, 0)) + crate::codec::zero_bytes(
                orig.len() as int,
            ));
            assert(buf@ =~= spec_inc_be(orig));
        }
    }
}

/// The increment keeps the buffer's length.
pub proof fn lemma_spec_inc_be_len(s: Seq<u8>)
    ensures
        spec_inc_be(s).len() == s.len(),
    decreases s.len(),
{
    if s.len() > 0 && s.last() == 255 {
        lemma_spec_inc_be_len(s.drop_last());
    }
}

/// `s` read as a big-endian natural number.
pub open spec fn spec_be_val(s: Seq<u8>) -> int
    decreases s.len(),
{
    if s.len() == 0 {
        0
    } else {
        spec_be_val(s.drop_last()) * 256 + s.last()
    }
}

/// A big-endian number fits its width.
pub proof fn lemma_be_val_bound(s: Seq<u8>)
    ensures
        0 <= spec_be_val(s) < pow(256, s.len()),
    decreases s.len(),
{
    reveal(pow);
    if s.len() == 0 {
        assert(pow(256, 0) == 1);
    } else {
        let d = s.drop_last();
        lemma_be_val_bound(d);
        assert(pow(256, s.len()) == 256 * pow(256, (s.len() - 1) as nat));
        assert(spec_be_val(d) * 256 + s.last() < 256 * pow(256, (s.len() - 1) as nat))
            by (nonlinear_arith)
            requires
                0 <= spec_be_val(d) < pow(256, (s.len() - 1) as nat),
                s.last() < 256,
        ;
        assert(0 <= spec_be_val(d) * 256 + s.last()) by (nonlinear_arith)
            requires
                0 <= spec_be_val(d),
                0 <= s.last(),
        ;
    }
}

/// The increment-with-carry steps the big-endian value by exactly one,
/// wrapping at the buffer's width.
pub proof fn lemma_inc_be_adds_one(s: Seq<u8>)
    requires
        s.len() >= 1,
    ensures
        spec_be_val(spec_inc_be(s)) == (spec_be_val(s) + 1) % pow(256, s.len()),
    decreases s.len(),
{
    let n = s.len();
    reveal(pow);
    lemma_be_val_bound(s);
    assert(pow(256, n) == 256 * pow(256, (n - 1) as nat));
    if s.last() != 255 {
        let t = s.update(n - 1, (s.last() + 1) as u8);
        assert(t.drop_last() =~= s.drop_last());
        assert(spec_be_val(t) == spec_be_val(s.drop_last()) * 256 + s.last() + 1);
        assert(spec_be_val(s) + 1 < pow(256, n)) by {
            lemma_be_val_bound(s.drop_last());
            assert(spec_be_val(s.drop_last()) * 256 + s.last() + 1 < 256 * pow(
                256,
                (n - 1) as nat,
            )) by (nonlinear_arith)
                requires
                    0 <= spec_be_val(s.drop_last()) < pow(256, (n - 1) as nat),
                    s.last() < 255,
            ;
        }
        lemma_small_mod((spec_be_val(s) + 1) as nat, pow(256, n) as nat);
    } else if n == 1 {
        reveal_with_fuel(spec_inc_be, 3);
        reveal_with_fuel(spec_be_val, 3);
        assert(s.drop_last() =~= Seq::<u8>::empty());
        assert(spec_inc_be(s) == spec_inc_be(s.drop_last()).push(0));
        assert(spec_inc_be(s.drop_last()).push(0) =~= seq![0u8]);
        assert(spec_be_val(seq![0u8]) == spec_be_val(seq![0u8].drop_last()) * 256);
        assert(seq![0u8].drop_last() =~= Seq::<u8>::empty());
        assert(spec_be_val(spec_inc_be(s)) == 0);
        assert(spec_be_val(s) == 255);
        assert(pow(256, 1) == 256);
        assert((255 + 1) % 256 == 0);
    } else {
        let d = s.drop_last();
        lemma_inc_be_adds_one(d);
        lemma_spec_inc_be_len(d);
        assert(spec_inc_be(s) == spec_inc_be(d).push(0));
        assert(spec_inc_be(s).drop_last() =~= spec_inc_be(d));
        assert(spec_be_val(spec_inc_be(s)) == spec_be_val(spec_inc_be(d)) * 256);
        lemma_be_val_bound(d);
        lemma_truncate_middle(spec_be_val(d) + 1, 256, pow(256, (n - 1) as nat));
        assert(256 * (spec_be_val(d) + 1) == spec_be_val(s) + 1) by (nonlinear_arith)
            requires
                spec_be_val(s) == spec_be_val(d) * 256 + 255,
        ;
        assert((spec_be_val(s) + 1) % pow(256, n) == 256 * ((spec_be_val(d) + 1) % pow(
            256,
            (n - 1) as nat,
        ))) by {
            assert((256 * (spec_be_val(d) + 1)) % (256 * pow(256, (n - 1) as nat)) == 256 * ((
            spec_be_val(d) + 1) % pow(256, (n - 1) as nat)));
        }
        assert(spec_be_val(spec_inc_be(s)) == 256 * ((spec_be_val(d) + 1) % pow(
            256,
            (n - 1) as nat,
        ))) by (nonlinear_arith)
            requires
                spec_be_val(spec_inc_be(s)) == spec_be_val(spec_inc_be(d)) * 256,
                spec_be_val(spec_inc_be(d)) == (spec_be_val(d) + 1) % pow(256, (n - 1) as nat),
        ;
    }
}

/// An 8-byte big-endian buffer's numeric reading agrees with the codec's.
pub proof fn lemma_be_val_u64(s: Seq<u8>)
    requires
        s.len() == 8,
    ensures
        spec_be_val(s) == spec_u64_from_be(s),
{
    reveal_with_fuel(spec_be_val, 10);
    let b0 = s[0];
    let b1 = s[1];
    let b2 = s[2];
    let b3 = s[3];
    let b4 = s[4];
    let b5 = s[5];
    let b6 = s[6];
    let b7 = s[7];
    let s7 = s.drop_last();
    let s6 = s7.drop_last();
    let s5 = s6.drop_last();
    let s4 = s5.drop_last();
    let s3 = s4.drop_last();
    let s2 = s3.drop_last();
    let s1 = s2.drop_last();
    let s0 = s1.drop_last();
    assert(s0.len() == 0);
    assert(s1.last() == b0 && s2.last() == b1 && s3.last() == b2 && s4.last() == b3 && s5.last()
        == b4 && s6.last() == b5 && s7.last() == b6 && s.last() == b7);
    assert(spec_be_val(s) == (((((((b0 * 256 + b1) * 256 + b2) * 256 + b3) * 256 + b4) * 256 + b5)
        * 256 + b6) * 256 + b7));
    assert(((b0 as u64) << 56) | ((b1 as u64) << 48) | ((b2 as u64) << 40) | ((b3 as u64) << 32)
        | ((b4 as u64) << 24) | ((b5 as u64) << 16) | ((b6 as u64) << 8) | (b7 as u64) == ((b0
        as u64) * 0x100000000000000 + (b1 as u64) * 0x1000000000000 + (b2 as u64) * 0x10000000000
        + (b3 as u64) * 0x100000000 + (b4 as u64) * 0x1000000 + (b5 as u64) * 0x10000 + (b6
        as u64) * 0x100 + (b7 as u64))) by (bit_vector);
}

/// Sequence counters step by exactly one: the 8-byte big-endian
/// increment-with-carry adds one to the counter's numeric value, wrapping
/// only when every byte is 255.
pub proof fn lemma_counter_increment_adds_one(s: Seq<u8>)
    requires
        s.len() == 8,
    ensures
        spec_u64_from_be(spec_inc_be(s)) == (spec_u64_from_be(s) + 1) % 0x1_0000_0000_0000_0000,
{
    lemma_inc_be_adds_one(s);
    lemma_spec_inc_be_len(s);
    lemma_be_val_u64(s);
    lemma_be_val_u64(spec_inc_be(s));
    assert(pow(256, 8) == 0x1_0000_0000_0000_0000) by {
        reveal_with_fuel(pow, 9);
    }
}

} // verus!
