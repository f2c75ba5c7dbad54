//! The shared secret that gates access to the engine, and its constant-time
//! comparison: authentication must not leak, through timing, where the first
//! mismatching byte occurs.

use vstd::prelude::*;

verus! {

/// Opaque token compared for authentication. Held as raw bytes.
pub struct Secret {
    pub bytes: Vec<u8>,
}

impl Secret {
    pub fn new(bytes: Vec<u8>) -> (s: Secret)
        ensures
            s.bytes@ == bytes@,
    {
        Secret { bytes }
    }

    /// Whether `provided` matches this secret. Every byte of equal-length
    /// inputs is examined; there is no data-dependent early exit.
    pub fn verify(&self, provided: &[u8]) -> (r: bool)
        ensures
            r == (self.bytes@ == provided@),
    {
        constant_time_eq(self.bytes.as_slice(), provided)
    }
}

/// Byte-string equality without a data-dependent early exit: differences are
/// accumulated bitwise over the whole input, so the running time depends only
/// on the lengths, never on where the first mismatch occurs.
pub fn constant_time_eq(a: &[u8], b: &[u8]) -> (r: bool)
    ensures
        r == (a@ == b@),
{
    if a.len() != b.len() {
        return false;
    }
    let mut diff: u8 = 0;
    let mut i: usize = 0;
    while i < a.len()
        invariant
            a@.len() == b@.len(),
            i <= a@.len(),
            (diff == 0) <==> (a@.subrange(0, i as int) =~= b@.subrange(0, i as int)),
        decreases a@.len() - i,
    {
        let x: u8 = a[i] ^ b[i];
        proof {
            let ai = a@[i as int];
            let bi = b@[i as int];
            assert(((ai ^ bi) == 0) <==> ai == bi) by (bit_vector);
            assert(((diff | (ai ^ bi)) == 0) <==> (diff == 0 && (ai ^ bi) == 0)) by (bit_vector);
            assert(a@.subrange(0, (i + 1) as int) =~= a@.subrange(0, i as int).push(ai));
            assert(b@.subrange(0, (i + 1) as int) =~= b@.subrange(0, i as int).push(bi));
            if diff == 0 && ai == bi {
                assert(a@.subrange(0, (i + 1) as int) =~= b@.subrange(0, (i + 1) as int));
            }
            if a@.subrange(0, (i + 1) as int) =~= b@.subrange(0, (i + 1) as int) {
                assert(a@.subrange(0, i as int) =~= a@.subrange(0, (i + 1) as int).subrange(
                    0,
                    i as int,
                ));
                assert(b@.subrange(0, i as int) =~= b@.subrange(0, (i + 1) as int).subrange(
                    0,
                    i as int,
                ));
                assert(ai == a@.subrange(0, (i + 1) as int)[i as int]);
            }
        }
        diff = diff | x;
        i += 1;
    }
    proof {
        assert(a@.subrange(0, a@.len() as int) =~= a@);
        assert(b@.subrange(0, b@.len() as int) =~= b@);
    }
    diff == 0
}

} // verus!
