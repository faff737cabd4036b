//! Fixed little-endian layouts of the results handed across the boundary.
use vstd::prelude::*;

verus! {

/// The `k` low bytes of `n`, least significant first.
pub open spec fn le_bytes(n: nat, k: nat) -> Seq<u8>
    decreases k,
{
    if k == 0 {
        Seq::empty()
    } else {
        seq![(n % 256) as u8] + le_bytes(n / 256, (k - 1) as nat)
    }
}

/// Eight little-endian bytes for each key, in order.
pub open spec fn keys_body(keys: Seq<u64>) -> Seq<u8>
    decreases keys.len(),
{
    if keys.len() == 0 {
        Seq::empty()
    } else {
        keys_body(keys.drop_last()) + le_bytes(keys.last() as nat, 8)
    }
}

/// A key list: a 4-byte count, then each key as 8 bytes.
pub open spec fn key_list_bytes(keys: Seq<u64>) -> Seq<u8> {
    le_bytes(keys.len(), 4) + keys_body(keys)
}

/// The 32 bytes of each pubkey, in order.
pub open spec fn pubkeys_body(pks: Seq<[u8; 32]>) -> Seq<u8>
    decreases pks.len(),
{
    if pks.len() == 0 {
        Seq::empty()
    } else {
        pubkeys_body(pks.drop_last()) + pks.last()@
    }
}

/// A pubkey list: a 4-byte count, then each pubkey as a 32-byte block.
pub open spec fn pubkey_list_bytes(pks: Seq<[u8; 32]>) -> Seq<u8> {
    le_bytes(pks.len(), 4) + pubkeys_body(pks)
}

/// Appends the `k` low bytes of `n`, least significant first.
fn push_le(out: &mut Vec<u8>, n: u64, k: usize)
    requires
        k <= 8,
    ensures
        final(out)@ == old(out)@ + le_bytes(n as nat, k as nat),
{
    let mut v: u64 = n;
    let mut i: usize = 0;
    while i < k
        invariant
            i <= k,
            old(out)@ + le_bytes(n as nat, k as nat) == out@ + le_bytes(v as nat, (k - i) as nat),
        decreases k - i,
    {
        let ghost before = out@;
        out.push((v % 256) as u8);
        proof {
            assert(le_bytes(v as nat, (k - i) as nat) == seq![(v % 256) as u8] + le_bytes(
                (v / 256) as nat,
                (k - i - 1) as nat,
            ));
            assert(out@ == before + seq![(v % 256) as u8]);
            assert(before + le_bytes(v as nat, (k - i) as nat) =~= out@ + le_bytes(
                (v / 256) as nat,
                (k - i - 1) as nat,
            ));
        }
        v = v / 256;
        i = i + 1;
    }
    proof {
        assert(le_bytes(v as nat, 0) =~= Seq::<u8>::empty());
        assert(out@ + Seq::<u8>::empty() =~= out@);
    }
}

/// Encodes note keys as a key list: a 4-byte little-endian count followed by
/// each key as 8 little-endian bytes.
pub fn encode_key_list(keys: &Vec<u64>) -> (r: Vec<u8>)
    requires
        keys@.len() <= u32::MAX,
    ensures
        r@ == key_list_bytes(keys@),
{
    let mut out: Vec<u8> = Vec::new();
    push_le(&mut out, keys.len() as u64, 4);
    let mut i: usize = 0;
    while i < keys.len()
        invariant
            i <= keys@.len(),
            out@ == le_bytes(keys@.len(), 4) + keys_body(keys@.subrange(0, i as int)),
        decreases keys@.len() - i,
    {
        let ghost before = out@;
        push_le(&mut out, keys[i], 8);
        proof {
            let s = keys@.subrange(0, i + 1);
            assert(s.drop_last() =~= keys@.subrange(0, i as int));
            assert(s.last() == keys@[i as int]);
            assert(out@ =~= le_bytes(keys@.len(), 4) + keys_body(s));
        }
        i = i + 1;
    }
    assert(keys@.subrange(0, keys@.len() as int) =~= keys@);
    out
}

/// Encodes pubkeys as a pubkey list: a 4-byte little-endian count followed by
/// each pubkey's 32 bytes.
pub fn encode_pubkey_list(pks: &Vec<[u8; 32]>) -> (r: Vec<u8>)
    requires
        pks@.len() <= u32::MAX,
    ensures
        r@ == pubkey_list_bytes(pks@),
{
    let mut out: Vec<u8> = Vec::new();
    push_le(&mut out, pks.len() as u64, 4);
    let mut i: usize = 0;
    while i < pks.len()
        invariant
            i <= pks@.len(),
            out@ == le_bytes(pks@.len(), 4) + pubkeys_body(pks@.subrange(0, i as int)),
        decreases pks@.len() - i,
    {
        let ghost before = out@;
        let pk: &[u8; 32] = &pks[i];
        let mut j: usize = 0;
        while j < 32
            invariant
                j <= 32,
                *pk == pks@[i as int],
                out@ == before + pk@.subrange(0, j as int),
            decreases 32 - j,
        {
            out.push(pk[j]);
            proof {
                assert(pk@.subrange(0, j + 1) =~= pk@.subrange(0, j as int) + seq![pk@[j as int]]);
            }
            j = j + 1;
        }
        proof {
            let s = pks@.subrange(0, i + 1);
            assert(s.drop_last() =~= pks@.subrange(0, i as int));
            assert(s.last() == pks@[i as int]);
            assert(pk@.subrange(0, 32) =~= pk@);
            assert(out@ =~= le_bytes(pks@.len(), 4) + pubkeys_body(s));
        }
        i = i + 1;
    }
    assert(pks@.subrange(0, pks@.len() as int) =~= pks@);
    out
}

} // verus!
