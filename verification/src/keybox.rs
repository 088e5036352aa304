//! The key-box scheduler and the payload keystream.
//!
//! `build_key_box` turns the recovered per-file key into a 256-entry
//! substitution table by an RC4-style key schedule; `decrypt_payload` strips
//! the position-dependent keystream that the table defines from the audio
//! payload.

use vstd::prelude::*;

verus! {

/// The identity table that the key schedule starts from.
pub open spec fn key_box_init() -> Seq<usize> {
    Seq::new(256, |i: int| i as usize)
}

/// One step of the key schedule: mix entry `i` with the running accumulator
/// `last` and the cyclically repeated key byte, and swap two table entries.
pub open spec fn kb_step(key: Seq<u8>, kb: Seq<usize>, last: nat, i: nat) -> (Seq<usize>, nat)
    recommends
        key.len() > 0,
        kb.len() == 256,
        i < 256,
{
    let c = ((kb[i as int] + last + key[i as int % (key.len() as int)]) % 256) as nat;
    (kb.update(i as int, kb[c as int]).update(c as int, kb[i as int]), c)
}

/// The state of the key schedule after `n` steps: the table and the
/// accumulator.
pub open spec fn kb_iter(key: Seq<u8>, n: nat) -> (Seq<usize>, nat)
    decreases n,
{
    if n == 0 {
        (key_box_init(), 0)
    } else {
        let prev = kb_iter(key, (n - 1) as nat);
        kb_step(key, prev.0, prev.1, (n - 1) as nat)
    }
}

/// The finished 256-entry table derived from a per-file key.
pub open spec fn key_box_spec(key: Seq<u8>) -> Seq<usize> {
    kb_iter(key, 256).0
}

/// Derive the 256-entry substitution table from the per-file key.
///
/// The table starts as the identity permutation of `0..256`; each step swaps
/// two entries, so the result is always a permutation of `0..256`.
pub fn build_key_box(key: &[u8]) -> (r: Vec<usize>)
    requires
        key@.len() > 0,
    ensures
        r@ == key_box_spec(key@),
        r@.len() == 256,
        forall|k: int| 0 <= k < 256 ==> r@[k] < 256,
{
    let mut kb: Vec<usize> = Vec::new();
    let mut i: usize = 0;
    while i < 256
        invariant
            i <= 256,
            kb@.len() == i,
            forall|k: int| 0 <= k < i ==> kb@[k] == k,
        decreases 256 - i,
    {
        kb.push(i);
        i = i + 1;
    }
    proof {
        assert(kb@ =~= key_box_init());
    }

    let mut last: usize = 0;
    let mut offset: usize = 0;
    let mut i: usize = 0;
    while i < 256
        invariant
            key@.len() > 0,
            i <= 256,
            offset == i as int % (key@.len() as int),
            kb@.len() == 256,
            last < 256,
            forall|k: int| 0 <= k < 256 ==> kb@[k] < 256,
            (kb@, last as nat) == kb_iter(key@, i as nat),
        decreases 256 - i,
    {
        let ghost prev_kb = kb@;
        let ghost prev_last = last as nat;
        let c = (kb[i] + last + key[offset] as usize) % 256;
        let t = kb[i];
        let u = kb[c];
        kb[i] = u;
        kb[c] = t;
        last = c;
        proof {
            assert((kb@, last as nat) == kb_step(key@, prev_kb, prev_last, i as nat));
            assert(kb_iter(key@, (i + 1) as nat) == kb_step(key@, prev_kb, prev_last, i as nat));
        }
        offset = offset + 1;
        if offset == key.len() {
            offset = 0;
        }
        proof {
            let L = key@.len() as int;
            let im = i as int % L;
            vstd::arithmetic::div_mod::lemma_add_mod_noop(i as int, 1, L);
            if L == 1 {
                vstd::arithmetic::div_mod::lemma_mod_self_0(L);
                vstd::arithmetic::div_mod::lemma_small_mod(0, 1);
            } else {
                vstd::arithmetic::div_mod::lemma_small_mod(1, L as nat);
                if im + 1 == L {
                    vstd::arithmetic::div_mod::lemma_mod_self_0(L);
                } else {
                    vstd::arithmetic::div_mod::lemma_small_mod((im + 1) as nat, L as nat);
                }
            }
            assert((i as int + 1) % L == if im + 1 == L {
                0int
            } else {
                im + 1
            });
        }
        i = i + 1;
    }
    kb
}

/// The key schedule is a pure function of the key: two runs over the same
/// per-file key give byte-identical tables.
pub proof fn lemma_key_box_deterministic(key1: Seq<u8>, key2: Seq<u8>)
    requires
        key1 == key2,
    ensures
        key_box_spec(key1) == key_box_spec(key2),
{
}

proof fn lemma_kb_iter_permutation(key: Seq<u8>, n: nat)
    requires
        key.len() > 0,
        n <= 256,
    ensures
        kb_iter(key, n).0.len() == 256,
        kb_iter(key, n).1 < 256,
        forall|k: int| 0 <= k < 256 ==> #[trigger] kb_iter(key, n).0[k] < 256,
        forall|v: usize| v < 256 ==> #[trigger] kb_iter(key, n).0.contains(v),
    decreases n,
{
    if n == 0 {
        assert forall|v: usize| v < 256 implies #[trigger] key_box_init().contains(v) by {
            assert(key_box_init()[v as int] == v);
        }
    } else {
        lemma_kb_iter_permutation(key, (n - 1) as nat);
        let prev = kb_iter(key, (n - 1) as nat);
        let s = prev.0;
        let i = (n - 1) as nat;
        let c = ((s[i as int] + prev.1 + key[i as int % (key.len() as int)]) % 256) as nat;
        let s2 = s.update(i as int, s[c as int]).update(c as int, s[i as int]);
        assert(kb_iter(key, n).0 == s2);
        assert forall|v: usize| v < 256 implies #[trigger] s2.contains(v) by {
            assert(s.contains(v));
            let k = choose|k: int| 0 <= k < s.len() && s[k] == v;
            if k == c as int {
                assert(s2[i as int] == v);
            } else if k == i as int {
                assert(s2[c as int] == v);
            } else {
                assert(s2[k] == v);
            }
        }
    }
}

/// The finished key box is a permutation of `0..256`: it has exactly 256
/// entries, every entry is below 256, and every value below 256 occurs.
pub proof fn lemma_key_box_permutation(key: Seq<u8>)
    requires
        key.len() > 0,
    ensures
        key_box_spec(key).len() == 256,
        forall|k: int| 0 <= k < 256 ==> #[trigger] key_box_spec(key)[k] < 256,
        forall|v: usize| v < 256 ==> #[trigger] key_box_spec(key).contains(v),
{
    lemma_kb_iter_permutation(key, 256);
}

/// The keystream byte applied at payload offset `i`.  The offset is reduced
/// modulo the 0x8000-byte chunk size before the table lookups, so the stream
/// restarts at every chunk boundary.
pub open spec fn keystream_byte(kb: Seq<usize>, i: int) -> u8
    recommends
        kb.len() == 256,
        forall|k: int| 0 <= k < 256 ==> kb[k] < 256,
{
    let idx = i % 0x8000;
    let j = (idx + 1) % 256;
    let a = kb[j];
    let b = kb[(a + j) as int % 256];
    kb[(a + b) as int % 256] as u8
}

/// The whole decrypted payload: each byte XORed with its keystream byte.
pub open spec fn xor_payload(data: Seq<u8>, kb: Seq<usize>) -> Seq<u8> {
    Seq::new(data.len(), |i: int| data[i] ^ keystream_byte(kb, i))
}

/// Strip the keystream from the audio payload.
///
/// Each input byte is XORed with a keystream byte that depends only on the
/// byte's offset within its 0x8000-byte chunk and on the key box, so the
/// output has exactly the input's length and order.
pub fn decrypt_payload(data: &[u8], key_box: &Vec<usize>) -> (r: Vec<u8>)
    requires
        key_box@.len() == 256,
        forall|k: int| 0 <= k < 256 ==> key_box@[k] < 256,
    ensures
        r@ == xor_payload(data@, key_box@),
{
    let mut out: Vec<u8> = Vec::new();
    let mut i: usize = 0;
    while i < data.len()
        invariant
            key_box@.len() == 256,
            forall|k: int| 0 <= k < 256 ==> key_box@[k] < 256,
            i <= data@.len(),
            out@.len() == i,
            forall|k: int| 0 <= k < i ==> out@[k] == data@[k] ^ keystream_byte(key_box@, k),
        decreases data@.len() - i,
    {
        let idx = i % 0x8000;
        let j = (idx + 1) % 256;
        let a = key_box[j];
        let b = key_box[(a + j) % 256];
        let k = key_box[(a + b) % 256];
        out.push(data[i] ^ (k as u8));
        i = i + 1;
    }
    proof {
        assert(out@ =~= xor_payload(data@, key_box@));
    }
    out
}

/// The keystream XOR is its own inverse: stripping the keystream twice gives
/// back the original bytes, whatever the table holds.
pub proof fn lemma_xor_payload_involution(data: Seq<u8>, kb: Seq<usize>)
    ensures
        xor_payload(xor_payload(data, kb), kb) == data,
{
    assert forall|i: int| 0 <= i < data.len() implies xor_payload(xor_payload(data, kb), kb)[i]
        == data[i] by {
        let d = data[i];
        let k = keystream_byte(kb, i);
        assert((d ^ k) ^ k == d) by (bit_vector);
    }
    assert(xor_payload(xor_payload(data, kb), kb) =~= data);
}

} // verus!
