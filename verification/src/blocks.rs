//! The block-cipher unwrapper: AES-128 in ECB mode followed by PKCS#7
//! padding removal.  Both encrypted container blocks (the per-file key block
//! and the metadata block) go through `decrypt` with their fixed master key.

use vstd::prelude::*;
use cipher::BlockDecrypt;
use cipher::KeyInit;
use crate::DumpError;

verus! {

/// What AES-128 decryption of one 16-byte block yields.  The result is a
/// function of the key bytes and the block bytes alone.
pub uninterp spec fn aes128_block_plain(key: Seq<u8>, block: Seq<u8>) -> Seq<u8>;

/// Relies on `aes::Aes128` with `cipher::BlockDecrypt::decrypt_block`:
/// decrypting one 16-byte block under a 16-byte key yields 16 bytes that
/// depend on the key and block bytes alone.
#[verifier::external_body]
fn aes128_decrypt_block(key: &[u8], block: &[u8]) -> (r: Vec<u8>)
    requires
        key@.len() == 16,
        block@.len() == 16,
    ensures
        r@ == aes128_block_plain(key@, block@),
        r@.len() == 16,
{
    let c = aes::Aes128::new(cipher::generic_array::GenericArray::from_slice(key));
    let mut b = cipher::generic_array::GenericArray::<u8, cipher::consts::U16>::clone_from_slice(
        block,
    );
    c.decrypt_block(&mut b);
    b.as_slice().to_vec()
}

/// ECB decryption of a whole buffer: each 16-byte block decrypted
/// independently, in order.  Trailing bytes short of a block are dropped;
/// `decrypt` only applies this to buffers that are a multiple of 16.
pub open spec fn ecb_decrypt(key: Seq<u8>, data: Seq<u8>) -> Seq<u8>
    decreases data.len(),
{
    if data.len() < 16 {
        Seq::empty()
    } else {
        aes128_block_plain(key, data.take(16)) + ecb_decrypt(key, data.skip(16))
    }
}

/// PKCS#7 padding removal: the last byte names the padding length `n`,
/// which must be between 1 and 16 and covered by `n` copies of itself.
pub open spec fn pkcs7_unpad(s: Seq<u8>) -> Option<Seq<u8>> {
    if s.len() == 0 {
        None
    } else {
        let n = s[s.len() - 1] as int;
        if 1 <= n && n <= 16 && n <= s.len()
            && (forall|k: int| s.len() - n <= k < s.len() ==> #[trigger] s[k] == s[s.len() - 1]) {
            Some(s.take(s.len() - n))
        } else {
            None
        }
    }
}

/// The whole unwrap operation on an encrypted block: the buffer must be a
/// non-empty multiple of the 16-byte block size, and the decrypted bytes
/// must end in valid PKCS#7 padding; anything else is `InvalidPadding`.
pub open spec fn spec_unwrap(data: Seq<u8>, key: Seq<u8>) -> Result<Seq<u8>, DumpError> {
    if data.len() == 0 || data.len() % 16 != 0 {
        Err(DumpError::InvalidPadding)
    } else {
        match pkcs7_unpad(ecb_decrypt(key, data)) {
            Some(p) => Ok(p),
            None => Err(DumpError::InvalidPadding),
        }
    }
}

/// Lift a decrypt result to its mathematical value.
pub open spec fn bytes_result_view(r: Result<Vec<u8>, DumpError>) -> Result<Seq<u8>, DumpError> {
    match r {
        Ok(v) => Ok(v@),
        Err(e) => Err(e),
    }
}

/// Decrypt a whole encrypted block under a 16-byte master key and strip the
/// PKCS#7 padding.  Fails with `InvalidPadding` when the input is empty or
/// not a multiple of the block size, or when the padding is malformed.
#[verifier::loop_isolation(false)]
pub fn decrypt(data: &[u8], key: &[u8]) -> (r: Result<Vec<u8>, DumpError>)
    requires
        key@.len() == 16,
    ensures
        bytes_result_view(r) == spec_unwrap(data@, key@),
{
    let n = data.len();
    if n == 0 || n % 16 != 0 {
        return Err(DumpError::InvalidPadding);
    }
    let mut out: Vec<u8> = Vec::new();
    let mut pos: usize = 0;
    proof {
        assert(data@.skip(0) =~= data@);
        assert(Seq::<u8>::empty() + ecb_decrypt(key@, data@) =~= ecb_decrypt(key@, data@));
    }
    while pos < n
        invariant
            n == data@.len(),
            n % 16 == 0,
            pos % 16 == 0,
            pos <= n,
            out@.len() == pos,
            out@ + ecb_decrypt(key@, data@.skip(pos as int)) == ecb_decrypt(key@, data@),
        decreases n - pos,
    {
        proof {
            assert((n - pos) % 16 == 0) by (nonlinear_arith)
                requires
                    n % 16 == 0,
                    pos % 16 == 0,
            ;
        }
        let blk = aes128_decrypt_block(key, &data[pos..pos + 16]);
        let ghost rest = data@.skip(pos as int);
        proof {
            assert(rest.take(16) =~= data@.subrange(pos as int, pos as int + 16));
            assert(rest.skip(16) =~= data@.skip(pos as int + 16));
            assert(ecb_decrypt(key@, rest)
                == aes128_block_plain(key@, rest.take(16)) + ecb_decrypt(key@, rest.skip(16)));
        }
        let ghost out0 = out@;
        let mut k: usize = 0;
        while k < blk.len()
            invariant
                blk@.len() == 16,
                k <= 16,
                out@.len() == out0.len() + k,
                out@ == out0 + blk@.take(k as int),
            decreases blk@.len() - k,
        {
            out.push(blk[k]);
            proof {
                assert(out@ =~= out0 + blk@.take(k + 1));
            }
            k = k + 1;
        }
        proof {
            assert(blk@.take(16) =~= blk@);
            assert(out@ + ecb_decrypt(key@, data@.skip(pos + 16))
                =~= out0 + ecb_decrypt(key@, rest));
        }
        pos = pos + 16;
    }
    proof {
        assert(data@.skip(n as int) =~= Seq::<u8>::empty());
        assert(out@ + Seq::<u8>::empty() =~= out@);
    }
    // out now holds the raw ECB decryption; strip the PKCS#7 padding.
    let plain_len = out.len();
    let last = out[plain_len - 1];
    if last == 0 || last > 16 {
        return Err(DumpError::InvalidPadding);
    }
    let pad = last as usize;
    let keep = plain_len - pad;
    let mut k: usize = keep;
    while k < plain_len
        invariant
            out@.len() == plain_len,
            keep <= k <= plain_len,
            plain_len >= 1,
            last == out@[plain_len - 1],
            forall|j: int| keep <= j < k ==> out@[j] == last,
        decreases plain_len - k,
    {
        if out[k] != last {
            return Err(DumpError::InvalidPadding);
        }
        k = k + 1;
    }
    let mut res: Vec<u8> = Vec::new();
    let mut k: usize = 0;
    while k < keep
        invariant
            out@.len() == plain_len,
            keep <= plain_len,
            k <= keep,
            res@.len() == k,
            forall|j: int| 0 <= j < k ==> res@[j] == out@[j],
        decreases keep - k,
    {
        res.push(out[k]);
        k = k + 1;
    }
    proof {
        assert(res@ =~= out@.take(keep as int));
        assert(pkcs7_unpad(out@) == Some(res@));
    }
    Ok(res)
}

} // verus!
