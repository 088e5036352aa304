//! The container pipeline: splitting the buffer, recovering the per-file
//! key and the metadata, and decrypting the audio payload.
//!
//! The layout of a container is: an 8-byte magic header, 2 unused bytes, a
//! length-prefixed encrypted key block, a length-prefixed encrypted metadata
//! block, 9 unused bytes, a length-prefixed cover image, and the encrypted
//! audio payload.  All length prefixes are 4-byte little-endian.

use vstd::prelude::*;
use crate::DumpError;
use crate::blocks::decrypt;
use crate::blocks::spec_unwrap;
use crate::json::MetaBytes;
use crate::json::MetaParsed;
use crate::json::pairs_bytes_view;
use crate::json::parse_meta;
use crate::json::seqs_view;
use crate::json::spec_parse_meta;
use crate::keybox::build_key_box;
use crate::keybox::decrypt_payload;
use crate::keybox::key_box_spec;
use crate::keybox::xor_payload;

verus! {

/// The structured metadata carried by a container.
#[derive(Debug, PartialEq)]
pub struct Meta {
    /// The name of the music.
    pub name: String,
    /// The id of the music.
    pub id: u64,
    /// The album artwork of the music; a URL.
    pub album: String,
    /// The artists: each entry is a name and an id.
    pub artist: Vec<(String, u64)>,
    /// The bit rate of the music.
    pub bitrate: u64,
    /// The duration of the music.
    pub duration: u64,
    /// The format of the music, such as `mp3` or `flac`.
    pub format: String,
    /// The id of the MV, if there is one.
    pub mv: Option<u64>,
    /// The aliases of the music, if any are recorded.
    pub alias: Option<Vec<String>>,
}

/// The decoded container: the recovered per-file key, the metadata, the
/// cover image bytes, and the decrypted audio payload.
#[derive(Debug, PartialEq)]
pub struct Song {
    pub key: Vec<u8>,
    pub meta: Meta,
    pub img: Vec<u8>,
    pub data: Vec<u8>,
}

/// The magic sequence `"CTENFDAM"` that every container starts with.
pub open spec fn magic_seq() -> Seq<u8> {
    seq![0x43, 0x54, 0x45, 0x4e, 0x46, 0x44, 0x41, 0x4d]
}

/// The fixed master key that unwraps the per-file key block.
pub open spec fn core_key_seq() -> Seq<u8> {
    seq![0x68, 0x7a, 0x48, 0x52, 0x41, 0x6d, 0x73, 0x6f, 0x35, 0x6b, 0x49, 0x6e, 0x62, 0x61, 0x78,
        0x57]
}

/// The fixed master key that unwraps the metadata block.
pub open spec fn meta_key_seq() -> Seq<u8> {
    seq![0x23, 0x31, 0x34, 0x6c, 0x6a, 0x6b, 0x5f, 0x21, 0x5c, 0x5d, 0x26, 0x30, 0x55, 0x3c, 0x27,
        0x28]
}

/// The master key for the per-file key block, as bytes.
pub fn core_key() -> (r: Vec<u8>)
    ensures
        r@ == core_key_seq(),
{
    let mut v: Vec<u8> = Vec::new();
    v.push(0x68);
    v.push(0x7a);
    v.push(0x48);
    v.push(0x52);
    v.push(0x41);
    v.push(0x6d);
    v.push(0x73);
    v.push(0x6f);
    v.push(0x35);
    v.push(0x6b);
    v.push(0x49);
    v.push(0x6e);
    v.push(0x62);
    v.push(0x61);
    v.push(0x78);
    v.push(0x57);
    proof {
        assert(v@ =~= core_key_seq());
    }
    v
}

/// The master key for the metadata block, as bytes.
pub fn meta_key() -> (r: Vec<u8>)
    ensures
        r@ == meta_key_seq(),
{
    let mut v: Vec<u8> = Vec::new();
    v.push(0x23);
    v.push(0x31);
    v.push(0x34);
    v.push(0x6c);
    v.push(0x6a);
    v.push(0x6b);
    v.push(0x5f);
    v.push(0x21);
    v.push(0x5c);
    v.push(0x5d);
    v.push(0x26);
    v.push(0x30);
    v.push(0x55);
    v.push(0x3c);
    v.push(0x27);
    v.push(0x28);
    proof {
        assert(v@ =~= meta_key_seq());
    }
    v
}

/// Copy the byte range `[a, b)` of a slice.
#[verifier::loop_isolation(false)]
fn sub_bytes(s: &[u8], a: usize, b: usize) -> (r: Vec<u8>)
    requires
        a <= b <= s@.len(),
    ensures
        r@ == s@.subrange(a as int, b as int),
{
    let mut out: Vec<u8> = Vec::new();
    let mut k = a;
    while k < b
        invariant
            a <= k <= b,
            out@.len() == k - a,
            forall|m: int| 0 <= m < out@.len() ==> out@[m] == s@[a + m],
        decreases b - k,
    {
        out.push(s[k]);
        k = k + 1;
    }
    proof {
        assert(out@ =~= s@.subrange(a as int, b as int));
    }
    out
}

/// Every byte XORed with a fixed mask.
pub open spec fn xor_seq(s: Seq<u8>, m: u8) -> Seq<u8> {
    Seq::new(s.len(), |i: int| s[i] ^ m)
}

/// XOR every byte of a buffer with a fixed mask.
#[verifier::loop_isolation(false)]
fn xor_bytes(s: &Vec<u8>, m: u8) -> (r: Vec<u8>)
    ensures
        r@ == xor_seq(s@, m),
{
    let mut out: Vec<u8> = Vec::new();
    let mut k: usize = 0;
    while k < s.len()
        invariant
            k <= s@.len(),
            out@.len() == k,
            forall|i: int| 0 <= i < k ==> out@[i] == (s@[i] ^ m),
        decreases s@.len() - k,
    {
        out.push(s[k] ^ m);
        k = k + 1;
    }
    proof {
        assert(out@ =~= xor_seq(s@, m));
    }
    out
}

/// What `String::from_utf8` yields on a byte sequence: `None` when the
/// bytes are not UTF-8, and the decoded characters otherwise.  Both depend
/// on the bytes alone.
pub uninterp spec fn utf8_chars(b: Seq<u8>) -> Option<Seq<char>>;

/// Relies on `String::from_utf8`: whether a byte sequence is valid UTF-8,
/// and which characters it decodes to, are functions of the bytes alone.
#[verifier::external_body]
fn bytes_to_string(v: &Vec<u8>) -> (r: Option<String>)
    ensures
        (match r {
            Some(t) => utf8_chars(v@) == Some(t@),
            None => utf8_chars(v@) is None,
        }),
{
    String::from_utf8(v.clone()).ok()
}

/// What base64 decoding with the standard alphabet and padding yields on a
/// byte sequence: `None` on malformed base64, and the decoded bytes
/// otherwise.  The result depends on the input bytes alone.
pub uninterp spec fn base64_decoded(s: Seq<u8>) -> Option<Seq<u8>>;

/// Relies on `base64::Engine::decode` with the `STANDARD` engine: decoding
/// with the standard alphabet and padding is a function of the input bytes
/// alone.
#[verifier::external_body]
fn base64_decode_bytes(s: &Vec<u8>) -> (r: Option<Vec<u8>>)
    ensures
        (match r {
            Some(v) => base64_decoded(s@) == Some(v@),
            None => base64_decoded(s@) is None,
        }),
{
    base64::Engine::decode(&base64::engine::general_purpose::STANDARD, s.as_slice()).ok()
}

/// The 4-byte little-endian length at the front of a block.
pub open spec fn le32(b: Seq<u8>) -> int
    recommends
        b.len() >= 4,
{
    b[0] + 0x100 * b[1] + 0x10000 * b[2] + 0x1000000 * b[3]
}

/// Split a buffer into its leading length-prefixed block and the rest: a
/// 4-byte little-endian length, that many bytes of body, and the remainder.
/// A buffer too short for the length field or for the declared body is
/// `Truncated`.
pub open spec fn spec_split(b: Seq<u8>) -> Result<(Seq<u8>, Seq<u8>), DumpError> {
    if b.len() < 4 {
        Err(DumpError::Truncated)
    } else {
        let n = le32(b);
        if n > b.len() - 4 {
            Err(DumpError::Truncated)
        } else {
            Ok((b.subrange(4, 4 + n), b.skip(4 + n)))
        }
    }
}

/// Lift a split result to its mathematical value.
pub open spec fn split_result_view(r: Result<(Vec<u8>, Vec<u8>), DumpError>) -> Result<
    (Seq<u8>, Seq<u8>),
    DumpError,
> {
    match r {
        Ok((a, b)) => Ok((a@, b@)),
        Err(e) => Err(e),
    }
}

/// Split a buffer into its leading length-prefixed block and the rest.
pub fn split(buf: &[u8]) -> (r: Result<(Vec<u8>, Vec<u8>), DumpError>)
    ensures
        split_result_view(r) == spec_split(buf@),
{
    if buf.len() < 4 {
        return Err(DumpError::Truncated);
    }
    let n = (buf[0] as usize) + 0x100 * (buf[1] as usize) + 0x10000 * (buf[2] as usize) + 0x1000000
        * (buf[3] as usize);
    if n > buf.len() - 4 {
        return Err(DumpError::Truncated);
    }
    let body = sub_bytes(buf, 4, 4 + n);
    let rest = sub_bytes(buf, 4 + n, buf.len());
    proof {
        assert(rest@ =~= buf@.skip(4 + n));
    }
    Ok((body, rest))
}

/// Recover the per-file key from the front of `b`: split off the key block,
/// XOR it with `0x64`, unwrap it under the core master key, and drop the
/// 17-byte fixed prefix of the plaintext.  The remainder of `b` is returned
/// beside the key; the recovered key is never empty.
pub open spec fn spec_get_key(b: Seq<u8>) -> Result<(Seq<u8>, Seq<u8>), DumpError> {
    match spec_split(b) {
        Err(e) => Err(e),
        Ok((kb, rest)) => {
            let masked = xor_seq(kb, 0x64);
            match spec_unwrap(masked, core_key_seq()) {
                Err(e) => Err(e),
                Ok(plain) => {
                    if plain.len() <= 17 {
                        Err(DumpError::Truncated)
                    } else {
                        Ok((plain.skip(17), rest))
                    }
                },
            }
        },
    }
}

/// Recover the per-file key block from the front of `buf`.
pub fn get_key(buf: &[u8]) -> (r: Result<(Vec<u8>, Vec<u8>), DumpError>)
    ensures
        split_result_view(r) == spec_get_key(buf@),
{
    let (kb, rest) = match split(buf) {
        Err(e) => {
            return Err(e);
        },
        Ok(p) => p,
    };
    let masked = xor_bytes(&kb, 0x64);
    let mk = core_key();
    let plain = match decrypt(masked.as_slice(), mk.as_slice()) {
        Err(e) => {
            return Err(e);
        },
        Ok(p) => p,
    };
    if plain.len() <= 17 {
        return Err(DumpError::Truncated);
    }
    let fk = sub_bytes(plain.as_slice(), 17, plain.len());
    proof {
        assert(fk@ =~= plain@.skip(17));
    }
    Ok((fk, rest))
}

/// The text view of the metadata record.
#[verifier::ext_equal]
pub struct MetaV {
    pub name: Seq<char>,
    pub id: u64,
    pub album: Seq<char>,
    pub artist: Seq<(Seq<char>, u64)>,
    pub bitrate: u64,
    pub duration: u64,
    pub format: Seq<char>,
    pub mv: Option<u64>,
    pub alias: Option<Seq<Seq<char>>>,
}

impl View for Meta {
    type V = MetaV;

    open spec fn view(&self) -> MetaV {
        MetaV {
            name: self.name@,
            id: self.id,
            album: self.album@,
            artist: self.artist@.map_values(|p: (String, u64)| (p.0@, p.1)),
            bitrate: self.bitrate,
            duration: self.duration,
            format: self.format@,
            mv: self.mv,
            alias: match self.alias {
                Some(v) => Some(v@.map_values(|t: String| t@)),
                None => None,
            },
        }
    }
}

/// Decode every artist name from bytes to text.
pub open spec fn artists_chars(a: Seq<(Seq<u8>, u64)>) -> Option<Seq<(Seq<char>, u64)>>
    decreases a.len(),
{
    if a.len() == 0 {
        Some(Seq::empty())
    } else {
        match utf8_chars(a[0].0) {
            None => None,
            Some(n) => match artists_chars(a.skip(1)) {
                None => None,
                Some(rest) => Some(seq![(n, a[0].1)] + rest),
            },
        }
    }
}

/// Decode every alias from bytes to text.
pub open spec fn aliases_chars(a: Seq<Seq<u8>>) -> Option<Seq<Seq<char>>>
    decreases a.len(),
{
    if a.len() == 0 {
        Some(Seq::empty())
    } else {
        match utf8_chars(a[0]) {
            None => None,
            Some(n) => match aliases_chars(a.skip(1)) {
                None => None,
                Some(rest) => Some(seq![n] + rest),
            },
        }
    }
}

/// Decode a parsed record's strings from bytes to text.
pub open spec fn meta_chars(m: MetaBytes) -> Option<MetaV> {
    match (utf8_chars(m.name), utf8_chars(m.album), utf8_chars(m.format)) {
        (Some(name), Some(album), Some(format)) => match artists_chars(m.artist) {
            None => None,
            Some(artist) => match m.alias {
                None => Some(
                    MetaV {
                        name,
                        id: m.id,
                        album,
                        artist,
                        bitrate: m.bitrate,
                        duration: m.duration,
                        format,
                        mv: m.mv,
                        alias: None,
                    },
                ),
                Some(al) => match aliases_chars(al) {
                    None => None,
                    Some(aa) => Some(
                        MetaV {
                            name,
                            id: m.id,
                            album,
                            artist,
                            bitrate: m.bitrate,
                            duration: m.duration,
                            format,
                            mv: m.mv,
                            alias: Some(aa),
                        },
                    ),
                },
            },
        },
        _ => None,
    }
}

/// Turn parsed artist pairs into strings, from index `k` on.
fn artists_to_strings(v: &Vec<(Vec<u8>, u64)>, k: usize) -> (r: Option<Vec<(String, u64)>>)
    requires
        k <= v@.len(),
    ensures
        (match r {
            Some(out) => artists_chars(pairs_bytes_view(v@.skip(k as int))) == Some(
                out@.map_values(|p: (String, u64)| (p.0@, p.1)),
            ),
            None => artists_chars(pairs_bytes_view(v@.skip(k as int))) is None,
        }),
    decreases v@.len() - k,
{
    if k == v.len() {
        let out: Vec<(String, u64)> = Vec::new();
        proof {
            assert(pairs_bytes_view(v@.skip(k as int)) =~= Seq::<(Seq<u8>, u64)>::empty());
            assert(out@.map_values(|p: (String, u64)| (p.0@, p.1)) =~= Seq::<
                (Seq<char>, u64),
            >::empty());
        }
        return Some(out);
    }
    proof {
        assert(pairs_bytes_view(v@.skip(k as int))[0] == (v@[k as int].0@, v@[k as int].1));
        assert(pairs_bytes_view(v@.skip(k as int)).skip(1) =~= pairs_bytes_view(
            v@.skip(k as int + 1),
        ));
    }
    let nm = match bytes_to_string(&v[k].0) {
        None => {
            return None;
        },
        Some(t) => t,
    };
    let idv = v[k].1;
    match artists_to_strings(v, k + 1) {
        None => None,
        Some(rest) => {
            let ghost restv = rest@;
            let ghost nmv = nm@;
            let mut out = rest;
            out.insert(0, (nm, idv));
            proof {
                assert(out@ =~= seq![(out@[0].0, idv)] + restv);
                assert(out@.map_values(|p: (String, u64)| (p.0@, p.1)) =~= seq![(nmv, idv)]
                    + restv.map_values(|p: (String, u64)| (p.0@, p.1)));
            }
            Some(out)
        },
    }
}

/// Turn parsed aliases into strings, from index `k` on.
fn aliases_to_strings(v: &Vec<Vec<u8>>, k: usize) -> (r: Option<Vec<String>>)
    requires
        k <= v@.len(),
    ensures
        (match r {
            Some(out) => aliases_chars(seqs_view(v@.skip(k as int))) == Some(
                out@.map_values(|t: String| t@),
            ),
            None => aliases_chars(seqs_view(v@.skip(k as int))) is None,
        }),
    decreases v@.len() - k,
{
    if k == v.len() {
        let out: Vec<String> = Vec::new();
        proof {
            assert(seqs_view(v@.skip(k as int)) =~= Seq::<Seq<u8>>::empty());
            assert(out@.map_values(|t: String| t@) =~= Seq::<Seq<char>>::empty());
        }
        return Some(out);
    }
    proof {
        assert(seqs_view(v@.skip(k as int))[0] == v@[k as int]@);
        assert(seqs_view(v@.skip(k as int)).skip(1) =~= seqs_view(v@.skip(k as int + 1)));
    }
    let t = match bytes_to_string(&v[k]) {
        None => {
            return None;
        },
        Some(t) => t,
    };
    match aliases_to_strings(v, k + 1) {
        None => None,
        Some(rest) => {
            let ghost restv = rest@;
            let ghost tv = t@;
            let mut out = rest;
            out.insert(0, t);
            proof {
                assert(out@ =~= seq![out@[0]] + restv);
                assert(out@.map_values(|t: String| t@) =~= seq![tv] + restv.map_values(
                    |t: String| t@,
                ));
            }
            Some(out)
        },
    }
}

/// Turn a parsed record's byte strings into text.
fn meta_from_parsed(p: MetaParsed) -> (r: Option<Meta>)
    ensures
        (match r {
            Some(m) => meta_chars(p@) == Some(m@),
            None => meta_chars(p@) is None,
        }),
{
    let name = match bytes_to_string(&p.name) {
        None => {
            return None;
        },
        Some(t) => t,
    };
    let album = match bytes_to_string(&p.album) {
        None => {
            return None;
        },
        Some(t) => t,
    };
    let format = match bytes_to_string(&p.format) {
        None => {
            return None;
        },
        Some(t) => t,
    };
    proof {
        assert(p.artist@.skip(0) =~= p.artist@);
    }
    let artist = match artists_to_strings(&p.artist, 0) {
        None => {
            return None;
        },
        Some(a) => a,
    };
    let alias = match p.alias {
        None => None,
        Some(al) => {
            proof {
                assert(al@.skip(0) =~= al@);
            }
            match aliases_to_strings(&al, 0) {
                None => {
                    return None;
                },
                Some(aa) => Some(aa),
            }
        },
    };
    Some(Meta { name, id: p.id, album, artist, bitrate: p.bitrate, duration: p.duration, format, mv: p.mv, alias })
}

/// Lift a metadata result to its mathematical value.
pub open spec fn meta_result_view(r: Result<(Meta, Vec<u8>), DumpError>) -> Result<
    (MetaV, Seq<u8>),
    DumpError,
> {
    match r {
        Ok((m, rest)) => Ok((m@, rest@)),
        Err(e) => Err(e),
    }
}

/// Recover the metadata from the front of `b`: split off the metadata
/// block, XOR it with `0x63`, drop the 22-byte fixed prefix, base64-decode
/// the rest, unwrap it under the metadata master key, drop the 6-byte fixed
/// prefix of the plaintext, and read the remainder as UTF-8 JSON of the
/// record's shape.  Malformed base64 is `InvalidFile`; bytes that are not
/// UTF-8 are `InvalidUtf8`; text that is not JSON of the record's shape is
/// `InvalidMeta`.
pub open spec fn spec_get_meta(b: Seq<u8>) -> Result<(MetaV, Seq<u8>), DumpError> {
    match spec_split(b) {
        Err(e) => Err(e),
        Ok((mb, rest)) => {
            let masked = xor_seq(mb, 0x63);
            if masked.len() < 22 {
                Err(DumpError::Truncated)
            } else {
                match base64_decoded(masked.skip(22)) {
                    None => Err(DumpError::InvalidFile),
                    Some(dec) => match spec_unwrap(dec, meta_key_seq()) {
                        Err(e) => Err(e),
                        Ok(plain) => {
                            if plain.len() < 6 {
                                Err(DumpError::Truncated)
                            } else {
                                let text = plain.skip(6);
                                if utf8_chars(text) is None {
                                    Err(DumpError::InvalidUtf8)
                                } else {
                                    match spec_parse_meta(text) {
                                        None => Err(DumpError::InvalidMeta),
                                        Some(mb2) => match meta_chars(mb2) {
                                            None => Err(DumpError::InvalidMeta),
                                            Some(mv) => Ok((mv, rest)),
                                        },
                                    }
                                }
                            }
                        },
                    },
                }
            }
        },
    }
}

/// Recover the metadata block from the front of `buf`.
pub fn get_meta(buf: &[u8]) -> (r: Result<(Meta, Vec<u8>), DumpError>)
    ensures
        meta_result_view(r) == spec_get_meta(buf@),
{
    let (mb, rest) = match split(buf) {
        Err(e) => {
            return Err(e);
        },
        Ok(p) => p,
    };
    let masked = xor_bytes(&mb, 0x63);
    if masked.len() < 22 {
        return Err(DumpError::Truncated);
    }
    let tail = sub_bytes(masked.as_slice(), 22, masked.len());
    proof {
        assert(tail@ =~= xor_seq(mb@, 0x63).skip(22));
    }
    let dec = match base64_decode_bytes(&tail) {
        None => {
            return Err(DumpError::InvalidFile);
        },
        Some(d) => d,
    };
    let mk = meta_key();
    let plain = match decrypt(dec.as_slice(), mk.as_slice()) {
        Err(e) => {
            return Err(e);
        },
        Ok(p) => p,
    };
    if plain.len() < 6 {
        return Err(DumpError::Truncated);
    }
    let text = sub_bytes(plain.as_slice(), 6, plain.len());
    proof {
        assert(text@ =~= plain@.skip(6));
    }
    if bytes_to_string(&text).is_none() {
        return Err(DumpError::InvalidUtf8);
    }
    let parsed = match parse_meta(text.as_slice()) {
        None => {
            return Err(DumpError::InvalidMeta);
        },
        Some(p) => p,
    };
    let meta = match meta_from_parsed(parsed) {
        None => {
            return Err(DumpError::InvalidMeta);
        },
        Some(m) => m,
    };
    Ok((meta, rest))
}

/// The mathematical view of a decoded container.
#[verifier::ext_equal]
pub struct SongV {
    pub key: Seq<u8>,
    pub meta: MetaV,
    pub img: Seq<u8>,
    pub data: Seq<u8>,
}

impl View for Song {
    type V = SongV;

    open spec fn view(&self) -> SongV {
        SongV { key: self.key@, meta: self.meta@, img: self.img@, data: self.data@ }
    }
}

/// Lift a decode result to its mathematical value.
pub open spec fn song_result_view(r: Result<Song, DumpError>) -> Result<SongV, DumpError> {
    match r {
        Ok(s) => Ok(s@),
        Err(e) => Err(e),
    }
}

/// What decoding a whole container yields: the magic check, the two
/// unwrapped blocks, the cover image, and the audio payload with its
/// keystream stripped — or the error of the first stage that fails.
pub open spec fn decode_spec(b: Seq<u8>) -> Result<SongV, DumpError> {
    if b.len() < 8 {
        Err(DumpError::Truncated)
    } else if b.subrange(0, 8) != magic_seq() {
        Err(DumpError::InvalidFile)
    } else if b.len() < 10 {
        Err(DumpError::Truncated)
    } else {
        match spec_get_key(b.skip(10)) {
            Err(e) => Err(e),
            Ok((key, b2)) => match spec_get_meta(b2) {
                Err(e) => Err(e),
                Ok((meta, b3)) => {
                    if b3.len() < 9 {
                        Err(DumpError::Truncated)
                    } else {
                        match spec_split(b3.skip(9)) {
                            Err(e) => Err(e),
                            Ok((img, payload)) => Ok(
                                SongV {
                                    key,
                                    meta,
                                    img,
                                    data: xor_payload(payload, key_box_spec(key)),
                                },
                            ),
                        }
                    }
                },
            },
        }
    }
}

impl Song {
    /// Decode one container buffer into its parts, or report the first
    /// structural violation found.
    #[verifier::rlimit(50)]
    pub fn new(buf: &[u8]) -> (r: Result<Song, DumpError>)
        ensures
            song_result_view(r) == decode_spec(buf@),
    {
        if buf.len() < 8 {
            return Err(DumpError::Truncated);
        }
        let magic_ok = buf[0] == 0x43 && buf[1] == 0x54 && buf[2] == 0x45 && buf[3] == 0x4e
            && buf[4] == 0x46 && buf[5] == 0x44 && buf[6] == 0x41 && buf[7] == 0x4d;
        proof {
            if magic_ok {
                assert(buf@.subrange(0, 8) =~= magic_seq());
            } else {
                if buf@.subrange(0, 8) == magic_seq() {
                    assert(buf@[0] == 0x43 && buf@[1] == 0x54 && buf@[2] == 0x45 && buf@[3] == 0x4e
                        && buf@[4] == 0x46 && buf@[5] == 0x44 && buf@[6] == 0x41 && buf@[7]
                        == 0x4d) by {
                        assert(forall|k: int|
                            0 <= k < 8 ==> #[trigger] buf@.subrange(0, 8)[k] == buf@[k]);
                    }
                }
            }
        }
        if !magic_ok {
            return Err(DumpError::InvalidFile);
        }
        if buf.len() < 10 {
            return Err(DumpError::Truncated);
        }
        let b1 = sub_bytes(buf, 10, buf.len());
        proof {
            assert(b1@ =~= buf@.skip(10));
        }
        let (key, b2) = match get_key(b1.as_slice()) {
            Err(e) => {
                return Err(e);
            },
            Ok(p) => p,
        };
        let (meta, b3) = match get_meta(b2.as_slice()) {
            Err(e) => {
                return Err(e);
            },
            Ok(p) => p,
        };
        if b3.len() < 9 {
            return Err(DumpError::Truncated);
        }
        let b4 = sub_bytes(b3.as_slice(), 9, b3.len());
        proof {
            assert(b4@ =~= b3@.skip(9));
        }
        let (img, payload) = match split(b4.as_slice()) {
            Err(e) => {
                return Err(e);
            },
            Ok(p) => p,
        };
        let key_box = build_key_box(key.as_slice());
        let data = decrypt_payload(payload.as_slice(), &key_box);
        Ok(Song { key, meta, img, data })
    }
}

/// A buffer whose first eight bytes differ from the magic sequence is
/// always rejected as `InvalidFile`, whatever the rest of the buffer holds.
pub proof fn lemma_magic_mismatch(b: Seq<u8>)
    requires
        b.len() >= 8,
        b.subrange(0, 8) != magic_seq(),
    ensures
        decode_spec(b) == Err::<SongV, DumpError>(DumpError::InvalidFile),
{
}

/// Decoding is deterministic: one byte buffer has one decode result, so
/// decoding the same buffer twice yields bit-identical contents.
pub proof fn lemma_decode_deterministic(
    b: Seq<u8>,
    r1: Result<SongV, DumpError>,
    r2: Result<SongV, DumpError>,
)
    requires
        r1 == decode_spec(b),
        r2 == decode_spec(b),
    ensures
        r1 == r2,
{
}

} // verus!
