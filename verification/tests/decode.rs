//! End-to-end and component tests for the container decoder, built against
//! the real AES and base64 crates.

use aes::Aes128;
use base64::Engine;
use cipher::block_padding::Pkcs7;
use cipher::BlockEncryptMut;
use cipher::KeyInit;
use ncmdump::blocks::decrypt;
use ncmdump::dump::core_key;
use ncmdump::dump::get_key;
use ncmdump::dump::meta_key;
use ncmdump::dump::split;
use ncmdump::keybox::build_key_box;
use ncmdump::keybox::decrypt_payload;
use ncmdump::DumpError;
use ncmdump::Song;

fn aes_ecb_encrypt(key: &[u8], data: &[u8]) -> Vec<u8> {
    let mut c = Aes128::new(cipher::generic_array::GenericArray::from_slice(key));
    c.encrypt_padded_vec_mut::<Pkcs7>(data)
}

fn keystream_byte(kb: &[usize], i: usize) -> u8 {
    let index = i % 0x8000;
    let j = (index + 1) & 0xFF;
    kb[(kb[j] + kb[(kb[j] + j) & 0xFF]) & 0xFF] as u8
}

fn push_len(out: &mut Vec<u8>, n: usize) {
    out.extend_from_slice(&(n as u32).to_le_bytes());
}

/// Build a synthetic container around the given per-file key, metadata JSON
/// text, cover image and (already encrypted) audio payload bytes.
fn build_container(per_file_key: &[u8], meta_json: &[u8], img: &[u8], audio: &[u8]) -> Vec<u8> {
    // Key block: 17-byte prefix + key, AES-wrapped, then XOR 0x64.
    let mut key_plain = b"neteasecloudmusic".to_vec();
    key_plain.extend_from_slice(per_file_key);
    let key_block: Vec<u8> = aes_ecb_encrypt(&core_key(), &key_plain)
        .iter()
        .map(|b| b ^ 0x64)
        .collect();

    // Meta block: 6-byte prefix + JSON, AES-wrapped, base64, 22-byte prefix,
    // then XOR 0x63.
    let mut meta_plain = b"music:".to_vec();
    meta_plain.extend_from_slice(meta_json);
    let wrapped = aes_ecb_encrypt(&meta_key(), &meta_plain);
    let b64 = base64::engine::general_purpose::STANDARD.encode(&wrapped);
    let mut meta_block = b"163 key(Don't modify):".to_vec();
    meta_block.extend_from_slice(b64.as_bytes());
    let meta_block: Vec<u8> = meta_block.iter().map(|b| b ^ 0x63).collect();

    let mut out = Vec::new();
    out.extend_from_slice(&[0x43, 0x54, 0x45, 0x4e, 0x46, 0x44, 0x41, 0x4d]);
    out.extend_from_slice(&[0, 0]);
    push_len(&mut out, key_block.len());
    out.extend_from_slice(&key_block);
    push_len(&mut out, meta_block.len());
    out.extend_from_slice(&meta_block);
    out.extend_from_slice(&[0; 9]);
    push_len(&mut out, img.len());
    out.extend_from_slice(img);
    out.extend_from_slice(audio);
    out
}

const META_JSON: &[u8] = br#"{"musicName":"T","musicId":1,"album":"","artist":[["A",1]],"bitrate":320000,"duration":180000,"format":"mp3"}"#;

#[test]
fn key_box_is_deterministic() {
    let key = b"testkey123456789";
    let a = build_key_box(key);
    let b = build_key_box(key);
    assert_eq!(a, b);
}

#[test]
fn key_box_is_a_permutation() {
    for key in [&b"testkey123456789"[..], &b"x"[..], &[0u8; 300][..]] {
        let kb = build_key_box(key);
        assert_eq!(kb.len(), 256);
        let mut seen = [false; 256];
        for &v in &kb {
            assert!(v < 256);
            seen[v] = true;
        }
        assert!(seen.iter().all(|&s| s));
    }
}

#[test]
fn payload_xor_is_its_own_inverse() {
    let kb = build_key_box(b"testkey123456789");
    let data: Vec<u8> = (0..70000u32).map(|i| (i * 7 + 3) as u8).collect();
    let once = decrypt_payload(&data, &kb);
    let twice = decrypt_payload(&once, &kb);
    assert_eq!(twice, data);
    assert_ne!(once, data);
}

#[test]
fn magic_mismatch_is_invalid_file() {
    let mut buf = build_container(b"testkey123456789", META_JSON, &[0xab], &[0u8; 100]);
    buf[0] ^= 0x01;
    assert_eq!(Song::new(&buf).unwrap_err(), DumpError::InvalidFile);
    // Whatever follows the bad magic, the answer stays the same.
    let garbage = [b'X', b'Y', 0, 1, 2, 3, 4, 5, 6, 7, 8, 9];
    assert_eq!(Song::new(&garbage).unwrap_err(), DumpError::InvalidFile);
}

#[test]
fn short_buffer_is_truncated() {
    assert_eq!(Song::new(b"CTENFDA").unwrap_err(), DumpError::Truncated);
    assert_eq!(Song::new(b"CTENFDAM0").unwrap_err(), DumpError::Truncated);
    assert_eq!(Song::new(b"CTENFDAM00").unwrap_err(), DumpError::Truncated);
}

#[test]
fn unwrap_round_trips_across_padding_boundaries() {
    let key = core_key();
    for n in [0usize, 1, 15, 16, 17, 4096] {
        let plain: Vec<u8> = (0..n).map(|i| (i * 13 + 1) as u8).collect();
        let ct = aes_ecb_encrypt(&key, &plain);
        let back = decrypt(&ct, &key).unwrap();
        assert_eq!(back, plain);
        assert_ne!(ct, plain);
    }
}

#[test]
fn unwrap_rejects_bad_input() {
    let key = core_key();
    assert_eq!(decrypt(&[], &key).unwrap_err(), DumpError::InvalidPadding);
    assert_eq!(decrypt(&[1, 2, 3], &key).unwrap_err(), DumpError::InvalidPadding);
    // A random block almost surely fails padding validation.
    let block = [0x5au8; 16];
    assert_eq!(decrypt(&block, &key).unwrap_err(), DumpError::InvalidPadding);
}

#[test]
fn split_reads_little_endian_lengths() {
    let buf = [3u8, 0, 0, 0, 0xaa, 0xbb, 0xcc, 0xdd, 0xee];
    let (body, rest) = split(&buf).unwrap();
    assert_eq!(body, vec![0xaa, 0xbb, 0xcc]);
    assert_eq!(rest, vec![0xdd, 0xee]);
    // A declared length past the end of the buffer is truncation.
    let bad = [9u8, 0, 0, 0, 1, 2];
    assert_eq!(split(&bad).unwrap_err(), DumpError::Truncated);
    assert_eq!(split(&[1, 0]).unwrap_err(), DumpError::Truncated);
}

#[test]
fn get_key_recovers_the_per_file_key() {
    let mut key_plain = b"neteasecloudmusic".to_vec();
    key_plain.extend_from_slice(b"testkey123456789");
    let block: Vec<u8> = aes_ecb_encrypt(&core_key(), &key_plain)
        .iter()
        .map(|b| b ^ 0x64)
        .collect();
    let mut buf = (block.len() as u32).to_le_bytes().to_vec();
    buf.extend_from_slice(&block);
    buf.extend_from_slice(b"rest");
    let (key, rest) = get_key(&buf).unwrap();
    assert_eq!(key, b"testkey123456789".to_vec());
    assert_eq!(rest, b"rest".to_vec());
}

#[test]
fn end_to_end_decodes_the_synthetic_container() {
    let per_file_key = b"testkey123456789";
    let audio = vec![0u8; 40000];
    let img = [0xab];
    let buf = build_container(per_file_key, META_JSON, &img, &audio);
    let song = Song::new(&buf).unwrap();

    assert_eq!(song.key, per_file_key.to_vec());
    assert_eq!(song.img, vec![0xab]);
    assert_eq!(song.meta.name, "T");
    assert_eq!(song.meta.id, 1);
    assert_eq!(song.meta.album, "");
    assert_eq!(song.meta.artist, vec![("A".to_string(), 1u64)]);
    assert_eq!(song.meta.bitrate, 320000);
    assert_eq!(song.meta.duration, 180000);
    assert_eq!(song.meta.format, "mp3");
    assert_eq!(song.meta.mv, None);
    assert_eq!(song.meta.alias, None);

    // All-zero stored audio decodes to the keystream itself, chunk reset
    // included.
    let kb = build_key_box(per_file_key);
    assert_eq!(song.data.len(), 40000);
    for i in (0..40000).step_by(97).chain([32767usize, 32768, 32769, 39999]) {
        assert_eq!(song.data[i], keystream_byte(&kb, i), "offset {i}");
    }
    // Stripping the keystream from the keystream gives back the zeros.
    let zeros = decrypt_payload(&song.data, &kb);
    assert!(zeros.iter().all(|&b| b == 0));
}

#[test]
fn decoding_twice_is_idempotent() {
    let buf = build_container(b"testkey123456789", META_JSON, &[1, 2, 3], &[7u8; 1000]);
    let a = Song::new(&buf).unwrap();
    let b = Song::new(&buf).unwrap();
    assert_eq!(a, b);
}

#[test]
fn corrupt_key_block_is_invalid_padding() {
    let mut buf = build_container(b"testkey123456789", META_JSON, &[], &[]);
    // Shrink the declared key-block length: the ciphertext is no longer a
    // whole number of 16-byte blocks.
    let n = u32::from_le_bytes([buf[10], buf[11], buf[12], buf[13]]);
    buf[10..14].copy_from_slice(&(n - 1).to_le_bytes());
    assert_eq!(Song::new(&buf).unwrap_err(), DumpError::InvalidPadding);
}

#[test]
fn corrupt_base64_is_invalid_file() {
    let per_file_key = b"testkey123456789";
    let mut key_plain = b"neteasecloudmusic".to_vec();
    key_plain.extend_from_slice(per_file_key);
    let key_block: Vec<u8> = aes_ecb_encrypt(&core_key(), &key_plain)
        .iter()
        .map(|b| b ^ 0x64)
        .collect();
    // A meta block whose base64 region holds bytes outside the alphabet.
    let mut meta_block = b"163 key(Don't modify):".to_vec();
    meta_block.extend_from_slice(b"!!!!");
    let meta_block: Vec<u8> = meta_block.iter().map(|b| b ^ 0x63).collect();

    let mut buf = Vec::new();
    buf.extend_from_slice(&[0x43, 0x54, 0x45, 0x4e, 0x46, 0x44, 0x41, 0x4d, 0, 0]);
    push_len(&mut buf, key_block.len());
    buf.extend_from_slice(&key_block);
    push_len(&mut buf, meta_block.len());
    buf.extend_from_slice(&meta_block);
    buf.extend_from_slice(&[0; 9]);
    push_len(&mut buf, 0);
    assert_eq!(Song::new(&buf).unwrap_err(), DumpError::InvalidFile);
}

#[test]
fn invalid_utf8_metadata_is_reported() {
    let mut meta_json = b"{\"musicName\":\"".to_vec();
    meta_json.extend_from_slice(&[0xff, 0xfe]);
    meta_json.extend_from_slice(b"\"}");
    let buf = build_container(b"testkey123456789", &meta_json, &[], &[]);
    assert_eq!(Song::new(&buf).unwrap_err(), DumpError::InvalidUtf8);
}

#[test]
fn malformed_json_metadata_is_invalid_meta() {
    let buf = build_container(b"testkey123456789", b"not json at all", &[], &[]);
    assert_eq!(Song::new(&buf).unwrap_err(), DumpError::InvalidMeta);
    let missing = br#"{"musicName":"T"}"#;
    let buf = build_container(b"testkey123456789", missing, &[], &[]);
    assert_eq!(Song::new(&buf).unwrap_err(), DumpError::InvalidMeta);
}

#[test]
fn non_ascii_metadata_survives_decoding() {
    let meta_json = "{\"musicName\":\"T\u{00e9}st \u{6b4c}\",\"musicId\":7,\"album\":\"a\",\
                     \"artist\":[],\"bitrate\":1,\"duration\":2,\"format\":\"flac\"}";
    let buf = build_container(b"anotherkey", meta_json.as_bytes(), &[9], &[1, 2, 3]);
    let song = Song::new(&buf).unwrap();
    assert_eq!(song.meta.name, "T\u{00e9}st \u{6b4c}");
    assert_eq!(song.meta.format, "flac");
    assert_eq!(song.meta.artist, Vec::<(String, u64)>::new());
}

#[test]
fn optional_fields_and_unknown_fields_are_handled() {
    let meta_json = br#"  {"format":"mp3","unknown":{"nested":[1,2,{"x":true}]},"musicId":42,
        "alias":["x","y"],"musicName":"N","mvId":9,"album":"al","artist":[["A",1],["B",2]],
        "bitrate":128,"duration":10,"extra":null}  "#;
    let buf = build_container(b"kkkkkkkk", meta_json, &[], &[]);
    let song = Song::new(&buf).unwrap();
    assert_eq!(song.meta.name, "N");
    assert_eq!(song.meta.id, 42);
    assert_eq!(song.meta.mv, Some(9));
    assert_eq!(song.meta.alias, Some(vec!["x".to_string(), "y".to_string()]));
    assert_eq!(
        song.meta.artist,
        vec![("A".to_string(), 1u64), ("B".to_string(), 2u64)]
    );
}

#[test]
fn error_message_names_the_failure() {
    assert_eq!(DumpError::InvalidFile.message(), "not valid NCM file");
    assert!(DumpError::Truncated.message().contains("truncated"));
}
