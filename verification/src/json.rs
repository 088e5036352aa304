//! The metadata grammar: a JSON parser specialised to the metadata record
//! that a container carries.
//!
//! The recovered metadata plaintext is JSON text.  The record is an object
//! with the fields `musicName`, `musicId`, `album`, `artist` (a list of
//! `[name, id]` pairs), `bitrate`, `duration`, `format`, and the optional
//! fields `mvId` and `alias`; unknown fields are skipped after being checked
//! for well-formedness, fields may come in any order, and a duplicated known
//! field is an error, as is a missing required one.
//!
//! Every parsing function exists twice: a `spec` function that defines the
//! grammar over a byte sequence, and an executable twin proved to return
//! exactly what the spec function says.  String contents are kept as the
//! decoded bytes here; conversion to text happens in `dump`.

use vstd::prelude::*;

verus! {

/// The object key `"musicName"`.
pub open spec fn key_music_name() -> Seq<u8> {
    seq![0x6d, 0x75, 0x73, 0x69, 0x63, 0x4e, 0x61, 0x6d, 0x65]
}

/// The object key `"musicId"`.
pub open spec fn key_music_id() -> Seq<u8> {
    seq![0x6d, 0x75, 0x73, 0x69, 0x63, 0x49, 0x64]
}

/// The object key `"album"`.
pub open spec fn key_album() -> Seq<u8> {
    seq![0x61, 0x6c, 0x62, 0x75, 0x6d]
}

/// The object key `"artist"`.
pub open spec fn key_artist() -> Seq<u8> {
    seq![0x61, 0x72, 0x74, 0x69, 0x73, 0x74]
}

/// The object key `"bitrate"`.
pub open spec fn key_bitrate() -> Seq<u8> {
    seq![0x62, 0x69, 0x74, 0x72, 0x61, 0x74, 0x65]
}

/// The object key `"duration"`.
pub open spec fn key_duration() -> Seq<u8> {
    seq![0x64, 0x75, 0x72, 0x61, 0x74, 0x69, 0x6f, 0x6e]
}

/// The object key `"format"`.
pub open spec fn key_format() -> Seq<u8> {
    seq![0x66, 0x6f, 0x72, 0x6d, 0x61, 0x74]
}

/// The object key `"mvId"`.
pub open spec fn key_mv_id() -> Seq<u8> {
    seq![0x6d, 0x76, 0x49, 0x64]
}

/// The object key `"alias"`.
pub open spec fn key_alias() -> Seq<u8> {
    seq![0x61, 0x6c, 0x69, 0x61, 0x73]
}

/// JSON insignificant whitespace.
pub open spec fn is_ws(c: u8) -> bool {
    c == 0x20 || c == 0x09 || c == 0x0a || c == 0x0d
}

/// An ASCII decimal digit.
pub open spec fn is_digit(c: u8) -> bool {
    0x30 <= c && c <= 0x39
}

/// The first position at or after `i` that holds no whitespace.
pub open spec fn spec_skip_ws(s: Seq<u8>, i: int) -> int
    decreases s.len() - i,
{
    if 0 <= i && i < s.len() && is_ws(s[i]) {
        spec_skip_ws(s, i + 1)
    } else {
        i
    }
}

/// The value of an ASCII hex digit, if `c` is one.
pub open spec fn spec_hexval(c: u8) -> Option<int> {
    if 0x30 <= c && c <= 0x39 {
        Some(c - 0x30)
    } else if 0x61 <= c && c <= 0x66 {
        Some(c - 0x61 + 10)
    } else if 0x41 <= c && c <= 0x46 {
        Some(c - 0x41 + 10)
    } else {
        None
    }
}

/// The value of the four hex digits at `i`, if they are there.
pub open spec fn spec_hex4(s: Seq<u8>, i: int) -> Option<int> {
    if !(0 <= i && i + 4 <= s.len()) {
        None
    } else {
        match (spec_hexval(s[i]), spec_hexval(s[i + 1]), spec_hexval(s[i + 2]), spec_hexval(
            s[i + 3],
        )) {
            (Some(a), Some(b), Some(c), Some(d)) => Some(a * 0x1000 + b * 0x100 + c * 0x10 + d),
            _ => None,
        }
    }
}

/// The byte that a single-character escape stands for.
pub open spec fn spec_escape_char(e: u8) -> Option<u8> {
    if e == 0x22 {
        Some(0x22)
    } else if e == 0x5c {
        Some(0x5c)
    } else if e == 0x2f {
        Some(0x2f)
    } else if e == 0x62 {
        Some(0x08)
    } else if e == 0x66 {
        Some(0x0c)
    } else if e == 0x6e {
        Some(0x0a)
    } else if e == 0x72 {
        Some(0x0d)
    } else if e == 0x74 {
        Some(0x09)
    } else {
        None
    }
}

/// The UTF-8 encoding of the scalar value `cp`.
pub open spec fn utf8_enc(cp: int) -> Seq<u8> {
    if cp < 0x80 {
        seq![cp as u8]
    } else if cp < 0x800 {
        seq![(0xC0 + cp / 0x40) as u8, (0x80 + cp % 0x40) as u8]
    } else if cp < 0x10000 {
        seq![(0xE0 + cp / 0x1000) as u8, (0x80 + (cp / 0x40) % 0x40) as u8, (0x80 + cp % 0x40) as u8]
    } else {
        seq![
            (0xF0 + cp / 0x40000) as u8,
            (0x80 + (cp / 0x1000) % 0x40) as u8,
            (0x80 + (cp / 0x40) % 0x40) as u8,
            (0x80 + cp % 0x40) as u8,
        ]
    }
}

/// The decoded contents of a string body starting at `i` (just after the
/// opening quote), and the position after the closing quote.  Escapes are
/// decoded; a `\u` escape takes four hex digits, with a surrogate pair
/// combined into one scalar value; an unpaired surrogate, an unknown escape
/// or a raw control character is an error.
pub open spec fn spec_string_body(s: Seq<u8>, i: int) -> Option<(Seq<u8>, int)>
    decreases s.len() - i,
{
    if !(0 <= i && i < s.len()) {
        None
    } else {
        let c = s[i];
        if c == 0x22 {
            Some((Seq::empty(), i + 1))
        } else if c == 0x5c {
            if !(i + 1 < s.len()) {
                None
            } else {
                let e = s[i + 1];
                if e == 0x75 {
                    match spec_hex4(s, i + 2) {
                        None => None,
                        Some(cp) => {
                            if 0xD800 <= cp && cp < 0xDC00 {
                                if i + 7 < s.len() && s[i + 6] == 0x5c && s[i + 7] == 0x75 {
                                    match spec_hex4(s, i + 8) {
                                        None => None,
                                        Some(lo) => {
                                            if 0xDC00 <= lo && lo < 0xE000 {
                                                let full = 0x10000 + (cp - 0xD800) * 0x400 + (lo
                                                    - 0xDC00);
                                                match spec_string_body(s, i + 12) {
                                                    None => None,
                                                    Some((rest, j)) => Some(
                                                        (utf8_enc(full) + rest, j),
                                                    ),
                                                }
                                            } else {
                                                None
                                            }
                                        },
                                    }
                                } else {
                                    None
                                }
                            } else if 0xDC00 <= cp && cp < 0xE000 {
                                None
                            } else {
                                match spec_string_body(s, i + 6) {
                                    None => None,
                                    Some((rest, j)) => Some((utf8_enc(cp) + rest, j)),
                                }
                            }
                        },
                    }
                } else {
                    match spec_escape_char(e) {
                        None => None,
                        Some(b) => match spec_string_body(s, i + 2) {
                            None => None,
                            Some((rest, j)) => Some((seq![b] + rest, j)),
                        },
                    }
                }
            }
        } else if c < 0x20 {
            None
        } else {
            match spec_string_body(s, i + 1) {
                None => None,
                Some((rest, j)) => Some((seq![c] + rest, j)),
            }
        }
    }
}

/// A quoted string starting at `i`: its decoded contents and the position
/// after the closing quote.
pub open spec fn spec_json_string(s: Seq<u8>, i: int) -> Option<(Seq<u8>, int)> {
    if 0 <= i && i < s.len() && s[i] == 0x22 {
        spec_string_body(s, i + 1)
    } else {
        None
    }
}

/// The end of the run of decimal digits starting at `i`.
pub open spec fn spec_scan_digits(s: Seq<u8>, i: int) -> int
    decreases s.len() - i,
{
    if 0 <= i && i < s.len() && is_digit(s[i]) {
        spec_scan_digits(s, i + 1)
    } else {
        i
    }
}

/// The numeric value of the digits `s[i..j)`.
pub open spec fn spec_digits_val(s: Seq<u8>, i: int, j: int) -> int
    decreases j - i,
{
    if i >= j {
        0
    } else {
        spec_digits_val(s, i, j - 1) * 10 + (s[j - 1] - 0x30)
    }
}

/// An unsigned integer at `i` as a `u64` field accepts it: decimal digits
/// with no leading zero (except `0` itself), not followed by a fraction or
/// exponent, and no larger than `u64::MAX`.  Anything else — a sign, a
/// fraction, an exponent, an overflow — is rejected, as the record's
/// unsigned fields reject it.
pub open spec fn spec_parse_u64(s: Seq<u8>, i: int) -> Option<(u64, int)> {
    if !(0 <= i && i < s.len() && is_digit(s[i])) {
        None
    } else {
        let j = spec_scan_digits(s, i);
        if s[i] == 0x30 && j != i + 1 {
            None
        } else if j < s.len() && (s[j] == 0x2e || s[j] == 0x65 || s[j] == 0x45) {
            None
        } else if spec_digits_val(s, i, j) > u64::MAX {
            None
        } else {
            Some((spec_digits_val(s, i, j) as u64, j))
        }
    }
}

/// The fractional part of a number, if one starts at `j`: whether it is
/// well-formed, and the position after it.
pub open spec fn spec_number_frac(s: Seq<u8>, j: int) -> (bool, int) {
    if 0 <= j && j < s.len() && s[j] == 0x2e {
        let jf = spec_scan_digits(s, j + 1);
        if jf == j + 1 {
            (false, j)
        } else {
            (true, jf)
        }
    } else {
        (true, j)
    }
}

/// The exponent part of a number, if one starts at `j`.
pub open spec fn spec_number_exp(s: Seq<u8>, j: int) -> (bool, int) {
    if 0 <= j && j < s.len() && (s[j] == 0x65 || s[j] == 0x45) {
        let k = if j + 1 < s.len() && (s[j + 1] == 0x2b || s[j + 1] == 0x2d) {
            j + 2
        } else {
            j + 1
        };
        let je = spec_scan_digits(s, k);
        if je == k {
            (false, j)
        } else {
            (true, je)
        }
    } else {
        (true, j)
    }
}

/// A full JSON number at `i` (used when skipping an unknown field): the
/// position after it, if it is well-formed.
pub open spec fn spec_valid_number(s: Seq<u8>, i: int) -> Option<int> {
    if !(0 <= i && i < s.len()) {
        None
    } else {
        let i0 = if s[i] == 0x2d {
            i + 1
        } else {
            i
        };
        if !(i0 < s.len() && is_digit(s[i0])) {
            None
        } else {
            let j = spec_scan_digits(s, i0);
            if s[i0] == 0x30 && j != i0 + 1 {
                None
            } else {
                let fr = spec_number_frac(s, j);
                if !fr.0 {
                    None
                } else {
                    let ex = spec_number_exp(s, fr.1);
                    if !ex.0 {
                        None
                    } else {
                        Some(ex.1)
                    }
                }
            }
        }
    }
}

/// Skip one well-formed JSON value of any shape starting at `i`; the
/// position after it.  Used for unknown fields, which are validated but not
/// kept.  The comparisons against the current position on each recursive
/// call only bound the recursion; a parse never moves backwards.
pub open spec fn spec_skip_value(s: Seq<u8>, i: int) -> Option<int>
    decreases s.len() - i, 0int,
{
    if !(0 <= i && i < s.len()) {
        None
    } else {
        let c = s[i];
        if c == 0x22 {
            match spec_string_body(s, i + 1) {
                None => None,
                Some((v, j)) => Some(j),
            }
        } else if c == 0x7b {
            let im = spec_skip_ws(s, i + 1);
            if im < s.len() && s[im] == 0x7d {
                Some(im + 1)
            } else if im <= i || im > s.len() {
                None
            } else {
                spec_skip_members(s, im)
            }
        } else if c == 0x5b {
            let im = spec_skip_ws(s, i + 1);
            if im < s.len() && s[im] == 0x5d {
                Some(im + 1)
            } else if im <= i || im > s.len() {
                None
            } else {
                spec_skip_items(s, im)
            }
        } else if c == 0x74 {
            if i + 4 <= s.len() && s[i + 1] == 0x72 && s[i + 2] == 0x75 && s[i + 3] == 0x65 {
                Some(i + 4)
            } else {
                None
            }
        } else if c == 0x66 {
            if i + 5 <= s.len() && s[i + 1] == 0x61 && s[i + 2] == 0x6c && s[i + 3] == 0x73 && s[i
                + 4] == 0x65 {
                Some(i + 5)
            } else {
                None
            }
        } else if c == 0x6e {
            if i + 4 <= s.len() && s[i + 1] == 0x75 && s[i + 2] == 0x6c && s[i + 3] == 0x6c {
                Some(i + 4)
            } else {
                None
            }
        } else if c == 0x2d || is_digit(c) {
            spec_valid_number(s, i)
        } else {
            None
        }
    }
}

/// Skip the members of an object whose first key starts at `i`.
pub open spec fn spec_skip_members(s: Seq<u8>, i: int) -> Option<int>
    decreases s.len() - i, 2int,
{
    if !(0 <= i && i < s.len() && s[i] == 0x22) {
        None
    } else {
        match spec_string_body(s, i + 1) {
            None => None,
            Some((k, jk)) => {
                let jc = spec_skip_ws(s, jk);
                if !(jc < s.len() && s[jc] == 0x3a) {
                    None
                } else {
                    let jv = spec_skip_ws(s, jc + 1);
                    if jv <= i || jv > s.len() {
                        None
                    } else {
                        match spec_skip_value(s, jv) {
                            None => None,
                            Some(je) => {
                                let jn = spec_skip_ws(s, je);
                                if jn < s.len() && s[jn] == 0x2c {
                                    let jm = spec_skip_ws(s, jn + 1);
                                    if jm <= i || jm > s.len() {
                                        None
                                    } else {
                                        spec_skip_members(s, jm)
                                    }
                                } else if jn < s.len() && s[jn] == 0x7d {
                                    Some(jn + 1)
                                } else {
                                    None
                                }
                            },
                        }
                    }
                }
            },
        }
    }
}

/// Skip the elements of an array whose first element starts at `i`.
pub open spec fn spec_skip_items(s: Seq<u8>, i: int) -> Option<int>
    decreases s.len() - i, 1int,
{
    if !(0 <= i && i < s.len()) {
        None
    } else {
        match spec_skip_value(s, i) {
            None => None,
            Some(je) => {
                let jn = spec_skip_ws(s, je);
                if jn < s.len() && s[jn] == 0x2c {
                    let jm = spec_skip_ws(s, jn + 1);
                    if jm <= i || jm > s.len() {
                        None
                    } else {
                        spec_skip_items(s, jm)
                    }
                } else if jn < s.len() && s[jn] == 0x5d {
                    Some(jn + 1)
                } else {
                    None
                }
            },
        }
    }
}

/// The artist pairs of a non-empty artist array, the first pair's `[`
/// standing at `i`: each element is exactly a two-element array of a string
/// and an unsigned id.
pub open spec fn spec_artist_items(s: Seq<u8>, i: int) -> Option<(Seq<(Seq<u8>, u64)>, int)>
    decreases s.len() - i,
{
    if !(0 <= i && i < s.len() && s[i] == 0x5b) {
        None
    } else {
        let i1 = spec_skip_ws(s, i + 1);
        match spec_json_string(s, i1) {
            None => None,
            Some((name, j1)) => {
                let j2 = spec_skip_ws(s, j1);
                if !(j2 < s.len() && s[j2] == 0x2c) {
                    None
                } else {
                    let j3 = spec_skip_ws(s, j2 + 1);
                    match spec_parse_u64(s, j3) {
                        None => None,
                        Some((idv, j4)) => {
                            let j5 = spec_skip_ws(s, j4);
                            if !(j5 < s.len() && s[j5] == 0x5d) {
                                None
                            } else {
                                let j6 = spec_skip_ws(s, j5 + 1);
                                if j6 < s.len() && s[j6] == 0x2c {
                                    let j7 = spec_skip_ws(s, j6 + 1);
                                    if j7 <= i || j7 > s.len() {
                                        None
                                    } else {
                                        match spec_artist_items(s, j7) {
                                            None => None,
                                            Some((rest, je)) => Some(
                                                (seq![(name, idv)] + rest, je),
                                            ),
                                        }
                                    }
                                } else if j6 < s.len() && s[j6] == 0x5d {
                                    Some((seq![(name, idv)], j6 + 1))
                                } else {
                                    None
                                }
                            }
                        },
                    }
                }
            },
        }
    }
}

/// An artist array starting at `i`: a possibly empty list of `[name, id]`
/// pairs.
pub open spec fn spec_parse_artist(s: Seq<u8>, i: int) -> Option<(Seq<(Seq<u8>, u64)>, int)> {
    if !(0 <= i && i < s.len() && s[i] == 0x5b) {
        None
    } else {
        let im = spec_skip_ws(s, i + 1);
        if im < s.len() && s[im] == 0x5d {
            Some((Seq::empty(), im + 1))
        } else {
            spec_artist_items(s, im)
        }
    }
}

/// The strings of a non-empty alias array, the first string starting at `i`.
pub open spec fn spec_alias_items(s: Seq<u8>, i: int) -> Option<(Seq<Seq<u8>>, int)>
    decreases s.len() - i,
{
    if !(0 <= i && i < s.len()) {
        None
    } else {
        match spec_json_string(s, i) {
            None => None,
            Some((v, j)) => {
                let jn = spec_skip_ws(s, j);
                if jn < s.len() && s[jn] == 0x2c {
                    let jm = spec_skip_ws(s, jn + 1);
                    if jm <= i || jm > s.len() {
                        None
                    } else {
                        match spec_alias_items(s, jm) {
                            None => None,
                            Some((rest, je)) => Some((seq![v] + rest, je)),
                        }
                    }
                } else if jn < s.len() && s[jn] == 0x5d {
                    Some((seq![v], jn + 1))
                } else {
                    None
                }
            },
        }
    }
}

/// An alias array starting at `i`: a possibly empty list of strings.
pub open spec fn spec_parse_alias(s: Seq<u8>, i: int) -> Option<(Seq<Seq<u8>>, int)> {
    if !(0 <= i && i < s.len() && s[i] == 0x5b) {
        None
    } else {
        let im = spec_skip_ws(s, i + 1);
        if im < s.len() && s[im] == 0x5d {
            Some((Seq::empty(), im + 1))
        } else {
            spec_alias_items(s, im)
        }
    }
}

/// The fields gathered while walking the metadata object.  `None` means the
/// field has not been seen; for `mv` and `alias` the inner option records a
/// JSON `null`.
#[verifier::ext_equal]
pub struct MetaAcc {
    pub name: Option<Seq<u8>>,
    pub id: Option<u64>,
    pub album: Option<Seq<u8>>,
    pub artist: Option<Seq<(Seq<u8>, u64)>>,
    pub bitrate: Option<u64>,
    pub duration: Option<u64>,
    pub format: Option<Seq<u8>>,
    pub mv: Option<Option<u64>>,
    pub alias: Option<Option<Seq<Seq<u8>>>>,
}

/// The accumulator before any member has been seen.
pub open spec fn empty_acc() -> MetaAcc {
    MetaAcc {
        name: None,
        id: None,
        album: None,
        artist: None,
        bitrate: None,
        duration: None,
        format: None,
        mv: None,
        alias: None,
    }
}

/// A `null` literal at `i`.
pub open spec fn spec_is_null(s: Seq<u8>, i: int) -> bool {
    0 <= i && i + 4 <= s.len() && s[i] == 0x6e && s[i + 1] == 0x75 && s[i + 2] == 0x6c && s[i + 3]
        == 0x6c
}

/// A known string field's value: parse it unless the field repeats.
pub open spec fn spec_mv_name(s: Seq<u8>, jv: int, acc: MetaAcc) -> Option<(MetaAcc, int)> {
    if acc.name is Some {
        None
    } else {
        match spec_json_string(s, jv) {
            None => None,
            Some((v, je)) => Some((MetaAcc { name: Some(v), ..acc }, je)),
        }
    }
}

pub open spec fn spec_mv_id(s: Seq<u8>, jv: int, acc: MetaAcc) -> Option<(MetaAcc, int)> {
    if acc.id is Some {
        None
    } else {
        match spec_parse_u64(s, jv) {
            None => None,
            Some((v, je)) => Some((MetaAcc { id: Some(v), ..acc }, je)),
        }
    }
}

pub open spec fn spec_mv_album(s: Seq<u8>, jv: int, acc: MetaAcc) -> Option<(MetaAcc, int)> {
    if acc.album is Some {
        None
    } else {
        match spec_json_string(s, jv) {
            None => None,
            Some((v, je)) => Some((MetaAcc { album: Some(v), ..acc }, je)),
        }
    }
}

pub open spec fn spec_mv_artist(s: Seq<u8>, jv: int, acc: MetaAcc) -> Option<(MetaAcc, int)> {
    if acc.artist is Some {
        None
    } else {
        match spec_parse_artist(s, jv) {
            None => None,
            Some((v, je)) => Some((MetaAcc { artist: Some(v), ..acc }, je)),
        }
    }
}

pub open spec fn spec_mv_bitrate(s: Seq<u8>, jv: int, acc: MetaAcc) -> Option<(MetaAcc, int)> {
    if acc.bitrate is Some {
        None
    } else {
        match spec_parse_u64(s, jv) {
            None => None,
            Some((v, je)) => Some((MetaAcc { bitrate: Some(v), ..acc }, je)),
        }
    }
}

pub open spec fn spec_mv_duration(s: Seq<u8>, jv: int, acc: MetaAcc) -> Option<(MetaAcc, int)> {
    if acc.duration is Some {
        None
    } else {
        match spec_parse_u64(s, jv) {
            None => None,
            Some((v, je)) => Some((MetaAcc { duration: Some(v), ..acc }, je)),
        }
    }
}

pub open spec fn spec_mv_format(s: Seq<u8>, jv: int, acc: MetaAcc) -> Option<(MetaAcc, int)> {
    if acc.format is Some {
        None
    } else {
        match spec_json_string(s, jv) {
            None => None,
            Some((v, je)) => Some((MetaAcc { format: Some(v), ..acc }, je)),
        }
    }
}

/// The optional `mvId` field: `null` or an unsigned id.
pub open spec fn spec_mv_mv(s: Seq<u8>, jv: int, acc: MetaAcc) -> Option<(MetaAcc, int)> {
    if acc.mv is Some {
        None
    } else if spec_is_null(s, jv) {
        Some((MetaAcc { mv: Some(None), ..acc }, jv + 4))
    } else {
        match spec_parse_u64(s, jv) {
            None => None,
            Some((v, je)) => Some((MetaAcc { mv: Some(Some(v)), ..acc }, je)),
        }
    }
}

/// The optional `alias` field: `null` or an array of strings.
pub open spec fn spec_mv_alias(s: Seq<u8>, jv: int, acc: MetaAcc) -> Option<(MetaAcc, int)> {
    if acc.alias is Some {
        None
    } else if spec_is_null(s, jv) {
        Some((MetaAcc { alias: Some(None), ..acc }, jv + 4))
    } else {
        match spec_parse_alias(s, jv) {
            None => None,
            Some((v, je)) => Some((MetaAcc { alias: Some(Some(v)), ..acc }, je)),
        }
    }
}

/// An unknown field's value: validated and skipped.
pub open spec fn spec_mv_other(s: Seq<u8>, jv: int, acc: MetaAcc) -> Option<(MetaAcc, int)> {
    match spec_skip_value(s, jv) {
        None => None,
        Some(je) => Some((acc, je)),
    }
}

/// One member's value at `jv`, dispatched on the decoded key: a known key
/// parses its typed value and must not repeat; an unknown key's value is
/// skipped.
pub open spec fn spec_member_value(s: Seq<u8>, jv: int, acc: MetaAcc, key: Seq<u8>) -> Option<
    (MetaAcc, int),
> {
    if key == key_music_name() {
        spec_mv_name(s, jv, acc)
    } else if key == key_music_id() {
        spec_mv_id(s, jv, acc)
    } else if key == key_album() {
        spec_mv_album(s, jv, acc)
    } else if key == key_artist() {
        spec_mv_artist(s, jv, acc)
    } else if key == key_bitrate() {
        spec_mv_bitrate(s, jv, acc)
    } else if key == key_duration() {
        spec_mv_duration(s, jv, acc)
    } else if key == key_format() {
        spec_mv_format(s, jv, acc)
    } else if key == key_mv_id() {
        spec_mv_mv(s, jv, acc)
    } else if key == key_alias() {
        spec_mv_alias(s, jv, acc)
    } else {
        spec_mv_other(s, jv, acc)
    }
}

/// The members of the metadata object, the first key's quote standing at
/// `i`: fold each member into the accumulator until the closing brace.
pub open spec fn spec_members(s: Seq<u8>, i: int, acc: MetaAcc) -> Option<(MetaAcc, int)>
    decreases s.len() - i,
{
    if !(0 <= i && i < s.len() && s[i] == 0x22) {
        None
    } else {
        match spec_string_body(s, i + 1) {
            None => None,
            Some((key, jk)) => {
                let jc = spec_skip_ws(s, jk);
                if !(jc < s.len() && s[jc] == 0x3a) {
                    None
                } else {
                    let jv = spec_skip_ws(s, jc + 1);
                    match spec_member_value(s, jv, acc, key) {
                        None => None,
                        Some((acc2, je)) => {
                            let jn = spec_skip_ws(s, je);
                            if jn < s.len() && s[jn] == 0x2c {
                                let jm = spec_skip_ws(s, jn + 1);
                                if jm <= i || jm > s.len() {
                                    None
                                } else {
                                    spec_members(s, jm, acc2)
                                }
                            } else if jn < s.len() && s[jn] == 0x7d {
                                Some((acc2, jn + 1))
                            } else {
                                None
                            }
                        },
                    }
                }
            },
        }
    }
}

/// The parsed metadata record, its strings still the decoded bytes.
#[verifier::ext_equal]
pub struct MetaBytes {
    pub name: Seq<u8>,
    pub id: u64,
    pub album: Seq<u8>,
    pub artist: Seq<(Seq<u8>, u64)>,
    pub bitrate: u64,
    pub duration: u64,
    pub format: Seq<u8>,
    pub mv: Option<u64>,
    pub alias: Option<Seq<Seq<u8>>>,
}

/// After the object closes at `j`: only whitespace may remain, every
/// required field must have been seen, and an absent or `null` optional
/// field is `None`.
pub open spec fn spec_finish_meta(acc: MetaAcc, s: Seq<u8>, j: int) -> Option<MetaBytes> {
    let je = spec_skip_ws(s, j);
    if je != s.len() {
        None
    } else {
        match (acc.name, acc.id, acc.album, acc.artist, acc.bitrate, acc.duration, acc.format) {
            (
                Some(name),
                Some(id),
                Some(album),
                Some(artist),
                Some(bitrate),
                Some(duration),
                Some(format),
            ) => Some(
                MetaBytes {
                    name,
                    id,
                    album,
                    artist,
                    bitrate,
                    duration,
                    format,
                    mv: match acc.mv {
                        Some(m) => m,
                        None => None,
                    },
                    alias: match acc.alias {
                        Some(a) => a,
                        None => None,
                    },
                },
            ),
            _ => None,
        }
    }
}

/// The whole metadata text: one JSON object of the record's shape, with
/// nothing but whitespace around it.
pub open spec fn spec_parse_meta(s: Seq<u8>) -> Option<MetaBytes> {
    let i = spec_skip_ws(s, 0);
    if !(i < s.len() && s[i] == 0x7b) {
        None
    } else {
        let im = spec_skip_ws(s, i + 1);
        if im < s.len() && s[im] == 0x7d {
            spec_finish_meta(empty_acc(), s, im + 1)
        } else {
            match spec_members(s, im, empty_acc()) {
                None => None,
                Some((acc, j)) => spec_finish_meta(acc, s, j),
            }
        }
    }
}

/// The byte view of a sequence of artist pairs.
pub open spec fn pairs_bytes_view(s: Seq<(Vec<u8>, u64)>) -> Seq<(Seq<u8>, u64)> {
    s.map_values(|p: (Vec<u8>, u64)| (p.0@, p.1))
}

/// The byte view of a sequence of byte vectors.
pub open spec fn seqs_view(s: Seq<Vec<u8>>) -> Seq<Seq<u8>> {
    s.map_values(|v: Vec<u8>| v@)
}

/// Move to the first non-whitespace position at or after `i`.
#[verifier::loop_isolation(false)]
fn skip_ws(s: &[u8], i: usize) -> (r: usize)
    requires
        i <= s@.len(),
    ensures
        r as int == spec_skip_ws(s@, i as int),
        i <= r <= s@.len(),
{
    let mut k = i;
    while k < s.len() && (s[k] == 0x20 || s[k] == 0x09 || s[k] == 0x0a || s[k] == 0x0d)
        invariant
            i <= k <= s@.len(),
            spec_skip_ws(s@, i as int) == spec_skip_ws(s@, k as int),
        decreases s@.len() - k,
    {
        k = k + 1;
    }
    k
}

/// The value of an ASCII hex digit.
fn hexval(c: u8) -> (r: Option<u8>)
    ensures
        (match r {
            Some(v) => spec_hexval(c) == Some(v as int) && v < 16,
            None => spec_hexval(c) is None,
        }),
{
    if 0x30 <= c && c <= 0x39 {
        Some(c - 0x30)
    } else if 0x61 <= c && c <= 0x66 {
        Some(c - 0x61 + 10)
    } else if 0x41 <= c && c <= 0x46 {
        Some(c - 0x41 + 10)
    } else {
        None
    }
}

/// The value of the four hex digits at `i`.
fn parse_hex4(s: &[u8], i: usize) -> (r: Option<u32>)
    requires
        i <= s@.len(),
    ensures
        (match r {
            Some(v) => spec_hex4(s@, i as int) == Some(v as int) && v < 0x10000 && i + 4
                <= s@.len(),
            None => spec_hex4(s@, i as int) is None,
        }),
{
    if s.len() - i < 4 {
        return None;
    }
    let a = hexval(s[i]);
    let b = hexval(s[i + 1]);
    let c = hexval(s[i + 2]);
    let d = hexval(s[i + 3]);
    match (a, b, c, d) {
        (Some(a), Some(b), Some(c), Some(d)) => Some(
            (a as u32) * 0x1000 + (b as u32) * 0x100 + (c as u32) * 0x10 + (d as u32),
        ),
        _ => None,
    }
}

/// The byte a single-character escape stands for.
fn escape_char(e: u8) -> (r: Option<u8>)
    ensures
        r == spec_escape_char(e),
{
    if e == 0x22 {
        Some(0x22)
    } else if e == 0x5c {
        Some(0x5c)
    } else if e == 0x2f {
        Some(0x2f)
    } else if e == 0x62 {
        Some(0x08)
    } else if e == 0x66 {
        Some(0x0c)
    } else if e == 0x6e {
        Some(0x0a)
    } else if e == 0x72 {
        Some(0x0d)
    } else if e == 0x74 {
        Some(0x09)
    } else {
        None
    }
}

/// Encode one scalar value as UTF-8.
fn utf8_encode(cp: u32) -> (r: Vec<u8>)
    requires
        cp < 0x110000,
    ensures
        r@ == utf8_enc(cp as int),
{
    let mut v: Vec<u8> = Vec::new();
    if cp < 0x80 {
        v.push(cp as u8);
    } else if cp < 0x800 {
        v.push((0xC0 + cp / 0x40) as u8);
        v.push((0x80 + cp % 0x40) as u8);
    } else if cp < 0x10000 {
        v.push((0xE0 + cp / 0x1000) as u8);
        v.push((0x80 + (cp / 0x40) % 0x40) as u8);
        v.push((0x80 + cp % 0x40) as u8);
    } else {
        v.push((0xF0 + cp / 0x40000) as u8);
        v.push((0x80 + (cp / 0x1000) % 0x40) as u8);
        v.push((0x80 + (cp / 0x40) % 0x40) as u8);
        v.push((0x80 + cp % 0x40) as u8);
    }
    proof {
        assert(v@ =~= utf8_enc(cp as int));
    }
    v
}

/// Append `b`'s bytes to `a`.
#[verifier::loop_isolation(false)]
fn concat_bytes(a: Vec<u8>, b: &Vec<u8>) -> (r: Vec<u8>)
    ensures
        r@ == a@ + b@,
{
    let ghost a0 = a@;
    let mut a = a;
    let mut k: usize = 0;
    while k < b.len()
        invariant
            k <= b@.len(),
            a@ == a0 + b@.take(k as int),
        decreases b@.len() - k,
    {
        a.push(b[k]);
        proof {
            assert(a@ =~= a0 + b@.take(k + 1));
        }
        k = k + 1;
    }
    proof {
        assert(a@ =~= a0 + b@);
    }
    a
}

/// Parse a string body starting just after the opening quote.
fn parse_string_body(s: &[u8], i: usize) -> (r: Option<(Vec<u8>, usize)>)
    requires
        i <= s@.len(),
    ensures
        (match r {
            Some(p) => spec_string_body(s@, i as int) == Some((p.0@, p.1 as int)) && i < p.1
                <= s@.len(),
            None => spec_string_body(s@, i as int) is None,
        }),
    decreases s@.len() - i,
{
    if i >= s.len() {
        return None;
    }
    let c = s[i];
    if c == 0x22 {
        let out: Vec<u8> = Vec::new();
        proof {
            assert(out@ =~= Seq::<u8>::empty());
        }
        Some((out, i + 1))
    } else if c == 0x5c {
        if i + 1 >= s.len() {
            return None;
        }
        let e = s[i + 1];
        if e == 0x75 {
            match parse_hex4(s, i + 2) {
                None => None,
                Some(cp) => {
                    if 0xD800 <= cp && cp < 0xDC00 {
                        if s.len() - i >= 8 && s[i + 6] == 0x5c && s[i + 7] == 0x75 {
                            match parse_hex4(s, i + 8) {
                                None => None,
                                Some(lo) => {
                                    if 0xDC00 <= lo && lo < 0xE000 {
                                        let full = 0x10000 + (cp - 0xD800) * 0x400 + (lo - 0xDC00);
                                        match parse_string_body(s, i + 12) {
                                            None => None,
                                            Some((rest, j)) => {
                                                let enc = utf8_encode(full);
                                                let out = concat_bytes(enc, &rest);
                                                Some((out, j))
                                            },
                                        }
                                    } else {
                                        None
                                    }
                                },
                            }
                        } else {
                            None
                        }
                    } else if 0xDC00 <= cp && cp < 0xE000 {
                        None
                    } else {
                        match parse_string_body(s, i + 6) {
                            None => None,
                            Some((rest, j)) => {
                                let enc = utf8_encode(cp);
                                let out = concat_bytes(enc, &rest);
                                Some((out, j))
                            },
                        }
                    }
                },
            }
        } else {
            match escape_char(e) {
                None => None,
                Some(b) => {
                    match parse_string_body(s, i + 2) {
                        None => None,
                        Some((rest, j)) => {
                            let mut out: Vec<u8> = Vec::new();
                            out.push(b);
                            let out = concat_bytes(out, &rest);
                            proof {
                                assert(out@ =~= seq![b] + rest@);
                            }
                            Some((out, j))
                        },
                    }
                },
            }
        }
    } else if c < 0x20 {
        None
    } else {
        match parse_string_body(s, i + 1) {
            None => None,
            Some((rest, j)) => {
                let mut out: Vec<u8> = Vec::new();
                out.push(c);
                let out = concat_bytes(out, &rest);
                proof {
                    assert(out@ =~= seq![c] + rest@);
                }
                Some((out, j))
            },
        }
    }
}

/// Parse a quoted string starting at `i`.
fn parse_json_string(s: &[u8], i: usize) -> (r: Option<(Vec<u8>, usize)>)
    requires
        i <= s@.len(),
    ensures
        (match r {
            Some(p) => spec_json_string(s@, i as int) == Some((p.0@, p.1 as int)) && i < p.1
                <= s@.len(),
            None => spec_json_string(s@, i as int) is None,
        }),
{
    if i < s.len() && s[i] == 0x22 {
        parse_string_body(s, i + 1)
    } else {
        None
    }
}

/// Find the end of the digit run starting at `i`.
#[verifier::loop_isolation(false)]
fn scan_digits(s: &[u8], i: usize) -> (j: usize)
    requires
        i <= s@.len(),
    ensures
        j as int == spec_scan_digits(s@, i as int),
        i <= j <= s@.len(),
        forall|m: int| i <= m < j ==> is_digit(s@[m]),
        j < s@.len() ==> !is_digit(s@[j as int]),
{
    let mut k = i;
    while k < s.len() && 0x30 <= s[k] && s[k] <= 0x39
        invariant
            i <= k <= s@.len(),
            spec_scan_digits(s@, i as int) == spec_scan_digits(s@, k as int),
            forall|m: int| i <= m < k ==> is_digit(s@[m]),
        decreases s@.len() - k,
    {
        k = k + 1;
    }
    k
}

/// Digit runs only grow in value as they extend.
proof fn lemma_digits_val_nonneg(s: Seq<u8>, i: int, j: int)
    requires
        i <= j,
        forall|m: int| i <= m < j ==> is_digit(s[m]),
    ensures
        spec_digits_val(s, i, j) >= 0,
    decreases j - i,
{
    if i < j {
        lemma_digits_val_nonneg(s, i, j - 1);
    }
}

proof fn lemma_digits_val_mono(s: Seq<u8>, i: int, k: int, j: int)
    requires
        i <= k <= j,
        forall|m: int| i <= m < j ==> is_digit(s[m]),
    ensures
        spec_digits_val(s, i, k) <= spec_digits_val(s, i, j),
    decreases j - k,
{
    if k < j {
        lemma_digits_val_nonneg(s, i, k);
        lemma_digits_val_mono(s, i, k + 1, j);
        assert(spec_digits_val(s, i, k + 1) == spec_digits_val(s, i, k) * 10 + (s[k] - 0x30));
    }
}

/// Parse an unsigned integer as a `u64` field accepts it.
#[verifier::loop_isolation(false)]
fn parse_u64(s: &[u8], i: usize) -> (r: Option<(u64, usize)>)
    requires
        i <= s@.len(),
    ensures
        (match r {
            Some(p) => spec_parse_u64(s@, i as int) == Some((p.0, p.1 as int)) && i < p.1
                <= s@.len(),
            None => spec_parse_u64(s@, i as int) is None,
        }),
{
    if i >= s.len() || s[i] < 0x30 || s[i] > 0x39 {
        return None;
    }
    let j = scan_digits(s, i);
    if s[i] == 0x30 && j != i + 1 {
        return None;
    }
    if j < s.len() && (s[j] == 0x2e || s[j] == 0x65 || s[j] == 0x45) {
        return None;
    }
    let mut acc: u64 = 0;
    let mut k = i;
    while k < j
        invariant
            i <= k <= j,
            acc == spec_digits_val(s@, i as int, k as int),
        decreases j - k,
    {
        let d = (s[k] - 0x30) as u64;
        if acc > (u64::MAX - d) / 10 {
            proof {
                assert(spec_digits_val(s@, i as int, k + 1) == acc * 10 + d);
                lemma_digits_val_mono(s@, i as int, k + 1, j as int);
            }
            return None;
        }
        acc = acc * 10 + d;
        k = k + 1;
    }
    Some((acc, j))
}

/// Validate a full JSON number starting at `i`.
fn valid_number(s: &[u8], i: usize) -> (r: Option<usize>)
    requires
        i <= s@.len(),
    ensures
        (match r {
            Some(j) => spec_valid_number(s@, i as int) == Some(j as int) && i < j <= s@.len(),
            None => spec_valid_number(s@, i as int) is None,
        }),
{
    if i >= s.len() {
        return None;
    }
    let i0 = if s[i] == 0x2d {
        i + 1
    } else {
        i
    };
    if i0 >= s.len() || s[i0] < 0x30 || s[i0] > 0x39 {
        return None;
    }
    let j = scan_digits(s, i0);
    if s[i0] == 0x30 && j != i0 + 1 {
        return None;
    }
    let mut j2 = j;
    if j < s.len() && s[j] == 0x2e {
        let jf = scan_digits(s, j + 1);
        if jf == j + 1 {
            return None;
        }
        j2 = jf;
    }
    let mut j3 = j2;
    if j2 < s.len() && (s[j2] == 0x65 || s[j2] == 0x45) {
        let k0 = if j2 + 1 < s.len() && (s[j2 + 1] == 0x2b || s[j2 + 1] == 0x2d) {
            j2 + 2
        } else {
            j2 + 1
        };
        let je = scan_digits(s, k0);
        if je == k0 {
            return None;
        }
        j3 = je;
    }
    Some(j3)
}

/// Skip one well-formed JSON value starting at `i`.
fn skip_value(s: &[u8], i: usize) -> (r: Option<usize>)
    requires
        i <= s@.len(),
    ensures
        (match r {
            Some(j) => spec_skip_value(s@, i as int) == Some(j as int) && i < j <= s@.len(),
            None => spec_skip_value(s@, i as int) is None,
        }),
    decreases s@.len() - i, 0int,
{
    if i >= s.len() {
        return None;
    }
    let c = s[i];
    if c == 0x22 {
        match parse_string_body(s, i + 1) {
            None => None,
            Some((_v, j)) => Some(j),
        }
    } else if c == 0x7b {
        let im = skip_ws(s, i + 1);
        if im < s.len() && s[im] == 0x7d {
            Some(im + 1)
        } else if im <= i {
            None
        } else {
            skip_members(s, im)
        }
    } else if c == 0x5b {
        let im = skip_ws(s, i + 1);
        if im < s.len() && s[im] == 0x5d {
            Some(im + 1)
        } else if im <= i {
            None
        } else {
            skip_items(s, im)
        }
    } else if c == 0x74 {
        if s.len() - i >= 4 && s[i + 1] == 0x72 && s[i + 2] == 0x75 && s[i + 3] == 0x65 {
            Some(i + 4)
        } else {
            None
        }
    } else if c == 0x66 {
        if s.len() - i >= 5 && s[i + 1] == 0x61 && s[i + 2] == 0x6c && s[i + 3] == 0x73 && s[i + 4]
            == 0x65 {
            Some(i + 5)
        } else {
            None
        }
    } else if c == 0x6e {
        if s.len() - i >= 4 && s[i + 1] == 0x75 && s[i + 2] == 0x6c && s[i + 3] == 0x6c {
            Some(i + 4)
        } else {
            None
        }
    } else if c == 0x2d || (0x30 <= c && c <= 0x39) {
        valid_number(s, i)
    } else {
        None
    }
}

/// Skip the members of an object whose first key starts at `i`.
fn skip_members(s: &[u8], i: usize) -> (r: Option<usize>)
    requires
        i <= s@.len(),
    ensures
        (match r {
            Some(j) => spec_skip_members(s@, i as int) == Some(j as int) && i < j <= s@.len(),
            None => spec_skip_members(s@, i as int) is None,
        }),
    decreases s@.len() - i, 2int,
{
    if i >= s.len() || s[i] != 0x22 {
        return None;
    }
    match parse_string_body(s, i + 1) {
        None => None,
        Some((_key, jk)) => {
            let jc = skip_ws(s, jk);
            if !(jc < s.len() && s[jc] == 0x3a) {
                return None;
            }
            let jv = skip_ws(s, jc + 1);
            if jv <= i {
                return None;
            }
            match skip_value(s, jv) {
                None => None,
                Some(je) => {
                    let jn = skip_ws(s, je);
                    if jn < s.len() && s[jn] == 0x2c {
                        let jm = skip_ws(s, jn + 1);
                        if jm <= i || jm > s.len() {
                            None
                        } else {
                            skip_members(s, jm)
                        }
                    } else if jn < s.len() && s[jn] == 0x7d {
                        Some(jn + 1)
                    } else {
                        None
                    }
                },
            }
        },
    }
}

/// Skip the elements of an array whose first element starts at `i`.
fn skip_items(s: &[u8], i: usize) -> (r: Option<usize>)
    requires
        i <= s@.len(),
    ensures
        (match r {
            Some(j) => spec_skip_items(s@, i as int) == Some(j as int) && i < j <= s@.len(),
            None => spec_skip_items(s@, i as int) is None,
        }),
    decreases s@.len() - i, 1int,
{
    if i >= s.len() {
        return None;
    }
    match skip_value(s, i) {
        None => None,
        Some(je) => {
            let jn = skip_ws(s, je);
            if jn < s.len() && s[jn] == 0x2c {
                let jm = skip_ws(s, jn + 1);
                if jm <= i {
                    None
                } else {
                    skip_items(s, jm)
                }
            } else if jn < s.len() && s[jn] == 0x5d {
                Some(jn + 1)
            } else {
                None
            }
        },
    }
}

/// Parse the pairs of a non-empty artist array.
fn parse_artist_items(s: &[u8], i: usize) -> (r: Option<(Vec<(Vec<u8>, u64)>, usize)>)
    requires
        i <= s@.len(),
    ensures
        (match r {
            Some(p) => spec_artist_items(s@, i as int) == Some((pairs_bytes_view(p.0@), p.1 as int))
                && i < p.1 <= s@.len(),
            None => spec_artist_items(s@, i as int) is None,
        }),
    decreases s@.len() - i,
{
    if i >= s.len() || s[i] != 0x5b {
        return None;
    }
    let i1 = skip_ws(s, i + 1);
    match parse_json_string(s, i1) {
        None => None,
        Some((name, j1)) => {
            let j2 = skip_ws(s, j1);
            if !(j2 < s.len() && s[j2] == 0x2c) {
                return None;
            }
            let j3 = skip_ws(s, j2 + 1);
            match parse_u64(s, j3) {
                None => None,
                Some((idv, j4)) => {
                    let j5 = skip_ws(s, j4);
                    if !(j5 < s.len() && s[j5] == 0x5d) {
                        return None;
                    }
                    let j6 = skip_ws(s, j5 + 1);
                    if j6 < s.len() && s[j6] == 0x2c {
                        let j7 = skip_ws(s, j6 + 1);
                        if j7 <= i || j7 > s.len() {
                            None
                        } else {
                            match parse_artist_items(s, j7) {
                                None => None,
                                Some((rest, je)) => {
                                    let ghost restv = rest@;
                                    let ghost namev = name@;
                                    let mut out = rest;
                                    out.insert(0, (name, idv));
                                    proof {
                                        assert(out@ =~= seq![(out@[0].0, idv)] + restv);
                                        assert(pairs_bytes_view(out@) =~= seq![(namev, idv)]
                                            + pairs_bytes_view(restv));
                                    }
                                    Some((out, je))
                                },
                            }
                        }
                    } else if j6 < s.len() && s[j6] == 0x5d {
                        let ghost namev = name@;
                        let mut out: Vec<(Vec<u8>, u64)> = Vec::new();
                        out.push((name, idv));
                        proof {
                            assert(pairs_bytes_view(out@) =~= seq![(namev, idv)]);
                        }
                        Some((out, j6 + 1))
                    } else {
                        None
                    }
                },
            }
        },
    }
}

/// Parse an artist array starting at `i`.
fn parse_artist(s: &[u8], i: usize) -> (r: Option<(Vec<(Vec<u8>, u64)>, usize)>)
    requires
        i <= s@.len(),
    ensures
        (match r {
            Some(p) => spec_parse_artist(s@, i as int) == Some((pairs_bytes_view(p.0@), p.1 as int))
                && i < p.1 <= s@.len(),
            None => spec_parse_artist(s@, i as int) is None,
        }),
{
    if i >= s.len() || s[i] != 0x5b {
        return None;
    }
    let im = skip_ws(s, i + 1);
    if im < s.len() && s[im] == 0x5d {
        let out: Vec<(Vec<u8>, u64)> = Vec::new();
        proof {
            assert(pairs_bytes_view(out@) =~= Seq::<(Seq<u8>, u64)>::empty());
        }
        Some((out, im + 1))
    } else {
        parse_artist_items(s, im)
    }
}

/// Parse the strings of a non-empty alias array.
fn parse_alias_items(s: &[u8], i: usize) -> (r: Option<(Vec<Vec<u8>>, usize)>)
    requires
        i <= s@.len(),
    ensures
        (match r {
            Some(p) => spec_alias_items(s@, i as int) == Some((seqs_view(p.0@), p.1 as int)) && i
                < p.1 <= s@.len(),
            None => spec_alias_items(s@, i as int) is None,
        }),
    decreases s@.len() - i,
{
    if i >= s.len() {
        return None;
    }
    match parse_json_string(s, i) {
        None => None,
        Some((v, j)) => {
            let jn = skip_ws(s, j);
            if jn < s.len() && s[jn] == 0x2c {
                let jm = skip_ws(s, jn + 1);
                if jm <= i {
                    None
                } else {
                    match parse_alias_items(s, jm) {
                        None => None,
                        Some((rest, je)) => {
                            let ghost restv = rest@;
                            let ghost vv = v@;
                            let mut out = rest;
                            out.insert(0, v);
                            proof {
                                assert(out@ =~= seq![out@[0]] + restv);
                                assert(seqs_view(out@) =~= seq![vv] + seqs_view(restv));
                            }
                            Some((out, je))
                        },
                    }
                }
            } else if jn < s.len() && s[jn] == 0x5d {
                let ghost vv = v@;
                let mut out: Vec<Vec<u8>> = Vec::new();
                out.push(v);
                proof {
                    assert(seqs_view(out@) =~= seq![vv]);
                }
                Some((out, jn + 1))
            } else {
                None
            }
        },
    }
}

/// Parse an alias array starting at `i`.
fn parse_alias(s: &[u8], i: usize) -> (r: Option<(Vec<Vec<u8>>, usize)>)
    requires
        i <= s@.len(),
    ensures
        (match r {
            Some(p) => spec_parse_alias(s@, i as int) == Some((seqs_view(p.0@), p.1 as int)) && i
                < p.1 <= s@.len(),
            None => spec_parse_alias(s@, i as int) is None,
        }),
{
    if i >= s.len() || s[i] != 0x5b {
        return None;
    }
    let im = skip_ws(s, i + 1);
    if im < s.len() && s[im] == 0x5d {
        let out: Vec<Vec<u8>> = Vec::new();
        proof {
            assert(seqs_view(out@) =~= Seq::<Seq<u8>>::empty());
        }
        Some((out, im + 1))
    } else {
        parse_alias_items(s, im)
    }
}

/// A `null` literal at `i`.
fn is_null_at(s: &[u8], i: usize) -> (r: bool)
    requires
        i <= s@.len(),
    ensures
        r == spec_is_null(s@, i as int),
{
    s.len() - i >= 4 && s[i] == 0x6e && s[i + 1] == 0x75 && s[i + 2] == 0x6c && s[i + 3] == 0x6c
}

/// The executable accumulator for the metadata object's members.
pub struct MetaAccX {
    pub name: Option<Vec<u8>>,
    pub id: Option<u64>,
    pub album: Option<Vec<u8>>,
    pub artist: Option<Vec<(Vec<u8>, u64)>>,
    pub bitrate: Option<u64>,
    pub duration: Option<u64>,
    pub format: Option<Vec<u8>>,
    pub mv: Option<Option<u64>>,
    pub alias: Option<Option<Vec<Vec<u8>>>>,
}

impl View for MetaAccX {
    type V = MetaAcc;

    open spec fn view(&self) -> MetaAcc {
        MetaAcc {
            name: match self.name {
                Some(v) => Some(v@),
                None => None,
            },
            id: self.id,
            album: match self.album {
                Some(v) => Some(v@),
                None => None,
            },
            artist: match self.artist {
                Some(v) => Some(pairs_bytes_view(v@)),
                None => None,
            },
            bitrate: self.bitrate,
            duration: self.duration,
            format: match self.format {
                Some(v) => Some(v@),
                None => None,
            },
            mv: self.mv,
            alias: match self.alias {
                Some(a) => Some(
                    match a {
                        Some(v) => Some(seqs_view(v@)),
                        None => None,
                    },
                ),
                None => None,
            },
        }
    }
}

/// Compare a decoded key against a 4-byte name.
fn key_eq4(k: &Vec<u8>, b0: u8, b1: u8, b2: u8, b3: u8) -> (r: bool)
    ensures
        r == (k@ == seq![b0, b1, b2, b3]),
{
    let ghost q: Seq<u8> = seq![b0, b1, b2, b3];
    if k.len() != 4 {
        proof {
            assert(k@ != q);
        }
        return false;
    }
    let ok = k[0] == b0 && k[1] == b1 && k[2] == b2 && k[3] == b3;
    proof {
        if ok {
            assert(k@ =~= q);
        } else {
            if k@ == q {
                assert(k@[0] == b0 && k@[1] == b1 && k@[2] == b2 && k@[3] == b3);
            }
        }
    }
    ok
}

/// Compare a decoded key against a 5-byte name.
fn key_eq5(k: &Vec<u8>, b0: u8, b1: u8, b2: u8, b3: u8, b4: u8) -> (r: bool)
    ensures
        r == (k@ == seq![b0, b1, b2, b3, b4]),
{
    let ghost q: Seq<u8> = seq![b0, b1, b2, b3, b4];
    if k.len() != 5 {
        proof {
            assert(k@ != q);
        }
        return false;
    }
    let ok = k[0] == b0 && k[1] == b1 && k[2] == b2 && k[3] == b3 && k[4] == b4;
    proof {
        if ok {
            assert(k@ =~= q);
        } else {
            if k@ == q {
                assert(k@[0] == b0 && k@[1] == b1 && k@[2] == b2 && k@[3] == b3 && k@[4] == b4);
            }
        }
    }
    ok
}

/// Compare a decoded key against a 6-byte name.
fn key_eq6(k: &Vec<u8>, b0: u8, b1: u8, b2: u8, b3: u8, b4: u8, b5: u8) -> (r: bool)
    ensures
        r == (k@ == seq![b0, b1, b2, b3, b4, b5]),
{
    let ghost q: Seq<u8> = seq![b0, b1, b2, b3, b4, b5];
    if k.len() != 6 {
        proof {
            assert(k@ != q);
        }
        return false;
    }
    let ok = k[0] == b0 && k[1] == b1 && k[2] == b2 && k[3] == b3 && k[4] == b4 && k[5] == b5;
    proof {
        if ok {
            assert(k@ =~= q);
        } else {
            if k@ == q {
                assert(k@[0] == b0 && k@[1] == b1 && k@[2] == b2 && k@[3] == b3 && k@[4] == b4
                    && k@[5] == b5);
            }
        }
    }
    ok
}

/// Compare a decoded key against a 7-byte name.
fn key_eq7(k: &Vec<u8>, b0: u8, b1: u8, b2: u8, b3: u8, b4: u8, b5: u8, b6: u8) -> (r: bool)
    ensures
        r == (k@ == seq![b0, b1, b2, b3, b4, b5, b6]),
{
    let ghost q: Seq<u8> = seq![b0, b1, b2, b3, b4, b5, b6];
    if k.len() != 7 {
        proof {
            assert(k@ != q);
        }
        return false;
    }
    let ok = k[0] == b0 && k[1] == b1 && k[2] == b2 && k[3] == b3 && k[4] == b4 && k[5] == b5 && k[6]
        == b6;
    proof {
        if ok {
            assert(k@ =~= q);
        } else {
            if k@ == q {
                assert(k@[0] == b0 && k@[1] == b1 && k@[2] == b2 && k@[3] == b3 && k@[4] == b4
                    && k@[5] == b5 && k@[6] == b6);
            }
        }
    }
    ok
}

/// Compare a decoded key against an 8-byte name.
fn key_eq8(k: &Vec<u8>, b0: u8, b1: u8, b2: u8, b3: u8, b4: u8, b5: u8, b6: u8, b7: u8) -> (r:
    bool)
    ensures
        r == (k@ == seq![b0, b1, b2, b3, b4, b5, b6, b7]),
{
    let ghost q: Seq<u8> = seq![b0, b1, b2, b3, b4, b5, b6, b7];
    if k.len() != 8 {
        proof {
            assert(k@ != q);
        }
        return false;
    }
    let ok = k[0] == b0 && k[1] == b1 && k[2] == b2 && k[3] == b3 && k[4] == b4 && k[5] == b5 && k[6]
        == b6 && k[7] == b7;
    proof {
        if ok {
            assert(k@ =~= q);
        } else {
            if k@ == q {
                assert(k@[0] == b0 && k@[1] == b1 && k@[2] == b2 && k@[3] == b3 && k@[4] == b4
                    && k@[5] == b5 && k@[6] == b6 && k@[7] == b7);
            }
        }
    }
    ok
}

/// Compare a decoded key against a 9-byte name.
fn key_eq9(
    k: &Vec<u8>,
    b0: u8,
    b1: u8,
    b2: u8,
    b3: u8,
    b4: u8,
    b5: u8,
    b6: u8,
    b7: u8,
    b8: u8,
) -> (r: bool)
    ensures
        r == (k@ == seq![b0, b1, b2, b3, b4, b5, b6, b7, b8]),
{
    let ghost q: Seq<u8> = seq![b0, b1, b2, b3, b4, b5, b6, b7, b8];
    if k.len() != 9 {
        proof {
            assert(k@ != q);
        }
        return false;
    }
    let ok = k[0] == b0 && k[1] == b1 && k[2] == b2 && k[3] == b3 && k[4] == b4 && k[5] == b5 && k[6]
        == b6 && k[7] == b7 && k[8] == b8;
    proof {
        if ok {
            assert(k@ =~= q);
        } else {
            if k@ == q {
                assert(k@[0] == b0 && k@[1] == b1 && k@[2] == b2 && k@[3] == b3 && k@[4] == b4
                    && k@[5] == b5 && k@[6] == b6 && k@[7] == b7 && k@[8] == b8);
            }
        }
    }
    ok
}

/// Parse a known string field's value.
fn mv_string_field(s: &[u8], jv: usize, seen: bool) -> (r: Option<(Vec<u8>, usize)>)
    requires
        jv <= s@.len(),
    ensures
        (match r {
            Some(p) => !seen && spec_json_string(s@, jv as int) == Some((p.0@, p.1 as int)) && jv
                < p.1 <= s@.len(),
            None => seen || spec_json_string(s@, jv as int) is None,
        }),
{
    if seen {
        return None;
    }
    parse_json_string(s, jv)
}

/// Parse a known unsigned field's value.
fn mv_u64_field(s: &[u8], jv: usize, seen: bool) -> (r: Option<(u64, usize)>)
    requires
        jv <= s@.len(),
    ensures
        (match r {
            Some(p) => !seen && spec_parse_u64(s@, jv as int) == Some((p.0, p.1 as int)) && jv
                < p.1 <= s@.len(),
            None => seen || spec_parse_u64(s@, jv as int) is None,
        }),
{
    if seen {
        return None;
    }
    parse_u64(s, jv)
}

/// Parse one member's value, dispatched on the decoded key.
#[verifier::rlimit(50)]
fn parse_member_value(s: &[u8], jv: usize, acc: MetaAccX, key: &Vec<u8>) -> (r: Option<
    (MetaAccX, usize),
>)
    requires
        jv <= s@.len(),
    ensures
        (match r {
            Some(p) => spec_member_value(s@, jv as int, acc@, key@) == Some((p.0@, p.1 as int))
                && jv < p.1 <= s@.len(),
            None => spec_member_value(s@, jv as int, acc@, key@) is None,
        }),
{
    if key_eq9(key, 0x6d, 0x75, 0x73, 0x69, 0x63, 0x4e, 0x61, 0x6d, 0x65) {
        match mv_string_field(s, jv, acc.name.is_some()) {
            None => None,
            Some((v, je)) => {
                let mut acc2 = acc;
                acc2.name = Some(v);
                Some((acc2, je))
            },
        }
    } else if key_eq7(key, 0x6d, 0x75, 0x73, 0x69, 0x63, 0x49, 0x64) {
        match mv_u64_field(s, jv, acc.id.is_some()) {
            None => None,
            Some((v, je)) => {
                let mut acc2 = acc;
                acc2.id = Some(v);
                Some((acc2, je))
            },
        }
    } else if key_eq5(key, 0x61, 0x6c, 0x62, 0x75, 0x6d) {
        match mv_string_field(s, jv, acc.album.is_some()) {
            None => None,
            Some((v, je)) => {
                let mut acc2 = acc;
                acc2.album = Some(v);
                Some((acc2, je))
            },
        }
    } else if key_eq6(key, 0x61, 0x72, 0x74, 0x69, 0x73, 0x74) {
        if acc.artist.is_some() {
            return None;
        }
        match parse_artist(s, jv) {
            None => None,
            Some((v, je)) => {
                let mut acc2 = acc;
                acc2.artist = Some(v);
                Some((acc2, je))
            },
        }
    } else if key_eq7(key, 0x62, 0x69, 0x74, 0x72, 0x61, 0x74, 0x65) {
        match mv_u64_field(s, jv, acc.bitrate.is_some()) {
            None => None,
            Some((v, je)) => {
                let mut acc2 = acc;
                acc2.bitrate = Some(v);
                Some((acc2, je))
            },
        }
    } else if key_eq8(key, 0x64, 0x75, 0x72, 0x61, 0x74, 0x69, 0x6f, 0x6e) {
        match mv_u64_field(s, jv, acc.duration.is_some()) {
            None => None,
            Some((v, je)) => {
                let mut acc2 = acc;
                acc2.duration = Some(v);
                Some((acc2, je))
            },
        }
    } else if key_eq6(key, 0x66, 0x6f, 0x72, 0x6d, 0x61, 0x74) {
        match mv_string_field(s, jv, acc.format.is_some()) {
            None => None,
            Some((v, je)) => {
                let mut acc2 = acc;
                acc2.format = Some(v);
                Some((acc2, je))
            },
        }
    } else if key_eq4(key, 0x6d, 0x76, 0x49, 0x64) {
        if acc.mv.is_some() {
            return None;
        }
        if is_null_at(s, jv) {
            let n = s.len();
            proof {
                assert(jv + 4 <= n);
            }
            let mut acc2 = acc;
            acc2.mv = Some(None);
            return Some((acc2, jv + 4));
        }
        match parse_u64(s, jv) {
            None => None,
            Some((v, je)) => {
                let mut acc2 = acc;
                acc2.mv = Some(Some(v));
                Some((acc2, je))
            },
        }
    } else if key_eq5(key, 0x61, 0x6c, 0x69, 0x61, 0x73) {
        if acc.alias.is_some() {
            return None;
        }
        if is_null_at(s, jv) {
            let n = s.len();
            proof {
                assert(jv + 4 <= n);
            }
            let mut acc2 = acc;
            acc2.alias = Some(None);
            return Some((acc2, jv + 4));
        }
        match parse_alias(s, jv) {
            None => None,
            Some((v, je)) => {
                let mut acc2 = acc;
                acc2.alias = Some(Some(v));
                Some((acc2, je))
            },
        }
    } else {
        match skip_value(s, jv) {
            None => None,
            Some(je) => Some((acc, je)),
        }
    }
}

/// Parse the members of the metadata object from the first key at `i`.
fn parse_members(s: &[u8], i: usize, acc: MetaAccX) -> (r: Option<(MetaAccX, usize)>)
    requires
        i <= s@.len(),
    ensures
        (match r {
            Some(p) => spec_members(s@, i as int, acc@) == Some((p.0@, p.1 as int)) && i < p.1
                <= s@.len(),
            None => spec_members(s@, i as int, acc@) is None,
        }),
    decreases s@.len() - i,
{
    if i >= s.len() || s[i] != 0x22 {
        return None;
    }
    match parse_string_body(s, i + 1) {
        None => None,
        Some((key, jk)) => {
            let jc = skip_ws(s, jk);
            if !(jc < s.len() && s[jc] == 0x3a) {
                return None;
            }
            let jv = skip_ws(s, jc + 1);
            match parse_member_value(s, jv, acc, &key) {
                None => None,
                Some((acc2, je)) => {
                    let jn = skip_ws(s, je);
                    if jn < s.len() && s[jn] == 0x2c {
                        let jm = skip_ws(s, jn + 1);
                        if jm <= i || jm > s.len() {
                            None
                        } else {
                            parse_members(s, jm, acc2)
                        }
                    } else if jn < s.len() && s[jn] == 0x7d {
                        Some((acc2, jn + 1))
                    } else {
                        None
                    }
                },
            }
        },
    }
}

/// The parsed metadata record, its strings still the decoded bytes.
pub struct MetaParsed {
    pub name: Vec<u8>,
    pub id: u64,
    pub album: Vec<u8>,
    pub artist: Vec<(Vec<u8>, u64)>,
    pub bitrate: u64,
    pub duration: u64,
    pub format: Vec<u8>,
    pub mv: Option<u64>,
    pub alias: Option<Vec<Vec<u8>>>,
}

impl View for MetaParsed {
    type V = MetaBytes;

    open spec fn view(&self) -> MetaBytes {
        MetaBytes {
            name: self.name@,
            id: self.id,
            album: self.album@,
            artist: pairs_bytes_view(self.artist@),
            bitrate: self.bitrate,
            duration: self.duration,
            format: self.format@,
            mv: self.mv,
            alias: match self.alias {
                Some(v) => Some(seqs_view(v@)),
                None => None,
            },
        }
    }
}

/// Check the end of the text and the presence of the required fields.
fn finish_meta(acc: MetaAccX, s: &[u8], j: usize) -> (r: Option<MetaParsed>)
    requires
        j <= s@.len(),
    ensures
        (match r {
            Some(m) => spec_finish_meta(acc@, s@, j as int) == Some(m@),
            None => spec_finish_meta(acc@, s@, j as int) is None,
        }),
{
    let je = skip_ws(s, j);
    if je != s.len() {
        return None;
    }
    match (acc.name, acc.id, acc.album, acc.artist, acc.bitrate, acc.duration, acc.format) {
        (
            Some(name),
            Some(id),
            Some(album),
            Some(artist),
            Some(bitrate),
            Some(duration),
            Some(format),
        ) => {
            let mv = match acc.mv {
                Some(m) => m,
                None => None,
            };
            let alias = match acc.alias {
                Some(a) => a,
                None => None,
            };
            Some(MetaParsed { name, id, album, artist, bitrate, duration, format, mv, alias })
        },
        _ => None,
    }
}

/// Parse a whole metadata text: one JSON object of the record's shape with
/// nothing but whitespace around it.
pub fn parse_meta(s: &[u8]) -> (r: Option<MetaParsed>)
    ensures
        (match r {
            Some(m) => spec_parse_meta(s@) == Some(m@),
            None => spec_parse_meta(s@) is None,
        }),
{
    let i = skip_ws(s, 0);
    if !(i < s.len() && s[i] == 0x7b) {
        return None;
    }
    let im = skip_ws(s, i + 1);
    let acc0 = MetaAccX {
        name: None,
        id: None,
        album: None,
        artist: None,
        bitrate: None,
        duration: None,
        format: None,
        mv: None,
        alias: None,
    };
    proof {
        assert(acc0@ == empty_acc());
    }
    if im < s.len() && s[im] == 0x7d {
        finish_meta(acc0, s, im + 1)
    } else {
        match parse_members(s, im, acc0) {
            None => None,
            Some((acc, j)) => finish_meta(acc, s, j),
        }
    }
}

} // verus!
