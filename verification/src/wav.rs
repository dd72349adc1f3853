//! RIFF/WAVE handling for panned playback: the chunk layout of a synthesized
//! PCM16 file, its samples, and the file rebuilt from scaled samples (a mono
//! file becomes stereo).
use vstd::prelude::*;
use crate::text::{decimal, u64_to_decimal, extend_str, chars_to_string};

verus! {

/// Little-endian value of two bytes.
pub open spec fn le16(b: Seq<u8>, at: int) -> nat {
    (b[at] + 256 * b[at + 1]) as nat
}

/// Little-endian value of four bytes.
pub open spec fn le32(b: Seq<u8>, at: int) -> nat {
    (b[at] + 256 * b[at + 1] + 65536 * b[at + 2] + 16777216 * b[at + 3]) as nat
}

/// Reads a little-endian `u16` from the first two bytes.
pub fn read_u16_le(bytes: &[u8]) -> (r: u16)
    requires
        bytes@.len() >= 2,
    ensures
        r == le16(bytes@, 0),
{
    bytes[0] as u16 + (bytes[1] as u16) * 256
}

/// Reads a little-endian `u32` from the first four bytes.
pub fn read_u32_le(bytes: &[u8]) -> (r: u32)
    requires
        bytes@.len() >= 4,
    ensures
        r == le32(bytes@, 0),
{
    bytes[0] as u32 + (bytes[1] as u32) * 256 + (bytes[2] as u32) * 65536 + (bytes[3] as u32)
        * 16777216
}

/// Byte `k` (0 = least significant) of `v`.
pub open spec fn byte_of(v: nat, k: nat) -> u8
    decreases k,
{
    if k == 0 {
        (v % 256) as u8
    } else {
        byte_of(v / 256, (k - 1) as nat)
    }
}

/// `s` with the two bytes of `v` written at `at`.
pub open spec fn put16(s: Seq<u8>, at: int, v: nat) -> Seq<u8> {
    s.update(at, byte_of(v, 0)).update(at + 1, byte_of(v, 1))
}

/// `s` with the four bytes of `v` written at `at`.
pub open spec fn put32(s: Seq<u8>, at: int, v: nat) -> Seq<u8> {
    s.update(at, byte_of(v, 0)).update(at + 1, byte_of(v, 1)).update(at + 2, byte_of(v, 2)).update(
        at + 3,
        byte_of(v, 3),
    )
}

fn u16_bytes(value: u16) -> (r: (u8, u8))
    ensures
        r.0 == byte_of(value as nat, 0),
        r.1 == byte_of(value as nat, 1),
{
    proof {
        reveal_with_fuel(byte_of, 2);
    }
    ((value % 256) as u8, (value / 256) as u8)
}

fn u32_bytes(value: u32) -> (r: (u8, u8, u8, u8))
    ensures
        r.0 == byte_of(value as nat, 0),
        r.1 == byte_of(value as nat, 1),
        r.2 == byte_of(value as nat, 2),
        r.3 == byte_of(value as nat, 3),
{
    proof {
        reveal_with_fuel(byte_of, 4);
        let v = value as nat;
        assert(v / 256 / 256 == v / 65536) by (nonlinear_arith);
        assert(v / 256 / 256 / 256 == v / 16777216) by (nonlinear_arith);
    }
    (
        (value % 256) as u8,
        (value / 256 % 256) as u8,
        (value / 65536 % 256) as u8,
        (value / 16777216) as u8,
    )
}

/// Writes `value` little-endian into a two-byte slice.
pub fn write_u16_le(bytes: &mut [u8], value: u16)
    requires
        old(bytes)@.len() == 2,
    ensures
        final(bytes)@ == put16(old(bytes)@, 0, value as nat),
{
    let (a, b) = u16_bytes(value);
    bytes[0] = a;
    bytes[1] = b;
}

/// Writes `value` little-endian into a four-byte slice.
pub fn write_u32_le(bytes: &mut [u8], value: u32)
    requires
        old(bytes)@.len() == 4,
    ensures
        final(bytes)@ == put32(old(bytes)@, 0, value as nat),
{
    let (a, b, c, d) = u32_bytes(value);
    bytes[0] = a;
    bytes[1] = b;
    bytes[2] = c;
    bytes[3] = d;
}

/// Why a synthesized file cannot be panned.
#[derive(Debug, Clone, Copy, PartialEq, Eq, Structural)]
pub enum WavError {
    TooShort,
    NotRiffWave,
    ChunkSizeOverflow,
    ChunkPastEnd,
    FmtNotFound,
    DataNotFound,
    UnsupportedChunkOrder,
    InvalidFmt,
    NotPcm16,
    InvalidData,
    UnsupportedChannels(u16),
    DataTooLarge,
    ByteRateOverflow,
    RiffTooLarge,
}

pub open spec fn wav_error_message(e: WavError) -> Seq<char> {
    match e {
        WavError::TooShort => "generated WAV is too short"@,
        WavError::NotRiffWave => "generated audio is not RIFF/WAVE"@,
        WavError::ChunkSizeOverflow => "WAV chunk size overflow"@,
        WavError::ChunkPastEnd => "WAV chunk extends past buffer"@,
        WavError::FmtNotFound => "WAV fmt chunk not found"@,
        WavError::DataNotFound => "WAV data chunk not found"@,
        WavError::UnsupportedChunkOrder => "unsupported WAV chunk order for pan processing"@,
        WavError::InvalidFmt => "invalid WAV fmt chunk"@,
        WavError::NotPcm16 => "pan processing supports only PCM16 WAV"@,
        WavError::InvalidData => "invalid WAV data chunk"@,
        WavError::UnsupportedChannels(n) => "pan processing supports only mono/stereo WAV (got "@
            + decimal(n as nat) + " ch)"@,
        WavError::DataTooLarge => "WAV data size is too large after pan processing"@,
        WavError::ByteRateOverflow => "WAV byte rate overflow"@,
        WavError::RiffTooLarge => "WAV RIFF size is too large after pan processing"@,
    }
}

impl WavError {
    /// The text reported for this error.
    pub fn message(&self) -> (r: String)
        ensures
            r@ == wav_error_message(*self),
    {
        match self {
            WavError::TooShort => String::from_str("generated WAV is too short"),
            WavError::NotRiffWave => String::from_str("generated audio is not RIFF/WAVE"),
            WavError::ChunkSizeOverflow => String::from_str("WAV chunk size overflow"),
            WavError::ChunkPastEnd => String::from_str("WAV chunk extends past buffer"),
            WavError::FmtNotFound => String::from_str("WAV fmt chunk not found"),
            WavError::DataNotFound => String::from_str("WAV data chunk not found"),
            WavError::UnsupportedChunkOrder => String::from_str(
                "unsupported WAV chunk order for pan processing",
            ),
            WavError::InvalidFmt => String::from_str("invalid WAV fmt chunk"),
            WavError::NotPcm16 => String::from_str("pan processing supports only PCM16 WAV"),
            WavError::InvalidData => String::from_str("invalid WAV data chunk"),
            WavError::UnsupportedChannels(n) => {
                let mut v: Vec<char> = Vec::new();
                extend_str(&mut v, "pan processing supports only mono/stereo WAV (got ");
                let d = u64_to_decimal(*n as u64);
                let mut i: usize = 0;
                let ghost start = v@;
                while i < d.len()
                    invariant
                        i <= d.len(),
                        v@ == start + d@.subrange(0, i as int),
                    decreases d.len() - i,
                {
                    v.push(d[i]);
                    i = i + 1;
                    assert(v@ =~= start + d@.subrange(0, i as int));
                }
                assert(d@.subrange(0, d.len() as int) =~= d@);
                extend_str(&mut v, " ch)");
                chars_to_string(&v)
            },
            WavError::DataTooLarge => String::from_str(
                "WAV data size is too large after pan processing",
            ),
            WavError::ByteRateOverflow => String::from_str("WAV byte rate overflow"),
            WavError::RiffTooLarge => String::from_str(
                "WAV RIFF size is too large after pan processing",
            ),
        }
    }
}

pub open spec fn tag_riff() -> Seq<u8> {
    seq![0x52u8, 0x49u8, 0x46u8, 0x46u8]
}

pub open spec fn tag_wave() -> Seq<u8> {
    seq![0x57u8, 0x41u8, 0x56u8, 0x45u8]
}

pub open spec fn tag_fmt() -> Seq<u8> {
    seq![0x66u8, 0x6du8, 0x74u8, 0x20u8]
}

pub open spec fn tag_data() -> Seq<u8> {
    seq![0x64u8, 0x61u8, 0x74u8, 0x61u8]
}

/// The last `fmt ` and `data` chunks met so far, each as (start, size).
pub struct ChunkScan {
    pub fmt: Option<(nat, nat)>,
    pub data: Option<(nat, nat)>,
}

/// Walks the chunks from `cursor` to the end of the file; a chunk of odd
/// size is followed by one pad byte.
pub open spec fn scan_chunks(w: Seq<u8>, cursor: nat, acc: ChunkScan) -> Result<ChunkScan, WavError>
    decreases w.len() + 2 - cursor,
{
    if cursor + 8 > w.len() {
        Ok(acc)
    } else {
        let size = le32(w, (cursor + 4) as int);
        let end = cursor + 8 + size;
        if end > usize::MAX {
            Err(WavError::ChunkSizeOverflow)
        } else if end > w.len() {
            Err(WavError::ChunkPastEnd)
        } else {
            let next = acc_chunk(w, cursor, size, acc);
            scan_chunks(w, (end + size % 2) as nat, next)
        }
    }
}

/// The scan after the chunk at `cursor` of the given size.
pub open spec fn acc_chunk(w: Seq<u8>, cursor: nat, size: nat, acc: ChunkScan) -> ChunkScan {
    if w.subrange(cursor as int, (cursor + 4) as int) == tag_fmt() {
        ChunkScan { fmt: Some((cursor, size)), ..acc }
    } else if w.subrange(cursor as int, (cursor + 4) as int) == tag_data() {
        ChunkScan { data: Some((cursor, size)), ..acc }
    } else {
        acc
    }
}

/// Where the chunks of a PCM16 file lie, and what the panning needs of its format.
#[derive(Debug, Clone, Copy, PartialEq, Eq, Structural)]
pub struct WavLayout {
    /// Start of the `fmt ` chunk header.
    pub fmt_start: usize,
    /// Start of the `data` chunk header.
    pub data_start: usize,
    /// Size of the `data` chunk's payload.
    pub data_size: usize,
    pub channels: u16,
    pub sample_rate: u32,
}

/// The layout of a file whose panning is asked for, or why it cannot be panned.
pub open spec fn wav_layout(w: Seq<u8>) -> Result<WavLayout, WavError> {
    if w.len() < 44 {
        Err(WavError::TooShort)
    } else if !(w.subrange(0, 4) == tag_riff() && w.subrange(8, 12) == tag_wave()) {
        Err(WavError::NotRiffWave)
    } else {
        match scan_chunks(w, 12, ChunkScan { fmt: None, data: None }) {
            Err(e) => Err(e),
            Ok(s) => {
                if s.fmt is None {
                    Err(WavError::FmtNotFound)
                } else if s.data is None {
                    Err(WavError::DataNotFound)
                } else {
                    let f = s.fmt.unwrap().0;
                    let d = s.data.unwrap().0;
                    let dsize = s.data.unwrap().1;
                    let fsize = le32(w, (f + 4) as int);
                    if f > d {
                        Err(WavError::UnsupportedChunkOrder)
                    } else if fsize < 16 || f + 8 + fsize > w.len() {
                        Err(WavError::InvalidFmt)
                    } else if le16(w, (f + 8) as int) != 1 || le16(w, (f + 22) as int) != 16 {
                        Err(WavError::NotPcm16)
                    } else if d + 8 + dsize > w.len() {
                        Err(WavError::InvalidData)
                    } else if le16(w, (f + 10) as int) != 1 && le16(w, (f + 10) as int) != 2 {
                        Err(WavError::UnsupportedChannels(le16(w, (f + 10) as int) as u16))
                    } else {
                        Ok(
                            WavLayout {
                                fmt_start: f as usize,
                                data_start: d as usize,
                                data_size: dsize as usize,
                                channels: le16(w, (f + 10) as int) as u16,
                                sample_rate: le32(w, (f + 12) as int) as u32,
                            },
                        )
                    }
                }
            },
        }
    }
}

/// What the walk keeps: every chunk met ends inside the file and before the
/// cursor, and a `fmt ` chunk met before the `data` chunk ends before it.
pub open spec fn scan_inv(w: Seq<u8>, cursor: nat, acc: ChunkScan) -> bool {
    &&& acc.fmt is Some ==> {
        let (f, fs) = acc.fmt.unwrap();
        &&& f + 8 + fs <= w.len()
        &&& f + 8 + fs <= cursor
        &&& fs == le32(w, (f + 4) as int)
        &&& w.subrange(f as int, (f + 4) as int) == tag_fmt()
    }
    &&& acc.data is Some ==> {
        let (d, ds) = acc.data.unwrap();
        &&& d + 8 + ds <= w.len()
        &&& d + 8 + ds <= cursor
        &&& w.subrange(d as int, (d + 4) as int) == tag_data()
    }
    &&& (acc.fmt is Some && acc.data is Some && acc.fmt.unwrap().0 < acc.data.unwrap().0) ==> acc.fmt.unwrap().0 + 8 + acc.fmt.unwrap().1 <= acc.data.unwrap().0
}

proof fn lemma_scan_inv(w: Seq<u8>, cursor: nat, acc: ChunkScan)
    requires
        scan_inv(w, cursor, acc),
    ensures
        scan_chunks(w, cursor, acc) matches Ok(s) ==> scan_inv(w, w.len(), s),
    decreases w.len() + 2 - cursor,
{
    if cursor + 8 > w.len() {
    } else {
        let size = le32(w, (cursor + 4) as int);
        let end = cursor + 8 + size;
        if end <= usize::MAX && end <= w.len() {
            let next = acc_chunk(w, cursor, size, acc);
            lemma_scan_inv(w, (end + size % 2) as nat, next);
        }
    }
}

/// In a file that can be panned, the `fmt ` chunk (of at least 16 bytes)
/// ends before the `data` chunk starts, and both end inside the file.
pub proof fn lemma_layout_bounds(w: Seq<u8>)
    requires
        wav_layout(w) is Ok,
        w.len() <= usize::MAX,
    ensures
        ({
            let l = wav_layout(w)->Ok_0;
            &&& l.fmt_start + 24 <= l.data_start
            &&& l.data_start + 8 + l.data_size <= w.len()
            &&& l.channels == 1 || l.channels == 2
        }),
{
    lemma_scan_inv(w, 12, ChunkScan { fmt: None, data: None });
    let s = scan_chunks(w, 12, ChunkScan { fmt: None, data: None })->Ok_0;
    let f = s.fmt.unwrap().0;
    let d = s.data.unwrap().0;
    if f == d {
        assert(w.subrange(f as int, (f + 4) as int)[1] == tag_fmt()[1]);
        assert(w.subrange(d as int, (d + 4) as int)[1] == tag_data()[1]);
    }
}


pub open spec fn scan_of(fmt: Option<(usize, usize)>, data: Option<(usize, usize)>) -> ChunkScan {
    ChunkScan {
        fmt: match fmt {
            Some(p) => Some((p.0 as nat, p.1 as nat)),
            None => None,
        },
        data: match data {
            Some(p) => Some((p.0 as nat, p.1 as nat)),
            None => None,
        },
    }
}

fn tag_at(s: &[u8], at: usize, t0: u8, t1: u8, t2: u8, t3: u8) -> (r: bool)
    requires
        at + 4 <= s@.len(),
    ensures
        r == (s@.subrange(at as int, at + 4) == seq![t0, t1, t2, t3]),
{
    let r = s[at] == t0 && s[at + 1] == t1 && s[at + 2] == t2 && s[at + 3] == t3;
    proof {
        if r {
            assert(s@.subrange(at as int, at + 4) =~= seq![t0, t1, t2, t3]);
        } else if s@.subrange(at as int, at + 4) == seq![t0, t1, t2, t3] {
            assert(s@.subrange(at as int, at + 4)[0] == t0);
            assert(s@.subrange(at as int, at + 4)[1] == t1);
            assert(s@.subrange(at as int, at + 4)[2] == t2);
            assert(s@.subrange(at as int, at + 4)[3] == t3);
        }
    }
    r
}

fn u16_at(s: &[u8], at: usize) -> (r: u16)
    requires
        at + 2 <= s@.len(),
    ensures
        r == le16(s@, at as int),
{
    let _n = s.len();
    let part = &s[at..at + 2];
    assert(part@[0] == s@[at as int] && part@[1] == s@[at + 1]);
    read_u16_le(part)
}

fn u32_at(s: &[u8], at: usize) -> (r: u32)
    requires
        at + 4 <= s@.len(),
    ensures
        r == le32(s@, at as int),
{
    let _n = s.len();
    let part = &s[at..at + 4];
    assert(part@[0] == s@[at as int] && part@[1] == s@[at + 1] && part@[2] == s@[at + 2]
        && part@[3] == s@[at + 3]);
    read_u32_le(part)
}

/// Finds the `fmt ` and `data` chunks of a file and checks that it is
/// mono or stereo PCM16.
pub fn parse_wav_layout(wav: &Vec<u8>) -> (r: Result<WavLayout, WavError>)
    requires
        wav@.len() <= isize::MAX,
    ensures
        r == wav_layout(wav@),
{
    let s = wav.as_slice();
    let n = s.len();
    let ghost w = wav@;
    if n < 44 {
        return Err(WavError::TooShort);
    }
    if !(tag_at(s, 0, 0x52, 0x49, 0x46, 0x46) && tag_at(s, 8, 0x57, 0x41, 0x56, 0x45)) {
        return Err(WavError::NotRiffWave);
    }
    let mut fmt: Option<(usize, usize)> = None;
    let mut data: Option<(usize, usize)> = None;
    let mut cursor: usize = 12;
    while cursor + 8 <= n
        invariant
            s@ == w,
            w == wav@,
            n == w.len(),
            n <= isize::MAX,
            n >= 44,
            w.subrange(0, 4) == tag_riff(),
            w.subrange(8, 12) == tag_wave(),
            12 <= cursor <= n + 1,
            scan_chunks(w, 12, ChunkScan { fmt: None, data: None }) == scan_chunks(
                w,
                cursor as nat,
                scan_of(fmt, data),
            ),
            scan_inv(w, cursor as nat, scan_of(fmt, data)),
        decreases n + 2 - cursor,
    {
        let chunk_size = u32_at(s, cursor + 4) as usize;
        assert(chunk_size == le32(w, (cursor + 4) as int));
        let chunk_data_start = cursor + 8;
        let chunk_data_end = match chunk_data_start.checked_add(chunk_size) {
            Some(e) => e,
            None => {
                return Err(WavError::ChunkSizeOverflow);
            },
        };
        if chunk_data_end > n {
            return Err(WavError::ChunkPastEnd);
        }
        let ghost before = scan_of(fmt, data);
        if tag_at(s, cursor, 0x66, 0x6d, 0x74, 0x20) {
            fmt = Some((cursor, chunk_size));
        } else if tag_at(s, cursor, 0x64, 0x61, 0x74, 0x61) {
            data = Some((cursor, chunk_size));
        }
        assert(scan_of(fmt, data) == acc_chunk(w, cursor as nat, chunk_size as nat, before));
        cursor = chunk_data_end + chunk_size % 2;
    }
    let (f, _) = match fmt {
        Some(p) => p,
        None => {
            return Err(WavError::FmtNotFound);
        },
    };
    let (d, data_size) = match data {
        Some(p) => p,
        None => {
            return Err(WavError::DataNotFound);
        },
    };
    if f > d {
        return Err(WavError::UnsupportedChunkOrder);
    }
    let fmt_chunk_size = u32_at(s, f + 4) as usize;
    let fmt_data_start = f + 8;
    if fmt_chunk_size < 16 || fmt_data_start + fmt_chunk_size > n {
        return Err(WavError::InvalidFmt);
    }
    let audio_format = u16_at(s, fmt_data_start);
    let channels = u16_at(s, fmt_data_start + 2);
    let sample_rate = u32_at(s, fmt_data_start + 4);
    let bits_per_sample = u16_at(s, fmt_data_start + 14);
    if audio_format != 1 || bits_per_sample != 16 {
        return Err(WavError::NotPcm16);
    }
    let data_end = d + 8 + data_size;
    if data_end > n {
        return Err(WavError::InvalidData);
    }
    if channels != 1 && channels != 2 {
        return Err(WavError::UnsupportedChannels(channels));
    }
    Ok(WavLayout { fmt_start: f, data_start: d, data_size, channels, sample_rate })
}

/// The PCM16 sample stored little-endian at `at`.
pub open spec fn sample_value(w: Seq<u8>, at: int) -> i16 {
    let v = le16(w, at);
    if v < 32768 {
        v as i16
    } else {
        (v - 65536) as i16
    }
}

/// How many samples the panning reads: whole frames of a stereo file (two
/// samples each), whole samples of a mono one.
pub open spec fn sample_count(l: WavLayout) -> nat {
    if l.channels == 2 {
        2 * (l.data_size as nat / 4)
    } else {
        l.data_size as nat / 2
    }
}

/// How many scaled samples the rebuilt file holds: as many as were read for
/// stereo, a left and a right one per sample for mono.
pub open spec fn scaled_count(l: WavLayout) -> nat {
    if l.channels == 2 {
        sample_count(l)
    } else {
        2 * sample_count(l)
    }
}

/// Byte `k` of the little-endian encoding of a sample.
pub open spec fn sample_byte(v: i16, k: nat) -> u8 {
    byte_of(
        if v >= 0 {
            v as nat
        } else {
            (v + 65536) as nat
        },
        k,
    )
}

/// The little-endian encoding of samples, one after the other.
pub open spec fn samples_bytes(s: Seq<i16>) -> Seq<u8> {
    Seq::new(2 * s.len(), |i: int| sample_byte(s[i / 2], (i % 2) as nat))
}

/// `w` with the samples written over the bytes from `at`.
pub open spec fn write_samples(w: Seq<u8>, at: int, s: Seq<i16>) -> Seq<u8> {
    Seq::new(
        w.len(),
        |i: int|
            if at <= i < at + 2 * s.len() {
                sample_byte(s[(i - at) / 2], ((i - at) % 2) as nat)
            } else {
                w[i]
            },
    )
}

/// The file carrying the scaled samples: a stereo file keeps its layout; a
/// mono file gets stereo data (an odd last byte of the data is dropped) and
/// the header fields that follow from it.
pub open spec fn panned_wav(w: Seq<u8>, l: WavLayout, scaled: Seq<i16>) -> Result<Seq<u8>, WavError> {
    let d = l.data_start as int;
    let f = l.fmt_start as int;
    if l.channels == 2 {
        Ok(write_samples(w, d + 8, scaled))
    } else {
        let new_data = samples_bytes(scaled);
        let body = w.subrange(0, d + 8) + new_data + w.subrange(d + 8 + l.data_size, w.len() as int);
        if new_data.len() > u32::MAX {
            Err(WavError::DataTooLarge)
        } else if l.sample_rate * 4 > u32::MAX {
            Err(WavError::ByteRateOverflow)
        } else if body.len() - 8 > u32::MAX {
            Err(WavError::RiffTooLarge)
        } else {
            Ok(
                put32(
                    put32(
                        put16(put16(put32(body, d + 4, new_data.len()), f + 10, 2), f + 20, 4),
                        f + 16,
                        (l.sample_rate * 4) as nat,
                    ),
                    4,
                    (body.len() - 8) as nat,
                ),
            )
        }
    }
}

fn sample_at(s: &[u8], at: usize) -> (r: i16)
    requires
        at + 2 <= s@.len(),
    ensures
        r == sample_value(s@, at as int),
{
    let v = u16_at(s, at);
    if v < 32768 {
        v as i16
    } else {
        (v as i32 - 65536) as i16
    }
}

/// The samples that panning scales, in file order.
pub fn pcm16_samples(wav: &Vec<u8>, layout: WavLayout) -> (r: Vec<i16>)
    requires
        wav_layout(wav@) == Ok::<WavLayout, WavError>(layout),
    ensures
        r@.len() == sample_count(layout),
        forall|k: int|
            0 <= k < r@.len() ==> #[trigger] r@[k] == sample_value(
                wav@,
                layout.data_start + 8 + 2 * k,
            ),
{
    let s = wav.as_slice();
    let n = s.len();
    proof {
        lemma_layout_bounds(wav@);
    }
    let count: usize = if layout.channels == 2 {
        2 * (layout.data_size / 4)
    } else {
        layout.data_size / 2
    };
    let start = layout.data_start + 8;
    let mut out: Vec<i16> = Vec::new();
    let mut k: usize = 0;
    let mut pos: usize = start;
    while k < count
        invariant
            s@ == wav@,
            n == s@.len(),
            count == sample_count(layout),
            start == layout.data_start + 8,
            start + layout.data_size <= n,
            2 * count <= layout.data_size,
            k <= count,
            pos == start + 2 * k,
            out@.len() == k,
            forall|j: int|
                0 <= j < k ==> #[trigger] out@[j] == sample_value(wav@, layout.data_start + 8 + 2 * j),
        decreases count - k,
    {
        let v = sample_at(s, pos);
        out.push(v);
        k = k + 1;
        pos = pos + 2;
    }
    out
}

fn put_u16(out: &mut Vec<u8>, at: usize, value: u16)
    requires
        at + 2 <= old(out)@.len(),
    ensures
        final(out)@ == put16(old(out)@, at as int, value as nat),
{
    let _n = out.len();
    let (a, b) = u16_bytes(value);
    out.set(at, a);
    out.set(at + 1, b);
}

fn put_u32(out: &mut Vec<u8>, at: usize, value: u32)
    requires
        at + 4 <= old(out)@.len(),
    ensures
        final(out)@ == put32(old(out)@, at as int, value as nat),
{
    let _n = out.len();
    let (a, b, c, d) = u32_bytes(value);
    out.set(at, a);
    out.set(at + 1, b);
    out.set(at + 2, c);
    out.set(at + 3, d);
}

fn sample_bytes(v: i16) -> (r: (u8, u8))
    ensures
        r.0 == sample_byte(v, 0),
        r.1 == sample_byte(v, 1),
{
    let bits: u16 = if v >= 0 {
        v as u16
    } else {
        (v as i32 + 65536) as u16
    };
    u16_bytes(bits)
}

fn push_range(out: &mut Vec<u8>, src: &Vec<u8>, from: usize, to: usize)
    requires
        from <= to <= src@.len(),
    ensures
        final(out)@ == old(out)@ + src@.subrange(from as int, to as int),
{
    let ghost start = out@;
    let mut i = from;
    while i < to
        invariant
            from <= i <= to <= src@.len(),
            out@ == start + src@.subrange(from as int, i as int),
        decreases to - i,
    {
        out.push(src[i]);
        i = i + 1;
        assert(out@ =~= start + src@.subrange(from as int, i as int));
    }
}

/// Puts the scaled samples back: in place for stereo; for mono, as
/// interleaved left and right samples with the header made stereo.
pub fn apply_scaled_samples(wav: Vec<u8>, layout: WavLayout, scaled: &Vec<i16>) -> (r: Result<
    Vec<u8>,
    WavError,
>)
    requires
        wav_layout(wav@) == Ok::<WavLayout, WavError>(layout),
        scaled@.len() == scaled_count(layout),
    ensures
        match r {
            Ok(out) => panned_wav(wav@, layout, scaled@) == Ok::<Seq<u8>, WavError>(out@),
            Err(e) => panned_wav(wav@, layout, scaled@) == Err::<Seq<u8>, WavError>(e),
        },
{
    let n = wav.len();
    proof {
        lemma_layout_bounds(wav@);
    }
    let ghost w = wav@;
    let data_start = layout.data_start + 8;
    let data_end = data_start + layout.data_size;
    if layout.channels == 2 {
        let mut out = wav;
        let mut k: usize = 0;
        let mut pos = data_start;
        while k < scaled.len()
            invariant
                n == w.len(),
                scaled@.len() == sample_count(layout),
                layout.channels == 2,
                2 * scaled@.len() <= layout.data_size,
                data_start == layout.data_start + 8,
                data_start + layout.data_size <= n,
                k <= scaled@.len(),
                pos == data_start + 2 * k,
                out@ == write_samples(w, data_start as int, scaled@.subrange(0, k as int)),
            decreases scaled@.len() - k,
        {
            let (a, b) = sample_bytes(scaled[k]);
            out.set(pos, a);
            out.set(pos + 1, b);
            k = k + 1;
            pos = pos + 2;
            assert(out@ =~= write_samples(w, data_start as int, scaled@.subrange(0, k as int)));
        }
        assert(scaled@.subrange(0, k as int) =~= scaled@);
        return Ok(out);
    }
    let mut new_data: Vec<u8> = Vec::new();
    let mut k: usize = 0;
    while k < scaled.len()
        invariant
            scaled@.len() == 2 * sample_count(layout),
            layout.data_size <= n,
            k <= scaled@.len(),
            new_data@ == samples_bytes(scaled@.subrange(0, k as int)),
        decreases scaled@.len() - k,
    {
        let (a, b) = sample_bytes(scaled[k]);
        new_data.push(a);
        new_data.push(b);
        k = k + 1;
        assert(new_data@ =~= samples_bytes(scaled@.subrange(0, k as int)));
    }
    assert(scaled@.subrange(0, k as int) =~= scaled@);
    let mut out: Vec<u8> = Vec::new();
    push_range(&mut out, &wav, 0, data_start);
    push_range(&mut out, &new_data, 0, new_data.len());
    push_range(&mut out, &wav, data_end, n);
    assert(new_data@.subrange(0, new_data@.len() as int) =~= new_data@);
    if new_data.len() > 4294967295 {
        return Err(WavError::DataTooLarge);
    }
    let new_data_size = new_data.len() as u32;
    put_u32(&mut out, layout.data_start + 4, new_data_size);
    let fmt_data_start = layout.fmt_start + 8;
    put_u16(&mut out, fmt_data_start + 2, 2);
    let block_align: u16 = 4;
    put_u16(&mut out, fmt_data_start + 12, block_align);
    let byte_rate = match layout.sample_rate.checked_mul(block_align as u32) {
        Some(v) => v,
        None => {
            return Err(WavError::ByteRateOverflow);
        },
    };
    put_u32(&mut out, fmt_data_start + 8, byte_rate);
    if out.len() - 8 > 4294967295 {
        return Err(WavError::RiffTooLarge);
    }
    let riff_size = (out.len() - 8) as u32;
    put_u32(&mut out, 4, riff_size);
    Ok(out)
}

} // verus!
