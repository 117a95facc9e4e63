//! HAP frames as bytes: a header of four or eight bytes with a length and a
//! section type, then the section's contents. Frames are written uncompressed;
//! sections of another kind are told apart, so that they can be decoded
//! elsewhere.

use vstd::prelude::*;
use vstd::string::*;

use crate::video::HapTextureFormat;

verus! {

/// Section type of a frame that holds several textures.
pub const MULTIPLE: u8 = 0x0D;

/// Section type of uncompressed BC1 blocks.
pub const PLAIN_BC1: u8 = 0xAB;

/// The longest contents whose length fits the short header.
pub const SHORT_LEN: usize = 0xff_ffff;

/// The longest contents whose length can be written.
pub const LONG_LEN: usize = 0xffff_ffff;

/// The textures of a frame.
#[derive(Debug, PartialEq, Eq)]
pub struct HapFrame {
    pub format: HapTextureFormat,
    pub data: Vec<u8>,
    /// The separate alpha plane, where there is one.
    pub alpha: Option<Vec<u8>>,
    /// How shaders get colours from the texture.
    pub video_mode: i32,
}

/// The mathematical content of a [`HapFrame`].
pub struct HapFrameModel {
    pub format: HapTextureFormat,
    pub data: Seq<u8>,
    pub alpha: Option<Seq<u8>>,
    pub video_mode: i32,
}

impl View for HapFrame {
    type V = HapFrameModel;

    open spec fn view(&self) -> HapFrameModel {
        HapFrameModel {
            format: self.format,
            data: self.data@,
            alpha: match self.alpha {
                Some(a) => Some(a@),
                None => None,
            },
            video_mode: self.video_mode,
        }
    }
}

/// Why a frame cannot be read.
#[derive(Clone, Copy, Debug, PartialEq, Eq, Structural)]
pub enum HapError {
    /// The bytes end before a section does.
    Truncated,
    /// The section is compressed or of an unknown kind.
    Unsupported(u8),
}

/// A digit of base sixteen.
pub open spec fn hex(n: int) -> char {
    if n < 10 {
        (48 + n) as char
    } else {
        (87 + n) as char
    }
}

fn hex_digit(n: u8) -> (r: char)
    requires
        n < 16,
    ensures
        r == hex(n as int),
{
    (if n < 10 {
        48 + n
    } else {
        87 + n
    }) as char
}

impl HapError {
    /// What is wrong, in words.
    pub open spec fn spec_message(self) -> Seq<char> {
        match self {
            HapError::Truncated => "truncated section"@,
            HapError::Unsupported(t) => "unsupported section type 0x"@.push(hex(t as int / 16)).push(
                hex(t as int % 16),
            ),
        }
    }

    /// What is wrong, in words.
    pub fn message(&self) -> (r: String)
        ensures
            r@ == self.spec_message(),
    {
        match self {
            HapError::Truncated => "truncated section".to_string(),
            HapError::Unsupported(t) => {
                let mut r = "unsupported section type 0x".to_string();
                r.push(hex_digit(*t / 16));
                r.push(hex_digit(*t % 16));
                r
            },
        }
    }
}

/// The number in the three bytes at `at`, the lowest first.
pub open spec fn short_len(b: Seq<u8>, at: int) -> int {
    b[at] + b[at + 1] * 0x100 + b[at + 2] * 0x1_0000
}

/// The number in the four bytes at `at`, the lowest first.
pub open spec fn long_len(b: Seq<u8>, at: int) -> int {
    short_len(b, at) + b[at + 3] * 0x100_0000
}

/// The section that bytes start with: its type, its contents, and what follows
/// it. A length of zero in the short header stands for a long one.
pub open spec fn section_of(b: Seq<u8>) -> Option<(u8, Seq<u8>, Seq<u8>)> {
    if b.len() < 4 || short_len(b, 0) == 0 && b.len() < 8 {
        None
    } else {
        let (start, len) = if short_len(b, 0) > 0 {
            (4int, short_len(b, 0))
        } else {
            (8int, long_len(b, 4))
        };
        if start + len <= b.len() {
            Some((b[3], b.subrange(start, start + len), b.skip(start + len)))
        } else {
            None
        }
    }
}

/// The texture that a section type stands for, with its shader mode.
pub open spec fn texture_of(kind: u8) -> Option<(HapTextureFormat, i32)> {
    if kind == PLAIN_BC1 {
        Some((HapTextureFormat::Bc1, 0i32))
    } else if kind == 0xAE {
        Some((HapTextureFormat::Bc3, 0i32))
    } else if kind == 0xAF {
        Some((HapTextureFormat::Bc3YCoCg, 1i32))
    } else if kind == 0xA1 {
        Some((HapTextureFormat::Bc4, 0i32))
    } else if kind == 0xAC {
        Some((HapTextureFormat::Bc7, 0i32))
    } else {
        None
    }
}

/// What a frame of this many textures holds: one texture, or a colour and an
/// alpha texture side by side.
pub open spec fn frame_of(b: Seq<u8>, textures: u8) -> Result<HapFrameModel, HapError> {
    match section_of(b) {
        None => Err(HapError::Truncated),
        Some((kind, body, _)) => if textures == 2 && kind == MULTIPLE {
            match section_of(body) {
                None => Err(HapError::Truncated),
                Some((first, colour, rest)) => match section_of(rest) {
                    None => Err(HapError::Truncated),
                    Some((_, alpha, _)) => match texture_of(first) {
                        None => Err(HapError::Unsupported(first)),
                        Some((format, mode)) => Ok(
                            HapFrameModel {
                                format,
                                data: colour,
                                alpha: Some(alpha),
                                video_mode: (mode + 2) as i32,
                            },
                        ),
                    },
                },
            }
        } else {
            match texture_of(kind) {
                None => Err(HapError::Unsupported(kind)),
                Some((format, mode)) => Ok(
                    HapFrameModel { format, data: body, alpha: None, video_mode: mode },
                ),
            }
        },
    }
}

fn read_short(b: &Vec<u8>, at: usize) -> (r: usize)
    requires
        at + 3 <= b@.len(),
    ensures
        r == short_len(b@, at as int),
        r <= SHORT_LEN,
{
    let n: usize = b.len();
    assert(at + 3 <= n);
    b[at] as usize + b[at + 1] as usize * 0x100 + b[at + 2] as usize * 0x1_0000
}

fn read_long(b: &Vec<u8>, at: usize) -> (r: u64)
    requires
        at + 4 <= b@.len(),
    ensures
        r == long_len(b@, at as int),
        r <= 0xffff_ffff,
{
    let n: usize = b.len();
    assert(at + 4 <= n);
    read_short(b, at) as u64 + b[at + 3] as u64 * 0x100_0000
}

/// The section in the bytes `from..to`: its type, and where its contents lie.
fn section(b: &Vec<u8>, from: usize, to: usize) -> (r: Option<(u8, usize, usize)>)
    requires
        from <= to <= b@.len(),
    ensures
        match r {
            Some((kind, start, end)) => from <= start <= end <= to && section_of(
                b@.subrange(from as int, to as int),
            ) == Some(
                (kind, b@.subrange(start as int, end as int), b@.subrange(end as int, to as int)),
            ),
            None => section_of(b@.subrange(from as int, to as int)) is None,
        },
{
    let ghost part = b@.subrange(from as int, to as int);
    if to - from < 4 {
        return None;
    }
    let short: usize = read_short(b, from);
    proof {
        assert(short_len(part, 0) == short_len(b@, from as int));
    }
    let (start, len): (usize, u64) = if short > 0 {
        (from + 4, short as u64)
    } else {
        if to - from < 8 {
            return None;
        }
        let long: u64 = read_long(b, from + 4);
        proof {
            assert(long_len(part, 4) == long_len(b@, from + 4));
        }
        (from + 8, long)
    };
    if len > (to - start) as u64 {
        return None;
    }
    let end: usize = start + len as usize;
    proof {
        assert(part.subrange(start - from, end - from) =~= b@.subrange(start as int, end as int));
        assert(part.skip(end - from) =~= b@.subrange(end as int, to as int));
    }
    Some((b[from + 3], start, end))
}

fn texture(kind: u8) -> (r: Option<(HapTextureFormat, i32)>)
    ensures
        r == texture_of(kind),
        r matches Some(t) ==> 0 <= t.1 <= 1,
{
    if kind == PLAIN_BC1 {
        Some((HapTextureFormat::Bc1, 0))
    } else if kind == 0xAE {
        Some((HapTextureFormat::Bc3, 0))
    } else if kind == 0xAF {
        Some((HapTextureFormat::Bc3YCoCg, 1))
    } else if kind == 0xA1 {
        Some((HapTextureFormat::Bc4, 0))
    } else if kind == 0xAC {
        Some((HapTextureFormat::Bc7, 0))
    } else {
        None
    }
}

fn part_of(b: &Vec<u8>, from: usize, to: usize) -> (r: Vec<u8>)
    requires
        from <= to <= b@.len(),
    ensures
        r@ == b@.subrange(from as int, to as int),
{
    let mut r: Vec<u8> = Vec::new();
    let mut i: usize = from;
    while i < to
        invariant
            from <= i <= to <= b@.len(),
            r@ == b@.subrange(from as int, i as int),
        decreases to - i,
    {
        r.push(b[i]);
        proof {
            assert(b@.subrange(from as int, i + 1) =~= b@.subrange(from as int, i as int).push(b@[i as int]));
        }
        i += 1;
    }
    r
}

/// Reads a frame of one texture, or of a colour and an alpha texture.
pub fn decode_frame(bytes: &Vec<u8>, textures: u8) -> (r: Result<HapFrame, HapError>)
    ensures
        match r {
            Ok(f) => frame_of(bytes@, textures) == Ok::<HapFrameModel, HapError>(f@),
            Err(e) => frame_of(bytes@, textures) == Err::<HapFrameModel, HapError>(e),
        },
{
    proof {
        assert(bytes@.subrange(0, bytes@.len() as int) =~= bytes@);
    }
    let (kind, start, end): (u8, usize, usize) = match section(bytes, 0, bytes.len()) {
        Some(s) => s,
        None => {
            return Err(HapError::Truncated);
        },
    };
    if textures == 2 && kind == MULTIPLE {
        let (first, from, to): (u8, usize, usize) = match section(bytes, start, end) {
            Some(s) => s,
            None => {
                return Err(HapError::Truncated);
            },
        };
        let (_, alpha_from, alpha_to): (u8, usize, usize) = match section(bytes, to, end) {
            Some(s) => s,
            None => {
                return Err(HapError::Truncated);
            },
        };
        match texture(first) {
            Some((format, mode)) => Ok(
                HapFrame {
                    format,
                    data: part_of(bytes, from, to),
                    alpha: Some(part_of(bytes, alpha_from, alpha_to)),
                    video_mode: mode + 2,
                },
            ),
            None => Err(HapError::Unsupported(first)),
        }
    } else {
        match texture(kind) {
            Some((format, mode)) => Ok(
                HapFrame { format, data: part_of(bytes, start, end), alpha: None, video_mode: mode },
            ),
            None => Err(HapError::Unsupported(kind)),
        }
    }
}

/// Byte `k` of a number, the lowest first.
pub open spec fn byte_of(n: int, k: int) -> u8 {
    if k == 0 {
        (n % 0x100) as u8
    } else if k == 1 {
        (n / 0x100 % 0x100) as u8
    } else if k == 2 {
        (n / 0x1_0000 % 0x100) as u8
    } else {
        (n / 0x100_0000 % 0x100) as u8
    }
}

/// A frame of BC1 blocks: the short header where the length fits it.
pub open spec fn bc1_frame(blocks: Seq<u8>) -> Seq<u8> {
    let n = blocks.len() as int;
    if 0 < n <= SHORT_LEN {
        seq![byte_of(n, 0), byte_of(n, 1), byte_of(n, 2), PLAIN_BC1] + blocks
    } else {
        seq![0u8, 0u8, 0u8, PLAIN_BC1, byte_of(n, 0), byte_of(n, 1), byte_of(n, 2), byte_of(n, 3)] + blocks
    }
}

/// Wraps BC1 blocks as a frame.
pub fn encode_hap1_frame(blocks: &Vec<u8>) -> (r: Vec<u8>)
    requires
        blocks@.len() <= LONG_LEN,
    ensures
        r@ == bc1_frame(blocks@),
{
    let n: usize = blocks.len();
    let mut r: Vec<u8> = Vec::new();
    if n == 0 || n > SHORT_LEN {
        r.push(0);
        r.push(0);
        r.push(0);
        r.push(PLAIN_BC1);
    }
    r.push((n % 0x100) as u8);
    r.push((n / 0x100 % 0x100) as u8);
    r.push((n / 0x1_0000 % 0x100) as u8);
    if n == 0 || n > SHORT_LEN {
        r.push((n / 0x100_0000 % 0x100) as u8);
    } else {
        r.push(PLAIN_BC1);
    }
    let ghost head = r@;
    let mut i: usize = 0;
    while i < n
        invariant
            i <= n == blocks@.len(),
            r@ == head + blocks@.take(i as int),
        decreases n - i,
    {
        r.push(blocks[i]);
        proof {
            assert(blocks@.take(i + 1) =~= blocks@.take(i as int).push(blocks@[i as int]));
        }
        i += 1;
    }
    proof {
        assert(blocks@.take(n as int) =~= blocks@);
        assert(r@ =~= bc1_frame(blocks@));
    }
    r
}

proof fn bytes_make_the_number(n: int)
    requires
        0 <= n <= LONG_LEN,
    ensures
        byte_of(n, 0) + byte_of(n, 1) * 0x100 + byte_of(n, 2) * 0x1_0000 + byte_of(n, 3) * 0x100_0000 == n,
        n <= SHORT_LEN ==> byte_of(n, 3) == 0,
{
}

/// What the header of a written frame says.
proof fn headers_hold_the_length(blocks: Seq<u8>)
    requires
        blocks.len() <= LONG_LEN,
    ensures
        ({
            let b = bc1_frame(blocks);
            let n = blocks.len() as int;
            &&& b[3] == PLAIN_BC1
            &&& 0 < n <= SHORT_LEN ==> b.len() == 4 + n && short_len(b, 0) == n && b.skip(4) == blocks
            &&& n == 0 || n > SHORT_LEN ==> b.len() == 8 + n && short_len(b, 0) == 0 && long_len(b, 4) == n
                && b.skip(8) == blocks
        }),
{
    let b = bc1_frame(blocks);
    let n = blocks.len() as int;
    bytes_make_the_number(n);
    if 0 < n <= SHORT_LEN {
        let head = seq![byte_of(n, 0), byte_of(n, 1), byte_of(n, 2), PLAIN_BC1];
        assert(head.len() == 4);
        assert(b == head + blocks);
        assert(b[0] == head[0] && b[1] == head[1] && b[2] == head[2] && b[3] == head[3]);
        assert(b.skip(4) =~= blocks);
    } else {
        let head = seq![0u8, 0u8, 0u8, PLAIN_BC1, byte_of(n, 0), byte_of(n, 1), byte_of(n, 2), byte_of(n, 3)];
        assert(head.len() == 8);
        assert(b == head + blocks);
        assert(b[0] == head[0] && b[1] == head[1] && b[2] == head[2] && b[3] == head[3]);
        assert(b[4] == head[4] && b[5] == head[5] && b[6] == head[6] && b[7] == head[7]);
        assert(b.skip(8) =~= blocks);
    }
}

/// A written frame is read back: its blocks, as one BC1 texture without an
/// alpha plane, however many textures the stream announces.
pub proof fn a_written_frame_is_read_back(blocks: Seq<u8>, textures: u8)
    requires
        blocks.len() <= LONG_LEN,
    ensures
        frame_of(bc1_frame(blocks), textures) == Ok::<HapFrameModel, HapError>(
            HapFrameModel { format: HapTextureFormat::Bc1, data: blocks, alpha: None, video_mode: 0 },
        ),
{
    let b = bc1_frame(blocks);
    let n = blocks.len() as int;
    headers_hold_the_length(blocks);
    if 0 < n <= SHORT_LEN {
        assert(b.subrange(4, 4 + n) =~= b.skip(4));
    } else {
        assert(b.subrange(8, 8 + n) =~= b.skip(8));
    }
}

/// A written frame that is cut short is never taken for a whole one.
pub proof fn a_cut_frame_is_truncated(blocks: Seq<u8>, textures: u8, k: int)
    requires
        blocks.len() <= LONG_LEN,
        0 <= k < bc1_frame(blocks).len(),
    ensures
        frame_of(bc1_frame(blocks).take(k), textures) == Err::<HapFrameModel, HapError>(HapError::Truncated),
{
    let b = bc1_frame(blocks);
    let cut = b.take(k);
    headers_hold_the_length(blocks);
    if k >= 4 {
        assert(short_len(cut, 0) == short_len(b, 0));
    }
    if k >= 8 {
        assert(long_len(cut, 4) == long_len(b, 4));
    }
}

} // verus!
