//! Decoder for the ACT binary palette format.
//!
//! An ACT file is exactly 768 bytes of 256 RGB triples, optionally followed
//! by exactly 4 bytes: a declared color count and a transparent color index,
//! each an unsigned 16-bit little-endian value. There is no header and no
//! footer beyond those 4 bytes.

use vstd::prelude::*;

verus! {

/// Number of bytes in the mandatory color block: 256 colors, 3 bytes each.
pub const MAX_COLOR_BUFFER_LENGTH: usize = 768;

/// Number of color entries the color block always holds.
pub const MAX_COLORS: usize = 256;

/// Number of bytes in the optional trailing block.
pub const EXTRA_DATA_SIZE: usize = 4;

/// One palette entry: red, green and blue channels, 8 bits each.
#[derive(Clone, Copy, Debug, PartialEq, Eq, Structural)]
pub struct Color {
    pub red: u8,
    pub green: u8,
    pub blue: u8,
}

impl Color {
    pub fn new(red: u8, green: u8, blue: u8) -> (c: Color)
        ensures
            c == (Color { red, green, blue }),
    {
        Color { red, green, blue }
    }
}

/// The optional trailing record of an ACT file.
///
/// `declared_count` is the number of colors the decode actually kept (the
/// file's declared count, clamped to 256, unless a full decode was forced,
/// in which case it is 256). `transparent_index` designates which entry of
/// the 256-entry table is transparent; it is advisory and deliberately not
/// range-checked here.
#[derive(Clone, Copy, Debug, PartialEq, Eq, Structural)]
pub struct ExtraData {
    pub declared_count: u16,
    pub transparent_index: u16,
}

/// Why a decode failed. A color block shorter than 768 bytes is
/// `InvalidFileLength`; `IoError` is reserved for a failing byte source,
/// which the decoder itself (working on an in-memory slice) never produces.
#[derive(Clone, Copy, Debug, PartialEq, Eq, Structural)]
pub enum ReadError {
    InvalidFileLength,
    IoError,
}

impl ReadError {
    /// A short human-readable description of the error.
    pub fn message(&self) -> (s: &'static str)
        ensures
            self is InvalidFileLength ==> s@ == "Invalid file length"@,
            self is IoError ==> s@ == "I/O error"@,
    {
        match self {
            ReadError::InvalidFileLength => "Invalid file length",
            ReadError::IoError => "I/O error",
        }
    }
}

/// The decode result: the colors in file order plus the optional trailing
/// record. Immutable by convention after construction.
#[derive(Debug)]
pub struct Palette {
    pub colors: Vec<Color>,
    pub extra: Option<ExtraData>,
}

/// The unsigned 16-bit value stored little-endian as the bytes `lo`, `hi`.
pub open spec fn le16(lo: u8, hi: u8) -> u16 {
    (lo + 256 * hi) as u16
}

/// Whether the input holds the full 4-byte trailing block after the color
/// block.
pub open spec fn extra_block_present(data: Seq<u8>) -> bool {
    data.len() >= MAX_COLOR_BUFFER_LENGTH + EXTRA_DATA_SIZE
}

/// How many colors a decode of `data` keeps: 256 when the trailing block is
/// absent or a full decode is forced, otherwise the declared count clamped
/// to 256.
pub open spec fn effective_count(data: Seq<u8>, all: bool) -> int {
    if !extra_block_present(data) || all {
        MAX_COLORS as int
    } else if le16(data[768], data[769]) < 256 {
        le16(data[768], data[769]) as int
    } else {
        MAX_COLORS as int
    }
}

/// The `i`-th RGB triple of the color block.
pub open spec fn color_at(data: Seq<u8>, i: int) -> Color {
    Color { red: data[3 * i], green: data[3 * i + 1], blue: data[3 * i + 2] }
}

/// The color sequence a successful decode of `data` yields.
pub open spec fn decoded_colors(data: Seq<u8>, all: bool) -> Seq<Color> {
    Seq::new(effective_count(data, all) as nat, |i: int| color_at(data, i))
}

/// The trailing record a successful decode of `data` yields, if any.
pub open spec fn decoded_extra(data: Seq<u8>, all: bool) -> Option<ExtraData> {
    if extra_block_present(data) {
        Some(ExtraData {
            declared_count: effective_count(data, all) as u16,
            transparent_index: le16(data[770], data[771]),
        })
    } else {
        None
    }
}

/// Parse the optional trailing block from the bytes that follow the color
/// block. A block shorter than 4 bytes means "no extra data": that is
/// deliberate, since many legacy ACT files omit the trailing bytes entirely.
/// Returns the transparent index (if present) and the number of colors to
/// keep, not yet clamped to 256.
pub fn read_extra_data(extra: &[u8], all: bool) -> (r: (Option<u16>, usize))
    ensures
        extra@.len() >= EXTRA_DATA_SIZE ==> r == ((
            Some(le16(extra@[2], extra@[3])),
            if all {
                MAX_COLORS
            } else {
                le16(extra@[0], extra@[1]) as usize
            },
        )),
        extra@.len() < EXTRA_DATA_SIZE ==> r == ((None::<u16>, MAX_COLORS)),
{
    if extra.len() >= EXTRA_DATA_SIZE {
        let num_colors: usize = if all {
            MAX_COLORS
        } else {
            (extra[0] as usize) + 256 * (extra[1] as usize)
        };
        let transparent_index: u16 = (extra[2] as u16) + 256 * (extra[3] as u16);
        (Some(transparent_index), num_colors)
    } else {
        (None, MAX_COLORS)
    }
}

impl Palette {
    /// Decode an ACT image held in `data`, which must contain at least the
    /// 768-byte color block; otherwise the decode fails with
    /// `InvalidFileLength`. A full 4-byte trailing block yields extra data;
    /// a missing or partial one is treated as absence, never as an error.
    /// Trailing bytes beyond the 772nd are ignored. When `all` is set the
    /// declared count is ignored and all 256 colors are kept.
    pub fn read(data: &[u8], all: bool) -> (r: Result<Palette, ReadError>)
        ensures
            r is Ok <==> data@.len() >= MAX_COLOR_BUFFER_LENGTH,
            r is Err ==> r == Err::<Palette, ReadError>(ReadError::InvalidFileLength),
            r matches Ok(p) ==> p.colors@ == decoded_colors(data@, all) && p.extra
                == decoded_extra(data@, all),
    {
        if data.len() < MAX_COLOR_BUFFER_LENGTH {
            return Err(ReadError::InvalidFileLength);
        }
        let rest: &[u8] = &data[MAX_COLOR_BUFFER_LENGTH..data.len()];
        let (transparent_index, num_colors) = read_extra_data(rest, all);
        let count: usize = if num_colors < MAX_COLORS {
            num_colors
        } else {
            MAX_COLORS
        };

        let mut colors: Vec<Color> = Vec::new();
        for i in 0..count
            invariant
                count == effective_count(data@, all),
                count <= MAX_COLORS,
                data@.len() >= MAX_COLOR_BUFFER_LENGTH,
                colors@.len() == i,
                forall|j: int| 0 <= j < i ==> colors@[j] == color_at(data@, j),
        {
            let c = Color::new(data[3 * i], data[3 * i + 1], data[3 * i + 2]);
            colors.push(c);
        }
        assert(colors@ =~= decoded_colors(data@, all));

        let extra: Option<ExtraData> = match transparent_index {
            Some(t) => Some(ExtraData { declared_count: count as u16, transparent_index: t }),
            None => None,
        };
        Ok(Palette { colors, extra })
    }

    /// The transparent color index of the trailing record, if one was
    /// present.
    pub fn transparent_index(&self) -> (r: Option<u16>)
        ensures
            r == (match self.extra {
                Some(e) => Some(e.transparent_index),
                None => None::<u16>,
            }),
    {
        match self.extra {
            Some(e) => Some(e.transparent_index),
            None => None,
        }
    }
}

} // verus!
