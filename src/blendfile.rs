//! The header of a `.blend` file: the version of Blender that wrote it and
//! how the file is compressed.
use vstd::prelude::*;

use crate::version::Version;

verus! {

/// How a blend file is stored.
#[derive(Clone, Copy, Debug, Default, PartialEq, Eq)]
pub enum CompressionType {
    /// Gzip, used before Blender 3.0.
    Gzip,
    /// Zstandard, used from Blender 3.0 on.
    Zstd,
    /// Not compressed.
    #[default]
    Plain,
}

/// The header of a blend file.
#[derive(Clone, Copy, Debug, Default, PartialEq, Eq)]
pub struct BlendFileHeader {
    /// The major and minor version of the Blender that wrote the file.
    pub version: (u8, u8),
    /// How the file is compressed.
    pub compression_type: CompressionType,
}

impl BlendFileHeader {
    /// The version as `major.minor.0`.
    pub fn version(&self) -> (r: Version)
        ensures
            r@ == (self.version.0 as u64, self.version.1 as u64, 0u64, Seq::<char>::empty(), Seq::<char>::empty()),
    {
        Version::new(self.version.0 as u64, self.version.1 as u64, 0)
    }
}

/// An ASCII digit byte.
pub open spec fn digit_byte(b: u8) -> bool {
    48 <= b <= 57
}

/// The version that three digit bytes spell: the first is the major
/// version, the other two the minor one (`"280"` is 2.80).
pub open spec fn header_version_spec(n: Seq<u8>) -> Option<(u8, u8)> {
    if digit_byte(n[0]) && digit_byte(n[1]) && digit_byte(n[2]) {
        Some(((n[0] - 48) as u8, ((n[1] - 48) * 10 + (n[2] - 48)) as u8))
    } else {
        None
    }
}

/// The version that three bytes spell, where they are digits.
fn parse_header_version(a: u8, b: u8, c: u8) -> (r: Option<(u8, u8)>)
    ensures
        r == header_version_spec(seq![a, b, c]),
{
    if 48 <= a && a <= 57 && 48 <= b && b <= 57 && 48 <= c && c <= 57 {
        Some((a - 48, (b - 48) * 10 + (c - 48)))
    } else {
        None
    }
}

/// The magic of an uncompressed blend file: `BLENDER` or `BULLETf`.
pub open spec fn has_magic(h: Seq<u8>) -> bool {
    h.subrange(0, 7) == seq![66u8, 76, 69, 78, 68, 69, 82] || h.subrange(0, 7) == seq![
        66u8,
        85,
        76,
        76,
        69,
        84,
        102,
    ]
}

/// What the first twelve bytes of a blend file's content say: the seven
/// bytes of the magic (checked for an uncompressed file), two bytes of
/// pointer size and endianness, and three digits of version.
pub open spec fn header_spec(h: Seq<u8>, c: CompressionType) -> Option<BlendFileHeader> {
    if h.len() < 12 || (c == CompressionType::Plain && !has_magic(h)) {
        None
    } else {
        match header_version_spec(h.subrange(9, 12)) {
            Some(v) => Some(BlendFileHeader { version: v, compression_type: c }),
            None => None,
        }
    }
}

/// Reads a blend file's header from the first bytes of its (decompressed)
/// content. For an uncompressed file the content must start with `BLENDER`
/// or `BULLETf`; the version is the three digits after the next two bytes.
pub fn read_blendfile_header(head: &[u8], compression: CompressionType) -> (r: Option<BlendFileHeader>)
    ensures
        r == header_spec(head@, compression),
{
    if head.len() < 12 {
        return None;
    }
    if matches!(compression, CompressionType::Plain) {
        let blender: [u8; 7] = [66, 76, 69, 78, 68, 69, 82];
        let bullet: [u8; 7] = [66, 85, 76, 76, 69, 84, 102];
        let mut is_blender = true;
        let mut is_bullet = true;
        let mut i: usize = 0;
        while i < 7
            invariant
                head@.len() >= 12,
                i <= 7,
                blender@ == seq![66u8, 76, 69, 78, 68, 69, 82],
                bullet@ == seq![66u8, 85, 76, 76, 69, 84, 102],
                is_blender == (forall|j: int| 0 <= j < i ==> head@[j] == blender@[j]),
                is_bullet == (forall|j: int| 0 <= j < i ==> head@[j] == bullet@[j]),
            decreases 7 - i,
        {
            if head[i] != blender[i] {
                is_blender = false;
            }
            if head[i] != bullet[i] {
                is_bullet = false;
            }
            i = i + 1;
        }
        proof {
            if is_blender {
                assert(head@.subrange(0, 7) =~= blender@);
            } else {
                let j = choose|j: int| 0 <= j < 7 && head@[j] != blender@[j];
                assert(head@.subrange(0, 7)[j] != blender@[j]);
            }
            if is_bullet {
                assert(head@.subrange(0, 7) =~= bullet@);
            } else {
                let j = choose|j: int| 0 <= j < 7 && head@[j] != bullet@[j];
                assert(head@.subrange(0, 7)[j] != bullet@[j]);
            }
        }
        if !is_blender && !is_bullet {
            return None;
        }
    }
    assert(head@.subrange(9, 12) =~= seq![head@[9], head@[10], head@[11]]);
    match parse_header_version(head[9], head[10], head[11]) {
        Some(v) => Some(BlendFileHeader { version: v, compression_type: compression }),
        None => None,
    }
}

} // verus!
