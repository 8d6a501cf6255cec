//! Little-endian record readers for the map container: a cursor over a byte
//! buffer, the shared `Deserialize` trait, and the small plain records that
//! the geometry tables are built from.

use vstd::prelude::*;

verus! {

/// A 16-bit little-endian value assembled from two bytes.
pub open spec fn le16(b0: u8, b1: u8) -> u16 {
    (b0 + b1 * 0x100) as u16
}

/// A 32-bit little-endian value assembled from four bytes.
pub open spec fn le32(b0: u8, b1: u8, b2: u8, b3: u8) -> u32 {
    (b0 + b1 * 0x100 + b2 * 0x1_0000 + b3 * 0x100_0000) as u32
}

/// Where a seek lands: the target itself when it is representable, else
/// pinned past every buffer so that later reads fail.
pub open spec fn seek_target(target: int) -> int {
    if 0 <= target <= usize::MAX {
        target
    } else {
        usize::MAX as int
    }
}

/// Why a read of the map container failed.
#[derive(Debug, Clone)]
pub enum MapReaderError {
    IO(String),
    UnimplementedTag(String),
    InvalidTag(String),
}

/// A cursor over the raw map bytes. Reads advance `pos`; a read past the
/// end of the buffer fails and leaves the cursor where it was.
pub struct MapReader {
    pub data: Vec<u8>,
    pub pos: usize,
}

impl MapReader {
    pub fn new(data: Vec<u8>) -> (r: Self)
        ensures
            r.data == data,
            r.pos == 0,
    {
        MapReader { data, pos: 0 }
    }

    /// Moves the cursor to an absolute position. A target beyond the buffer
    /// (or a negative one) is pinned past the end, so later reads fail.
    pub fn seek_to(&mut self, target: i128)
        ensures
            final(self).data@ == old(self).data@,
            final(self).pos == seek_target(target as int),
    {
        if target < 0 {
            self.pos = usize::MAX;
        } else if target <= usize::MAX as i128 {
            self.pos = target as usize;
        } else {
            self.pos = usize::MAX;
        }
    }

    /// Advances the cursor by `n` bytes without reading them.
    pub fn skip(&mut self, n: usize)
        ensures
            final(self).data@ == old(self).data@,
            final(self).pos == if old(self).pos + n <= usize::MAX {
                old(self).pos + n
            } else {
                usize::MAX as int
            },
    {
        if n <= usize::MAX - self.pos {
            self.pos = self.pos + n;
        } else {
            self.pos = usize::MAX;
        }
    }

    pub fn read_u8(&mut self) -> (r: Result<u8, MapReaderError>)
        ensures
            final(self).data@ == old(self).data@,
            r is Ok <==> old(self).pos + 1 <= old(self).data@.len(),
            r matches Ok(v) ==> {
                &&& v == old(self).data@[old(self).pos as int]
                &&& final(self).pos == old(self).pos + 1
            },
            r is Err ==> final(self).pos == old(self).pos,
    {
        if self.pos < self.data.len() {
            let v: u8 = self.data[self.pos];
            self.pos = self.pos + 1;
            Ok(v)
        } else {
            Err(MapReaderError::IO("read past the end of the map buffer".to_string()))
        }
    }

    pub fn read_u16_le(&mut self) -> (r: Result<u16, MapReaderError>)
        ensures
            final(self).data@ == old(self).data@,
            r is Ok <==> old(self).pos + 2 <= old(self).data@.len(),
            r matches Ok(v) ==> {
                &&& v == le16(
                    old(self).data@[old(self).pos as int],
                    old(self).data@[old(self).pos + 1],
                )
                &&& final(self).pos == old(self).pos + 2
            },
            r is Err ==> final(self).pos == old(self).pos,
    {
        if self.pos < self.data.len() && 2 <= self.data.len() - self.pos {
            let b0: u8 = self.data[self.pos];
            let b1: u8 = self.data[self.pos + 1];
            self.pos = self.pos + 2;
            Ok((b0 as u16) + (b1 as u16) * 0x100)
        } else {
            Err(MapReaderError::IO("read past the end of the map buffer".to_string()))
        }
    }

    pub fn read_i16_le(&mut self) -> (r: Result<i16, MapReaderError>)
        ensures
            final(self).data@ == old(self).data@,
            r is Ok <==> old(self).pos + 2 <= old(self).data@.len(),
            r matches Ok(v) ==> {
                &&& v == le16(
                    old(self).data@[old(self).pos as int],
                    old(self).data@[old(self).pos + 1],
                ) as i16
                &&& final(self).pos == old(self).pos + 2
            },
            r is Err ==> final(self).pos == old(self).pos,
    {
        match self.read_u16_le() {
            Ok(v) => Ok(v as i16),
            Err(e) => Err(e),
        }
    }

    pub fn read_u32_le(&mut self) -> (r: Result<u32, MapReaderError>)
        ensures
            final(self).data@ == old(self).data@,
            r is Ok <==> old(self).pos + 4 <= old(self).data@.len(),
            r matches Ok(v) ==> {
                &&& v == le32(
                    old(self).data@[old(self).pos as int],
                    old(self).data@[old(self).pos + 1],
                    old(self).data@[old(self).pos + 2],
                    old(self).data@[old(self).pos + 3],
                )
                &&& final(self).pos == old(self).pos + 4
            },
            r is Err ==> final(self).pos == old(self).pos,
    {
        if self.pos < self.data.len() && 4 <= self.data.len() - self.pos {
            let b0: u8 = self.data[self.pos];
            let b1: u8 = self.data[self.pos + 1];
            let b2: u8 = self.data[self.pos + 2];
            let b3: u8 = self.data[self.pos + 3];
            self.pos = self.pos + 4;
            Ok((b0 as u32) + (b1 as u32) * 0x100 + (b2 as u32) * 0x1_0000 + (b3 as u32)
                * 0x100_0000)
        } else {
            Err(MapReaderError::IO("read past the end of the map buffer".to_string()))
        }
    }
}

/// A record that can be read from the cursor. Every record kind has a
/// fixed stride (`record_len`) and a spec-level decoding (`decoded`), and
/// reading never rewrites the underlying buffer. Whenever a whole record
/// fits at the cursor, reading must succeed, yield exactly the decoded
/// record, and advance the cursor by the stride; a reader may still
/// salvage something shorter at the end of the buffer (the table header
/// does, for its trailing padding).
pub trait Deserialize: Sized {
    spec fn record_len() -> nat;

    spec fn decoded(bytes: Seq<u8>, at: int) -> Self;

    fn deserialize(data: &mut MapReader) -> (r: Result<Self, MapReaderError>)
        ensures
            final(data).data@ == old(data).data@,
            old(data).pos + Self::record_len() <= old(data).data@.len() ==> (r matches Ok(v)
                && v == Self::decoded(old(data).data@, old(data).pos as int) && final(data).pos
                == old(data).pos + Self::record_len()),
    ;
}

/// A table header inside the map: an item count and a pointer to where the
/// items sit. The items themselves are fetched later by `read_items`.
#[derive(Debug, Clone)]
pub struct Block<T> {
    pub items: Option<Vec<T>>,
    pub base_pointer: u32,
    pub count: usize,
}

impl<T> Deserialize for Block<T> {
    /// Twelve bytes: the count, the base pointer, and four padding bytes.
    open spec fn record_len() -> nat {
        12
    }

    open spec fn decoded(bytes: Seq<u8>, at: int) -> Self {
        Block {
            items: None,
            base_pointer: le32(bytes[at + 4], bytes[at + 5], bytes[at + 6], bytes[at + 7]),
            count: le32(bytes[at], bytes[at + 1], bytes[at + 2], bytes[at + 3]) as usize,
        }
    }

    fn deserialize(data: &mut MapReader) -> (r: Result<Self, MapReaderError>)
        ensures
            r is Ok ==> final(data).pos == if old(data).pos + 12 <= usize::MAX {
                old(data).pos + 12int
            } else {
                usize::MAX as int
            },
            r matches Ok(b) ==> {
                &&& b.items is None
                &&& b.count == le32(
                    old(data).data@[old(data).pos as int],
                    old(data).data@[old(data).pos + 1],
                    old(data).data@[old(data).pos + 2],
                    old(data).data@[old(data).pos + 3],
                )
                &&& b.base_pointer == le32(
                    old(data).data@[old(data).pos + 4],
                    old(data).data@[old(data).pos + 5],
                    old(data).data@[old(data).pos + 6],
                    old(data).data@[old(data).pos + 7],
                )
            },
            r is Ok <==> old(data).pos + 8 <= old(data).data@.len(),
    {
        let n: usize = data.data.len();
        let count: u32 = data.read_u32_le()?;
        let base_pointer: u32 = data.read_u32_le()?;
        data.skip(4);
        Ok(Block { count: count as usize, base_pointer, items: None })
    }
}

impl<T: Deserialize> Block<T> {
    /// Seeks to `base_pointer + offset` and reads `count` items in a row.
    pub fn read_items(&mut self, data: &mut MapReader, offset: i64) -> (r: Result<
        (),
        MapReaderError,
    >)
        ensures
            final(data).data@ == old(data).data@,
            final(self).base_pointer == old(self).base_pointer,
            final(self).count == old(self).count,
            r is Ok ==> (final(self).items matches Some(v) && v.len() == old(self).count),
            r is Err ==> final(self).items == old(self).items,
            old(self).count == 0 ==> (r is Ok && final(data).pos == old(data).pos),
            ({
                let start = seek_target(old(self).base_pointer as int + offset);
                let fits = start + old(self).count * T::record_len() <= old(data).data@.len();
                &&& (old(self).count > 0 && fits) ==> {
                    &&& r is Ok
                    &&& (final(self).items matches Some(v) && forall|k: int|
                        0 <= k < old(self).count ==> v@[k] == T::decoded(
                            old(data).data@,
                            start + k * T::record_len(),
                        ))
                    &&& final(data).pos == start + old(self).count * T::record_len()
                }
                &&& (old(self).count > 0 && r is Err) ==> !fits
            }),
    {
        let ghost start = seek_target(self.base_pointer as int + offset);
        let ghost rl = T::record_len();
        let ghost n = self.count as int;
        let mut items: Vec<T> = Vec::new();
        if self.count > 0 {
            data.seek_to((self.base_pointer as i128) + (offset as i128));
            let mut i: usize = 0;
            while i < self.count
                invariant
                    items.len() == i,
                    i <= self.count,
                    data.data@ == old(data).data@,
                    *self == *old(self),
                    rl == T::record_len(),
                    n == self.count as int,
                    start == seek_target(old(self).base_pointer as int + offset),
                    (data.pos == start + i * rl && forall|k: int|
                        0 <= k < i ==> items@[k] == T::decoded(data.data@, start + k * rl)) || !(
                    start + n * rl <= data.data@.len()),
                decreases self.count - i,
            {
                proof {
                    vstd::arithmetic::mul::lemma_mul_inequality(i as int + 1, n, rl as int);
                    vstd::arithmetic::mul::lemma_mul_is_distributive_add_other_way(
                        rl as int,
                        i as int,
                        1,
                    );
                }
                let item: T = match T::deserialize(data) {
                    Ok(item) => item,
                    Err(e) => {
                        return Err(e);
                    },
                };
                items.push(item);
                i = i + 1;
            }
        }
        self.items = Some(items);
        Ok(())
    }
}

/// An offset record describing where a tag's payload sits in the file.
#[derive(Debug, Clone, Copy)]
pub struct TagDataOffset {
    pub size: u32,
    pub external: u32,
    pub file_offset: u32,
    pub pointer: u64,
}

/// One triangle of the geometry, as three vertex indices.
#[derive(Debug, Clone, Copy)]
pub struct Tri {
    pub v0: u16,
    pub v1: u16,
    pub v2: u16,
}

impl Deserialize for Tri {
    open spec fn record_len() -> nat {
        6
    }

    open spec fn decoded(bytes: Seq<u8>, at: int) -> Self {
        Tri {
            v0: le16(bytes[at], bytes[at + 1]),
            v1: le16(bytes[at + 2], bytes[at + 3]),
            v2: le16(bytes[at + 4], bytes[at + 5]),
        }
    }

    fn deserialize(data: &mut MapReader) -> (r: Result<Self, MapReaderError>)
        ensures
            r is Ok <==> old(data).pos + 6 <= old(data).data@.len(),
            r matches Ok(t) ==> {
                &&& t.v0 == le16(
                    old(data).data@[old(data).pos as int],
                    old(data).data@[old(data).pos + 1],
                )
                &&& t.v1 == le16(
                    old(data).data@[old(data).pos + 2],
                    old(data).data@[old(data).pos + 3],
                )
                &&& t.v2 == le16(
                    old(data).data@[old(data).pos + 4],
                    old(data).data@[old(data).pos + 5],
                )
                &&& final(data).pos == old(data).pos + 6
            },
    {
        Ok(Tri { v0: data.read_u16_le()?, v1: data.read_u16_le()?, v2: data.read_u16_le()? })
    }
}

/// An 8-bit-per-channel color record.
#[derive(Debug, Clone, Copy)]
pub struct ColorRGB {
    pub r: u8,
    pub g: u8,
    pub b: u8,
}

impl Deserialize for ColorRGB {
    open spec fn record_len() -> nat {
        3
    }

    open spec fn decoded(bytes: Seq<u8>, at: int) -> Self {
        ColorRGB { r: bytes[at], g: bytes[at + 1], b: bytes[at + 2] }
    }

    fn deserialize(data: &mut MapReader) -> (r: Result<Self, MapReaderError>)
        ensures
            r is Ok <==> old(data).pos + 3 <= old(data).data@.len(),
            r matches Ok(c) ==> {
                &&& c.r == old(data).data@[old(data).pos as int]
                &&& c.g == old(data).data@[old(data).pos + 1]
                &&& c.b == old(data).data@[old(data).pos + 2]
                &&& final(data).pos == old(data).pos + 3
            },
    {
        Ok(ColorRGB { r: data.read_u8()?, g: data.read_u8()?, b: data.read_u8()? })
    }
}

/// A two-dimensional point with integer coordinates.
#[derive(Debug, Clone, Copy)]
pub struct Point2DInt {
    pub x: i16,
    pub y: i16,
}

impl Deserialize for Point2DInt {
    open spec fn record_len() -> nat {
        4
    }

    open spec fn decoded(bytes: Seq<u8>, at: int) -> Self {
        Point2DInt {
            x: le16(bytes[at], bytes[at + 1]) as i16,
            y: le16(bytes[at + 2], bytes[at + 3]) as i16,
        }
    }

    fn deserialize(data: &mut MapReader) -> (r: Result<Self, MapReaderError>)
        ensures
            r is Ok <==> old(data).pos + 4 <= old(data).data@.len(),
            r matches Ok(p) ==> {
                &&& p.x == le16(
                    old(data).data@[old(data).pos as int],
                    old(data).data@[old(data).pos + 1],
                ) as i16
                &&& p.y == le16(
                    old(data).data@[old(data).pos + 2],
                    old(data).data@[old(data).pos + 3],
                ) as i16
                &&& final(data).pos == old(data).pos + 4
            },
    {
        Ok(Point2DInt { x: data.read_i16_le()?, y: data.read_i16_le()? })
    }
}

} // verus!
