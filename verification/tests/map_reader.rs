use animrt::halo::Block;
use animrt::halo::ColorRGB;
use animrt::halo::Deserialize;
use animrt::halo::MapReader;
use animrt::halo::MapReaderError;
use animrt::halo::Point2DInt;
use animrt::halo::TagDataOffset;
use animrt::halo::Tri;

#[test]
fn reader_reads_little_endian_scalars() {
    let mut r = MapReader::new(vec![0x01, 0x02, 0x03, 0x04, 0xff, 0x7f]);
    assert_eq!(r.read_u32_le().unwrap(), 0x0403_0201);
    assert_eq!(r.read_u16_le().unwrap(), 0x7fff);
    assert!(matches!(r.read_u8(), Err(MapReaderError::IO(_))));
    assert_eq!(r.pos, 6);
}

#[test]
fn reader_read_past_end_keeps_position() {
    let mut r = MapReader::new(vec![1, 2]);
    assert!(r.read_u32_le().is_err());
    assert_eq!(r.pos, 0);
    assert_eq!(r.read_u16_le().unwrap(), 0x0201);
}

#[test]
fn tri_deserializes_three_indices() {
    let mut r = MapReader::new(vec![1, 0, 2, 0, 3, 0]);
    let t = Tri::deserialize(&mut r).unwrap();
    assert_eq!((t.v0, t.v1, t.v2), (1, 2, 3));
}

#[test]
fn color_rgb_deserializes_three_bytes() {
    let mut r = MapReader::new(vec![10, 20, 30]);
    let c = ColorRGB::deserialize(&mut r).unwrap();
    assert_eq!((c.r, c.g, c.b), (10, 20, 30));
}

#[test]
fn point2d_int_deserializes_signed_coordinates() {
    let mut r = MapReader::new(vec![0xff, 0xff, 0x05, 0x00]);
    let p = Point2DInt::deserialize(&mut r).unwrap();
    assert_eq!((p.x, p.y), (-1, 5));
}

#[test]
fn block_header_then_items() {
    // Header: count 2, base pointer 12, 4 skipped bytes; then two Tri
    // records at offset 12.
    let mut bytes = vec![
        2, 0, 0, 0, // count
        12, 0, 0, 0, // base pointer
        0, 0, 0, 0, // skipped
    ];
    bytes.extend_from_slice(&[1, 0, 2, 0, 3, 0]);
    bytes.extend_from_slice(&[4, 0, 5, 0, 6, 0]);
    let mut r = MapReader::new(bytes);
    let mut b: Block<Tri> = Block::deserialize(&mut r).unwrap();
    assert_eq!(b.count, 2);
    assert_eq!(b.base_pointer, 12);
    assert_eq!(r.pos, 12);
    b.read_items(&mut r, 0).unwrap();
    let items = b.items.as_ref().unwrap();
    assert_eq!(items.len(), 2);
    assert_eq!((items[0].v0, items[0].v1, items[0].v2), (1, 2, 3));
    assert_eq!((items[1].v0, items[1].v1, items[1].v2), (4, 5, 6));
}

#[test]
fn block_read_items_fails_on_short_data() {
    let mut r = MapReader::new(vec![3, 0, 0, 0, 12, 0, 0, 0, 0, 0, 0, 0, 1, 0]);
    let mut b: Block<Tri> = Block::deserialize(&mut r).unwrap();
    assert!(b.read_items(&mut r, 0).is_err());
    assert!(b.items.is_none());
}

#[test]
fn block_read_items_honors_offset() {
    let mut bytes = vec![1u8, 0, 0, 0, 0, 0, 0, 0, 0, 0, 0, 0];
    bytes.extend_from_slice(&[0, 0]); // padding the offset skips over
    bytes.extend_from_slice(&[9, 0, 8, 0, 7, 0]);
    let mut r = MapReader::new(bytes);
    let mut b: Block<Tri> = Block::deserialize(&mut r).unwrap();
    b.read_items(&mut r, 14).unwrap();
    let items = b.items.as_ref().unwrap();
    assert_eq!((items[0].v0, items[0].v1, items[0].v2), (9, 8, 7));
}

#[test]
fn tag_data_offset_carries_fields() {
    let o = TagDataOffset { size: 4, external: 0, file_offset: 64, pointer: 128 };
    assert_eq!((o.size, o.external, o.file_offset, o.pointer), (4, 0, 64, 128));
}
