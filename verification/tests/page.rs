use turso_mini::buffer::Buffer;
use turso_mini::page::{PageContent, PageSize, PageType, read_u32};

fn fresh_page(offset: usize, page_type: u8) -> PageContent {
    let mut page = PageContent::new(offset, Buffer::new_zeroed(4096));
    page.write_page_type(page_type);
    page
}

#[test]
fn page_size_validation() {
    let ps = PageSize::new(4096).expect("4096 is a valid page size");
    assert_eq!(ps.get(), 4096);
    assert_eq!(ps.get_raw(), 4096);

    // 65536 does not fit in 16 bits: it is stored under the raw sentinel 1
    let max = PageSize::new(65536).expect("65536 is a valid page size");
    assert_eq!(max.get_raw(), 1);
    assert_eq!(max.get(), 65536);

    // not a power of two
    assert!(PageSize::new(5000).is_none());
    // below the minimum
    assert!(PageSize::new(256).is_none());
    // above the maximum
    assert!(PageSize::new(131072).is_none());
}

#[test]
fn page_size_from_header() {
    assert_eq!(PageSize::new_from_header_u16(1).unwrap().get(), 65536);
    assert_eq!(PageSize::new_from_header_u16(512).unwrap().get(), 512);
    assert!(PageSize::new_from_header_u16(0).is_err());
    assert!(PageSize::new_from_header_u16(513).is_err());
    assert_eq!(PageSize::default().get(), 4096);
    assert_eq!(PageSize::MIN, 512);
    assert_eq!(PageSize::MAX, 65536);
    assert_eq!(PageSize::DEFAULT, 4096);
}

#[test]
fn page_type_classification() {
    assert!(matches!(PageType::from_u8(2), Ok(PageType::IndexInterior)));
    assert!(matches!(PageType::from_u8(5), Ok(PageType::TableInterior)));
    assert!(matches!(PageType::from_u8(10), Ok(PageType::IndexLeaf)));
    assert!(matches!(PageType::from_u8(13), Ok(PageType::TableLeaf)));
    assert!(PageType::from_u8(0).is_err());
    assert!(PageType::from_u8(7).is_err());

    assert!(PageType::TableLeaf.is_table());
    assert!(PageType::TableInterior.is_table());
    assert!(!PageType::IndexLeaf.is_table());
    assert!(!PageType::IndexInterior.is_table());
}

#[test]
fn page_header_classification() {
    // page type 13 (table leaf) has the 8-byte header
    let leaf = fresh_page(0, 13);
    assert_eq!(leaf.header_size(), 8);

    // page type 5 (table interior) has the 12-byte header and a rightmost
    // child pointer
    let mut interior = fresh_page(0, 5);
    assert_eq!(interior.header_size(), 12);
    interior.write_rightmost_ptr(77);
    assert_eq!(interior.rightmost_pointer(), Some(77));

    // page type 10 (index leaf) has no rightmost pointer
    let index_leaf = fresh_page(0, 10);
    assert_eq!(index_leaf.rightmost_pointer(), None);
}

#[test]
fn page_header_fields_round_trip() {
    let mut page = fresh_page(0, 13);

    page.write_cell_count(3);
    assert_eq!(page.read_cell_count(), 3);
    assert_eq!(page.cell_pointer_array_size(), 6);
    assert_eq!(page.cell_pointer_array_offset_and_size(), (8, 6));
    assert_eq!(page.unallocated_region_start(), 14);

    page.write_cell_content_area(4000);
    assert_eq!(page.cell_content_area(), 4000);
    assert_eq!(page.unallocated_region_size(), 4000 - 14);

    page.write_first_freeblock(120);
    assert_eq!(page.read_first_freeblock(), 120);

    page.write_fragmented_bytes_count(5);
    assert_eq!(page.num_frag_free_bytes(), 5);

    assert!(matches!(page.maybe_page_type(), Some(PageType::TableLeaf)));
}

#[test]
fn page_content_area_sentinel() {
    // the raw value 0 in the content-area field denotes 65536
    let page = fresh_page(0, 13);
    assert_eq!(page.cell_content_area(), 65536);
}

#[test]
fn page_one_offset_is_respected() {
    // page 1 skips the 100-byte database file header
    let mut page = fresh_page(100, 5);
    page.write_cell_count(7);
    // header fields sit 100 bytes into the buffer...
    assert_eq!(page.read_u16_no_offset(103), 7);
    // ...while freeblock records use absolute offsets
    page.write_freeblock(200, Some(300), 16);
    assert_eq!(page.read_freeblock(200), (300, 16));
    assert_eq!(page.read_u16_no_offset(200), 300);
    assert_eq!(page.read_u16_no_offset(202), 16);
    // the cell-pointer array starts right after the 12-byte interior header
    assert_eq!(page.cell_pointer_array_offset(), 112);
}

#[test]
fn page_freeblock_chain_end() {
    let mut page = fresh_page(0, 13);
    page.write_freeblock(64, None, 48);
    let (next, size) = page.read_freeblock(64);
    assert_eq!(next, 0);
    assert_eq!(size, 48);
}

#[test]
fn page_absolute_word_access() {
    let mut page = fresh_page(0, 13);
    page.write_u32_no_offset(16, 0xdeadbeef);
    assert_eq!(page.read_u32_no_offset(16), 0xdeadbeef);
    page.write_u16_no_offset(20, 0xbeef);
    assert_eq!(page.read_u16_no_offset(20), 0xbeef);
}

#[test]
fn read_u32_is_big_endian() {
    let bytes = [0u8, 1, 2, 3, 4, 5];
    assert_eq!(read_u32(&bytes, 1), 0x01020304);
    assert_eq!(read_u32(&bytes, 2), 0x02030405);
}
