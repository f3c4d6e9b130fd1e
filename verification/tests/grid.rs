use vga_console::grid::{
    attribute_offset, cell_index, glyph_offset, read_cell, write_cell, Cell, BLANK_GLYPH, CELLS,
    CELL_BYTES, DEFAULT_ATTRIBUTE, HEIGHT, REGION_BYTES, WIDTH,
};

#[test]
fn grid_is_eighty_by_twenty_five() {
    assert_eq!(WIDTH, 80);
    assert_eq!(HEIGHT, 25);
    assert_eq!(CELLS, 2000);
    assert_eq!(CELL_BYTES, 2);
    assert_eq!(REGION_BYTES, 4000);
    assert_eq!(BLANK_GLYPH, b' ');
    assert_eq!(DEFAULT_ATTRIBUTE, 0x0f);
}

#[test]
fn cell_index_counts_row_by_row() {
    assert_eq!(cell_index(0, 0), 0);
    assert_eq!(cell_index(0, 79), 79);
    assert_eq!(cell_index(1, 0), 80);
    assert_eq!(cell_index(3, 8), 248);
    assert_eq!(cell_index(24, 0), 1920);
    assert_eq!(cell_index(24, 79), 1999);
}

#[test]
fn glyph_lies_at_the_even_offset_and_attribute_at_the_odd() {
    assert_eq!(glyph_offset(0), 0);
    assert_eq!(attribute_offset(0), 1);
    assert_eq!(glyph_offset(1), 2);
    assert_eq!(attribute_offset(1), 3);
    assert_eq!(glyph_offset(80), 160);
    assert_eq!(attribute_offset(80), 161);
    assert_eq!(glyph_offset(1999), 3998);
    assert_eq!(attribute_offset(1999), 3999);
}

#[test]
fn every_cell_has_its_own_two_bytes() {
    for index in 0..CELLS {
        assert_eq!(glyph_offset(index) % 2, 0);
        assert_eq!(attribute_offset(index), glyph_offset(index) + 1);
        assert!(attribute_offset(index) < REGION_BYTES);
        if index > 0 {
            assert_eq!(glyph_offset(index), attribute_offset(index - 1) + 1);
        }
    }
}

#[test]
fn write_cell_stores_glyph_then_attribute() {
    let mut region = [0u8; REGION_BYTES];
    write_cell(&mut region, 5, Cell { glyph: b'A', attribute: 0x1e });
    assert_eq!(region[10], b'A');
    assert_eq!(region[11], 0x1e);
    for (offset, byte) in region.iter().enumerate() {
        if offset != 10 && offset != 11 {
            assert_eq!(*byte, 0, "offset {}", offset);
        }
    }
}

#[test]
fn write_cell_reaches_the_first_and_the_last_cell() {
    let mut region = [0u8; REGION_BYTES];
    write_cell(&mut region, 0, Cell { glyph: b'<', attribute: 0x01 });
    write_cell(&mut region, CELLS - 1, Cell { glyph: b'>', attribute: 0x02 });
    assert_eq!(&region[0..2], &[b'<', 0x01][..]);
    assert_eq!(&region[3998..4000], &[b'>', 0x02][..]);
}

#[test]
fn read_cell_takes_glyph_from_even_and_attribute_from_odd() {
    let mut region = [0u8; REGION_BYTES];
    region[160] = b'x';
    region[161] = 0x70;
    assert_eq!(read_cell(&region, 80), Cell { glyph: b'x', attribute: 0x70 });
    assert_eq!(read_cell(&region, 79), Cell { glyph: 0, attribute: 0 });
    assert_eq!(read_cell(&region, 81), Cell { glyph: 0, attribute: 0 });
}

#[test]
fn read_cell_returns_what_write_cell_stored() {
    let mut region = [0u8; REGION_BYTES];
    for index in 0..CELLS {
        let cell = Cell { glyph: (index % 251) as u8, attribute: (index % 13) as u8 };
        write_cell(&mut region, index, cell);
    }
    for index in 0..CELLS {
        let cell = Cell { glyph: (index % 251) as u8, attribute: (index % 13) as u8 };
        assert_eq!(read_cell(&region, index), cell);
    }
}
