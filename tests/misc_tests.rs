use fieldbus_gateway::chunk::{find_first_empty_chunk_pos, find_last_chunk_pos, Chunk, SectorLayout};
use fieldbus_gateway::input::{group_calculate, is_high, is_low, pin_condition, Edge, Polarity};

const LAYOUT: SectorLayout = SectorLayout { offset: 0x100, size: 16, chunk_size: 4 };

#[test]
fn chunk_basics() {
    let mut c: Chunk<4> = Chunk::new();
    assert_eq!(c.data, [0; 4]);
    assert!(!c.is_empty());
    c.copy_from_slice(&[0xff; 4]);
    assert!(c.is_empty());
    assert!(Chunk::<4>::slice_is_empty(&[]));
    assert!(!Chunk::<4>::slice_is_empty(&[0xff, 0xfe]));
}

#[test]
fn empty_sector_has_no_record() {
    let image = [0xffu8; 16];
    assert_eq!(find_first_empty_chunk_pos(LAYOUT, &image), Some(0x100));
    assert_eq!(find_last_chunk_pos(LAYOUT, &image), None);
}

#[test]
fn partly_written_sector() {
    let mut image = [0xffu8; 16];
    image[..8].copy_from_slice(&[1, 2, 3, 4, 5, 6, 7, 8]);
    assert_eq!(find_first_empty_chunk_pos(LAYOUT, &image), Some(0x108));
    assert_eq!(find_last_chunk_pos(LAYOUT, &image), Some(0x104));
}

#[test]
fn full_sector() {
    let image = [0u8; 16];
    assert_eq!(find_first_empty_chunk_pos(LAYOUT, &image), None);
    assert_eq!(find_last_chunk_pos(LAYOUT, &image), Some(0x10C));
}

#[test]
fn polarity_levels() {
    assert!(is_high(Polarity::Normal, true));
    assert!(!is_high(Polarity::Inverse, true));
    assert!(is_low(Polarity::Inverse, true));
    assert!(is_low(Polarity::Normal, false));
}

#[test]
fn group_packs_bits() {
    assert_eq!(group_calculate(&[]), 0);
    assert_eq!(group_calculate(&[true, false, true]), 0b101);
    assert_eq!(group_calculate(&[false, false, false, true]), 8);
    assert_eq!(group_calculate(&[true; 32]), u32::MAX);
}

#[test]
fn chunk_words_round_trip() {
    let c: Chunk<8> = Chunk::from_words([0x0102_0304u32, 0xA0B0_C0D0]);
    assert_eq!(c.data, [1, 2, 3, 4, 0xA0, 0xB0, 0xC0, 0xD0]);
    let w: [u32; 2] = c.to_words();
    assert_eq!(w, [0x0102_0304, 0xA0B0_C0D0]);
}

#[test]
fn chunk_words_pad_with_zeros() {
    let c: Chunk<8> = Chunk::from_words([0xFFFF_FFFFu32]);
    assert_eq!(c.data, [0xFF, 0xFF, 0xFF, 0xFF, 0, 0, 0, 0]);
    let w: [u32; 3] = c.to_words();
    assert_eq!(w, [0xFFFF_FFFF, 0, 0]);
}

#[test]
fn inverse_polarity_swaps_conditions() {
    assert_eq!(pin_condition(Polarity::Inverse, Edge::High), Edge::Low);
    assert_eq!(pin_condition(Polarity::Inverse, Edge::Rising), Edge::Falling);
    assert_eq!(pin_condition(Polarity::Inverse, Edge::Any), Edge::Any);
    assert_eq!(pin_condition(Polarity::Normal, Edge::Falling), Edge::Falling);
}

#[test]
fn sector_tail_past_last_chunk_is_ignored() {
    let layout = SectorLayout { offset: 0, size: 10, chunk_size: 4 };
    let mut image = [0u8; 10];
    image[8] = 0xff;
    image[9] = 0xff;
    assert_eq!(find_first_empty_chunk_pos(layout, &image), None);
    assert_eq!(find_last_chunk_pos(layout, &image), Some(6));
    image[4..8].copy_from_slice(&[0xff; 4]);
    assert_eq!(find_first_empty_chunk_pos(layout, &image), Some(4));
    assert_eq!(find_last_chunk_pos(layout, &image), Some(0));
}
