use model_baker::write_mask::{create_write_mask, pack_write_mask, writer_flags};

fn bit(mask: &[u8], i: usize) -> bool {
    let at = 4 * (i / 32);
    let word = u32::from_le_bytes([mask[at], mask[at + 1], mask[at + 2], mask[at + 3]]);
    (word >> (i % 32)) & 1 == 1
}

fn stream(len: usize, distinct: u32) -> Vec<u32> {
    let mut state: u32 = 12345;
    let mut out = Vec::new();
    for _ in 0..len {
        state = state.wrapping_mul(1664525).wrapping_add(1013904223);
        out.push((state >> 8) % distinct);
    }
    out
}

#[test]
fn first_appearances_are_writers() {
    let flags = writer_flags(&[0, 1, 2, 1, 2, 3]);
    assert_eq!(flags, vec![true, true, true, false, false, true]);
}

#[test]
fn six_indices_pack_into_one_word() {
    let mask = create_write_mask(&[0, 1, 2, 1, 2, 3]);
    assert_eq!(mask, vec![0b0010_0111, 0, 0, 0]);
    for i in 6..32 {
        assert!(!bit(&mask, i));
    }
}

#[test]
fn empty_stream_has_empty_mask() {
    assert_eq!(writer_flags(&[]), Vec::<bool>::new());
    assert_eq!(create_write_mask(&[]), Vec::<u8>::new());
    assert_eq!(pack_write_mask(&[]), Vec::<u8>::new());
}

#[test]
fn mask_has_one_word_for_each_started_run_of_32() {
    assert_eq!(create_write_mask(&stream(1, 5)).len(), 4);
    assert_eq!(create_write_mask(&stream(31, 5)).len(), 4);
    assert_eq!(create_write_mask(&stream(32, 5)).len(), 4);
    assert_eq!(create_write_mask(&stream(33, 5)).len(), 8);
    assert_eq!(create_write_mask(&stream(64, 5)).len(), 8);
    assert_eq!(create_write_mask(&stream(65, 5)).len(), 12);
    assert_eq!(create_write_mask(&stream(1000, 5)).len(), 128);
}

#[test]
fn flag_i_is_bit_i_of_its_word() {
    for i in 0..32usize {
        let mut flags = vec![false; 32];
        flags[i] = true;
        let mask = pack_write_mask(&flags);
        let word = u32::from_le_bytes([mask[0], mask[1], mask[2], mask[3]]);
        assert_eq!(word, 1u32 << i);
    }
}

#[test]
fn words_are_stored_low_byte_first() {
    let mut flags = vec![false; 40];
    flags[0] = true;
    flags[9] = true;
    flags[18] = true;
    flags[27] = true;
    flags[39] = true;
    assert_eq!(pack_write_mask(&flags), vec![0x01, 0x02, 0x04, 0x08, 0x80, 0, 0, 0]);
}

#[test]
fn all_distinct_indices_are_all_writers() {
    let indices: Vec<u32> = (0..33).collect();
    assert_eq!(create_write_mask(&indices), vec![0xff, 0xff, 0xff, 0xff, 0x01, 0, 0, 0]);
}

#[test]
fn repeated_index_is_written_once() {
    let mask = create_write_mask(&[7; 70]);
    assert_eq!(mask, vec![1, 0, 0, 0, 0, 0, 0, 0, 0, 0, 0, 0]);
}

#[test]
fn extreme_index_values_are_told_apart() {
    let flags = writer_flags(&[u32::MAX, 0, u32::MAX, 65536, 0, 65535]);
    assert_eq!(flags, vec![true, true, false, true, false, true]);
}

#[test]
fn decoded_mask_marks_exactly_the_first_occurrences() {
    for (len, distinct) in [(1usize, 1u32), (31, 4), (32, 40), (33, 7), (257, 19), (1000, 300)] {
        let indices = stream(len, distinct);
        let mask = create_write_mask(&indices);
        assert_eq!(mask.len(), 4 * ((len + 31) / 32));
        for i in 0..len {
            let first = !indices[..i].contains(&indices[i]);
            assert_eq!(bit(&mask, i), first);
        }
        for i in len..8 * mask.len() {
            assert!(!bit(&mask, i));
        }
    }
}

#[test]
fn every_index_value_has_one_writer_at_its_first_position() {
    let indices = stream(500, 37);
    let mask = create_write_mask(&indices);
    for value in 0..37u32 {
        let positions: Vec<usize> =
            (0..indices.len()).filter(|&i| indices[i] == value).collect();
        let writers: Vec<usize> = positions.iter().copied().filter(|&i| bit(&mask, i)).collect();
        if positions.is_empty() {
            assert!(writers.is_empty());
        } else {
            assert_eq!(writers, vec![positions[0]]);
        }
    }
}

#[test]
fn mask_is_the_packed_flags() {
    let indices = stream(100, 11);
    assert_eq!(create_write_mask(&indices), pack_write_mask(&writer_flags(&indices)));
}
