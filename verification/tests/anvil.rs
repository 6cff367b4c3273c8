use mili_rust::anvil::{biome_palette, block_palette, ceil_log2, chunk_to_anvil_compound, pack_indices, LoadedChunk};
use mili_rust::registry::BiomeId;
use mili_rust::world::{BlockKind, BlockState};

fn state(kind: BlockKind) -> BlockState {
    BlockState::default_of(kind)
}

fn unpack(packed: &[i64], bits: u32, i: usize) -> u64 {
    let per_word = (64 / bits) as usize;
    let word = packed[i / per_word] as u64;
    (word >> ((i % per_word) as u32 * bits)) & ((1u64 << bits) - 1)
}

#[test]
fn ceil_log2_values() {
    assert_eq!(ceil_log2(0), 0);
    assert_eq!(ceil_log2(1), 0);
    assert_eq!(ceil_log2(2), 1);
    assert_eq!(ceil_log2(3), 2);
    assert_eq!(ceil_log2(4), 2);
    assert_eq!(ceil_log2(5), 3);
    assert_eq!(ceil_log2(4096), 12);
    assert_eq!(ceil_log2(4097), 13);
    assert_eq!(ceil_log2(u64::MAX), 64);
}

#[test]
fn pack_indices_fills_low_bits_first() {
    assert_eq!(pack_indices(&[1, 2, 3], 4), vec![0x321]);
    assert_eq!(pack_indices(&[], 4), Vec::<i64>::new());
    // Only the low bits of each index are kept.
    assert_eq!(pack_indices(&[0x1f, 1], 4), vec![0x1f]);
    assert_eq!(pack_indices(&[u64::MAX], 63), vec![i64::MAX]);
}

#[test]
fn pack_indices_starts_a_new_word_when_full() {
    // 5 bits: 12 fields per word, the top 4 bits stay zero.
    let indices: Vec<u64> = (0..13).map(|i| (i % 32) as u64).collect();
    let packed = pack_indices(&indices, 5);
    assert_eq!(packed.len(), 2);
    assert_eq!(packed[1], 12);
    assert_eq!((packed[0] as u64) >> 60, 0);
}

#[test]
fn packed_fields_read_back() {
    let indices: Vec<u64> = (0..200u64).map(|i| (i * 37 + 11) % 100).collect();
    for bits in [7u32, 8, 9, 13, 21, 32, 33] {
        let packed = pack_indices(&indices, bits);
        for (i, &v) in indices.iter().enumerate() {
            assert_eq!(unpack(&packed, bits, i), v, "bits {bits} index {i}");
        }
    }
}

#[test]
fn block_palette_keeps_first_occurrence_order() {
    let stone = state(BlockKind::Stone);
    let air = state(BlockKind::Air);
    let dirt = state(BlockKind::Dirt);
    let (palette, indices) = block_palette(&vec![stone, air, stone, dirt, air]);
    assert_eq!(palette, vec![stone, air, dirt]);
    assert_eq!(indices, vec![0, 1, 0, 2, 1]);
}

#[test]
fn biome_palette_of_one_biome() {
    let plains = BiomeId::default();
    let other = BiomeId::from_index(3);
    let (palette, indices) = biome_palette(&vec![plains, plains, other]);
    assert_eq!(palette, vec![plains, other]);
    assert_eq!(indices, vec![0, 0, 1]);
}

#[test]
fn empty_section_has_single_entry_palettes() {
    let chunk = LoadedChunk::new(1);
    let c = chunk_to_anvil_compound(&chunk, 3, -7, -64, 16).unwrap();
    assert_eq!(c.data_version, 3715);
    assert_eq!((c.x_pos, c.z_pos, c.y_pos), (3, -7, -4));
    assert_eq!(c.status, "full");
    assert_eq!(c.sections.len(), 1);
    let s = &c.sections[0];
    assert_eq!(s.y, -4);
    assert_eq!(s.block_palette, vec![state(BlockKind::Air)]);
    assert!(s.block_data.is_none());
    assert_eq!(s.biome_palette, vec!["minecraft:plains".to_owned()]);
    assert!(s.biome_data.is_none());
}

#[test]
fn section_with_two_states_packs_one_bit_each() {
    let mut chunk = LoadedChunk::new(2);
    chunk.set_block_state(1, 0, 0, state(BlockKind::Stone));
    chunk.set_block_state(0, 17, 0, state(BlockKind::Dirt));
    chunk.set_biome(0, 4, 0, BiomeId::from_index(5));
    assert_eq!(chunk.block_state(1, 0, 0), state(BlockKind::Stone));
    assert_eq!(chunk.biome(0, 4, 0), BiomeId::from_index(5));
    let c = chunk_to_anvil_compound(&chunk, 0, 0, 0, 32).unwrap();
    assert_eq!(c.sections.len(), 2);
    let s0 = &c.sections[0];
    assert_eq!(s0.block_palette, vec![state(BlockKind::Air), state(BlockKind::Stone)]);
    let data = s0.block_data.as_ref().unwrap();
    assert_eq!(data.len(), 64);
    assert_eq!(data[0], 0b10);
    assert!(data[1..].iter().all(|&w| w == 0));
    assert!(s0.biome_data.is_none());
    let s1 = &c.sections[1];
    assert_eq!(s1.y, 1);
    // y = 17 is the second layer of section 1: block index 256.
    let data1 = s1.block_data.as_ref().unwrap();
    assert_eq!(unpack(data1, 1, 256), 1);
    assert_eq!(s1.biome_palette.len(), 2);
    let biomes = s1.biome_data.as_ref().unwrap();
    assert_eq!(biomes.len(), 1);
    assert_eq!(biomes[0], -2);
}

#[test]
fn section_height_rounds_toward_zero() {
    let chunk = LoadedChunk::new(1);
    let c = chunk_to_anvil_compound(&chunk, 0, 0, -20, 16).unwrap();
    assert_eq!(c.y_pos, -1);
    assert_eq!(c.sections[0].y, -1);
    let c = chunk_to_anvil_compound(&chunk, 0, 0, 0, 15).unwrap();
    assert_eq!(c.sections.len(), 0);
}

#[test]
fn many_states_use_wider_fields() {
    let mut chunk = LoadedChunk::new(1);
    let kinds = [BlockKind::Stone, BlockKind::Dirt, BlockKind::Sand, BlockKind::Gravel, BlockKind::Glass];
    for (i, k) in kinds.iter().enumerate() {
        chunk.set_block_state(i as u32, 0, 0, state(*k));
    }
    let c = chunk_to_anvil_compound(&chunk, 0, 0, 0, 16).unwrap();
    let s = &c.sections[0];
    assert_eq!(s.block_palette.len(), 6);
    // Six entries take three bits; 21 fields per word.
    let data = s.block_data.as_ref().unwrap();
    assert_eq!(data.len(), 4096usize.div_ceil(21));
    for i in 0..5 {
        assert_eq!(unpack(data, 3, i), i as u64);
    }
    assert_eq!(unpack(data, 3, 5), 5);
    assert_eq!(unpack(data, 3, 6), 5);
}
