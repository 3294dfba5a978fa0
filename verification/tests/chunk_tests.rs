use voxel_core::Chunk;
use voxel_core::ChunkError;
use voxel_core::Voxel;
use voxel_core::CHUNK_HEIGHT;
use voxel_core::CHUNK_LENGTH;
use voxel_core::CHUNK_VOLUME;
use voxel_core::CHUNK_WIDTH;

#[test]
fn voxel_new_keeps_id() {
    assert_eq!(Voxel::new(0).id, 0);
    assert_eq!(Voxel::new(7).id, 7);
    assert_eq!(Voxel::new(u32::MAX).id, u32::MAX);
    assert!(!Voxel::new(0).solid());
    assert!(Voxel::new(1).solid());
    assert!(Voxel::new(2).solid());
}

#[test]
fn index_formula_exact_values() {
    assert_eq!(Chunk::index(0, 0, 0), 0);
    assert_eq!(Chunk::index(1, 0, 0), 1);
    assert_eq!(Chunk::index(0, 0, 1), 16);
    assert_eq!(Chunk::index(0, 1, 0), 256);
    assert_eq!(Chunk::index(3, 2, 1), 3 + 16 * (1 + 16 * 2));
    assert_eq!(Chunk::index(15, 31, 15), CHUNK_VOLUME - 1);
}

#[test]
fn index_is_a_bijection_onto_the_volume() {
    let mut hit = vec![0u32; CHUNK_VOLUME];
    for y in 0..CHUNK_HEIGHT {
        for z in 0..CHUNK_LENGTH {
            for x in 0..CHUNK_WIDTH {
                let i = Chunk::index(x, y, z);
                assert!(i < CHUNK_VOLUME);
                hit[i] += 1;
            }
        }
    }
    for i in 0..CHUNK_VOLUME {
        assert_eq!(hit[i], 1, "index {i} not hit exactly once");
    }
}

#[test]
fn set_then_get_round_trip() {
    let mut c = Chunk::default();
    let v = Voxel::new(9);
    c.set(v, 3, 4, 5);
    assert_eq!(c.get(3, 4, 5), v);
    // no other coordinate changed
    for y in 0..CHUNK_HEIGHT {
        for z in 0..CHUNK_LENGTH {
            for x in 0..CHUNK_WIDTH {
                if (x, y, z) != (3, 4, 5) {
                    assert_eq!(c.get(x, y, z).id, 0);
                }
            }
        }
    }
}

#[test]
fn default_chunk_is_all_empty() {
    let c = Chunk::default();
    for y in 0..CHUNK_HEIGHT {
        for z in 0..CHUNK_LENGTH {
            for x in 0..CHUNK_WIDTH {
                assert_eq!(c.get(x, y, z).id, 0);
            }
        }
    }
}

#[test]
fn half_full_has_low_half_solid() {
    let c = Chunk::half_full();
    let mut solid_count = 0usize;
    for y in 0..CHUNK_HEIGHT {
        for z in 0..CHUNK_LENGTH {
            for x in 0..CHUNK_WIDTH {
                let i = Chunk::index(x, y, z);
                let v = c.get(x, y, z);
                if i < CHUNK_VOLUME / 2 {
                    assert_eq!(v.id, 1);
                } else {
                    assert_eq!(v.id, 0);
                }
                if v.solid() {
                    solid_count += 1;
                }
            }
        }
    }
    assert_eq!(solid_count, CHUNK_VOLUME / 2);
}

#[test]
fn half_full_is_deterministic() {
    let a = Chunk::half_full();
    let b = Chunk::half_full();
    for y in 0..CHUNK_HEIGHT {
        for z in 0..CHUNK_LENGTH {
            for x in 0..CHUNK_WIDTH {
                assert_eq!(a.get(x, y, z), b.get(x, y, z));
            }
        }
    }
}

#[test]
fn half_full_boundary_voxels() {
    // End-to-end scenario on the 16x16x32 half-full chunk: the flattened
    // index space is solid up to (but excluding) CHUNK_VOLUME / 2.
    let c = Chunk::half_full();
    // flattened index 0 == (0, 0, 0)
    assert!(c.get(0, 0, 0).solid());
    // flattened index CHUNK_VOLUME - 1 == (15, 31, 15)
    assert!(!c.get(15, 31, 15).solid());
    // flattened index CHUNK_VOLUME / 2 - 1 == 4095 == (15, 15, 15)
    assert_eq!(Chunk::index(15, 15, 15), CHUNK_VOLUME / 2 - 1);
    assert!(c.get(15, 15, 15).solid());
    // flattened index CHUNK_VOLUME / 2 == 4096 == (0, 16, 0)
    assert_eq!(Chunk::index(0, 16, 0), CHUNK_VOLUME / 2);
    assert!(!c.get(0, 16, 0).solid());
}

#[test]
fn try_get_in_and_out_of_bounds() {
    let mut c = Chunk::default();
    c.set(Voxel::new(5), 1, 2, 3);
    assert_eq!(c.try_get(1, 2, 3), Ok(Voxel::new(5)));
    assert_eq!(c.try_get(16, 0, 0), Err(ChunkError::IndexOutOfRange));
    assert_eq!(c.try_get(0, 32, 0), Err(ChunkError::IndexOutOfRange));
    assert_eq!(c.try_get(0, 0, 16), Err(ChunkError::IndexOutOfRange));
    assert_eq!(c.try_get(usize::MAX, 0, 0), Err(ChunkError::IndexOutOfRange));
}

#[test]
fn try_set_in_and_out_of_bounds() {
    let mut c = Chunk::default();
    assert_eq!(c.try_set(Voxel::new(4), 0, 31, 15), Ok(()));
    assert_eq!(c.get(0, 31, 15).id, 4);
    assert_eq!(
        c.try_set(Voxel::new(4), 3, 99, 3),
        Err(ChunkError::IndexOutOfRange)
    );
    // the failed write left the grid unchanged
    for y in 0..CHUNK_HEIGHT {
        for z in 0..CHUNK_LENGTH {
            for x in 0..CHUNK_WIDTH {
                let expected = if (x, y, z) == (0, 31, 15) { 4 } else { 0 };
                assert_eq!(c.get(x, y, z).id, expected);
            }
        }
    }
}
