use voxel_core::World;
use voxel_core::CHUNK_LENGTH;
use voxel_core::CHUNK_WIDTH;
use voxel_core::WORLD_CHUNKS;
use voxel_core::WORLD_LENGTH;
use voxel_core::WORLD_WIDTH;

#[test]
fn world_dimensions() {
    assert_eq!(WORLD_WIDTH, 16);
    assert_eq!(WORLD_LENGTH, 16);
    assert_eq!(WORLD_CHUNKS, WORLD_WIDTH * WORLD_LENGTH);
}

#[test]
fn world_default_is_fully_populated_and_empty() {
    let w = World::default();
    for z in 0..WORLD_LENGTH {
        for x in 0..WORLD_WIDTH {
            let c = w.chunk(x, z);
            // spot-check cells of every chunk
            assert_eq!(c.get(0, 0, 0).id, 0);
            assert_eq!(c.get(15, 31, 15).id, 0);
            assert_eq!(c.get(x % 16, (x + z) % 32, z % 16).id, 0);
        }
    }
}

#[test]
fn world_chunk_index_is_x_fastest() {
    assert_eq!(World::chunk_index(0, 0), 0);
    assert_eq!(World::chunk_index(1, 0), 1);
    assert_eq!(World::chunk_index(0, 1), WORLD_WIDTH);
    assert_eq!(World::chunk_index(15, 15), WORLD_CHUNKS - 1);
}

#[test]
fn world_chunk_origin_scales_by_chunk_dimensions() {
    assert_eq!(World::chunk_origin(0, 0), (0, 0));
    assert_eq!(World::chunk_origin(2, 3), (2 * CHUNK_WIDTH, 3 * CHUNK_LENGTH));
    assert_eq!(World::chunk_origin(15, 15), (240, 240));
}
