use all_is_cubes::atlas::{AtlasAllocator, AtlasTexture};
use all_is_cubes::grid_array::GridArray;
use all_is_cubes::math::{GridAab, GridVector};

/// After a write, a flush copies exactly the written texels to the
/// region recorded for the tile, and a second immediate flush copies
/// nothing.
#[test]
fn atlas_dirty_flush_correctness() {
    let mut atlas = AtlasAllocator::new(4);
    let mut texture = AtlasTexture::new(4);
    let request = GridAab::from_lower_size([0, 0, 0], [2, 2, 2]);
    let tile = atlas.allocate(request).expect("allocation should succeed");

    let mut data = GridArray::repeat(request, (1u8, 2u8, 3u8, 4u8));
    data.set(GridVector::new(1, 0, 1), (9u8, 8u8, 7u8, 6u8));
    atlas.write(&tile, data);

    let info = atlas.flush(&mut texture);
    assert_eq!(info.flushed, 1);
    assert_eq!(info.in_use_tiles, 1);
    assert_eq!(info.in_use_texels, 8);
    assert_eq!(info.capacity_texels, 16 * 16 * 16);

    // The written texels are at the allocated region, exactly.
    let region = atlas.in_use[tile.id].handle.as_ref().unwrap().allocation;
    let offset = atlas.in_use[tile.id].handle.as_ref().unwrap().offset;
    assert_eq!(region.size(), request.size());
    let lower = region.lower_bounds();
    for dx in 0..2 {
        for dy in 0..2 {
            for dz in 0..2 {
                let cube = GridVector::new(lower.x + dx, lower.y + dy, lower.z + dz);
                let local = GridVector::new(cube.x - offset.x, cube.y - offset.y, cube.z - offset.z);
                let expected = if local == GridVector::new(1, 0, 1) {
                    (9u8, 8u8, 7u8, 6u8)
                } else {
                    (1u8, 2u8, 3u8, 4u8)
                };
                assert_eq!(*texture.contents.get(cube), expected);
            }
        }
    }

    // No intervening write: the next flush performs zero copies.
    let info2 = atlas.flush(&mut texture);
    assert_eq!(info2.flushed, 0);
}

/// Releasing the last reference to a tile returns its region to the
/// allocator, so an identical allocation succeeds again.
#[test]
fn tile_lifetime_returns_region() {
    let mut atlas = AtlasAllocator::new(5);
    let mut tiles = Vec::new();
    for i in 0..8 {
        let t = atlas
            .allocate(GridAab::for_block(16))
            .unwrap_or_else(|| panic!("tile allocation failure for #{}", i));
        tiles.push(t);
    }
    assert!(atlas.allocate(GridAab::for_block(16)).is_none());
    let t = tiles.swap_remove(2);
    // A second handle keeps the region alive.
    let t2 = atlas.tile_clone(&t);
    atlas.release(t);
    assert!(atlas.allocate(GridAab::for_block(16)).is_none());
    // Dropping the last reference frees the region.
    atlas.release(t2);
    assert!(atlas.allocate(GridAab::for_block(16)).is_some());
}

/// Tiles compare equal exactly when they share a backing slot.
#[test]
fn tile_equality_is_identity() {
    let mut atlas = AtlasAllocator::new(4);
    let a = atlas.allocate(GridAab::for_block(4)).unwrap();
    let b = atlas.allocate(GridAab::for_block(4)).unwrap();
    let a2 = atlas.tile_clone(&a);
    assert_eq!(a, a2);
    assert_ne!(a, b);
}
