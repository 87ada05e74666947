use all_is_cubes::block::Block;
use all_is_cubes::color::Rgba;
use all_is_cubes::math::{Face, GridAab, GridVector};
use all_is_cubes::space::{Space, Universe};
use all_is_cubes::triangulator::{
    triangulate_block, triangulate_blocks, SpaceTriangulation, TestTextureAllocator,
    TextureAllocator,
};

/// Test the `TestTextureAllocator`.
#[test]
fn test_texture_allocator() {
    let mut allocator = TestTextureAllocator::new(123);
    assert_eq!(allocator.resolution(), 123);
    assert_eq!(allocator.count_allocated(), 0);
    assert!(allocator.allocate().is_some());
    assert!(allocator.allocate().is_some());
    assert_eq!(allocator.count_allocated(), 2);
    allocator.set_capacity(3);
    assert!(allocator.allocate().is_some());
    assert!(allocator.allocate().is_none());
}

fn opaque_flags<T>(
    bt: &all_is_cubes::triangulator::BlockTriangulation<T>,
) -> [bool; 7] {
    [
        bt.face(Face::Within).fully_opaque,
        bt.face(Face::NX).fully_opaque,
        bt.face(Face::NY).fully_opaque,
        bt.face(Face::NZ).fully_opaque,
        bt.face(Face::PX).fully_opaque,
        bt.face(Face::PY).fully_opaque,
        bt.face(Face::PZ).fully_opaque,
    ]
}

#[test]
fn fully_opaque_atom() {
    let universe = Universe::new();
    let mut tta = TestTextureAllocator::new(16);
    let ev = Block::from_color(Rgba::white()).evaluate(&universe).unwrap();
    assert_eq!(
        opaque_flags(&triangulate_block(&ev, &mut tta)),
        [false, true, true, true, true, true, true]
    );
    let ev = Block::from_color(Rgba::transparent()).evaluate(&universe).unwrap();
    assert_eq!(
        opaque_flags(&triangulate_block(&ev, &mut tta)),
        [false, false, false, false, false, false, false]
    );
    let ev = Block::from_color(Rgba::new(256, 256, 256, 128)).evaluate(&universe).unwrap();
    assert_eq!(
        opaque_flags(&triangulate_block(&ev, &mut tta)),
        [false, false, false, false, false, false, false]
    );
}

#[test]
fn fully_opaque_voxels() {
    let resolution = 8;
    let mut universe = Universe::new();
    let mut inner = Space::empty_positive(8, 8, 8);
    for x in 0..8 {
        for y in 0..8 {
            for z in 0..8 {
                // A cube-corner shape.
                if x < 1 || y < 1 || z < 1 {
                    inner
                        .set(
                            GridVector::new(x, y, z),
                            &Block::from_color(Rgba::black()),
                            &universe,
                        )
                        .unwrap();
                }
            }
        }
    }
    let inner_id = universe.insert_anonymous(inner);
    let block = Block::recur(inner_id, GridVector::new(0, 0, 0), resolution);
    let ev = block.evaluate(&universe).unwrap();
    let mut tta = TestTextureAllocator::new(8);
    assert_eq!(
        opaque_flags(&triangulate_block(&ev, &mut tta)),
        [false, true, true, true, false, false, false]
    );
}

/// Triangulating a space with stale block data does not panic.
#[test]
fn no_panic_on_missing_blocks() {
    let universe = Universe::new();
    let block = Block::from_color(Rgba::white());
    let mut space = Space::empty_positive(2, 1, 1);
    let mut tta = TestTextureAllocator::new(43);
    let block_triangulations = triangulate_blocks(&space, &mut tta);
    assert_eq!(block_triangulations.len(), 1); // check our assumption

    // This should not panic; visual glitches are preferable to failure.
    space.set(GridVector::new(0, 0, 0), &block, &universe).unwrap();
    SpaceTriangulation::triangulate(&space, space.grid(), &block_triangulations);
}

/// Texture allocation failure falls back to solid color rather than
/// failing the triangulation.
#[test]
fn handling_allocation_failure() {
    let resolution = 8;
    let mut universe = Universe::new();
    let mut inner = Space::empty_positive(8, 8, 8);
    for x in 0..8 {
        for y in 0..8 {
            for z in 0..8 {
                if (x + y + z) % 2 == 0 {
                    inner
                        .set(
                            GridVector::new(x, y, z),
                            &Block::from_color(Rgba::white()),
                            &universe,
                        )
                        .unwrap();
                }
            }
        }
    }
    let inner_id = universe.insert_anonymous(inner);
    let block = Block::recur(inner_id, GridVector::new(0, 0, 0), resolution);
    let mut space = Space::empty_positive(1, 1, 1);
    space.set(GridVector::new(0, 0, 0), &block, &universe).unwrap();

    let mut tta = TestTextureAllocator::new(8);
    let capacity = 16;
    tta.set_capacity(capacity);
    let block_triangulations = triangulate_blocks(&space, &mut tta);

    assert_eq!(tta.count_allocated(), capacity);
    assert_eq!(block_triangulations.len(), space.block_data().len());
}

/// The mesh of a solid region has no interior faces.
#[test]
fn excludes_hidden_faces_of_blocks() {
    let universe = Universe::new();
    let block_a = Block::from_color(Rgba::white());
    let block_b = Block::from_color(Rgba::black());
    let mut space = Space::empty_positive(2, 2, 2);
    for x in 0..2 {
        for y in 0..2 {
            for z in 0..2 {
                let block = if (x + y + z) % 2 == 0 { &block_a } else { &block_b };
                space.set(GridVector::new(x, y, z), block, &universe).unwrap();
            }
        }
    }
    let mut tta = TestTextureAllocator::new(7);
    let block_triangulations = triangulate_blocks(&space, &mut tta);
    let space_tri =
        SpaceTriangulation::triangulate(&space, space.grid(), &block_triangulations);

    // Every vertex lies on the outer boundary of the 2x2x2 space.
    for v in space_tri.vertices() {
        let p = v.position;
        let on_boundary = p.x == 0
            || p.x == 2 * p.den
            || p.y == 0
            || p.y == 2 * p.den
            || p.z == 0
            || p.z == 2 * p.den;
        assert!(on_boundary, "found an interior point {:?}", p);
    }
    assert_eq!(
        space_tri.vertices().len(),
        6 /* vertices per face */
        * 4 /* block faces per exterior side of space */
        * 6, /* sides of space */
        "wrong number of faces"
    );
}

/// A 1x1 recursive block triangulates to the same geometry as an atom of
/// the same color, and allocates no textures.
#[test]
fn trivial_voxels_equals_atom() {
    let mut universe = Universe::new();
    let color = Rgba::new(0, 256, 0, 256);
    let atom_block = Block::from_color(color);
    let mut inner = Space::empty_positive(1, 1, 1);
    inner
        .set(GridVector::new(0, 0, 0), &Block::from_color(color), &universe)
        .unwrap();
    let inner_id = universe.insert_anonymous(inner);
    let trivial_recursive_block = Block::recur(inner_id, GridVector::new(0, 0, 0), 1);

    let mut render = |block: &Block| {
        let mut space = Space::empty_positive(1, 1, 1);
        space.set(GridVector::new(0, 0, 0), block, &universe).unwrap();
        let mut tex = TestTextureAllocator::new(1);
        let bts = triangulate_blocks(&space, &mut tex);
        let st = SpaceTriangulation::triangulate(&space, space.grid(), &bts);
        (tex.count_allocated(), st)
    };
    let (count_a, rendered_a) = render(&atom_block);
    let (count_r, rendered_r) = render(&trivial_recursive_block);
    assert_eq!(rendered_a.vertices(), rendered_r.vertices());
    assert_eq!(count_a, 0);
    assert_eq!(count_r, 0);
}

/// A space of one cube has the same geometry as the block's own faces,
/// concatenated in face order.
#[test]
fn space_tri_equals_block_tri() {
    let universe = Universe::new();
    let block = Block::from_color(Rgba::new(128, 64, 256, 256));
    let mut space = Space::empty_positive(1, 1, 1);
    space.set(GridVector::new(0, 0, 0), &block, &universe).unwrap();
    let mut tex = TestTextureAllocator::new(1);
    let bts = triangulate_blocks(&space, &mut tex);
    let st = SpaceTriangulation::triangulate(&space, space.grid(), &bts);
    let bt = &bts[1];
    let mut expected = Vec::new();
    for face in [
        Face::Within,
        Face::NX,
        Face::NY,
        Face::NZ,
        Face::PX,
        Face::PY,
        Face::PZ,
    ] {
        for v in &bt.face(face).vertices {
            expected.push(*v);
        }
    }
    assert_eq!(st.vertices(), &expected);
    assert_eq!(tex.count_allocated(), 0);
}

fn checkerboard_block(universe: &mut Universe, resolution: u8) -> Block {
    let n = resolution as i32;
    let mut inner = Space::empty_positive(n, n, n);
    for x in 0..n {
        for y in 0..n {
            for z in 0..n {
                let color = if (x + y + z) % 2 == 0 {
                    Rgba::white()
                } else {
                    Rgba::black()
                };
                inner
                    .set(GridVector::new(x, y, z), &Block::from_color(color), universe)
                    .unwrap();
            }
        }
    }
    let id = universe.insert_anonymous(inner);
    Block::recur(id, GridVector::new(0, 0, 0), resolution)
}

#[test]
fn block_resolution_less_than_tile() {
    let mut universe = Universe::new();
    let block = checkerboard_block(&mut universe, 4);
    let ev = block.evaluate(&universe).unwrap();
    let mut tta = TestTextureAllocator::new(8);
    let bt = triangulate_block(&ev, &mut tta);
    assert!(bt.face(Face::NX).vertices.len() > 0);
}

#[test]
fn block_resolution_greater_than_tile() {
    let mut universe = Universe::new();
    let block = checkerboard_block(&mut universe, 8);
    let ev = block.evaluate(&universe).unwrap();
    let mut tta = TestTextureAllocator::new(4);
    let bt = triangulate_block(&ev, &mut tta);
    assert!(bt.face(Face::NX).vertices.len() > 0);
}

use all_is_cubes::triangulator::{BlockVertex, Coloring, FreePoint, TexPoint};

/// Vertex with texture coloring, coordinates in eighths.
fn v_t(p: [i64; 3], face: Face, t: [i64; 3]) -> BlockVertex {
    BlockVertex {
        position: FreePoint { x: p[0], y: p[1], z: p[2], den: 8 },
        face,
        coloring: Coloring::Texture(TexPoint { x: t[0], y: t[1], z: t[2], den: 8 }),
    }
}

/// Vertex with solid coloring, coordinates in eighths.
fn v_c(p: [i64; 3], face: Face, color: Rgba) -> BlockVertex {
    BlockVertex {
        position: FreePoint { x: p[0], y: p[1], z: p[2], den: 8 },
        face,
        coloring: Coloring::Solid(color),
    }
}

/// A box whose faces do not touch the outer extent of its volume, filled
/// by `fill`, rendered through a 1-cube space.
fn shrunken_box_space(
    universe: &mut Universe,
    fill: impl Fn(i32, i32, i32) -> Rgba,
) -> Space {
    let mut inner = Space::empty_positive(8, 8, 8);
    for x in 2..6 {
        for y in 2..6 {
            for z in 2..6 {
                inner
                    .set(
                        GridVector::new(x, y, z),
                        &Block::from_color(fill(x, y, z)),
                        universe,
                    )
                    .unwrap();
            }
        }
    }
    let inner_id = universe.insert_anonymous(inner);
    let block = Block::recur(inner_id, GridVector::new(0, 0, 0), 8);
    let mut space = Space::empty_positive(1, 1, 1);
    space.set(GridVector::new(0, 0, 0), &block, universe).unwrap();
    space
}

/// Hidden surfaces get no textures, and the generated geometry is no
/// larger than the occupied region.
#[test]
fn shrunken_box_has_no_extras() {
    let mut universe = Universe::new();
    let space = shrunken_box_space(&mut universe, |x, y, z| {
        if (x + y + z) % 2 == 0 {
            Rgba::new(256, 256, 256, 256)
        } else {
            Rgba::new(0, 0, 0, 256)
        }
    });
    let mut tex = TestTextureAllocator::new(8);
    let bts = triangulate_blocks(&space, &mut tex);
    let space_rendered = SpaceTriangulation::triangulate(&space, space.grid(), &bts);

    assert_eq!(tex.count_allocated(), 6, "Should be only 6 cube face textures");
    assert_eq!(
        space_rendered.vertices().clone(),
        vec![
            v_t([2, 2, 2], Face::NX, [2, 2, 0]),
            v_t([2, 2, 6], Face::NX, [2, 6, 0]),
            v_t([2, 6, 2], Face::NX, [6, 2, 0]),
            v_t([2, 6, 2], Face::NX, [6, 2, 0]),
            v_t([2, 2, 6], Face::NX, [2, 6, 0]),
            v_t([2, 6, 6], Face::NX, [6, 6, 0]),
            v_t([2, 2, 2], Face::NY, [2, 2, 0]),
            v_t([6, 2, 2], Face::NY, [2, 6, 0]),
            v_t([2, 2, 6], Face::NY, [6, 2, 0]),
            v_t([2, 2, 6], Face::NY, [6, 2, 0]),
            v_t([6, 2, 2], Face::NY, [2, 6, 0]),
            v_t([6, 2, 6], Face::NY, [6, 6, 0]),
            v_t([2, 2, 2], Face::NZ, [2, 2, 0]),
            v_t([2, 6, 2], Face::NZ, [2, 6, 0]),
            v_t([6, 2, 2], Face::NZ, [6, 2, 0]),
            v_t([6, 2, 2], Face::NZ, [6, 2, 0]),
            v_t([2, 6, 2], Face::NZ, [2, 6, 0]),
            v_t([6, 6, 2], Face::NZ, [6, 6, 0]),
            v_t([6, 6, 2], Face::PX, [2, 2, 0]),
            v_t([6, 6, 6], Face::PX, [2, 6, 0]),
            v_t([6, 2, 2], Face::PX, [6, 2, 0]),
            v_t([6, 2, 2], Face::PX, [6, 2, 0]),
            v_t([6, 6, 6], Face::PX, [2, 6, 0]),
            v_t([6, 2, 6], Face::PX, [6, 6, 0]),
            v_t([6, 6, 2], Face::PY, [2, 2, 0]),
            v_t([2, 6, 2], Face::PY, [2, 6, 0]),
            v_t([6, 6, 6], Face::PY, [6, 2, 0]),
            v_t([6, 6, 6], Face::PY, [6, 2, 0]),
            v_t([2, 6, 2], Face::PY, [2, 6, 0]),
            v_t([2, 6, 6], Face::PY, [6, 6, 0]),
            v_t([2, 6, 6], Face::PZ, [2, 2, 0]),
            v_t([2, 2, 6], Face::PZ, [2, 6, 0]),
            v_t([6, 6, 6], Face::PZ, [6, 2, 0]),
            v_t([6, 6, 6], Face::PZ, [6, 2, 0]),
            v_t([2, 2, 6], Face::PZ, [2, 6, 0]),
            v_t([6, 2, 6], Face::PZ, [6, 6, 0]),
        ],
    );
}

/// A quad of identical texels is drawn as a solid color, with no texture
/// allocated at all.
#[test]
fn shrunken_box_uniform_color() {
    let mut universe = Universe::new();
    let filler = Rgba::new(0, 256, 128, 256);
    let space = shrunken_box_space(&mut universe, |_, _, _| filler);
    let mut tex = TestTextureAllocator::new(8);
    let bts = triangulate_blocks(&space, &mut tex);
    let space_rendered = SpaceTriangulation::triangulate(&space, space.grid(), &bts);

    assert_eq!(tex.count_allocated(), 0, "Should be no cube face textures");
    // The solid color has gone through texel quantization and back.
    let c = Rgba::new(0, 256, 128, 256);
    assert_eq!(
        space_rendered.vertices().clone(),
        vec![
            v_c([2, 2, 2], Face::NX, c),
            v_c([2, 2, 6], Face::NX, c),
            v_c([2, 6, 2], Face::NX, c),
            v_c([2, 6, 2], Face::NX, c),
            v_c([2, 2, 6], Face::NX, c),
            v_c([2, 6, 6], Face::NX, c),
            v_c([2, 2, 2], Face::NY, c),
            v_c([6, 2, 2], Face::NY, c),
            v_c([2, 2, 6], Face::NY, c),
            v_c([2, 2, 6], Face::NY, c),
            v_c([6, 2, 2], Face::NY, c),
            v_c([6, 2, 6], Face::NY, c),
            v_c([2, 2, 2], Face::NZ, c),
            v_c([2, 6, 2], Face::NZ, c),
            v_c([6, 2, 2], Face::NZ, c),
            v_c([6, 2, 2], Face::NZ, c),
            v_c([2, 6, 2], Face::NZ, c),
            v_c([6, 6, 2], Face::NZ, c),
            v_c([6, 6, 2], Face::PX, c),
            v_c([6, 6, 6], Face::PX, c),
            v_c([6, 2, 2], Face::PX, c),
            v_c([6, 2, 2], Face::PX, c),
            v_c([6, 6, 6], Face::PX, c),
            v_c([6, 2, 6], Face::PX, c),
            v_c([6, 6, 2], Face::PY, c),
            v_c([2, 6, 2], Face::PY, c),
            v_c([6, 6, 6], Face::PY, c),
            v_c([6, 6, 6], Face::PY, c),
            v_c([2, 6, 2], Face::PY, c),
            v_c([2, 6, 6], Face::PY, c),
            v_c([2, 6, 6], Face::PZ, c),
            v_c([2, 2, 6], Face::PZ, c),
            v_c([6, 6, 6], Face::PZ, c),
            v_c([6, 6, 6], Face::PZ, c),
            v_c([2, 2, 6], Face::PZ, c),
            v_c([6, 2, 6], Face::PZ, c),
        ],
    );
}
