use all_is_cubes::block::{
    clone_block, eq_block, Block, BlockAttributes, BlockCollision, Evoxel, Modifier, Move,
    OpacityCategory, Primitive, VoxelBrush,
};
use all_is_cubes::color::{Rgb, Rgba};
use all_is_cubes::grid_array::GridArray;
use all_is_cubes::math::{Face, GridAab, GridVector};
use all_is_cubes::space::{Space, Tick, Universe};

#[test]
fn move_atom_block_evaluation() {
    let color = Rgba::new(256, 0, 0, 256);
    let original = Block::from_color(color);
    let modifier = Modifier::Move(Move { direction: Face::PY, distance: 128, velocity: 0 });
    let moved = modifier.attach(clone_block(&original));
    let universe = Universe::new();

    let expected_bounds = GridAab::from_lower_size([0, 8, 0], [16, 8, 16]);

    let ev_original = original.evaluate(&universe).unwrap();
    let ev = moved.evaluate(&universe).unwrap();
    assert_eq!(ev.attributes.collision, BlockCollision::Recur);
    assert!(ev.attributes.tick_action.is_none());
    assert_eq!(ev.color, color.to_rgb().with_alpha(128));
    assert_eq!(
        ev.voxels,
        Some(GridArray::repeat(expected_bounds, Evoxel::from_block(&ev_original)))
    );
    assert_eq!(ev.resolution, 16);
    assert_eq!(ev.opaque, false);
    assert_eq!(ev.visible, true);
    assert_eq!(
        ev.voxel_opacity_mask,
        Some(GridArray::repeat(expected_bounds, OpacityCategory::Opaque))
    );
}

#[test]
fn move_voxel_block_evaluation() {
    let mut universe = Universe::new();
    let resolution = 2;
    let color = Rgba::new(256, 0, 0, 256);
    let mut inner = Space::empty_positive(2, 2, 2);
    for x in 0..2 {
        for y in 0..2 {
            for z in 0..2 {
                inner
                    .set(GridVector::new(x, y, z), &Block::from_color(color), &universe)
                    .unwrap();
            }
        }
    }
    let inner_id = universe.insert_anonymous(inner);
    let original = Block::recur(inner_id, GridVector::new(0, 0, 0), resolution);
    let modifier = Modifier::Move(Move { direction: Face::PY, distance: 128, velocity: 0 });
    let moved = modifier.attach(clone_block(&original));

    let expected_bounds = GridAab::from_lower_size([0, 1, 0], [2, 1, 2]);

    let ev_original = original.evaluate(&universe).unwrap();
    let ev = moved.evaluate(&universe).unwrap();
    assert_eq!(ev.attributes.collision, BlockCollision::Recur);
    assert!(ev.attributes.tick_action.is_none());
    assert_eq!(ev.color, color.to_rgb().with_alpha(128));
    assert_eq!(
        ev.voxels,
        Some(GridArray::repeat(expected_bounds, Evoxel::from_block(&ev_original)))
    );
    assert_eq!(ev.resolution, resolution);
    assert_eq!(ev.opaque, false);
    assert_eq!(ev.visible, true);
    assert_eq!(
        ev.voxel_opacity_mask,
        Some(GridArray::repeat(expected_bounds, OpacityCategory::Opaque))
    );
}

/// `Modifier::Move` incorporates quoting to ensure that no conflicting
/// effects happen.
#[test]
fn move_also_quotes() {
    let original = Block {
        primitive: Primitive::Atom(
            BlockAttributes {
                collision: BlockCollision::Hard,
                tick_action: Some(VoxelBrush::single(Block::air())),
                light_emission: Rgb::zero(),
            },
            Rgba::white(),
        ),
        modifiers: Vec::new(),
    };
    let moved = Modifier::Move(Move { direction: Face::PY, distance: 128, velocity: 0 })
        .attach(original);
    let ev = moved.evaluate(&Universe::new()).unwrap();
    assert!(ev.attributes.tick_action.is_none());
}

/// Set up a `Modifier::Move`, let it run, and then allow assertions to be
/// made about the result.
fn move_block_test(direction: Face, velocity: i16, checker: impl FnOnce(&Space, &Block)) {
    let block = Block::from_color(Rgba::new(0, 256, 0, 256));
    let mut universe = Universe::new();
    let mut space = Space::empty(GridAab::from_lower_upper([-1, -1, -1], [2, 2, 2]));
    let (move_out, move_in) = Move::paired_move(direction, 0, velocity);
    space
        .set(GridVector::new(0, 0, 0), &move_out.attach(clone_block(&block)), &universe)
        .unwrap();
    let n = direction.normal_vector();
    space
        .set(n, &move_in.attach(clone_block(&block)), &universe)
        .unwrap();
    let space_id = universe.insert_anonymous(space);
    for _ in 0..257 {
        universe.step(Tick::arbitrary());
    }
    let space_ref = universe.get_space(space_id).unwrap();
    checker(space_ref, &block);
}

#[test]
fn velocity_zero() {
    move_block_test(Face::PX, 0, |space, block| {
        assert!(eq_block(space.block_at(GridVector::new(0, 0, 0)), block));
        assert!(eq_block(space.block_at(GridVector::new(1, 0, 0)), &Block::air()));
    });
}

#[test]
fn velocity_slow() {
    move_block_test(Face::PX, 1, |space, block| {
        assert!(eq_block(space.block_at(GridVector::new(0, 0, 0)), &Block::air()));
        assert!(eq_block(space.block_at(GridVector::new(1, 0, 0)), block));
    });
}

#[test]
fn velocity_whole_cube_in_one_tick() {
    move_block_test(Face::PX, 256, |space, block| {
        assert!(eq_block(space.block_at(GridVector::new(0, 0, 0)), &Block::air()));
        assert!(eq_block(space.block_at(GridVector::new(1, 0, 0)), block));
    });
}
