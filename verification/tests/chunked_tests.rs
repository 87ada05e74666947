use all_is_cubes::block::Block;
use all_is_cubes::chunked::{
    ChunkPos, ChunkTodo, ChunkedSpaceMesh, CsmTodo, MeshCamera, VersionedBlockMeshes,
};
use all_is_cubes::color::Rgba;
use all_is_cubes::math::GridVector;
use all_is_cubes::space::{Space, SpaceChange, Universe};
use all_is_cubes::triangulator::{NoTextures, TestTextureAllocator};

const CHUNK_SIZE: i32 = 16;

fn read_todo_chunks(todo: &CsmTodo) -> Vec<(ChunkPos, ChunkTodo)> {
    let mut v: Vec<(ChunkPos, ChunkTodo)> = todo.chunks.clone();
    v.sort_by_key(|(p, _)| (p.x, p.y, p.z));
    v
}

#[test]
fn update_adjacent_chunk_positive() {
    let mut todo = CsmTodo::new();
    todo.chunks = vec![
        (ChunkPos::new(-1, 0, 0), ChunkTodo::clean()),
        (ChunkPos::new(0, 0, 0), ChunkTodo::clean()),
        (ChunkPos::new(1, 0, 0), ChunkTodo::clean()),
    ];
    todo.receive(
        SpaceChange::Block(GridVector::new(CHUNK_SIZE - 1, CHUNK_SIZE / 2, CHUNK_SIZE / 2)),
        CHUNK_SIZE,
    );
    assert_eq!(
        read_todo_chunks(&todo),
        vec![
            (ChunkPos::new(-1, 0, 0), ChunkTodo { recompute_mesh: false }),
            (ChunkPos::new(0, 0, 0), ChunkTodo { recompute_mesh: true }),
            (ChunkPos::new(1, 0, 0), ChunkTodo { recompute_mesh: true }),
        ],
    );
}

#[test]
fn update_adjacent_chunk_negative() {
    let mut todo = CsmTodo::new();
    todo.chunks = vec![
        (ChunkPos::new(-1, 0, 0), ChunkTodo::clean()),
        (ChunkPos::new(0, 0, 0), ChunkTodo::clean()),
        (ChunkPos::new(1, 0, 0), ChunkTodo::clean()),
    ];
    todo.receive(
        SpaceChange::Block(GridVector::new(0, CHUNK_SIZE / 2, CHUNK_SIZE / 2)),
        CHUNK_SIZE,
    );
    assert_eq!(
        read_todo_chunks(&todo),
        vec![
            (ChunkPos::new(-1, 0, 0), ChunkTodo { recompute_mesh: true }),
            (ChunkPos::new(0, 0, 0), ChunkTodo { recompute_mesh: true }),
            (ChunkPos::new(1, 0, 0), ChunkTodo { recompute_mesh: false }),
        ],
    );
}

/// A chunk-interior cube change (chunk edge greater than one) marks only
/// the owning chunk.
#[test]
fn interior_cube_marks_only_owner() {
    let mut todo = CsmTodo::new();
    todo.chunks = vec![
        (ChunkPos::new(-1, 0, 0), ChunkTodo::clean()),
        (ChunkPos::new(0, 0, 0), ChunkTodo::clean()),
        (ChunkPos::new(1, 0, 0), ChunkTodo::clean()),
    ];
    todo.receive(
        SpaceChange::Block(GridVector::new(CHUNK_SIZE / 2, CHUNK_SIZE / 2, CHUNK_SIZE / 2)),
        CHUNK_SIZE,
    );
    assert_eq!(
        read_todo_chunks(&todo),
        vec![
            (ChunkPos::new(-1, 0, 0), ChunkTodo { recompute_mesh: false }),
            (ChunkPos::new(0, 0, 0), ChunkTodo { recompute_mesh: true }),
            (ChunkPos::new(1, 0, 0), ChunkTodo { recompute_mesh: false }),
        ],
    );
}

#[test]
fn todo_ignores_absent_chunks() {
    let mut todo = CsmTodo::new();
    let p = GridVector::new(CHUNK_SIZE / 2, CHUNK_SIZE / 2, CHUNK_SIZE / 2);
    // Nothing happens...
    todo.receive(SpaceChange::Block(p), CHUNK_SIZE);
    assert_eq!(read_todo_chunks(&todo), vec![]);
    // ...until the chunk exists in the table already.
    todo.chunks.push((ChunkPos::new(0, 0, 0), ChunkTodo::clean()));
    todo.receive(SpaceChange::Block(p), CHUNK_SIZE);
    assert_eq!(
        read_todo_chunks(&todo),
        vec![(ChunkPos::new(0, 0, 0), ChunkTodo { recompute_mesh: true })],
    );
}

#[test]
fn basic_chunk_presence() {
    let mut universe = Universe::new();
    let space_id = universe.insert_anonymous(Space::empty_positive(1, 1, 1));
    let mut cst: ChunkedSpaceMesh<NoTextures> = ChunkedSpaceMesh::new(CHUNK_SIZE);
    let camera = MeshCamera {
        view_position: GridVector::new(0, 0, 0),
        view_distance_chunks: 1,
        chunks_per_frame: 100,
    };
    let mut alloc = NoTextures;
    let space = universe.get_space(space_id).unwrap();
    cst.update_blocks_and_some_chunks(&camera, space, &mut alloc);
    assert!(cst.chunk(ChunkPos::new(0, 0, 0)).is_some());
    // There should not be a chunk where there's no space.
    assert!(cst.chunk(ChunkPos::new(1, 0, 0)).is_none());
}

#[test]
fn sort_view_every_frame_only_if_transparent() {
    let mut universe = Universe::new();
    let space_id = universe.insert_anonymous(Space::empty_positive(1, 1, 1));
    let mut cst: ChunkedSpaceMesh<NoTextures> = ChunkedSpaceMesh::new(CHUNK_SIZE);
    let camera = MeshCamera {
        view_position: GridVector::new(0, 0, 0),
        view_distance_chunks: 1,
        chunks_per_frame: 100,
    };
    let mut alloc = NoTextures;
    let (info, _) = cst.update_blocks_and_some_chunks(
        &camera,
        universe.get_space(space_id).unwrap(),
        &mut alloc,
    );
    assert!(!info.depth_sorted, "should not have reordered initially");

    // Place a transparent block and notify the mesh of the change.
    {
        let space = &mut universe.spaces[space_id];
        space
            .set(
                GridVector::new(0, 0, 0),
                &Block::from_color(Rgba::new(256, 256, 256, 128)),
                &Universe::new(),
            )
            .unwrap();
    }
    cst.receive(SpaceChange::Number(1));
    cst.receive(SpaceChange::Block(GridVector::new(0, 0, 0)));
    // One update to absorb the block-mesh change (filling in missing
    // chunks takes priority over refreshing dirty ones for one frame).
    cst.update_blocks_and_some_chunks(&camera, universe.get_space(space_id).unwrap(), &mut alloc);
    let (info, _) = cst.update_blocks_and_some_chunks(
        &camera,
        universe.get_space(space_id).unwrap(),
        &mut alloc,
    );
    assert!(info.depth_sorted, "expected a reorder");
    let (info, _) = cst.update_blocks_and_some_chunks(
        &camera,
        universe.get_space(space_id).unwrap(),
        &mut alloc,
    );
    assert!(info.depth_sorted, "expected a reorder again");
}

/// Re-running the block mesh update on an unchanged inventory leaves
/// every version stamp unchanged and reports zero work.
#[test]
fn block_mesh_version_stability() {
    let mut universe = Universe::new();
    let mut space = Space::empty_positive(2, 1, 1);
    space
        .set(GridVector::new(0, 0, 0), &Block::from_color(Rgba::white()), &universe)
        .unwrap();
    let space_id = universe.insert_anonymous(space);
    let space = universe.get_space(space_id).unwrap();

    let mut vbm: VersionedBlockMeshes<
        <TestTextureAllocator as all_is_cubes::triangulator::TextureAllocator>::Tile,
    > = VersionedBlockMeshes::new();
    let mut tta = TestTextureAllocator::new(16);
    let mut todo: Vec<u16> = Vec::new();
    let first = vbm.update_some_or_all(&mut todo, space, &mut tta);
    assert_eq!(first, space.block_data().len());
    let versions_before = vbm.versioning.clone();

    let second = vbm.update_some_or_all(&mut todo, space, &mut tta);
    assert_eq!(second, 0);
    assert_eq!(vbm.versioning, versions_before);
}

/// A dirty block whose mesh content is unchanged does not advance its
/// version, so no chunks become stale.
#[test]
fn content_equivalent_change_keeps_versions() {
    let mut universe = Universe::new();
    let mut space = Space::empty_positive(2, 1, 1);
    space
        .set(GridVector::new(0, 0, 0), &Block::from_color(Rgba::white()), &universe)
        .unwrap();
    let space_id = universe.insert_anonymous(space);

    let mut vbm: VersionedBlockMeshes<
        <TestTextureAllocator as all_is_cubes::triangulator::TextureAllocator>::Tile,
    > = VersionedBlockMeshes::new();
    let mut tta = TestTextureAllocator::new(16);
    let mut todo: Vec<u16> = Vec::new();
    vbm.update_some_or_all(&mut todo, universe.get_space(space_id).unwrap(), &mut tta);
    let versions_before = vbm.versioning.clone();

    // Mark a block dirty without changing anything about it.
    todo.push(1);
    let count = vbm.update_some_or_all(&mut todo, universe.get_space(space_id).unwrap(), &mut tta);
    assert_eq!(count, 1);
    assert_eq!(vbm.versioning, versions_before);
}

/// `update_blocks_and_some_chunks` never recomputes more chunk meshes in
/// one call than the configured per-frame budget.
#[test]
fn budget_respecting() {
    let mut universe = Universe::new();
    let space_id = universe.insert_anonymous(Space::empty_positive(48, 48, 48));
    let mut cst: ChunkedSpaceMesh<NoTextures> = ChunkedSpaceMesh::new(CHUNK_SIZE);
    let camera = MeshCamera {
        view_position: GridVector::new(24, 24, 24),
        view_distance_chunks: 2,
        chunks_per_frame: 2,
    };
    let mut alloc = NoTextures;
    let (info, _) = cst.update_blocks_and_some_chunks(
        &camera,
        universe.get_space(space_id).unwrap(),
        &mut alloc,
    );
    assert_eq!(info.chunk_update_count, 2);
    // Repeated calls fill in the rest, still within budget each time.
    let mut total = info.chunk_update_count;
    for _ in 0..30 {
        let (info, _) = cst.update_blocks_and_some_chunks(
            &camera,
            universe.get_space(space_id).unwrap(),
            &mut alloc,
        );
        assert!(info.chunk_update_count <= 2);
        total += info.chunk_update_count;
    }
    assert_eq!(total, 27, "all 27 in-range chunks eventually built");
}

/// Mutating a single block referenced by one chunk and re-running the
/// block and chunk updates recomputes exactly that chunk.
#[test]
fn chunk_dependency_staleness_detection() {
    let mut universe = Universe::new();
    let mut space = Space::empty_positive(32, 16, 16);
    space
        .set(
            GridVector::new(0, 0, 0),
            &Block::from_color(Rgba::new(256, 256, 256, 256)),
            &universe,
        )
        .unwrap();
    let space_id = universe.insert_anonymous(space);
    let mut cst: ChunkedSpaceMesh<NoTextures> = ChunkedSpaceMesh::new(CHUNK_SIZE);
    let camera = MeshCamera {
        view_position: GridVector::new(16, 8, 8),
        view_distance_chunks: 2,
        chunks_per_frame: 100,
    };
    let mut alloc = NoTextures;
    let (info, _) = cst.update_blocks_and_some_chunks(
        &camera,
        universe.get_space(space_id).unwrap(),
        &mut alloc,
    );
    assert_eq!(info.chunk_update_count, 2, "both chunks built initially");
    let deps_other_before = cst.chunk(ChunkPos::new(1, 0, 0)).unwrap().block_dependencies.clone();

    // Change the definition of the referenced block (palette index 1).
    {
        let ev2 = Block::from_color(Rgba::new(256, 0, 0, 256)).evaluate(&universe).unwrap();
        let space = &mut universe.spaces[space_id];
        space.palette[1].evaluated = ev2;
    }
    cst.receive(SpaceChange::Number(1));
    let (info, _) = cst.update_blocks_and_some_chunks(
        &camera,
        universe.get_space(space_id).unwrap(),
        &mut alloc,
    );
    assert_eq!(info.block_update_count, 1);
    assert_eq!(info.chunk_update_count, 1, "only the chunk using the block is stale");
    let deps_other_after = cst.chunk(ChunkPos::new(1, 0, 0)).unwrap().block_dependencies.clone();
    assert_eq!(deps_other_before, deps_other_after, "the unrelated chunk was untouched");
}

/// The update info lists exactly the positions whose meshes were rebuilt.
#[test]
fn updated_chunks_are_reported() {
    let mut universe = Universe::new();
    let space_id = universe.insert_anonymous(Space::empty_positive(1, 1, 1));
    let mut cst: ChunkedSpaceMesh<NoTextures> = ChunkedSpaceMesh::new(CHUNK_SIZE);
    let camera = MeshCamera {
        view_position: GridVector::new(0, 0, 0),
        view_distance_chunks: 1,
        chunks_per_frame: 100,
    };
    let mut alloc = NoTextures;
    let (info, _) = cst.update_blocks_and_some_chunks(
        &camera,
        universe.get_space(space_id).unwrap(),
        &mut alloc,
    );
    assert_eq!(info.chunk_update_count, 1);
    assert_eq!(info.updated_chunks, vec![ChunkPos::new(0, 0, 0)]);
    // A second frame with nothing dirty rebuilds nothing.
    let (info, _) = cst.update_blocks_and_some_chunks(
        &camera,
        universe.get_space(space_id).unwrap(),
        &mut alloc,
    );
    assert_eq!(info.chunk_update_count, 0);
    assert!(info.updated_chunks.is_empty());
}
