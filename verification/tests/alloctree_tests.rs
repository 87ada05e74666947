use all_is_cubes::alloctree::{expsize, Alloctree, AlloctreeHandle};
use all_is_cubes::math::GridAab;

fn check_no_overlaps(
    t: &mut Alloctree,
    requests: Vec<GridAab>,
) -> Vec<AlloctreeHandle> {
    let mut handles: Vec<AlloctreeHandle> = Vec::new();
    for request in requests {
        let handle = match t.allocate(request) {
            Some(val) => val,
            None => panic!("check_no_overlaps: allocation failure for {:?}", request),
        };
        assert_eq!(
            request.size(),
            handle.allocation.size(),
            "mismatch of requested {:?} and granted {:?}",
            request,
            handle.allocation
        );
        for existing in &handles {
            if let Some(intersection) = handle.allocation.intersection(existing.allocation) {
                panic!(
                    "intersection {:?} between {:?} and {:?}",
                    intersection, existing.allocation, handle.allocation
                );
            }
        }
        handles.push(handle);
    }
    handles
}

#[test]
fn basic_complete_fill() {
    // side length 2^5 cube = eight side length 16 cubes
    let mut t = Alloctree::new(5);
    let mut allocations: Vec<AlloctreeHandle> = Vec::new();
    for i in 0..8 {
        match t.allocate(GridAab::for_block(16)) {
            Some(val) => allocations.push(val),
            None => panic!("basic_complete_fill allocation failure for #{}", i),
        }
    }
    assert_eq!(None, t.allocate(GridAab::for_block(16)));
}

/// Repeatedly free and try to allocate the same space again.
#[test]
fn free_and_allocate_again() {
    // side length 2^6 cube = 64 side length 16 cubes
    let mut t = Alloctree::new(6);
    let mut allocations: Vec<Option<AlloctreeHandle>> = Vec::new();
    for i in 0..64 {
        match t.allocate(GridAab::for_block(16)) {
            Some(val) => allocations.push(Some(val)),
            None => panic!("free_and_allocate_again initial allocation failure for #{}", i),
        }
    }
    for h in allocations.iter_mut() {
        t.free(h.take().unwrap());
        *h = Some(t.allocate(GridAab::for_block(16)).unwrap());
    }
}

#[test]
fn no_overlap() {
    let mut t = Alloctree::new(5);
    check_no_overlaps(
        &mut t,
        vec![
            GridAab::for_block(16),
            GridAab::for_block(16),
            GridAab::for_block(16),
        ],
    );
}

#[test]
fn expsize_edge_cases() {
    assert_eq!(expsize(0), 1);
    assert_eq!(expsize(30), 1 << 30);
    // expsize(31) would be i32::MAX + 1 if that were representable
    assert_eq!(expsize(31), i32::MAX);
    assert_eq!(expsize(32), i32::MAX);
    assert_eq!(expsize(33), i32::MAX);
}

/// Allocator of edge 32: eight cubes of edge 16 all succeed and are
/// pairwise disjoint, a ninth fails, and freeing any one lets an
/// identical request succeed again.
#[test]
fn fill_free_refill_cycle() {
    let mut t = Alloctree::new(5);
    let mut handles = Vec::new();
    for i in 0..8 {
        let h = t
            .allocate(GridAab::for_block(16))
            .unwrap_or_else(|| panic!("allocation failure for #{}", i));
        for existing in &handles {
            let e: &AlloctreeHandle = existing;
            assert!(h.allocation.intersection(e.allocation).is_none());
        }
        handles.push(h);
    }
    assert!(t.allocate(GridAab::for_block(16)).is_none());
    assert_eq!(t.occupied_volume(), 8 * 16 * 16 * 16);
    let freed = handles.swap_remove(3);
    t.free(freed);
    assert_eq!(t.occupied_volume(), 7 * 16 * 16 * 16);
    assert!(t.allocate(GridAab::for_block(16)).is_some());
}

/// A request whose largest edge exceeds the total edge always fails.
#[test]
fn oversize_rejection() {
    let mut t = Alloctree::new(3);
    assert!(t.allocate(GridAab::from_lower_size([0, 0, 0], [9, 1, 1])).is_none());
    assert!(t.allocate(GridAab::for_block(16)).is_none());
    // Still true after some successful allocations.
    assert!(t.allocate(GridAab::for_block(4)).is_some());
    assert!(t.allocate(GridAab::from_lower_size([0, 0, 0], [1, 20, 1])).is_none());
}
