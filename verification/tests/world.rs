use vanguard::task_graph::TaskType;
use vanguard::world_partitioning::{VoxelCell, WorldPartitionManager};

fn sorted(cells: &[VoxelCell]) -> Vec<(i32, i32, i32)> {
    let mut v: Vec<(i32, i32, i32)> = cells.iter().map(|c| (c.x, c.y, c.z)).collect();
    v.sort();
    v
}

#[test]
fn first_visit_hydrates_second_does_not() {
    let mut world = WorldPartitionManager::new();
    let cell = VoxelCell { x: 1, y: -2, z: 3 };
    assert!(!world.is_loaded(cell));
    let first = world.update_streaming(cell, 2);
    assert!(first.hydrate);
    assert!(first.unloaded.is_empty());
    assert!(world.is_loaded(cell));
    assert_eq!(world.loaded_count(), 1);
    let second = world.update_streaming(cell, 2);
    assert!(!second.hydrate);
    assert!(second.unloaded.is_empty());
    assert_eq!(world.loaded_count(), 1);
}

#[test]
fn cells_in_the_vicinity_stay_loaded() {
    let mut world = WorldPartitionManager::new();
    let path = [
        VoxelCell { x: 0, y: 0, z: 0 },
        VoxelCell { x: 1, y: 0, z: 0 },
        VoxelCell { x: 2, y: 1, z: -1 },
    ];
    for c in path {
        assert!(world.update_streaming(c, 2).hydrate);
    }
    for c in path {
        assert!(world.is_loaded(c));
    }
    assert_eq!(world.loaded_count(), 3);
    assert!(!world.is_loaded(VoxelCell { x: 0, y: 1, z: 0 }));
}

#[test]
fn cells_outside_the_vicinity_are_unloaded() {
    let mut world = WorldPartitionManager::new();
    let origin = VoxelCell { x: 0, y: 0, z: 0 };
    let near = VoxelCell { x: 2, y: 0, z: 0 };
    let far = VoxelCell { x: 4, y: 0, z: 0 };
    world.update_streaming(origin, 2);
    world.update_streaming(near, 2);
    // at x = 4 the origin is 4 cells away and leaves; x = 2 stays
    let update = world.update_streaming(far, 2);
    assert!(update.hydrate);
    assert_eq!(sorted(&update.unloaded), vec![(0, 0, 0)]);
    assert!(!world.is_loaded(origin));
    assert!(world.is_loaded(near));
    assert!(world.is_loaded(far));
    assert_eq!(world.loaded_count(), 2);
    // coming back hydrates the origin again and drops the far cell
    let back = world.update_streaming(origin, 2);
    assert!(back.hydrate);
    assert_eq!(sorted(&back.unloaded), vec![(4, 0, 0)]);
    assert_eq!(world.loaded_count(), 2);
}

#[test]
fn a_long_walk_keeps_the_loaded_set_bounded() {
    let mut world = WorldPartitionManager::new();
    for x in 0..1000 {
        world.update_streaming(VoxelCell { x, y: 0, z: 0 }, 1);
        assert!(world.loaded_count() <= 2);
    }
    assert!(!world.is_loaded(VoxelCell { x: 0, y: 0, z: 0 }));
}

#[test]
fn radius_zero_keeps_only_the_current_cell() {
    let mut world = WorldPartitionManager::new();
    world.update_streaming(VoxelCell { x: 5, y: 5, z: 5 }, 0);
    let update = world.update_streaming(VoxelCell { x: 5, y: 5, z: 6 }, 0);
    assert_eq!(sorted(&update.unloaded), vec![(5, 5, 5)]);
    assert_eq!(world.loaded_count(), 1);
}

#[test]
fn widest_vicinity_unloads_nothing() {
    let mut world = WorldPartitionManager::new();
    let corners = [
        VoxelCell { x: i32::MIN, y: i32::MAX, z: 0 },
        VoxelCell { x: i32::MAX, y: i32::MIN, z: 0 },
        VoxelCell { x: 0, y: 0, z: i32::MIN },
    ];
    for c in corners {
        assert!(world.update_streaming(c, u32::MAX).unloaded.is_empty());
    }
    assert_eq!(world.loaded_count(), 3);
}

#[test]
fn task_types_are_distinct() {
    let kinds = [TaskType::Rendering, TaskType::Physics, TaskType::Animation, TaskType::AgenticInference];
    for (i, a) in kinds.iter().enumerate() {
        for (j, b) in kinds.iter().enumerate() {
            assert_eq!(i == j, a == b);
        }
    }
    assert_eq!(format!("{:?}", TaskType::AgenticInference), "AgenticInference");
}
