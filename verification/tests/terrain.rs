use game_floors::floors::FloorLevel;
use game_floors::terrain::{plan_terrain_mesh, MeshExtras, TerainGltfExtras, TerrainMeshPlan};

#[test]
fn extras_keep_their_floor() {
    assert_eq!(TerainGltfExtras::new(3).floor_level(), 3);
    assert_eq!(TerainGltfExtras::new(-12).floor_level(), -12);
}

#[test]
fn mesh_without_metadata_is_reported_and_left_alone() {
    let plan = plan_terrain_mesh(MeshExtras::Absent);
    assert_eq!(plan, TerrainMeshPlan::ReportMissing);
    assert!(!plan.copies_material());
}

#[test]
fn mesh_with_unreadable_metadata_still_gets_a_material_copy() {
    let plan = plan_terrain_mesh(MeshExtras::Unreadable);
    assert_eq!(plan, TerrainMeshPlan::ReportUnreadable);
    assert!(plan.copies_material());
}

#[test]
fn mesh_with_floor_metadata_is_spawned_on_that_floor() {
    let plan = plan_terrain_mesh(MeshExtras::Read(TerainGltfExtras::new(4)));
    assert_eq!(plan, TerrainMeshPlan::SpawnOnFloor(FloorLevel(4)));
    assert!(plan.copies_material());
    let plan = plan_terrain_mesh(MeshExtras::Read(TerainGltfExtras::new(i32::MIN)));
    assert_eq!(plan, TerrainMeshPlan::SpawnOnFloor(FloorLevel(i32::MIN)));
}
