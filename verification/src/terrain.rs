use vstd::prelude::*;
use crate::floors::FloorLevel;

verus! {

/// The extra metadata a level stores on each terrain mesh: the floor it belongs to.
#[derive(PartialEq, Eq, Structural, Clone, Copy, Debug)]
pub struct TerainGltfExtras {
    floor_level: i32,
}

impl TerainGltfExtras {
    /// The floor recorded in the metadata.
    pub closed spec fn level(self) -> i32 {
        self.floor_level
    }

    /// Metadata recording `floor_level`.
    pub fn new(floor_level: i32) -> (extras: Self)
        ensures
            extras.level() == floor_level,
    {
        TerainGltfExtras { floor_level }
    }

    /// The floor recorded in the metadata.
    pub fn floor_level(&self) -> (level: i32)
        ensures
            level == self.level(),
    {
        self.floor_level
    }
}

/// What was found on a mesh of a freshly loaded level scene.
#[derive(PartialEq, Eq, Structural, Clone, Copy, Debug)]
pub enum MeshExtras {
    /// The mesh carries no extra metadata.
    Absent,
    /// The mesh carries metadata that does not describe a floor.
    Unreadable,
    /// The mesh carries floor metadata.
    Read(TerainGltfExtras),
}

/// What to do with a mesh of a freshly loaded level scene.
#[derive(PartialEq, Eq, Structural, Clone, Copy, Debug)]
pub enum TerrainMeshPlan {
    /// Report the missing metadata and leave the mesh alone.
    ReportMissing,
    /// Give the mesh its own copy of its material, and report the bad metadata.
    ReportUnreadable,
    /// Give the mesh its own copy of its material and attach a terrain copy of
    /// it, with physics, on the given floor.
    SpawnOnFloor(FloorLevel),
}

/// The plan for a mesh whose metadata is `extras`.
pub open spec fn spec_plan(extras: MeshExtras) -> TerrainMeshPlan {
    match extras {
        MeshExtras::Absent => TerrainMeshPlan::ReportMissing,
        MeshExtras::Unreadable => TerrainMeshPlan::ReportUnreadable,
        MeshExtras::Read(e) => TerrainMeshPlan::SpawnOnFloor(FloorLevel(e.level())),
    }
}

/// Decides what becomes of a mesh of a freshly loaded level scene.
pub fn plan_terrain_mesh(extras: MeshExtras) -> (plan: TerrainMeshPlan)
    ensures
        plan == spec_plan(extras),
{
    match extras {
        MeshExtras::Absent => TerrainMeshPlan::ReportMissing,
        MeshExtras::Unreadable => TerrainMeshPlan::ReportUnreadable,
        MeshExtras::Read(e) => TerrainMeshPlan::SpawnOnFloor(FloorLevel(e.floor_level())),
    }
}

impl TerrainMeshPlan {
    /// Whether the plan gives the mesh its own copy of its material: every
    /// mesh that carries metadata gets one, readable or not.
    pub fn copies_material(&self) -> (copies: bool)
        ensures
            copies == !(*self is ReportMissing),
    {
        match self {
            TerrainMeshPlan::ReportMissing => false,
            _ => true,
        }
    }
}

} // verus!
