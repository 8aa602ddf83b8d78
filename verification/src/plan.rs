use crate::scanner::ProjectInfo;
use vstd::prelude::*;

verus! {

/// The version of the layout in which plans are kept.
pub const PLAN_SCHEMA_VERSION: u32 = 1;

/// A cleanup that was planned and may be carried out later.
#[derive(Debug)]
pub struct CleanupPlan {
    pub schema_version: u32,
    /// When the plan was made, in seconds since the epoch.
    pub created_at: i64,
    pub scan_root: String,
    pub projects: Vec<ProjectInfo>,
}

impl CleanupPlan {
    /// A plan made at `created_at` for the given targets below `scan_root`.
    pub fn new(scan_root: String, projects: Vec<ProjectInfo>, created_at: i64) -> (plan: CleanupPlan)
        ensures
            plan.schema_version == PLAN_SCHEMA_VERSION,
            plan.created_at == created_at,
            plan.scan_root == scan_root,
            plan.projects == projects,
    {
        CleanupPlan { schema_version: PLAN_SCHEMA_VERSION, created_at, scan_root, projects }
    }
}

} // verus!
