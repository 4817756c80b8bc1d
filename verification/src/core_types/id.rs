use vstd::prelude::*;

verus! {

/// The identifier of an entity: its slot in the registry.
#[derive(Clone, Copy, Debug, PartialEq, Eq, Structural, Hash)]
pub struct EntityId(pub u32);

/// The identifier that names no entity (`u32::MAX`).
pub const NONE_ID: u32 = 0xFFFF_FFFFu32;

impl EntityId {
    /// The identifier that names no entity.
    pub fn none() -> (r: EntityId)
        ensures
            r.0 == NONE_ID,
    {
        EntityId(NONE_ID)
    }

    /// The slot index this identifier names.
    pub fn index(self) -> (r: usize)
        ensures
            r == self.0,
    {
        self.0 as usize
    }
}

impl Default for EntityId {
    fn default() -> (r: EntityId)
        ensures
            r.0 == 0,
    {
        EntityId(0)
    }
}

/// The identifier of a team.
#[derive(Clone, Copy, Debug, PartialEq, Eq, Structural, Hash)]
pub struct TeamId(pub u16);

impl Default for TeamId {
    fn default() -> (r: TeamId)
        ensures
            r.0 == 0,
    {
        TeamId(0)
    }
}

/// How two factions stand toward each other.
#[derive(Clone, Copy, Debug, PartialEq, Eq, Structural, Hash)]
pub enum FactionRelation {
    Allied,
    Neutral,
    Hostile,
}

impl Default for FactionRelation {
    fn default() -> (r: FactionRelation)
        ensures
            r == FactionRelation::Neutral,
    {
        FactionRelation::Neutral
    }
}

/// The rank of an entity in the command hierarchy, lowest first.
#[derive(Clone, Copy, Debug, PartialEq, Eq, Structural, Hash)]
pub enum HierarchyLevel {
    Soldier,
    SquadLeader,
    PlatoonCommander,
    CompanyCommander,
    StrategicAI,
}

impl Default for HierarchyLevel {
    fn default() -> (r: HierarchyLevel)
        ensures
            r == HierarchyLevel::Soldier,
    {
        HierarchyLevel::Soldier
    }
}

} // verus!
