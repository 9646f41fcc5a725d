//! Shared mode and stage enumerations of the engine system.

use vstd::prelude::*;

verus! {

/// The alchemical stage progression.
#[derive(Clone, Copy, Debug, PartialEq, Eq, Structural)]
pub enum AlchemyStage {
    /// Earth: foundation.
    Nigredo,
    /// Water: reflection.
    Albedo,
    /// Air: messengers.
    Citrinitas,
    /// Fire: transmutation.
    Rubedo,
    /// Aether: total synthesis.
    Azoth,
}

/// The creative lab a session runs in.
#[derive(Clone, Copy, Debug, PartialEq, Eq, Structural)]
pub enum CreativeLab {
    StoneGrimoire,
    SanctuaryBaths,
    OakGrove,
    LabyrinthCourts,
    VioletFlameHearths,
}

/// The top-level mode of the cathedral shell.
#[derive(Clone, Copy, Debug, PartialEq, Eq, Structural)]
pub enum CathedralMode {
    Game,
    Design,
    Music,
}

} // verus!
