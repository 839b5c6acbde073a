//! Deterministic rollback state for peer-to-peer simulations: frame counters,
//! bounded snapshot histories, entity reconciliation, checksums and the
//! fixed-size input encoding.

pub mod component_snapshot;
pub mod frame;
pub mod ggrs_stage;
pub mod input;
pub mod resource_snapshot;
pub mod scheduling;
pub mod session;
pub mod snapshot;

pub use component_snapshot::{
    ComponentHistory, ComponentRollbackPlugin, ComponentRollbackPluginBuilder,
    GgrsComponentSnapshot,
};
pub use frame::Frame;
pub use input::gamepad_button::{GamepadButton, GamepadButtonInput, GamepadButtonType};
pub use input::keycode::KeyCodeInput;
pub use input::mouse_button::{MouseButton, MouseButtonInput};
pub use input::mouse_position::{CursorPosition, MousePositionInput};
pub use input::{InputStatus, KeyboardAndMouseInput, LocalInputs, PlayerInputs, ReadInputs};
pub use resource_snapshot::{ResourceHistory, ResourceRollbackPlugin, ResourceRollbackPluginBuilder};
pub use scheduling::{run_schedules, GGRSLoadSchedule, GGRSSaveSchedule, GGRSSchedule, Request, Run};
pub use session::{Session, SessionError};
pub use snapshot::checksum::{Checksum, ChecksumPart};
pub use snapshot::entity::{
    Entity, GgrsEntitySnapshotPlugin, Reconciliation, Rollback, RollbackEntityMap,
};
pub use snapshot::entity_checksum::EntityChecksumPlugin;
pub use snapshot::history::{GgrsSnapshots, SnapshotEntry};
pub use snapshot::resource_checksum_hash::GgrsResourceChecksumHashPlugin;
pub use snapshot::resource_copy::GgrsResourceSnapshotCopyPlugin;
pub use snapshot::restore::Restore;
pub use snapshot::strategy::{CloneStrategy, CopyStrategy, Strategy};
use vstd::prelude::*;

verus! {

/// The frame that the simulation is in, which may be one that it was in
/// before.
#[derive(Clone, Copy, Debug, PartialEq, Eq, Structural, Hash)]
pub struct RollbackFrameCount(pub i32);

impl From<RollbackFrameCount> for i32 {
    fn from(value: RollbackFrameCount) -> (r: i32) {
        value.0
    }
}

impl vstd::std_specs::convert::FromSpecImpl<RollbackFrameCount> for i32 {
    open spec fn obeys_from_spec() -> bool {
        true
    }

    open spec fn from_spec(value: RollbackFrameCount) -> i32 {
        value.0
    }
}

impl From<ConfirmedFrameCount> for i32 {
    fn from(value: ConfirmedFrameCount) -> (r: i32) {
        value.0
    }
}

impl vstd::std_specs::convert::FromSpecImpl<ConfirmedFrameCount> for i32 {
    open spec fn obeys_from_spec() -> bool {
        true
    }

    open spec fn from_spec(value: ConfirmedFrameCount) -> i32 {
        value.0
    }
}

/// The newest frame that no peer can make the simulation go back behind.
/// What was saved for earlier frames is no longer needed.
#[derive(Clone, Copy, Debug, PartialEq, Eq, Structural, Hash)]
pub struct ConfirmedFrameCount(pub i32);

/// The most frames that a session simulates ahead of confirmed input, and
/// so the most snapshots that a history needs.
#[derive(Clone, Copy, Debug, PartialEq, Eq, Structural, Hash)]
pub struct MaxPredictionWindow(pub usize);

/// The handles of the players on this host.
#[derive(Debug, PartialEq, Eq)]
pub struct LocalPlayers(pub Vec<usize>);

/// The schedule that advances the simulation by one frame.
pub type GgrsSchedule = scheduling::GGRSSchedule;

/// The schedule that loads the state of an earlier frame.
pub type LoadWorld = scheduling::GGRSLoadSchedule;

/// The schedule that saves the state of the current frame.
pub type SaveWorld = scheduling::GGRSSaveSchedule;

} // verus!
