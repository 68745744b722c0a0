//! Settler work assignment: task definitions and instances, capabilities,
//! priorities, reservations, and the summaries of the manager's state.

pub mod ids;
pub mod capability;
pub mod capability_presets;

pub use capability::{CapabilityCategory, SkillLevel};
pub use ids::{CapabilityId, RegionId, SettlerId, TaskDefId, TaskId};
pub mod task_def;
pub use task_def::{PriorityMode, TaskCategory, TaskDef};
pub use task_def::TaskDefRegistry;
pub mod task_def_presets;
pub mod assignment;
pub use assignment::{AssignmentResult, ReservationTable};
pub mod state;
pub use state::{Settler, SettlerStatus, WorkPriorities};
pub mod task;
pub use task::{FailureReason, Task, TaskStatus};
pub mod priority;
pub mod summary;
pub use priority::RegionPriority;
pub use summary::{SettlerFingerprint, SettlerProjection, SettlerSnapshot};
pub mod registry;
pub use registry::{SettlerRegistry, TaskRegistry};
pub mod events;
pub use events::{SettlerEvent, SettlerEventKind};
pub mod manager;
pub use manager::{SettlerManager, SettlerManagerConfig, SettlerTickResult};
