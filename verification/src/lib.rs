//! A quality-control engine core for binary font files.
//!
//! The engine assembles a named, de-duplicated, exclusion- and override-aware
//! set of validation rules ("checks") from composable declarations
//! ("profiles"), resolves which checks apply to which input artifacts in a
//! deterministic order, supports severity remapping of individual results,
//! memoizes expensive shared lookups, and plans a strictly sequential
//! post-pass that applies automated fixes to failing files.
//!
//! The individual validation rules themselves, binary font parsing, report
//! rendering and all input/output live outside this crate; the engine works
//! on plain values and hands plain values back.

pub mod builder;
pub mod check;
pub mod config;
pub mod context;
pub mod helpers;
pub mod profile;
pub mod profiles;
pub mod registry;
pub mod remediation;
pub mod reporters;
pub mod scheduler;
pub mod status;
pub mod strutil;

pub use builder::{BuilderOp, ProfileBuilder};
pub use check::{Applicability, Check, CheckFnResult, CheckResult, FixResult};
pub use config::ConfigValue;
pub use context::{Cache, Context};
pub use profile::{Profile, Section};
pub use profiles::{Adobe, Iso15008, Microsoft};
pub use registry::{Plugin, Registry};
pub use remediation::FixGroup;
pub use reporters::{CsvReporter, OrganisedResults, Reporter, RunResults};
pub use scheduler::{Testable, TestableCollection, TestableType, WorkUnit};
pub use status::{CheckError, Override, Status, StatusCode};
