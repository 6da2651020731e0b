//! Chan-theory (缠中说禅) market structure analysis: bars, fractals, strokes,
//! signals and events, with machine-checked contracts.

pub mod analyze;
pub mod bar_generator;
pub mod bars;
pub mod connectors;
pub mod enums;
pub mod features;
pub mod fsa;
pub mod objects;
pub mod sensors;
pub mod signals;
pub mod store;
pub mod svc;
pub mod text;
pub mod traders;
pub mod utils;
pub mod textorder;

pub use analyze::{check_bi, check_fx, check_fxs, remove_include};
pub use bar_generator::BarGenerator;
pub use bars::{BI, FX, FakeBI, NewBar, RawBar, ZS};
pub use enums::{Direction, Freq, Mark, Operate};
pub use objects::{Event, Position, Signal};
pub use sensors::cta::{BacktestParams, CtaResearch, ReplayParams};
pub use sensors::event::{DetectedEvent, EventMatcher, analyze_events};
pub use vstd::hash_map::StringHashMap;

use vstd::prelude::*;

verus! {

/// `std::path::PathBuf`, carried through as an opaque value.
#[verifier::external_type_specification]
#[verifier::external_body]
pub struct ExPathBuf(std::path::PathBuf);

} // verus!
