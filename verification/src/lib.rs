//! An incremental compile service: an actor that merges file-system
//! notifications and in-memory edits into one ordered stream of
//! invalidations for a typesetting compiler, and the locator that maps a
//! source cursor to a place in the compiled document and back.
//!
//! - [`actor`], [`client`], [`notify`] and [`shadow`] hold the actor, its
//!   events and the rules by which memory edits and file-system events are
//!   ordered, and [`protocol`] what these rules achieve;
//! - [`span`], [`frame`], [`jump`] and [`source`] hold the locator;
//! - [`trace`] holds the access model that times its calls.

pub mod actor;
pub mod channel;
pub mod client;
pub mod frame;
pub mod jump;
pub mod notify;
pub mod paths;
pub mod protocol;
pub mod shadow;
pub mod source;
pub mod span;
pub mod trace;
