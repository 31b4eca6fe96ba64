//! Core logic of a contribution-hours chat bot: the validated contribution
//! record, its attachment-field codec, the submission validator, and the
//! per-user hour aggregator, together with the small decision helpers that
//! the surrounding service calls.

pub mod aggregate;
pub mod codec;
pub mod decimal;
pub mod errors;
pub mod present;
pub mod record;
pub mod submission;
pub mod text;
pub mod uri;
