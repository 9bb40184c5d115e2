//! Elements whose logic does not depend on layout or painting.
pub mod deferred;
