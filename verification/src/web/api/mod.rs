//! The decisions of the REST API's handlers under `/api`.
pub mod antrag;
pub mod door_state;
pub mod legislative_period;
pub mod legislative_periods;
pub mod persons;
pub mod roles;
pub mod sitzungen;
pub mod templates;
