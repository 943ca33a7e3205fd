//! A resource-reservation engine.
//!
//! Clients ask for exclusive use of a named resource over a half-open time
//! interval. The engine guarantees that no two confirmed reservations of one
//! resource ever overlap, while a conflicting request is still recorded, as
//! blocked, and can be re-queued and confirmed once the conflict is gone.

pub mod error;
pub mod manager;
pub mod reservation;
pub mod resolver;
pub mod status;
pub mod store;
pub mod timespan;
pub mod timestamp;

pub use error::ReservationError;
pub use manager::{ReservationManager, Rsvp};
pub use reservation::{Reservation, ReservationId, ReservationQuery};
pub use resolver::{resolve, Resolution};
pub use status::ReservationStatus;
pub use store::ReservationStore;
pub use timespan::Timespan;
pub use timestamp::{convert_to_timestamp, convert_to_utc_time, Timestamp, UtcDateTime};
