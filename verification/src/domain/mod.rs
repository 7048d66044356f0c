//! The domain objects that the front end shows: Flights and Rachises.

pub mod flight;
pub mod rachis;
