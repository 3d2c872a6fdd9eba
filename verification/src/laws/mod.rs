//! What holds of the renderings and of reading them back, proved over the
//! models that the contracts of the functions use.

pub mod reading_back;
pub mod rendering;
pub mod repeated_heading;
pub mod round_trip;
