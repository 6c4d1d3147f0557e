//! Batch image compression: parsing a bound specification, planning
//! aspect-ratio-safe resizes, mapping quality tiers to encoder
//! parameters, resolving the work set from a file listing, and a
//! fault-isolating batch pipeline. The image codec itself is consumed
//! as an external capability of the `image` crate; this library
//! decides target dimensions and encoder parameters and sequences the
//! calls.
pub mod boundspec;
pub mod dims;
pub mod discovery;
pub mod materialize;
pub mod pipeline;
pub mod quality;
pub mod text;
