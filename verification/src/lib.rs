//! Validation and code generation for the pixel derives of `fovea`:
//! `PlainPixel`, `HomogeneousPixel`, `ZeroablePixel`, `LinearPixel` and
//! `WhiteChannel`.
//!
//! Each derive takes the parsed item it is attached to ([`model::DeriveInput`])
//! and either rejects it with a message and a site ([`model::DeriveError`]) or
//! returns the generated impls as the printed text of a token stream.
pub mod homogeneous_pixel;
pub mod laws;
pub mod linear_pixel;
pub mod model;
pub mod output_laws;
pub mod outside;
pub mod plain_pixel;
pub mod shape;
pub mod text;
pub mod white_channel;
pub mod zeroable_pixel;


