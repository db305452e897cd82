//! Core of an image inspection tool: typed images, colour-space conversions,
//! thresholding, a registry of inspected images, and the `.npy` hand-off
//! between a producing process and the viewer.
pub mod color;
pub mod image;
pub mod imspection;
pub mod registry;
pub mod threshold;
pub mod transfer;
