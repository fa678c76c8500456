//! Structural core of an adaptive-optics forward model: the Zernike mode
//! table of a modal disturbance, the probe layout of each sensor kind, and
//! the resolution and assembly of outputs into a results collection.
//!
//! Everything here is integer, index and ordering logic; the numerical
//! sampling of disturbances through probes is done by the caller and handed
//! to the assembly functions of [`system`].

pub mod modes;
pub mod layout;
pub mod system;
