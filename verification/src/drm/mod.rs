//! What the driver shares with the direct rendering subsystem.
pub mod file;
pub mod gem;
pub mod ioctl;
pub mod mm;
