//! The structures that the firmware reads.
pub mod event;
pub mod fragment;
pub mod job;
pub mod microseq;
pub mod vertex;
pub mod workqueue;
