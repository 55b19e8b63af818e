//! Event model, wire codec and plugin-side state of an emulator
//! instrumentation pipeline.
//!
//! The library holds the logic of the pipeline: the typed plugin arguments,
//! the event frames and their byte layout, the bookkeeping a plugin does
//! between translation and execution callbacks, and the decisions the
//! producer and the consumer of the event stream take. Every function states
//! what it computes and is proved to do so.

pub mod args;
pub mod callbacks;
pub mod client;
pub mod codec;
pub mod consumer;
pub mod context;
pub mod driver;
pub mod exec_event;
pub mod install;
pub mod qemu_event;
pub mod random;
pub mod ring;
pub mod syscalls;
pub mod wire;
