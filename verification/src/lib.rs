//! A small host/surface/runtime model: core descriptors and ports, a
//! black-box runtime state machine, a desktop session model, a line-based
//! local IPC convention, a black-box playground service and the bookkeeping
//! of a development supervisor.
pub mod text;

pub mod component;
pub mod event;
pub mod host;
pub mod render;
pub mod surface;
pub mod runtime;
pub mod inspect;
pub mod ipc;
pub mod desktop;
pub mod playground;
pub mod dev;
