//! A local broker for rich-presence activities.
//!
//! Producers reach the broker over a stream socket or a WebSocket, shake
//! hands, and send commands. An accepted activity is brought into canonical
//! form, told back to its producer and put on the bus, from which the
//! registry and the observer endpoint follow it.
//!
//! Everything here is plain computation on plain values: the caller moves the
//! bytes. Each connection is a state that is stepped with what arrived and
//! answers with what to send.

pub mod json;
pub mod text;
pub mod frame;
pub mod protocol;
pub mod activity;
pub mod metrics;
pub mod event;
pub mod activity_registry;
pub mod dispatch;
pub mod connection;
pub mod ipc;
pub mod etf;
pub mod ws;
pub mod bridge;
pub mod detectables;
pub mod process;
pub mod rest;
