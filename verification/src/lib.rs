//! A real-time quiz/session server library: the message protocol and the
//! shared session-state engine. Clients register identities, create or join
//! rooms, and exchange quiz questions and answers through typed
//! request/response messages carried as JSON text frames.
//!
//! The modules, leaves first: `domain` holds the record types and their
//! models; `store` the shared session store and its connection counter;
//! `json` the wire grammar and its verified parser; `codec` the request
//! envelope; `encode` the reply texts; `dispatch` the per-frame engine.

pub mod codec;
pub mod dispatch;
pub mod domain;
pub mod encode;
pub mod json;
pub mod store;
