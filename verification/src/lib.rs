//! Real-time backbone of a multi-tenant chat service.
//!
//! The crate tracks which users are reachable over a live connection, which
//! rooms (servers) each user belongs to, and fans out domain events only to
//! the sessions whose authenticated permission scope entitles them to see the
//! event. It is organised as:
//!
//! - [`scope`]: permission categories, the read/write ordering, and the
//!   `satisfies` predicate that gates event delivery;
//! - [`registry`]: the bidirectional connection index
//!   (user -> sessions, room -> online members);
//! - [`machine`]: the per-connection protocol state machine
//!   (anonymous -> authenticated -> periodically re-authenticated -> closed);
//! - [`fanout`]: the event model and the delivery plan computation;
//! - [`models`], [`requests`], [`oauth`], [`errors`]: the plain data types of
//!   the surrounding service (identities, request bodies, error payloads).
//!
//! Transport I/O, identity resolution and durable storage are collaborators:
//! the embedding program drives the state machine with inbound frames and
//! timer ticks, performs the actions it returns, and pushes the payloads that
//! the fanout plan selects.

pub mod errors;
pub mod fanout;
pub mod machine;
pub mod models;
pub mod oauth;
pub mod registry;
pub mod requests;
pub mod scope;
