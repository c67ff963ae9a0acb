//! Delivery and reply-correlation engine for bulk templated email campaigns.
//!
//! The library is organised around five components: a queue codec for the
//! 4-byte job wire format, a message builder that renders one outbound MIME
//! message per recipient, a status tracker that applies idempotent state
//! transitions to campaign and recipient records, a dispatch pass that turns
//! per-recipient send outcomes into status updates, and a reply correlator
//! that matches inbound `In-Reply-To` headers back to recipients.

pub mod auth;
pub mod bytes;
pub mod correlator;
pub mod forms;
pub mod laws;
pub mod message;
pub mod model;
pub mod queue;
pub mod recipients;
pub mod store;
pub mod worker;
