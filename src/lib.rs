//! Orchestration core for passkey (WebAuthn) registration and login
//! ceremonies: a per-session holder of in-flight ceremony state, a
//! credential store, and the steps that sequence them around the
//! webauthn-rs verifier.

pub mod error;
pub mod session;
pub mod store;
pub mod ceremony;
pub mod laws;
pub mod passkeys;
