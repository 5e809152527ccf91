//! A permissioned, multi-tenant registry for verifiable credentials.
//!
//! Each `owner` identity may hold one vault: a container of credential
//! records guarded by a per-vault admin and an allow-list of issuer
//! identities. A global status registry tracks the lifecycle of every
//! credential ever issued here (valid / revoked / unknown), with one-way
//! revocation. All operations are all-or-nothing: an operation that
//! returns an error leaves the registry exactly as it found it.
//!
//! The execution host is modelled explicitly: caller authentication is a
//! set of verified signers handed to each operation (`AuthContext`), and
//! work that only the host can perform (charging a fee through a token
//! service, delegating a status lookup to a sibling registry) is returned
//! to the caller as a value describing the action, never performed here.

pub mod contract;
pub mod error;
pub mod identity;
pub mod issuer;
pub mod keyed;
pub mod laws;
pub mod vault;
pub mod vc_status;
pub mod verifiable_credential;
