//! ENSIP-25: linking ENS names to AI agent identities held in on-chain
//! registries such as ERC-8004.
//!
//! ENSIP-25 defines a parameterized ENS text record key
//! `agent-registration[<registry>][<agentId>]`, where `<registry>` is the
//! ERC-7930 interoperable address of the registry contract.
pub mod erc7930;
pub mod error;
pub mod hex;
pub mod text;
pub mod record_key;
pub mod verify;
