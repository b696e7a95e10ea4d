//! Detects presses of Amazon Dash buttons from the link-layer traffic they send: ARP and
//! DHCP frames whose source address is a given button, or any address in Amazon's
//! registered blocks, debounced into one event per press.
pub mod button;
pub mod error;
pub mod ethernet;
pub mod mac;
pub mod prefixes;
pub mod time;
