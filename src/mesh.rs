//! Handles, the slot arena and the connectivity store.
pub mod connectivity_info;
pub mod id_map;
pub mod ids;
