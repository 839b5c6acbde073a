//! Frame-indexed snapshot storage and what is built on it.

pub mod history;
pub mod id_table;
pub mod entity;
pub mod checksum;
pub mod entity_checksum;
pub mod restore;
pub mod resource_checksum_hash;
pub mod resource_copy;
pub mod strategy;
