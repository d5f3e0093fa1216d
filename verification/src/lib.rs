//! An embeddable store of keyed objects that keeps its items in memory and
//! brings them to a data directory and back.

pub mod build_profile;
pub mod cargo_profile;
pub mod config;
pub mod envsubst;
pub mod lock_discipline;
pub mod storage;
pub mod storage_codec;
pub mod storage_const;
pub mod storage_disk;
pub mod storage_error;
pub mod storage_flush;
pub mod storage_flusher;
pub mod storage_info;
pub mod storage_item;
pub mod storage_load;
pub mod storage_loader;
pub mod storage_lock;
pub mod storage_packet;
pub mod storage_persistence;
pub mod storage_pod;
pub mod string_map;
pub mod text;
