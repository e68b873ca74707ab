//! Discovery, classification, and mutation of NTFS filesystem links
//! (symbolic links, directory junctions, and hard links), with a durable
//! action log and an undo engine driven by it.

pub mod strutil;
pub mod types;
pub mod paths;
pub mod journal;
pub mod classify;
pub mod scan;
pub mod fsmodel;
pub mod actionlog;
pub mod undo;
pub mod validate;
pub mod config;
pub mod volumes;
pub mod shellops;
pub mod export;
