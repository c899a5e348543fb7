//! A local credential store presented as a selectable table: every secret is
//! kept sealed with AES-GCM, at most one entry is shown in the clear at a time,
//! and a mode machine decides what each key press does.

pub mod cipher;
pub mod configs;
pub mod controller;
pub mod input;
pub mod order;
pub mod store;
pub mod table;
