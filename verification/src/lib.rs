#![allow(non_camel_case_types)]

pub mod args;
pub mod attrs;
pub mod backchannel;
pub mod bytes;
pub mod cache;
pub mod client;
pub mod compound;
pub mod deleg_reaper;
pub mod delegation;
pub mod error;
pub mod fs;
pub mod grace;
pub mod handlers;
pub mod laws_attrs;
pub mod laws_callback;
pub mod laws_clients;
pub mod laws_data;
pub mod laws_handles;
pub mod laws_layout;
pub mod laws_locks;
pub mod laws_names;
pub mod laws_numbers;
pub mod laws_opens;
pub mod laws_order;
pub mod laws_parts;
pub mod laws_request;
pub mod laws_sessions;
pub mod laws_storage;
pub mod laws_text;
pub mod laws_ways;
pub mod laws_wire;
pub mod lease;
pub mod lock;
pub mod op_close;
pub mod op_data;
pub mod op_dir;
pub mod op_file;
pub mod op_lock;
pub mod op_open;
pub mod op_state;
pub mod open;
pub mod ops;
pub mod persistence;
pub mod pnfs;
pub mod portmap;
pub mod request;
pub mod rpc;
pub mod saver;
pub mod session;
pub mod skip;
pub mod storage;
pub mod table;
pub mod tcp;
pub mod text;
pub mod time;
pub mod transaction;
pub mod types;
pub mod wire;
pub mod write_counter;
pub mod xdr;
