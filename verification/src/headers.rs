//! One-byte tags that begin every wire frame, and the one-byte codes that
//! classify an error reply.

use vstd::prelude::*;

verus! {

pub const CLIENT_AUTH: u8 = 1;

pub const PRODUCE_EVENT: u8 = 2;

pub const RECEIVE_EVENT: u8 = 3;

pub const UPDATE_MARKER: u8 = 4;

pub const START_CONSUMING: u8 = 5;

pub const AWAITING_EVENTS: u8 = 6;

pub const PEER_ANNOUNCE: u8 = 7;

pub const PEER_UPDATE: u8 = 8;

pub const ACK_HEADER: u8 = 9;

pub const ERROR_HEADER: u8 = 10;

pub const CLUSTER_STATE: u8 = 11;

pub const SET_BATCH_SIZE: u8 = 12;

pub const NEXT_BATCH: u8 = 13;

pub const END_OF_BATCH: u8 = 14;

pub const STOP_CONSUMING: u8 = 15;

pub const CURSOR_CREATED: u8 = 16;

pub const ERROR_INVALID_NAMESPACE: u8 = 15;

pub const ERROR_INVALID_CONSUMER_STATE: u8 = 16;

pub const ERROR_INVALID_VERSION_VECTOR: u8 = 17;

pub const ERROR_STORAGE_ENGINE_IO: u8 = 18;

} // verus!
