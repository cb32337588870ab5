//! Batches, offsets and channels of the streaming interface.
pub mod offset_token;
pub mod batch;
pub mod channel;
pub mod channel_map;
