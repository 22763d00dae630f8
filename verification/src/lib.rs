//! # Sheave
//!
//! The core of an RTMP server: the handshake, the chunk messages and their
//! byte formats, the connection's state machine, and the FLV store of the
//! published audio/video data.
pub mod byteorder;
pub mod errors;
pub mod amf_number;
pub mod text;
pub mod messages;
pub mod info;
pub mod metadata;
pub mod commands;
pub mod buffer;
pub mod decoders;
pub mod encoders;
pub mod roundtrip;
pub mod clock;
pub mod flv;
pub mod handshake;
pub mod handlers;
