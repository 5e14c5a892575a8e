//! Verified core of a desktop tool that streams an Android phone camera
//! into a local video device.

pub mod text;
pub mod video;
pub mod devices;
pub mod loopback;
pub mod pairing;
pub mod manual;
pub mod qr;
pub mod pipelines;
pub mod connection;
pub mod tray;
