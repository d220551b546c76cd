//! The verified core of a duplex audio limiter: the stream formats that two
//! devices can agree on, the catalog of devices and the lookup of a device by
//! its name, the bounded sample bridge between the capture and the playback
//! callback, and the controller that starts and stops a pipeline.

pub mod bridge;
pub mod catalog;
pub mod format;
pub mod pipeline;
