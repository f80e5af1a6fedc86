//! Core of a picture-frame service: a least-recently-shown rotation over
//! stored pictures, composition of one or two pictures into a packed
//! e-paper frame, telemetry merging, and a bounded pool of store handles.

pub mod canvas;
pub mod composer;
pub mod dispatcher;
pub mod gateway;
pub mod media;
pub mod pool;
pub mod selector;
pub mod telemetry;
