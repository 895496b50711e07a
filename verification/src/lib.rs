//! Verified core of a removable-media transfer station: the control protocol
//! and state machine of the upload worker, the job tracker of the analysis
//! service, the bundle walk, artifact probing, the device gate and the event
//! stream. Everything here works on plain values; sockets, files and HTTP
//! live with the caller.

pub mod artifact;
pub mod device;
pub mod progress;
pub mod protocol;
pub mod sandbox;
pub mod scan;
pub mod server;
pub mod stream;
pub mod table;
pub mod text;
pub mod tracker;
pub mod uploader;
pub mod verdicts;
