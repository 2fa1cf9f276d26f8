//! Runtime core of an adaptive-quality live stream.
//!
//! A sender produces encoded video frames at one of several quality
//! configurations, ordered on a ladder. A controller watches the transmit
//! queue and moves along the ladder so that latency stays low while quality
//! is as high as the network allows.

pub mod adaptation;
pub mod config;
pub mod executor;
pub mod modular;
pub mod profile;
pub mod sender;
pub mod server;
pub mod utils;
pub mod video;
pub mod wire;

pub use adaptation::{Action, Adaptation, Signal, State};
pub use config::VideoConfig;
pub use executor::{execute, Probe};
pub use profile::{Decrease, LoadError, Profile};
pub use sender::{Sender, SenderView};
pub use server::{time_diff_in_ms, Datum, DatumType, DatumView, Timestamp};
pub use utils::{RingView, StreamingStat};
pub use video::{FrameRecord, SourceView, VideoSource};
pub use wire::DecodeError;
