//! Streaming voice-activity detection around the FireRedVAD model: the
//! segment state machine, sample windowing, CMVN header validation and
//! model-output shape checks.

pub mod cmvn;
pub mod detector;
pub mod inference;
pub mod options;
pub mod segment;
pub mod segmentation;
pub mod stream;
pub mod time;
pub mod window;

pub use segment::SpeechSegment;
