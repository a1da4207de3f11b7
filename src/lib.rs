//! Voice-interaction device core: the audio pipelines between the sound
//! peripheral, the codec and the frame queues; the session layer over a
//! message transport; and the state machine that arbitrates between control
//! messages and audio.
//!
//! Nothing here performs I/O. The firmware's tasks read from the peripheral
//! and the network, hand what they got to these functions, and carry out what
//! comes back.

pub mod codec;
pub mod p3;
pub mod pcm;
pub mod proto;
pub mod queue;
pub mod robot;

pub use proto::Protocol;
pub use robot::{Robot, RobotState};
