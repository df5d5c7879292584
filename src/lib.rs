//! Relay of a length-prefixed JPEG frame stream into an MJPEG multipart
//! stream: the wire parser of the camera side, the bounded relay queue, the
//! multipart encoder of the client side, and the listener sessions that
//! decide what each side does next.
pub mod mjpeg;
pub mod queue;
pub mod relay;
pub mod session;
pub mod wire;
