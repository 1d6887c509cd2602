//! Wire-format codec and framing logic for streaming game-state snapshots
//! between a simulation process and an out-of-process visualizer.
//!
//! The library has two layers:
//!
//! * [`bytes`]: a bit-exact, little-endian, fixed-field-order codec between
//!   plain value types (ball, cars, boost pads, the full `GameState`
//!   snapshot) and byte sequences. Every fixed-size type has a statically
//!   known encoded width; the variable-length `GameState` is decoded in two
//!   phases so a caller can size a receive buffer from the header alone.
//! * [`socket`]: the one-byte tag framing that multiplexes several message
//!   kinds over one datagram socket, the pure draining logic that folds a
//!   burst of received datagrams into a latest-wins summary, and the session
//!   state kept between polls.
//!
//! Scalar fields that are IEEE-754 single-precision numbers on the wire are
//! held here as their raw 32-bit little-endian bit patterns (`u32`). The
//! codec never interprets them numerically, so this representation is
//! byte-for-byte identical to the wire format; callers convert with
//! `f32::to_bits` / `f32::from_bits` at the boundary.
//!
//! All socket, process and float handling lives outside this crate; the
//! library computes datagram contents and interprets received ones.

pub mod bytes;
pub mod socket;
