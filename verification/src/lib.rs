//! Real-time streaming core for a microcontroller that acquires or
//! generates analog signals through double-buffered transfers.
//!
//! - `exchange`: which of the two buffers of a stream software owns.
//! - `fixed`: the saturating multiply-accumulate.
//! - `filter`: FIR and biquad IIR filters built on it.
//! - `modulator`: the dithered third-order error-feedback modulator.
//! - `period`: the period of its pseudo-random register.
//! - `waveform`: a waveform table rendered through the modulator.
//! - `debounce`: the classifier that turns a button level into presses.
//! - `dispatch`: the handlers that tie these together per interrupt.

pub mod debounce;
pub mod dispatch;
pub mod exchange;
pub mod filter;
pub mod fixed;
pub mod modulator;
pub mod period;
pub mod waveform;
