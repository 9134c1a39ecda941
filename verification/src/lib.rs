//! The parameter state of a Faust DSP, shared between the thread that computes audio and the
//! thread that controls it.
//!
//! A DSP declares its metadata and its parameters ([`builder`]). From these a pair of handles
//! is made ([`handle`]): one for the audio thread, which owns the DSP, and one for the
//! control thread, which sets and reads parameters by index or by path. The two exchange
//! whole states ([`state`]) through ring buffers with one slot each ([`channel`]), so neither
//! ever waits for the other. One run of the audio thread is a sequence of requests to the DSP
//! and the processor ([`cycle`]).
//!
//! What holds across these parts stands in [`laws`].

pub mod builder;
pub mod channel;
pub mod cycle;
pub mod handle;
pub mod laws;
pub mod state;
pub mod string_map;
pub mod text;
pub mod widget;
