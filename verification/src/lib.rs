//! Real-time audio source router core: a crossfade switching engine that
//! forwards one of several input buses to the output and, on request,
//! switches the active input by fading smoothly over a fixed transition
//! window.
//!
//! Time is counted in whole samples, so the transition state machine is
//! exact: a transition of `transition_len` samples completes after exactly
//! `transition_len` advances, and two runs fed the same commands and sample
//! counts pass through identical states. The per-sample floating-point gain
//! evaluation is left to the caller, which receives the exact blend
//! parameters (both source indices and the integer transition progress) for
//! every sample.

pub mod fade;
pub mod ingress;
