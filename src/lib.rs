//! Discrete rules of a vibrating-channel particle simulation: how a particle's
//! position compares against the moving boundaries decides which collision
//! response applies, and the engine's step counter advances once per step.

pub mod contact;
pub mod ensemble;
