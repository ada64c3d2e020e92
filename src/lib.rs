//! Layer-2 decoding of the eBUS field bus: a push parser that rebuilds
//! telegrams from the raw octets of a half-duplex serial line.
pub mod layer2;
