//! Per-application volume control: verified session matching and the
//! scan-and-set state machine, plus the small text and point helpers that the
//! library exports alongside it.

pub mod basic;
pub mod identity;
pub mod narrow;
pub mod point;
pub mod scan;
pub mod wide;
