//! Hooks notified when scroll mode starts and ends.

use vstd::prelude::*;

verus! {

/// Receives scroll-mode changes; both hooks do nothing unless overridden.
pub trait Indicator {
    fn enter_scroll(&mut self) {
    }

    fn exit_scroll(&mut self) {
    }
}

/// An indicator that shows nothing.
#[derive(Debug, Default)]
pub struct NoopIndicator;

impl Indicator for NoopIndicator {

}

} // verus!
