//! The post-flush hook: a callback the adapter invokes once after each
//! successful pixel transfer.
//!
//! A simulator uses it to pump its window's event loop; the signal it
//! returns is how "the user closed the window" reaches the render loop,
//! which treats it as fatal. The hook's specification names the signal
//! its next invocation reports, so the adapter's flush contract can say
//! exactly when the close condition is latched.

use vstd::prelude::*;

verus! {

/// What a hook invocation reports back to the adapter.
#[derive(Clone, Copy, PartialEq, Eq, Structural, Debug)]
pub enum HookSignal {
    /// Nothing happened; rendering goes on.
    Continue,
    /// An external termination condition (the simulator window was
    /// closed); the next flush must fail fatally.
    Close,
}

/// A side-effecting callback run after each successful flush. It shares
/// no state with the frame buffer; it only reports a signal.
pub trait FlushHook: Sized {
    /// The signal the next invocation will report. Implementations
    /// override this; the default stands for hooks that never close.
    open spec fn next_signal(&self) -> HookSignal {
        HookSignal::Continue
    }

    /// Pumps whatever event source the hook watches and reports the
    /// signal named by the specification.
    fn after_flush(&mut self) -> (s: HookSignal)
        ensures
            s == old(self).next_signal(),
    ;
}

/// The hook used when nothing watches the flushes: it always reports
/// `Continue`. This is the hardware configuration, which has no window.
pub struct NoHook {
}

impl NoHook {
    pub fn new() -> (h: NoHook) {
        NoHook { }
    }
}

impl FlushHook for NoHook {
    open spec fn next_signal(&self) -> HookSignal {
        HookSignal::Continue
    }

    fn after_flush(&mut self) -> (s: HookSignal) {
        HookSignal::Continue
    }
}

/// A hook that reports `Continue` a fixed number of times and then
/// `Close`: the model of a simulator window that the user closes after
/// some flushes.
pub struct CloseAfter {
    /// How many more invocations report `Continue`.
    pub remaining: usize,
}

impl CloseAfter {
    pub fn new(remaining: usize) -> (h: CloseAfter)
        ensures
            h.remaining == remaining,
    {
        CloseAfter { remaining }
    }
}

impl FlushHook for CloseAfter {
    open spec fn next_signal(&self) -> HookSignal {
        if self.remaining == 0 {
            HookSignal::Close
        } else {
            HookSignal::Continue
        }
    }

    fn after_flush(&mut self) -> (s: HookSignal)
        ensures
            final(self).remaining == (if old(self).remaining == 0 {
                0int
            } else {
                old(self).remaining - 1
            }),
    {
        if self.remaining == 0 {
            HookSignal::Close
        } else {
            self.remaining = self.remaining - 1;
            HookSignal::Continue
        }
    }
}

} // verus!
