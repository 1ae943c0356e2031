//! The message buffer: a single slot holding the text to print above the
//! bar on the next render.
//!
//! A later `write` overwrites an earlier unconsumed message (last write
//! wins, no queue); rendering reads and clears the slot in one step. The
//! slot is an explicit value handed to each render call, so a host that
//! shares it across threads decides its own locking.

use vstd::prelude::*;

verus! {

/// A single-slot holding area for text to show above the bar.
#[derive(Debug)]
pub struct MessageBuffer {
    text: String,
}

impl View for MessageBuffer {
    type V = Seq<char>;

    closed spec fn view(&self) -> Seq<char> {
        self.text@
    }
}

impl MessageBuffer {
    /// An empty buffer.
    pub fn new() -> (b: MessageBuffer)
        ensures
            b@ == Seq::<char>::empty(),
    {
        MessageBuffer { text: String::new() }
    }

    /// Returns the pending text and resets the slot to empty.
    pub fn take_and_clear(&mut self) -> (t: String)
        ensures
            t@ == old(self)@,
            final(self)@ == Seq::<char>::empty(),
    {
        let t = self.text.clone();
        self.text = String::new();
        t
    }

    /// Overwrites the slot with `text`, dropping any message still pending.
    pub(crate) fn set(&mut self, text: &str)
        ensures
            final(self)@ == text@,
    {
        self.text = String::from_str(text);
    }
}

} // verus!
