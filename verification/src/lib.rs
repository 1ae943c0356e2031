//! A terminal progress bar.
//!
//! A tracker holds a `current` and a `total` count; each advance redraws a
//! single bar line (plus any pending message lines) in place, using only
//! cursor-up and line-clearing escape sequences.

use vstd::prelude::*;

mod bar;
mod message;
mod progress;
mod render;

pub use bar::create_bar;
pub use bar::percentage;
pub use message::MessageBuffer;
pub use progress::Tqdm;
pub use progress::TqdmAuto;
pub use progress::TqdmManual;
pub use render::render_text;
pub use render::TerminalUnavailable;

verus! {

/// Queues `text` to appear above the next rendered bar line, dropping any
/// message still pending (last write wins).
pub fn write(buf: &mut MessageBuffer, text: &str)
    ensures
        final(buf)@ == text@,
{
    buf.set(text);
}

} // verus!
