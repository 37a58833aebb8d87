//! What a live display writes while it runs.

use vstd::prelude::*;
pub use crate::console::RenderHook;

verus! {

/// Bytes written while a live display runs.
#[derive(Debug, Default)]
pub struct LiveWriter {
    /// The bytes written.
    pub buffer: Vec<u8>,
}

impl LiveWriter {
    /// Nothing written yet.
    pub fn new() -> (w: Self)
        ensures
            w.buffer@.len() == 0,
    {
        LiveWriter { buffer: Vec::new() }
    }

    /// The bytes written.
    pub fn capture(&self) -> (b: &[u8])
        ensures
            b@ == self.buffer@,
    {
        self.buffer.as_slice()
    }

    /// Forgets what was written.
    pub fn clear(&mut self)
        ensures
            final(self).buffer@.len() == 0,
    {
        self.buffer.clear();
    }

    /// Appends `buf`, giving how many bytes were taken (all of them).
    pub fn write_bytes(&mut self, buf: &[u8]) -> (n: usize)
        ensures
            final(self).buffer@ == old(self).buffer@ + buf@,
            n == buf@.len(),
    {
        let mut i: usize = 0;
        while i < buf.len()
            invariant
                i <= buf@.len(),
                self.buffer@ == old(self).buffer@ + buf@.take(i as int),
            decreases buf.len() - i,
        {
            self.buffer.push(buf[i]);
            i = i + 1;
            assert(self.buffer@ =~= old(self).buffer@ + buf@.take(i as int));
        }
        assert(buf@.take(buf@.len() as int) =~= buf@);
        buf.len()
    }
}

} // verus!
