//! A line buffer for kernel log messages.

use vstd::prelude::*;
use vstd::utf8::{valid_utf8, valid_utf8_concat, encode_utf8_valid_utf8};
use vstd::string::StringSliceAdditionalSpecFns;
use crate::utils::utf8_str;

verus! {

/// The capacity of a log line, its terminating NUL included.
pub const MAX_LINE_LEN: usize = 1024 - 32;

/// A log line being written: UTF-8 text followed by a NUL byte.
pub struct LogWriter {
    buf: [u8; MAX_LINE_LEN],
    pos: usize,
}

impl View for LogWriter {
    type V = Seq<u8>;

    /// The text written so far.
    closed spec fn view(&self) -> Seq<u8> {
        self.buf@.take(self.pos as int)
    }
}

impl LogWriter {
    /// Whether the writer is in order: its text is valid UTF-8 and is
    /// followed, within the buffer, by a NUL byte.
    pub closed spec fn wf(self) -> bool {
        &&& self.pos < MAX_LINE_LEN
        &&& valid_utf8(self@)
        &&& self.buf@[self.pos as int] == 0
    }

    /// The whole buffer: the text, the NUL after it, and what lies beyond.
    pub closed spec fn buffer(self) -> Seq<u8> {
        self.buf@
    }

    /// An empty line.
    pub fn new() -> (w: LogWriter)
        ensures
            w.wf(),
            w@ == Seq::<u8>::empty(),
            w.buffer().len() == MAX_LINE_LEN,
            w.buffer()[0] == 0,
    {
        let w = LogWriter { buf: vstd::array::array_fill_for_copy_types(0u8), pos: 0 };
        proof {
            assert(w@ =~= Seq::<u8>::empty());
        }
        w
    }

    /// Appends the bytes of `s` and the NUL after them.
    pub fn write_str(&mut self, s: &str)
        requires
            old(self).wf(),
            old(self)@.len() + s.spec_bytes().len() < MAX_LINE_LEN,
        ensures
            final(self).wf(),
            final(self)@ == old(self)@ + s.spec_bytes(),
            final(self).buffer().len() == MAX_LINE_LEN,
            final(self).buffer()[final(self)@.len() as int] == 0,
    {
        let bytes = s.as_bytes();
        let start = self.pos;
        let ghost before = self@;
        let mut i: usize = 0;
        while i < bytes.len()
            invariant
                bytes@ == s.spec_bytes(),
                start == old(self).pos,
                self.pos == start,
                before == old(self)@,
                start + bytes@.len() < MAX_LINE_LEN,
                i <= bytes@.len(),
                self.buf@.len() == MAX_LINE_LEN,
                self.buf@.take(start as int) == before,
                forall|k: int| 0 <= k < i ==> self.buf@[start + k] == bytes@[k],
            decreases bytes.len() - i,
        {
            self.buf[start + i] = bytes[i];
            i = i + 1;
            proof {
                assert(self.buf@.take(start as int) =~= before);
            }
        }
        self.pos = start + bytes.len();
        self.buf[self.pos] = 0;
        proof {
            assert(self@ =~= before + s.spec_bytes());
            encode_utf8_valid_utf8(s@);
            valid_utf8_concat(before, s.spec_bytes());
        }
    }

    /// The text written so far.
    pub fn to_str(&self) -> (text: &str)
        requires
            self.wf(),
        ensures
            text.spec_bytes() == self@,
    {
        let all = self.buf.as_slice();
        let written = vstd::slice::slice_subrange(all, 0, self.pos);
        match utf8_str(written) {
            Some(text) => text,
            None => vstd::pervasive::unreached(),
        }
    }
}

} // verus!
