//! Writing values into a fixed-size byte buffer.
//!
//! A [`Serializer`] appends the encoding of each value at the writer's
//! position; once the buffer is full, the rest of the encoding is cut off
//! and the count of bytes written stops growing.

use vstd::prelude::*;
use super::codec::{le_bytes, le_encode};

verus! {

/// How many of `data_len` bytes fit into a buffer of `buf_len` bytes from `pos` on.
pub open spec fn fitting(buf_len: nat, pos: nat, data_len: nat) -> nat {
    if buf_len < pos {
        0
    } else if buf_len - pos < data_len {
        (buf_len - pos) as nat
    } else {
        data_len
    }
}

/// `buffer` after as much of `data` as fits has been written at `pos`.
pub open spec fn write_at(buffer: Seq<u8>, pos: nat, data: Seq<u8>) -> Seq<u8> {
    let n = fitting(buffer.len(), pos, data.len());
    if pos > buffer.len() {
        buffer
    } else {
        buffer.take(pos as int) + data.take(n as int) + buffer.skip((pos + n) as int)
    }
}

/// Data that fits entirely, written at the start of a buffer, is followed
/// by the rest of the buffer as it was.
pub proof fn lemma_write_at_start(buffer: Seq<u8>, data: Seq<u8>)
    requires
        data.len() <= buffer.len(),
    ensures
        fitting(buffer.len(), 0, data.len()) == data.len(),
        write_at(buffer, 0, data) == data + buffer.skip(data.len() as int),
{
    assert(buffer.take(0) + data.take(data.len() as int) + buffer.skip(data.len() as int) =~= data
        + buffer.skip(data.len() as int));
}

/// The state of a serializer: its buffer, the position of the next byte,
/// and the count of bytes it has written.
#[verifier::ext_equal]
pub struct SerialView {
    pub buffer: Seq<u8>,
    pub pos: nat,
    pub length: nat,
}

impl SerialView {
    /// The state after `data` has been emitted.
    pub open spec fn emit(self, data: Seq<u8>) -> SerialView {
        let n = fitting(self.buffer.len(), self.pos, data.len());
        SerialView {
            buffer: write_at(self.buffer, self.pos, data),
            pos: self.pos + n,
            length: self.length + n,
        }
    }
}

/// Emitting `a` and then `b` is emitting `a + b`: a serializer's result
/// depends only on the concatenated encoding, not on how it was split.
pub proof fn lemma_emit_concat(v: SerialView, a: Seq<u8>, b: Seq<u8>)
    ensures
        v.emit(a).emit(b) == v.emit(a + b),
{
    let l = v.buffer.len();
    let p = v.pos;
    if p > l {
        return;
    }
    let na = fitting(l, p, a.len());
    let v1 = v.emit(a);
    assert(v1.buffer.len() == l);
    let nb = fitting(l, v1.pos, b.len());
    let n = fitting(l, p, (a + b).len());
    assert(n == na + nb);
    assert((a + b).take(n as int) =~= a.take(na as int) + b.take(nb as int));
    assert(v.emit(a).emit(b).buffer =~= v.emit(a + b).buffer);
}

/// Emitting nothing changes nothing.
pub proof fn lemma_emit_empty(v: SerialView)
    ensures
        v.emit(seq![]) == v,
{
    assert(v.emit(seq![]).buffer =~= v.buffer);
}

/// A byte sink that copies data into a buffer and reports how much fitted.
pub trait DataWriter {
    fn write(&mut self, data: &[u8]) -> usize;
}

/// A writer into a buffer of fixed length.
pub struct BinaryWriter {
    buffer: Vec<u8>,
    pos: usize,
}

impl BinaryWriter {
    #[verifier::type_invariant]
    spec fn inv(self) -> bool {
        self.pos <= self.buffer.len()
    }

    /// The buffer's contents.
    pub closed spec fn buffer(self) -> Seq<u8> {
        self.buffer@
    }

    /// The position of the next byte to be written.
    pub closed spec fn pos(self) -> nat {
        self.pos as nat
    }

    /// A writer that fills `buffer` from its start.
    pub fn from(buffer: Vec<u8>) -> (w: BinaryWriter)
        ensures
            w.buffer() == buffer@,
            w.pos() == 0,
    {
        BinaryWriter { buffer, pos: 0 }
    }

    /// Gives the buffer back.
    pub fn into_buffer(self) -> (buffer: Vec<u8>)
        ensures
            buffer@ == self.buffer(),
    {
        self.buffer
    }
}

impl DataWriter for BinaryWriter {
    /// Copies as much of `data` as fits at the position and moves past it;
    /// returns the number of bytes copied.
    fn write(&mut self, data: &[u8]) -> (n: usize)
        ensures
            n == fitting(old(self).buffer().len(), old(self).pos(), data@.len()),
            final(self).buffer() == write_at(old(self).buffer(), old(self).pos(), data@),
            final(self).pos() == old(self).pos() + n,
    {
        proof {
            use_type_invariant(&*self);
        }
        let room = self.buffer.len() - self.pos;
        let n = if room < data.len() { room } else { data.len() };
        let start = self.pos;
        let ghost old_buf = self.buffer@;
        self.pos = 0;
        let mut buf: Vec<u8> = Vec::new();
        std::mem::swap(&mut buf, &mut self.buffer);
        let mut i: usize = 0;
        while i < n
            invariant
                n <= data@.len(),
                start + n <= old_buf.len(),
                buf@.len() == old_buf.len(),
                buf.len() == old_buf.len(),
                i <= n,
                forall|k: int| 0 <= k < start ==> buf@[k] == old_buf[k],
                forall|k: int| start <= k < start + i ==> buf@[k] == data@[k - start],
                forall|k: int| start + i <= k < old_buf.len() ==> buf@[k] == old_buf[k],
            decreases n - i,
        {
            buf.set(start + i, data[i]);
            i = i + 1;
        }
        assert(buf@ =~= write_at(old_buf, start as nat, data@));
        self.buffer = buf;
        self.pos = start + n;
        n
    }
}

/// Writes values one after another through a [`BinaryWriter`] and counts
/// the bytes written.
pub struct Serializer {
    writer: BinaryWriter,
    length: usize,
}

impl View for Serializer {
    type V = SerialView;

    closed spec fn view(&self) -> SerialView {
        SerialView { buffer: self.writer.buffer(), pos: self.writer.pos(), length: self.length as nat }
    }
}

impl Serializer {
    #[verifier::type_invariant]
    spec fn inv(self) -> bool {
        self.length <= self.writer.pos()
    }

    /// A serializer that writes through `writer` and has written nothing yet.
    pub fn new(writer: BinaryWriter) -> (s: Serializer)
        ensures
            s@ == (SerialView { buffer: writer.buffer(), pos: writer.pos(), length: 0 }),
    {
        Serializer { writer, length: 0 }
    }

    /// The writer, with everything written so far.
    pub fn into_writer(self) -> (w: BinaryWriter)
        ensures
            w.buffer() == self@.buffer,
            w.pos() == self@.pos,
    {
        self.writer
    }

    /// The number of bytes written so far.
    pub fn length(&self) -> (n: usize)
        ensures
            n == self@.length,
    {
        self.length
    }

    /// Writes the encoding of `data`.
    pub fn serialize<T: Serialize>(self, data: &T) -> (out: Serializer)
        ensures
            out@ == self@.emit(data.spec_bytes()),
    {
        data.serialize(self)
    }

    fn write_bytes(self, data: &[u8]) -> (out: Serializer)
        ensures
            out@ == self@.emit(data@),
    {
        proof {
            use_type_invariant(&self);
            use_type_invariant(&self.writer);
        }
        let Serializer { mut writer, length } = self;
        let n = writer.write(data);
        Serializer { writer, length: length + n }
    }
}

/// A value with a binary encoding.
pub trait Serialize {
    /// The bytes that encode `self`.
    spec fn spec_bytes(&self) -> Seq<u8>;

    /// Writes the encoding of `self` through `serializer`.
    fn serialize(&self, serializer: Serializer) -> (out: Serializer)
        ensures
            out@ == serializer@.emit(self.spec_bytes()),
    ;
}

impl Serialize for bool {
    open spec fn spec_bytes(&self) -> Seq<u8> {
        seq![if *self { 1u8 } else { 0u8 }]
    }

    fn serialize(&self, serializer: Serializer) -> (out: Serializer) {
        let b: u8 = if *self { 1 } else { 0 };
        let bytes = le_encode(b as u64, 1);
        proof {
            reveal_with_fuel(le_bytes, 2);
            assert(bytes@ =~= self.spec_bytes());
        }
        serializer.write_bytes(bytes.as_slice())
    }
}

impl Serialize for u8 {
    open spec fn spec_bytes(&self) -> Seq<u8> {
        le_bytes(*self as nat, 1)
    }

    fn serialize(&self, serializer: Serializer) -> (out: Serializer) {
        let bytes = le_encode(*self as u64, 1);
        serializer.write_bytes(bytes.as_slice())
    }
}

impl Serialize for u16 {
    open spec fn spec_bytes(&self) -> Seq<u8> {
        le_bytes(*self as nat, 2)
    }

    fn serialize(&self, serializer: Serializer) -> (out: Serializer) {
        let bytes = le_encode(*self as u64, 2);
        serializer.write_bytes(bytes.as_slice())
    }
}

impl Serialize for u32 {
    open spec fn spec_bytes(&self) -> Seq<u8> {
        le_bytes(*self as nat, 4)
    }

    fn serialize(&self, serializer: Serializer) -> (out: Serializer) {
        let bytes = le_encode(*self as u64, 4);
        serializer.write_bytes(bytes.as_slice())
    }
}

impl Serialize for u64 {
    open spec fn spec_bytes(&self) -> Seq<u8> {
        le_bytes(*self as nat, 8)
    }

    fn serialize(&self, serializer: Serializer) -> (out: Serializer) {
        let bytes = le_encode(*self, 8);
        serializer.write_bytes(bytes.as_slice())
    }
}

impl Serialize for usize {
    open spec fn spec_bytes(&self) -> Seq<u8> {
        le_bytes(*self as nat, 8)
    }

    fn serialize(&self, serializer: Serializer) -> (out: Serializer) {
        let bytes = le_encode(*self as u64, 8);
        serializer.write_bytes(bytes.as_slice())
    }
}

impl Serialize for i8 {
    open spec fn spec_bytes(&self) -> Seq<u8> {
        le_bytes((*self as u8) as nat, 1)
    }

    fn serialize(&self, serializer: Serializer) -> (out: Serializer) {
        let bytes = le_encode((*self as u8) as u64, 1);
        serializer.write_bytes(bytes.as_slice())
    }
}

impl Serialize for i16 {
    open spec fn spec_bytes(&self) -> Seq<u8> {
        le_bytes((*self as u16) as nat, 2)
    }

    fn serialize(&self, serializer: Serializer) -> (out: Serializer) {
        let bytes = le_encode((*self as u16) as u64, 2);
        serializer.write_bytes(bytes.as_slice())
    }
}

impl Serialize for i32 {
    open spec fn spec_bytes(&self) -> Seq<u8> {
        le_bytes((*self as u32) as nat, 4)
    }

    fn serialize(&self, serializer: Serializer) -> (out: Serializer) {
        let bytes = le_encode((*self as u32) as u64, 4);
        serializer.write_bytes(bytes.as_slice())
    }
}

impl Serialize for i64 {
    open spec fn spec_bytes(&self) -> Seq<u8> {
        le_bytes((*self as u64) as nat, 8)
    }

    fn serialize(&self, serializer: Serializer) -> (out: Serializer) {
        let bytes = le_encode(*self as u64, 8);
        serializer.write_bytes(bytes.as_slice())
    }
}

impl Serialize for isize {
    open spec fn spec_bytes(&self) -> Seq<u8> {
        le_bytes((*self as u64) as nat, 8)
    }

    fn serialize(&self, serializer: Serializer) -> (out: Serializer) {
        let bytes = le_encode(*self as u64, 8);
        serializer.write_bytes(bytes.as_slice())
    }
}

/// The encodings of `items`, one after another.
pub open spec fn concat_bytes<T: Serialize>(items: Seq<T>) -> Seq<u8>
    decreases items.len(),
{
    if items.len() == 0 {
        seq![]
    } else {
        concat_bytes(items.drop_last()) + items.last().spec_bytes()
    }
}

/// A sequence is encoded as its length, as a `usize`, followed by its items.
impl<T: Serialize> Serialize for Vec<T> {
    open spec fn spec_bytes(&self) -> Seq<u8> {
        le_bytes(self@.len(), 8) + concat_bytes(self@)
    }

    fn serialize(&self, serializer: Serializer) -> (out: Serializer) {
        let len = self.len();
        let mut s = serializer.serialize(&len);
        let ghost start = serializer@;
        let ghost head = le_bytes(len as nat, 8);
        assert(self@.take(0) =~= Seq::<T>::empty());
        for i in 0..len
            invariant
                len == self@.len(),
                s@ == start.emit(head + concat_bytes(self@.take(i as int))),
        {
            s = s.serialize(&self[i]);
            proof {
                let prefix = head + concat_bytes(self@.take(i as int));
                lemma_emit_concat(start, prefix, self@[i as int].spec_bytes());
                assert(self@.take(i + 1).drop_last() =~= self@.take(i as int));
                assert(prefix + self@[i as int].spec_bytes() =~= head + concat_bytes(
                    self@.take(i + 1),
                ));
            }
        }
        assert(self@.take(len as int) =~= self@);
        s
    }
}

/// Writes the encoding of `target` at the start of `buffer`, cut off where
/// the buffer ends, and returns the number of bytes written.
pub fn serialize<T: Serialize>(target: &T, buffer: &mut [u8]) -> (n: usize)
    ensures
        n == fitting(old(buffer)@.len(), 0, target.spec_bytes().len()),
        final(buffer)@ == write_at(old(buffer)@, 0, target.spec_bytes()),
{
    let copy = vstd::slice::slice_to_vec(buffer);
    let writer = BinaryWriter::from(copy);
    let serializer = Serializer::new(writer);
    let serializer = target.serialize(serializer);
    let n = serializer.length();
    let written = serializer.into_writer().into_buffer();
    let ghost old_buf = buffer@;
    let mut i: usize = 0;
    while i < n
        invariant
            n <= old_buf.len(),
            written@ == write_at(old_buf, 0, target.spec_bytes()),
            n == fitting(old_buf.len(), 0, target.spec_bytes().len()),
            buffer@.len() == old_buf.len(),
            i <= n,
            forall|k: int| 0 <= k < i ==> buffer@[k] == written@[k],
            forall|k: int| i <= k < old_buf.len() ==> buffer@[k] == old_buf[k],
        decreases n - i,
    {
        buffer[i] = written[i];
        i = i + 1;
    }
    assert(buffer@ =~= write_at(old_buf, 0, target.spec_bytes()));
    n
}

} // verus!
