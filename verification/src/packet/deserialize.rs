//! Reading values back from a byte buffer.
//!
//! A [`Deserializer`] reads from a [`BinaryReader`] that hands out at most
//! the bytes it has left; a value whose bytes run past the end of the input
//! is refused with [`DeserializeError::InvalidSize`].

use vstd::prelude::*;
use super::codec::{le_bytes, le_value, le_decode, pow256, lemma_le_roundtrip, lemma_pow256_values};
use super::serialize::Serialize;
use vstd::utf8::{valid_utf8, encode_utf8};
use vstd::string::StringSliceAdditionalSpecFns;
use crate::utils::utf8_str;

verus! {

/// Why a value could not be read.
#[derive(Debug, PartialEq, Eq, Structural)]
pub enum DeserializeError {
    /// The input ended before the value did.
    InvalidSize,
    /// The caller's allocator gave no storage large enough.
    AllocationFaild,
}

pub type DeserializeResult<T> = Result<T, DeserializeError>;

/// A result with its value replaced by the value's view.
pub open spec fn result_view<T: View>(r: DeserializeResult<T>) -> Result<T::V, DeserializeError> {
    match r {
        Ok(v) => Ok(v@),
        Err(e) => Err(e),
    }
}

/// The views of a sequence of values.
pub open spec fn view_seq<T: View>(s: Seq<T>) -> Seq<T::V> {
    s.map_values(|x: T| x@)
}

/// A result holding a sequence, with the items replaced by their views.
pub open spec fn result_view_items<T: View>(r: DeserializeResult<Vec<T>>) -> Result<
    Seq<T::V>,
    DeserializeError,
> {
    match r {
        Ok(v) => Ok(view_seq(v@)),
        Err(e) => Err(e),
    }
}

/// A byte source that hands out up to `size` of its next bytes.
pub trait DataReader<'a> {
    fn read(&mut self, size: usize) -> &'a [u8];
}

/// A reader over a byte slice.
pub struct BinaryReader<'b> {
    buffer: &'b [u8],
    pos: usize,
}

impl<'b> BinaryReader<'b> {
    #[verifier::type_invariant]
    spec fn inv(self) -> bool {
        self.pos <= self.buffer@.len()
    }

    /// All the bytes of the input.
    pub closed spec fn input(self) -> Seq<u8> {
        self.buffer@
    }

    /// The position of the next byte to be read.
    pub closed spec fn pos(self) -> nat {
        if self.pos <= self.buffer@.len() {
            self.pos as nat
        } else {
            self.buffer@.len()
        }
    }

    /// The position never passes the end of the input.
    pub proof fn lemma_pos_in_input(self)
        ensures
            self.pos() <= self.input().len(),
    {
    }

    /// A reader at the start of `buffer`.
    pub fn from(buffer: &'b [u8]) -> (r: BinaryReader<'b>)
        ensures
            r.input() == buffer@,
            r.pos() == 0,
    {
        BinaryReader { buffer, pos: 0 }
    }

    fn position(&self) -> (p: usize)
        ensures
            p == self.pos(),
            p <= self.input().len(),
    {
        proof {
            use_type_invariant(self);
        }
        self.pos
    }
}

impl<'b> DataReader<'b> for BinaryReader<'b> {
    /// Hands out the next `size` bytes, or all that are left if fewer.
    fn read(&mut self, size: usize) -> (data: &'b [u8])
        ensures
            ({
                let n = if old(self).input().len() - old(self).pos() < size {
                    (old(self).input().len() - old(self).pos()) as nat
                } else {
                    size as nat
                };
                &&& data@ == old(self).input().subrange(old(self).pos() as int, (old(self).pos() + n) as int)
                &&& final(self).pos() == old(self).pos() + n
                &&& final(self).input() == old(self).input()
            }),
    {
        proof {
            use_type_invariant(&*self);
        }
        let left = self.buffer.len() - self.pos;
        let n = if size < left { size } else { left };
        let data = vstd::slice::slice_subrange(self.buffer, self.pos, self.pos + n);
        self.pos = self.pos + n;
        data
    }
}

/// Reads values one after another from a [`BinaryReader`].
pub struct Deserializer<'a> {
    reader: BinaryReader<'a>,
}

/// A value that can be read back from its encoding.
pub trait Deserialize<T: View> {
    /// The outcome of reading a `T` from the start of `input`, with the
    /// number of bytes consumed.
    spec fn spec_deserialize(input: Seq<u8>) -> (Result<T::V, DeserializeError>, nat);

    fn deserialize<'a>(deserializer: &mut Deserializer<'a>) -> (r: DeserializeResult<T>)
        ensures
            final(deserializer).input() == old(deserializer).input(),
            final(deserializer).pos() == old(deserializer).pos() + Self::spec_deserialize(
                old(deserializer).remaining(),
            ).1,
            result_view(r) == Self::spec_deserialize(old(deserializer).remaining()).0,
    ;
}

/// The outcome of reading a fixed-width integer of `n` bytes: its value, or
/// a refusal that consumes all that was left.
pub open spec fn fixed_width(input: Seq<u8>, n: nat) -> (Result<nat, DeserializeError>, nat) {
    if input.len() >= n {
        (Ok(le_value(input.take(n as int))), n)
    } else {
        (Err(DeserializeError::InvalidSize), input.len())
    }
}

/// `fixed_width` with its value cast by `f`.
pub open spec fn fixed_width_as<T>(input: Seq<u8>, n: nat, f: spec_fn(nat) -> T) -> (
    Result<T, DeserializeError>,
    nat,
) {
    match fixed_width(input, n) {
        (Ok(v), c) => (Ok(f(v)), c),
        (Err(e), c) => (Err(e), c),
    }
}

/// The outcome of reading `n` values of type `T` one after another.
pub open spec fn decode_items<T: View + Deserialize<T>>(input: Seq<u8>, n: nat) -> (
    Result<Seq<T::V>, DeserializeError>,
    nat,
)
    decreases n,
{
    if n == 0 {
        (Ok(seq![]), 0)
    } else {
        match decode_items::<T>(input, (n - 1) as nat) {
            (Ok(items), c) => match T::spec_deserialize(input.skip(c as int)) {
                (Ok(v), c2) => (Ok(items.push(v)), c + c2),
                (Err(e), c2) => (Err(e), c + c2),
            },
            (Err(e), c) => (Err(e), c),
        }
    }
}

/// Once reading items has failed, reading more items fails the same way.
pub proof fn lemma_decode_items_error_stays<T: View + Deserialize<T>>(input: Seq<u8>, k: nat, m: nat)
    requires
        k <= m,
        decode_items::<T>(input, k).0 is Err,
    ensures
        decode_items::<T>(input, m) == decode_items::<T>(input, k),
    decreases m,
{
    if m > k {
        lemma_decode_items_error_stays::<T>(input, k, (m - 1) as nat);
    }
}

/// The outcome of reading a length-prefixed sequence of `T` and appending
/// it to `prefix`.
pub open spec fn decode_vec<T: View + Deserialize<T>>(prefix: Seq<T::V>, input: Seq<u8>) -> (
    Result<Seq<T::V>, DeserializeError>,
    nat,
) {
    match <usize as Deserialize<usize>>::spec_deserialize(input) {
        (Ok(n), c) => match decode_items::<T>(input.skip(c as int), n as nat) {
            (Ok(items), c2) => (Ok(prefix + items), c + c2),
            (Err(e), c2) => (Err(e), c + c2),
        },
        (Err(e), c) => (Err(e), c),
    }
}

/// The item count at the start of `input`.
pub open spec fn array_count(input: Seq<u8>) -> usize {
    le_value(input.take(8)) as usize
}

/// The outcome of reading a length-prefixed run of raw bytes.
pub open spec fn decode_byte_array(input: Seq<u8>) -> (Result<Seq<u8>, DeserializeError>, nat) {
    match <usize as Deserialize<usize>>::spec_deserialize(input) {
        (Ok(n), c) => {
            let rest = input.skip(c as int);
            if rest.len() >= n {
                (Ok(rest.take(n as int)), c + n as nat)
            } else {
                (Err(DeserializeError::InvalidSize), input.len())
            }
        },
        (Err(e), c) => (Err(e), c),
    }
}

impl<'a> Deserializer<'a> {
    /// All the bytes of the input.
    pub closed spec fn input(&self) -> Seq<u8> {
        self.reader.input()
    }

    /// The position of the next byte to be read.
    pub closed spec fn pos(&self) -> nat {
        self.reader.pos()
    }

    /// The bytes not read yet.
    pub open spec fn remaining(&self) -> Seq<u8> {
        self.input().skip(self.pos() as int)
    }

    pub proof fn lemma_pos_in_input(&self)
        ensures
            self.pos() <= self.input().len(),
    {
        self.reader.lemma_pos_in_input();
    }

    /// A deserializer reading through `reader`.
    pub fn new(reader: BinaryReader<'a>) -> (d: Deserializer<'a>)
        ensures
            d.input() == reader.input(),
            d.pos() == reader.pos(),
    {
        Deserializer { reader }
    }

    /// Reads a `T`.
    pub fn deserialize<T: View + Deserialize<T>>(&mut self) -> (r: DeserializeResult<T>)
        ensures
            final(self).input() == old(self).input(),
            final(self).pos() == old(self).pos() + T::spec_deserialize(old(self).remaining()).1,
            result_view(r) == T::spec_deserialize(old(self).remaining()).0,
    {
        T::deserialize(self)
    }

    /// Reads a `bool`.
    pub fn deserialize_bool(&mut self) -> (r: DeserializeResult<bool>)
        ensures
            final(self).input() == old(self).input(),
            final(self).pos() == old(self).pos() + <bool as Deserialize<bool>>::spec_deserialize(
                old(self).remaining(),
            ).1,
            result_view(r) == <bool as Deserialize<bool>>::spec_deserialize(old(self).remaining()).0,
    {
        <bool as Deserialize<bool>>::deserialize(self)
    }

    /// Reads a `u8`.
    pub fn deserialize_u8(&mut self) -> (r: DeserializeResult<u8>)
        ensures
            final(self).input() == old(self).input(),
            final(self).pos() == old(self).pos() + <u8 as Deserialize<u8>>::spec_deserialize(
                old(self).remaining(),
            ).1,
            result_view(r) == <u8 as Deserialize<u8>>::spec_deserialize(old(self).remaining()).0,
    {
        <u8 as Deserialize<u8>>::deserialize(self)
    }

    /// Reads a `u16`.
    pub fn deserialize_u16(&mut self) -> (r: DeserializeResult<u16>)
        ensures
            final(self).input() == old(self).input(),
            final(self).pos() == old(self).pos() + <u16 as Deserialize<u16>>::spec_deserialize(
                old(self).remaining(),
            ).1,
            result_view(r) == <u16 as Deserialize<u16>>::spec_deserialize(old(self).remaining()).0,
    {
        <u16 as Deserialize<u16>>::deserialize(self)
    }

    /// Reads a `u32`.
    pub fn deserialize_u32(&mut self) -> (r: DeserializeResult<u32>)
        ensures
            final(self).input() == old(self).input(),
            final(self).pos() == old(self).pos() + <u32 as Deserialize<u32>>::spec_deserialize(
                old(self).remaining(),
            ).1,
            result_view(r) == <u32 as Deserialize<u32>>::spec_deserialize(old(self).remaining()).0,
    {
        <u32 as Deserialize<u32>>::deserialize(self)
    }

    /// Reads a `u64`.
    pub fn deserialize_u64(&mut self) -> (r: DeserializeResult<u64>)
        ensures
            final(self).input() == old(self).input(),
            final(self).pos() == old(self).pos() + <u64 as Deserialize<u64>>::spec_deserialize(
                old(self).remaining(),
            ).1,
            result_view(r) == <u64 as Deserialize<u64>>::spec_deserialize(old(self).remaining()).0,
    {
        <u64 as Deserialize<u64>>::deserialize(self)
    }

    /// Reads a `usize`.
    pub fn deserialize_usize(&mut self) -> (r: DeserializeResult<usize>)
        ensures
            final(self).input() == old(self).input(),
            final(self).pos() == old(self).pos() + <usize as Deserialize<usize>>::spec_deserialize(
                old(self).remaining(),
            ).1,
            result_view(r) == <usize as Deserialize<usize>>::spec_deserialize(old(self).remaining()).0,
    {
        <usize as Deserialize<usize>>::deserialize(self)
    }

    /// Reads a `i8`.
    pub fn deserialize_i8(&mut self) -> (r: DeserializeResult<i8>)
        ensures
            final(self).input() == old(self).input(),
            final(self).pos() == old(self).pos() + <i8 as Deserialize<i8>>::spec_deserialize(
                old(self).remaining(),
            ).1,
            result_view(r) == <i8 as Deserialize<i8>>::spec_deserialize(old(self).remaining()).0,
    {
        <i8 as Deserialize<i8>>::deserialize(self)
    }

    /// Reads a `i16`.
    pub fn deserialize_i16(&mut self) -> (r: DeserializeResult<i16>)
        ensures
            final(self).input() == old(self).input(),
            final(self).pos() == old(self).pos() + <i16 as Deserialize<i16>>::spec_deserialize(
                old(self).remaining(),
            ).1,
            result_view(r) == <i16 as Deserialize<i16>>::spec_deserialize(old(self).remaining()).0,
    {
        <i16 as Deserialize<i16>>::deserialize(self)
    }

    /// Reads a `i32`.
    pub fn deserialize_i32(&mut self) -> (r: DeserializeResult<i32>)
        ensures
            final(self).input() == old(self).input(),
            final(self).pos() == old(self).pos() + <i32 as Deserialize<i32>>::spec_deserialize(
                old(self).remaining(),
            ).1,
            result_view(r) == <i32 as Deserialize<i32>>::spec_deserialize(old(self).remaining()).0,
    {
        <i32 as Deserialize<i32>>::deserialize(self)
    }

    /// Reads a `i64`.
    pub fn deserialize_i64(&mut self) -> (r: DeserializeResult<i64>)
        ensures
            final(self).input() == old(self).input(),
            final(self).pos() == old(self).pos() + <i64 as Deserialize<i64>>::spec_deserialize(
                old(self).remaining(),
            ).1,
            result_view(r) == <i64 as Deserialize<i64>>::spec_deserialize(old(self).remaining()).0,
    {
        <i64 as Deserialize<i64>>::deserialize(self)
    }

    /// Reads a `isize`.
    pub fn deserialize_isize(&mut self) -> (r: DeserializeResult<isize>)
        ensures
            final(self).input() == old(self).input(),
            final(self).pos() == old(self).pos() + <isize as Deserialize<isize>>::spec_deserialize(
                old(self).remaining(),
            ).1,
            result_view(r) == <isize as Deserialize<isize>>::spec_deserialize(old(self).remaining()).0,
    {
        <isize as Deserialize<isize>>::deserialize(self)
    }


    /// Reads a length-prefixed sequence of `T` and appends it to `vec`.
    pub fn deserialize_vec<T: View + Deserialize<T>>(&mut self, vec: Vec<T>) -> (r: DeserializeResult<
        Vec<T>,
    >)
        ensures
            final(self).input() == old(self).input(),
            final(self).pos() == old(self).pos() + decode_vec::<T>(
                view_seq(vec@),
                old(self).remaining(),
            ).1,
            result_view_items(r) == decode_vec::<T>(view_seq(vec@), old(self).remaining()).0,
    {
        proof {
            self.lemma_pos_in_input();
        }
        let ghost prefix = view_seq(vec@);
        let ghost rem0 = self.remaining();
        let ghost input = self.input();
        let ghost pos0 = self.pos();
        let mut out = vec;
        let len = match self.deserialize_usize() {
            Ok(len) => len,
            Err(e) => {
                return Err(e);
            },
        };
        let ghost base = self.pos();
        let ghost rest = rem0.skip(8);
        proof {
            self.lemma_pos_in_input();
            assert(rest =~= input.skip(base as int));
            assert(view_seq(out@).skip(prefix.len() as int) =~= Seq::<T::V>::empty());
        }
        let mut i: usize = 0;
        while i < len
            invariant
                input == old(self).input(),
                rem0 == old(self).remaining(),
                prefix == view_seq(vec@),
                pos0 == old(self).pos(),
                base == pos0 + 8,
                len == le_value(rem0.take(8)) as usize,
                rem0.len() >= 8,
                rest == rem0.skip(8),
                self.input() == input,
                base <= self.pos() <= input.len(),
                rest == input.skip(base as int),
                i <= len,
                prefix.len() <= out@.len(),
                view_seq(out@).take(prefix.len() as int) == prefix,
                decode_items::<T>(rest, i as nat) == (
                    Ok::<Seq<T::V>, DeserializeError>(view_seq(out@).skip(prefix.len() as int)),
                    (self.pos() - base) as nat,
                ),
            decreases len - i,
        {
            let ghost c = (self.pos() - base) as nat;
            proof {
                assert(rest.skip(c as int) =~= self.remaining());
            }
            let ghost before = out@;
            match self.deserialize::<T>() {
                Ok(item) => {
                    out.push(item);
                    proof {
                        self.lemma_pos_in_input();
                        assert(view_seq(out@).take(prefix.len() as int) =~= prefix);
                        assert(view_seq(out@).skip(prefix.len() as int) =~= view_seq(before).skip(
                            prefix.len() as int,
                        ).push(item@));
                    }
                },
                Err(e) => {
                    proof {
                        lemma_decode_items_error_stays::<T>(rest, (i + 1) as nat, len as nat);
                    }
                    return Err(e);
                },
            }
            i = i + 1;
        }
        proof {
            assert(prefix + view_seq(out@).skip(prefix.len() as int) =~= view_seq(out@));
        }
        Ok(out)
    }


    /// Reads an item count, asks `allocator` for storage of that many items,
    /// and fills its first slots with the items read.
    pub fn deserialize_array<T: View + Deserialize<T>, F: FnOnce(usize) -> Option<Vec<T>>>(
        &mut self,
        allocator: F,
    ) -> (r: DeserializeResult<Vec<T>>)
        requires
            old(self).remaining().len() >= 8,
            call_requires(allocator, (array_count(old(self).remaining()),)),
            forall|a: Option<Vec<T>>|
                call_ensures(allocator, (array_count(old(self).remaining()),), a) ==> (a matches Some(
                    v,
                ) ==> v.len() >= array_count(old(self).remaining())),
        ensures
            final(self).input() == old(self).input(),
            ({
                let n = array_count(old(self).remaining());
                let rest = old(self).remaining().skip(8);
                ||| {
                    &&& r == Err::<Vec<T>, DeserializeError>(DeserializeError::AllocationFaild)
                    &&& call_ensures(allocator, (n,), None::<Vec<T>>)
                    &&& final(self).pos() == old(self).pos() + 8
                }
                ||| exists|a: Vec<T>|
                    #[trigger] call_ensures(allocator, (n,), Some(a)) && {
                        let (items, c) = decode_items::<T>(rest, n as nat);
                        &&& final(self).pos() == old(self).pos() + 8 + c
                        &&& match items {
                            Ok(vs) => r matches Ok(v) && view_seq(v@) == vs + view_seq(a@).skip(
                                n as int,
                            ),
                            Err(e) => r == Err::<Vec<T>, DeserializeError>(e),
                        }
                    }
            }),
    {
        proof {
            self.lemma_pos_in_input();
        }
        let ghost rem0 = self.remaining();
        let ghost input = self.input();
        let ghost pos0 = self.pos();
        let count = match self.deserialize_usize() {
            Ok(count) => count,
            Err(e) => {
                proof {
                    assert(false);
                }
                return Err(e);
            },
        };
        let ghost base = self.pos();
        let ghost rest = rem0.skip(8);
        proof {
            self.lemma_pos_in_input();
            assert(rest =~= input.skip(base as int));
        }
        let arr = allocator(count);
        match arr {
            None => Err(DeserializeError::AllocationFaild),
            Some(a) => {
                let ghost a0 = a;
                let mut a = a;
                let mut i: usize = 0;
                assert(view_seq(a@).take(0) =~= Seq::<T::V>::empty());
                while i < count
                    invariant
                        input == old(self).input(),
                        rem0 == old(self).remaining(),
                        pos0 == old(self).pos(),
                        base == pos0 + 8,
                        rest == rem0.skip(8),
                        count == array_count(rem0),
                        call_ensures(allocator, (count,), Some(a0)),
                        a0.len() >= count,
                        self.input() == input,
                        base <= self.pos() <= input.len(),
                        rest == input.skip(base as int),
                        i <= count,
                        a.len() == a0.len(),
                        forall|k: int| i <= k < a0.len() ==> a@[k] == a0@[k],
                        decode_items::<T>(rest, i as nat) == (
                            Ok::<Seq<T::V>, DeserializeError>(view_seq(a@).take(i as int)),
                            (self.pos() - base) as nat,
                        ),
                    decreases count - i,
                {
                    let ghost c = (self.pos() - base) as nat;
                    proof {
                        assert(rest.skip(c as int) =~= self.remaining());
                    }
                    let ghost before = a@;
                    match self.deserialize::<T>() {
                        Ok(item) => {
                            a.set(i, item);
                            proof {
                                self.lemma_pos_in_input();
                                assert(view_seq(a@).take(i + 1) =~= view_seq(before).take(
                                    i as int,
                                ).push(item@));
                            }
                        },
                        Err(e) => {
                            proof {
                                lemma_decode_items_error_stays::<T>(rest, (i + 1) as nat, count as nat);
                            }
                            return Err(e);
                        },
                    }
                    i = i + 1;
                }
                proof {
                    assert(view_seq(a@) =~= view_seq(a@).take(count as int) + view_seq(a0@).skip(
                        count as int,
                    ));
                }
                Ok(a)
            },
        }
    }

    /// Reads a length-prefixed run of raw bytes and copies it into the
    /// storage that `allocator` gives for that many bytes.
    pub fn deserialize_u8_array_alloc<F: FnOnce(usize) -> Option<Vec<u8>>>(
        &mut self,
        allocator: F,
    ) -> (r: DeserializeResult<Vec<u8>>)
        requires
            decode_byte_array(old(self).remaining()).0 matches Ok(bytes) ==> call_requires(
                allocator,
                (bytes.len() as usize,),
            ),
        ensures
            final(self).input() == old(self).input(),
            final(self).pos() == old(self).pos() + decode_byte_array(old(self).remaining()).1,
            match decode_byte_array(old(self).remaining()).0 {
                Err(e) => r == Err::<Vec<u8>, DeserializeError>(e),
                Ok(bytes) => exists|a: Option<Vec<u8>>|
                    #[trigger] call_ensures(allocator, (bytes.len() as usize,), a) && match a {
                        Some(v) if v.len() >= bytes.len() => r matches Ok(w) && w@ == bytes + v@.skip(
                            bytes.len() as int,
                        ),
                        _ => r == Err::<Vec<u8>, DeserializeError>(DeserializeError::InvalidSize),
                    },
            },
    {
        let buffer = self.deserialize_u8_array()?;
        let len = buffer.len();
        let arr = allocator(len);
        match arr {
            Some(a) => {
                if a.len() >= len {
                    let ghost a0 = a;
                    let mut a = a;
                    let mut i: usize = 0;
                    while i < len
                        invariant
                            len == buffer@.len(),
                            a.len() == a0.len(),
                            a0.len() >= len,
                            i <= len,
                            forall|k: int| 0 <= k < i ==> a@[k] == buffer@[k],
                            forall|k: int| i <= k < a0.len() ==> a@[k] == a0@[k],
                        decreases len - i,
                    {
                        a.set(i, buffer[i]);
                        i = i + 1;
                    }
                    assert(a@ =~= buffer@ + a0@.skip(len as int));
                    Ok(a)
                } else {
                    Err(DeserializeError::InvalidSize)
                }
            },
            None => Err(DeserializeError::InvalidSize),
        }
    }

    /// Reads a length-prefixed run of bytes, copies it into the storage
    /// that `allocator` gives for that many bytes, and returns that storage
    /// as text. Whatever storage the allocator gives must, once the bytes
    /// are copied in, hold valid UTF-8.
    pub fn deserialize_str<F: FnOnce(usize) -> Option<Vec<u8>>>(&mut self, allocator: F) -> (r:
        DeserializeResult<String>)
        requires
            decode_byte_array(old(self).remaining()).0 matches Ok(bytes) ==> {
                &&& call_requires(allocator, (bytes.len() as usize,))
                &&& forall|a: Option<Vec<u8>>|
                    #[trigger] call_ensures(allocator, (bytes.len() as usize,), a) ==> (a matches Some(v)
                        ==> (v.len() >= bytes.len() ==> valid_utf8(bytes + v@.skip(bytes.len() as int))))
            },
        ensures
            final(self).input() == old(self).input(),
            final(self).pos() == old(self).pos() + decode_byte_array(old(self).remaining()).1,
            match decode_byte_array(old(self).remaining()).0 {
                Err(e) => r == Err::<String, DeserializeError>(e),
                Ok(bytes) => exists|a: Option<Vec<u8>>|
                    #[trigger] call_ensures(allocator, (bytes.len() as usize,), a) && match a {
                        Some(v) if v.len() >= bytes.len() => r matches Ok(s) && encode_utf8(s@) == bytes
                            + v@.skip(bytes.len() as int),
                        _ => r == Err::<String, DeserializeError>(DeserializeError::AllocationFaild),
                    },
            },
    {
        let buffer = self.deserialize_u8_array()?;
        let len = buffer.len();
        let arr = allocator(len);
        match arr {
            Some(a) => {
                if a.len() >= len {
                    let ghost a0 = a;
                    let mut a = a;
                    let mut i: usize = 0;
                    while i < len
                        invariant
                            len == buffer@.len(),
                            a.len() == a0.len(),
                            a0.len() >= len,
                            i <= len,
                            forall|k: int| 0 <= k < i ==> a@[k] == buffer@[k],
                            forall|k: int| i <= k < a0.len() ==> a@[k] == a0@[k],
                        decreases len - i,
                    {
                        a.set(i, buffer[i]);
                        i = i + 1;
                    }
                    assert(a@ =~= buffer@ + a0@.skip(len as int));
                    match utf8_str(a.as_slice()) {
                        Some(text) => Ok(text.to_owned()),
                        None => vstd::pervasive::unreached(),
                    }
                } else {
                    Err(DeserializeError::AllocationFaild)
                }
            },
            None => Err(DeserializeError::AllocationFaild),
        }
    }

    /// Reads a length-prefixed run of raw bytes, borrowed from the input.
    pub fn deserialize_u8_array(&mut self) -> (r: DeserializeResult<&'a [u8]>)
        ensures
            final(self).input() == old(self).input(),
            final(self).pos() == old(self).pos() + decode_byte_array(old(self).remaining()).1,
            result_view(r) == decode_byte_array(old(self).remaining()).0,
    {
        proof {
            self.lemma_pos_in_input();
        }
        let ghost rem0 = self.remaining();
        let ghost input = self.input();
        let size = match self.deserialize_usize() {
            Ok(size) => size,
            Err(e) => {
                return Err(e);
            },
        };
        proof {
            self.lemma_pos_in_input();
            assert(rem0.skip(8) =~= self.remaining());
        }
        let buffer = self.reader.read(size);
        if buffer.len() != size {
            Err(DeserializeError::InvalidSize)
        } else {
            proof {
                assert(buffer@ =~= rem0.skip(8).take(size as int));
            }
            Ok(buffer)
        }
    }

    /// Reads a length-prefixed run of raw bytes into a new vector.
    pub fn deserialize_u8_vec(&mut self) -> (r: DeserializeResult<Vec<u8>>)
        ensures
            final(self).input() == old(self).input(),
            final(self).pos() == old(self).pos() + decode_byte_array(old(self).remaining()).1,
            result_view(r) == decode_byte_array(old(self).remaining()).0,
    {
        let buffer = self.deserialize_u8_array()?;
        let vec = vstd::slice::slice_to_vec(buffer);
        Ok(vec)
    }

    /// Reads an integer of `n` bytes, least significant first.
    fn read_le(&mut self, n: usize) -> (r: DeserializeResult<u64>)
        requires
            n <= 8,
        ensures
            final(self).input() == old(self).input(),
            final(self).pos() == old(self).pos() + fixed_width(old(self).remaining(), n as nat).1,
            match fixed_width(old(self).remaining(), n as nat).0 {
                Ok(v) => r matches Ok(x) && x as nat == v,
                Err(e) => r == Err::<u64, DeserializeError>(e),
            },
    {
        let p = self.reader.position();
        let ghost rem = old(self).remaining();
        let data = self.reader.read(n);
        if data.len() < n {
            assert(rem.len() < n);
            Err(DeserializeError::InvalidSize)
        } else {
            assert(data@ =~= rem.take(n as int));
            let v = le_decode(data);
            Ok(v)
        }
    }
}

impl Deserialize<bool> for bool {
    open spec fn spec_deserialize(input: Seq<u8>) -> (Result<bool, DeserializeError>, nat) {
        fixed_width_as(input, 1, |v: nat| v != 0)
    }

    fn deserialize<'a>(deserializer: &mut Deserializer<'a>) -> (r: DeserializeResult<bool>) {
        match deserializer.read_le(1) {
            Ok(v) => Ok(v != 0),
            Err(e) => Err(e),
        }
    }
}

impl Deserialize<u8> for u8 {
    open spec fn spec_deserialize(input: Seq<u8>) -> (Result<u8, DeserializeError>, nat) {
        fixed_width_as(input, 1, |v: nat| v as u8)
    }

    fn deserialize<'a>(deserializer: &mut Deserializer<'a>) -> (r: DeserializeResult<u8>) {
        match deserializer.read_le(1) {
            Ok(v) => Ok(v as u8),
            Err(e) => Err(e),
        }
    }
}

impl Deserialize<u16> for u16 {
    open spec fn spec_deserialize(input: Seq<u8>) -> (Result<u16, DeserializeError>, nat) {
        fixed_width_as(input, 2, |v: nat| v as u16)
    }

    fn deserialize<'a>(deserializer: &mut Deserializer<'a>) -> (r: DeserializeResult<u16>) {
        match deserializer.read_le(2) {
            Ok(v) => Ok(v as u16),
            Err(e) => Err(e),
        }
    }
}

impl Deserialize<u32> for u32 {
    open spec fn spec_deserialize(input: Seq<u8>) -> (Result<u32, DeserializeError>, nat) {
        fixed_width_as(input, 4, |v: nat| v as u32)
    }

    fn deserialize<'a>(deserializer: &mut Deserializer<'a>) -> (r: DeserializeResult<u32>) {
        match deserializer.read_le(4) {
            Ok(v) => Ok(v as u32),
            Err(e) => Err(e),
        }
    }
}

impl Deserialize<u64> for u64 {
    open spec fn spec_deserialize(input: Seq<u8>) -> (Result<u64, DeserializeError>, nat) {
        fixed_width_as(input, 8, |v: nat| v as u64)
    }

    fn deserialize<'a>(deserializer: &mut Deserializer<'a>) -> (r: DeserializeResult<u64>) {
        match deserializer.read_le(8) {
            Ok(v) => Ok(v),
            Err(e) => Err(e),
        }
    }
}

impl Deserialize<usize> for usize {
    open spec fn spec_deserialize(input: Seq<u8>) -> (Result<usize, DeserializeError>, nat) {
        fixed_width_as(input, 8, |v: nat| v as usize)
    }

    fn deserialize<'a>(deserializer: &mut Deserializer<'a>) -> (r: DeserializeResult<usize>) {
        match deserializer.read_le(8) {
            Ok(v) => Ok(v as usize),
            Err(e) => Err(e),
        }
    }
}

impl Deserialize<i8> for i8 {
    open spec fn spec_deserialize(input: Seq<u8>) -> (Result<i8, DeserializeError>, nat) {
        fixed_width_as(input, 1, |v: nat| (v as u8) as i8)
    }

    fn deserialize<'a>(deserializer: &mut Deserializer<'a>) -> (r: DeserializeResult<i8>) {
        match deserializer.read_le(1) {
            Ok(v) => Ok((v as u8) as i8),
            Err(e) => Err(e),
        }
    }
}

impl Deserialize<i16> for i16 {
    open spec fn spec_deserialize(input: Seq<u8>) -> (Result<i16, DeserializeError>, nat) {
        fixed_width_as(input, 2, |v: nat| (v as u16) as i16)
    }

    fn deserialize<'a>(deserializer: &mut Deserializer<'a>) -> (r: DeserializeResult<i16>) {
        match deserializer.read_le(2) {
            Ok(v) => Ok((v as u16) as i16),
            Err(e) => Err(e),
        }
    }
}

impl Deserialize<i32> for i32 {
    open spec fn spec_deserialize(input: Seq<u8>) -> (Result<i32, DeserializeError>, nat) {
        fixed_width_as(input, 4, |v: nat| (v as u32) as i32)
    }

    fn deserialize<'a>(deserializer: &mut Deserializer<'a>) -> (r: DeserializeResult<i32>) {
        match deserializer.read_le(4) {
            Ok(v) => Ok((v as u32) as i32),
            Err(e) => Err(e),
        }
    }
}

impl Deserialize<i64> for i64 {
    open spec fn spec_deserialize(input: Seq<u8>) -> (Result<i64, DeserializeError>, nat) {
        fixed_width_as(input, 8, |v: nat| (v as u64) as i64)
    }

    fn deserialize<'a>(deserializer: &mut Deserializer<'a>) -> (r: DeserializeResult<i64>) {
        match deserializer.read_le(8) {
            Ok(v) => Ok(v as i64),
            Err(e) => Err(e),
        }
    }
}

impl Deserialize<isize> for isize {
    open spec fn spec_deserialize(input: Seq<u8>) -> (Result<isize, DeserializeError>, nat) {
        fixed_width_as(input, 8, |v: nat| (v as u64) as isize)
    }

    fn deserialize<'a>(deserializer: &mut Deserializer<'a>) -> (r: DeserializeResult<isize>) {
        match deserializer.read_le(8) {
            Ok(v) => Ok(v as isize),
            Err(e) => Err(e),
        }
    }
}

/// Reading `n` bytes that encode `v` gives back `v`, whatever follows them.
pub proof fn lemma_fixed_width_roundtrip(v: nat, n: nat, rest: Seq<u8>)
    requires
        v < pow256(n),
    ensures
        le_bytes(v, n).len() == n,
        fixed_width(le_bytes(v, n) + rest, n) == (Ok::<nat, DeserializeError>(v), n),
{
    lemma_le_roundtrip(v, n);
    assert((le_bytes(v, n) + rest).take(n as int) =~= le_bytes(v, n));
}

/// Reading back the encoding of a `bool` gives the same value, whatever follows it.
pub proof fn lemma_bool_roundtrip(v: bool, rest: Seq<u8>)
    ensures
        v.spec_bytes().len() == 1,
        <bool as Deserialize<bool>>::spec_deserialize(v.spec_bytes() + rest) == (
            Ok::<bool, DeserializeError>(v),
            1nat,
        ),
{
    lemma_pow256_values();
    lemma_fixed_width_roundtrip(if v { 1nat } else { 0nat }, 1, rest);
    reveal_with_fuel(le_bytes, 2);
    
}

/// Reading back the encoding of a `u8` gives the same value, whatever follows it.
pub proof fn lemma_u8_roundtrip(v: u8, rest: Seq<u8>)
    ensures
        v.spec_bytes().len() == 1,
        <u8 as Deserialize<u8>>::spec_deserialize(v.spec_bytes() + rest) == (
            Ok::<u8, DeserializeError>(v),
            1nat,
        ),
{
    lemma_pow256_values();
    lemma_fixed_width_roundtrip(v as nat, 1, rest);
    
    
}

/// Reading back the encoding of a `u16` gives the same value, whatever follows it.
pub proof fn lemma_u16_roundtrip(v: u16, rest: Seq<u8>)
    ensures
        v.spec_bytes().len() == 2,
        <u16 as Deserialize<u16>>::spec_deserialize(v.spec_bytes() + rest) == (
            Ok::<u16, DeserializeError>(v),
            2nat,
        ),
{
    lemma_pow256_values();
    lemma_fixed_width_roundtrip(v as nat, 2, rest);
    
    
}

/// Reading back the encoding of a `u32` gives the same value, whatever follows it.
pub proof fn lemma_u32_roundtrip(v: u32, rest: Seq<u8>)
    ensures
        v.spec_bytes().len() == 4,
        <u32 as Deserialize<u32>>::spec_deserialize(v.spec_bytes() + rest) == (
            Ok::<u32, DeserializeError>(v),
            4nat,
        ),
{
    lemma_pow256_values();
    lemma_fixed_width_roundtrip(v as nat, 4, rest);
    
    
}

/// Reading back the encoding of a `u64` gives the same value, whatever follows it.
pub proof fn lemma_u64_roundtrip(v: u64, rest: Seq<u8>)
    ensures
        v.spec_bytes().len() == 8,
        <u64 as Deserialize<u64>>::spec_deserialize(v.spec_bytes() + rest) == (
            Ok::<u64, DeserializeError>(v),
            8nat,
        ),
{
    lemma_pow256_values();
    lemma_fixed_width_roundtrip(v as nat, 8, rest);
    
    
}

/// Reading back the encoding of a `usize` gives the same value, whatever follows it.
pub proof fn lemma_usize_roundtrip(v: usize, rest: Seq<u8>)
    ensures
        v.spec_bytes().len() == 8,
        <usize as Deserialize<usize>>::spec_deserialize(v.spec_bytes() + rest) == (
            Ok::<usize, DeserializeError>(v),
            8nat,
        ),
{
    lemma_pow256_values();
    lemma_fixed_width_roundtrip(v as nat, 8, rest);
    
    
}

/// Reading back the encoding of a `i8` gives the same value, whatever follows it.
pub proof fn lemma_i8_roundtrip(v: i8, rest: Seq<u8>)
    ensures
        v.spec_bytes().len() == 1,
        <i8 as Deserialize<i8>>::spec_deserialize(v.spec_bytes() + rest) == (
            Ok::<i8, DeserializeError>(v),
            1nat,
        ),
{
    lemma_pow256_values();
    lemma_fixed_width_roundtrip((v as u8) as nat, 1, rest);
    
    assert((v as u8) as i8 == v) by (bit_vector);
}

/// Reading back the encoding of a `i16` gives the same value, whatever follows it.
pub proof fn lemma_i16_roundtrip(v: i16, rest: Seq<u8>)
    ensures
        v.spec_bytes().len() == 2,
        <i16 as Deserialize<i16>>::spec_deserialize(v.spec_bytes() + rest) == (
            Ok::<i16, DeserializeError>(v),
            2nat,
        ),
{
    lemma_pow256_values();
    lemma_fixed_width_roundtrip((v as u16) as nat, 2, rest);
    
    assert((v as u16) as i16 == v) by (bit_vector);
}

/// Reading back the encoding of a `i32` gives the same value, whatever follows it.
pub proof fn lemma_i32_roundtrip(v: i32, rest: Seq<u8>)
    ensures
        v.spec_bytes().len() == 4,
        <i32 as Deserialize<i32>>::spec_deserialize(v.spec_bytes() + rest) == (
            Ok::<i32, DeserializeError>(v),
            4nat,
        ),
{
    lemma_pow256_values();
    lemma_fixed_width_roundtrip((v as u32) as nat, 4, rest);
    
    assert((v as u32) as i32 == v) by (bit_vector);
}

/// Reading back the encoding of a `i64` gives the same value, whatever follows it.
pub proof fn lemma_i64_roundtrip(v: i64, rest: Seq<u8>)
    ensures
        v.spec_bytes().len() == 8,
        <i64 as Deserialize<i64>>::spec_deserialize(v.spec_bytes() + rest) == (
            Ok::<i64, DeserializeError>(v),
            8nat,
        ),
{
    lemma_pow256_values();
    lemma_fixed_width_roundtrip((v as u64) as nat, 8, rest);
    
    assert((v as u64) as i64 == v) by (bit_vector);
}

/// Reading back the encoding of a `isize` gives the same value, whatever follows it.
pub proof fn lemma_isize_roundtrip(v: isize, rest: Seq<u8>)
    ensures
        v.spec_bytes().len() == 8,
        <isize as Deserialize<isize>>::spec_deserialize(v.spec_bytes() + rest) == (
            Ok::<isize, DeserializeError>(v),
            8nat,
        ),
{
    lemma_pow256_values();
    lemma_fixed_width_roundtrip((v as u64) as nat, 8, rest);
    
    assert((v as u64) as isize == v) by (bit_vector);
}

/// Reads a `T` from the start of `buffer`.
pub fn deserialize<T: View + Deserialize<T>>(buffer: &[u8]) -> (r: DeserializeResult<T>)
    ensures
        result_view(r) == T::spec_deserialize(buffer@).0,
{
    let reader = BinaryReader::from(buffer);
    let mut deserializer = Deserializer::new(reader);
    assert(deserializer.remaining() =~= buffer@);
    deserializer.deserialize()
}

} // verus!
