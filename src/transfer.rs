//! The two-channel transfer: a pointer crosses the boundary as the single call
//! argument while its byte count travels on the length stack. The sender pushes
//! the count right before handing the pointer over; the receiver pops it right
//! after, before reading any byte.

use crate::codec::utf8_str;
use crate::stack::{stack_pop, stack_push, LengthStack, StackError, STACK_CAPACITY};
use vstd::prelude::*;
use vstd::slice::{slice_subrange, slice_to_vec};
use vstd::utf8::{decode_utf8, encode_utf8, valid_utf8};

verus! {

/// Largest byte count that a stack entry can carry.
pub const MAX_TRANSFER_LEN: usize = 0x7fff_ffff;

/// Why a transfer was refused. Each one is a protocol violation by the caller.
#[derive(Debug, Clone, Copy, PartialEq, Eq, Structural)]
pub enum TransferError {
    /// The length stack refused the push or the pop.
    Stack(StackError),
    /// The payload is longer than a stack entry can state.
    TooLong,
    /// The popped entry is not a byte count.
    NegativeLength,
    /// The bytes do not lie within memory.
    OutOfBounds,
    /// The bytes read are not valid UTF-8.
    InvalidUtf8,
}

/// The stack after announcing a payload of `len` bytes, or why it cannot be announced.
pub open spec fn announce(s: Seq<i32>, len: nat) -> Result<Seq<i32>, TransferError> {
    if len > MAX_TRANSFER_LEN {
        Err(TransferError::TooLong)
    } else if s.len() >= STACK_CAPACITY {
        Err(TransferError::Stack(StackError::Full))
    } else {
        Ok(s.push(len as i32))
    }
}

/// The byte count taken off the stack and the stack left behind, or why none can be taken.
pub open spec fn receive(s: Seq<i32>) -> Result<(nat, Seq<i32>), TransferError> {
    if s.len() == 0 {
        Err(TransferError::Stack(StackError::Empty))
    } else if s.last() < 0 {
        Err(TransferError::NegativeLength)
    } else {
        Ok((s.last() as nat, s.drop_last()))
    }
}

/// The stack after a refused or completed pop: the top entry is gone when there was one.
pub open spec fn after_pop(s: Seq<i32>) -> Seq<i32> {
    if s.len() == 0 {
        s
    } else {
        s.drop_last()
    }
}

/// Memory `mem` with `payload` written at `ptr`.
pub open spec fn written(mem: Seq<u8>, ptr: int, payload: Seq<u8>) -> Seq<u8> {
    mem.subrange(0, ptr) + payload + mem.subrange(ptr + payload.len(), mem.len() as int)
}

/// The `len` bytes of `mem` at `ptr`, when they lie within it.
pub open spec fn region(mem: Seq<u8>, ptr: nat, len: nat) -> Option<Seq<u8>> {
    if ptr + len <= mem.len() {
        Some(mem.subrange(ptr as int, (ptr + len) as int))
    } else {
        None
    }
}

/// The stack entry that announces `len` bytes; refused when a 32-bit entry cannot state it.
pub fn length_entry(len: usize) -> (r: Result<i32, TransferError>)
    ensures
        len <= MAX_TRANSFER_LEN ==> r == Ok::<i32, TransferError>(len as i32),
        len > MAX_TRANSFER_LEN ==> r == Err::<i32, TransferError>(TransferError::TooLong),
{
    if len > MAX_TRANSFER_LEN {
        Err(TransferError::TooLong)
    } else {
        Ok(len as i32)
    }
}

/// The byte count that a popped entry states; refused when it is negative.
pub fn entry_length(entry: i32) -> (r: Result<usize, TransferError>)
    ensures
        entry >= 0 ==> r == Ok::<usize, TransferError>(entry as usize),
        entry < 0 ==> r == Err::<usize, TransferError>(TransferError::NegativeLength),
{
    if entry < 0 {
        Err(TransferError::NegativeLength)
    } else {
        Ok(entry as usize)
    }
}

/// Announces a payload of `len` bytes.
pub fn push_length(stack: &mut LengthStack, len: usize) -> (r: Result<(), TransferError>)
    requires
        old(stack).wf(),
    ensures
        final(stack).wf(),
        match announce(old(stack)@, len as nat) {
            Ok(s) => r is Ok && final(stack)@ == s,
            Err(e) => r == Err::<(), TransferError>(e) && final(stack)@ == old(stack)@,
        },
{
    let entry = match length_entry(len) {
        Ok(v) => v,
        Err(e) => return Err(e),
    };
    if stack.len() >= STACK_CAPACITY {
        return Err(TransferError::Stack(StackError::Full));
    }
    stack_push(stack, entry);
    Ok(())
}

/// Takes the byte count of the payload just received.
pub fn pop_length(stack: &mut LengthStack) -> (r: Result<usize, TransferError>)
    requires
        old(stack).wf(),
    ensures
        final(stack).wf(),
        final(stack)@ == after_pop(old(stack)@),
        match receive(old(stack)@) {
            Ok((len, _)) => r == Ok::<usize, TransferError>(len as usize),
            Err(e) => r == Err::<usize, TransferError>(e),
        },
{
    if stack.is_empty() {
        return Err(TransferError::Stack(StackError::Empty));
    }
    entry_length(stack_pop(stack))
}

/// Copies `payload` into `memory` at `ptr`; refused, with memory unchanged, when
/// it does not fit.
pub fn place_bytes(memory: &mut [u8], ptr: usize, payload: &[u8]) -> (r: Result<(), TransferError>)
    ensures
        ptr + payload@.len() > old(memory)@.len() ==> r == Err::<(), TransferError>(
            TransferError::OutOfBounds,
        ) && final(memory)@ == old(memory)@,
        ptr + payload@.len() <= old(memory)@.len() ==> r is Ok && final(memory)@ == written(
            old(memory)@,
            ptr as int,
            payload@,
        ),
{
    if ptr > memory.len() || payload.len() > memory.len() - ptr {
        return Err(TransferError::OutOfBounds);
    }
    let ghost old_mem = memory@;
    let end: usize = ptr + payload.len();
    let mut i: usize = 0;
    while i < payload.len()
        invariant
            i <= payload@.len(),
            end == ptr + payload@.len(),
            ptr + payload@.len() <= memory@.len(),
            memory@.len() == old_mem.len(),
            forall|j: int| 0 <= j < ptr ==> memory@[j] == old_mem[j],
            forall|j: int| ptr <= j < ptr + i ==> memory@[j] == payload@[j - ptr],
            forall|j: int| ptr + i <= j < memory@.len() ==> memory@[j] == old_mem[j],
        decreases payload@.len() - i,
    {
        memory[ptr + i] = payload[i];
        i = i + 1;
    }
    assert(memory@ =~= written(old_mem, ptr as int, payload@));
    Ok(())
}

/// Sending side: writes `payload` into `memory` at `ptr`, which the receiver's
/// allocator handed out, and announces its length. On refusal nothing changes.
pub fn write_bytes(memory: &mut [u8], ptr: usize, payload: &[u8], stack: &mut LengthStack) -> (r:
    Result<(), TransferError>)
    requires
        old(stack).wf(),
    ensures
        final(stack).wf(),
        ptr + payload@.len() > old(memory)@.len() ==> r == Err::<(), TransferError>(
            TransferError::OutOfBounds,
        ) && final(stack)@ == old(stack)@ && final(memory)@ == old(memory)@,
        ptr + payload@.len() <= old(memory)@.len() ==> match announce(old(stack)@, payload@.len()) {
            Ok(s) => r is Ok && final(stack)@ == s && final(memory)@ == written(
                old(memory)@,
                ptr as int,
                payload@,
            ),
            Err(e) => r == Err::<(), TransferError>(e) && final(stack)@ == old(stack)@
                && final(memory)@ == old(memory)@,
        },
{
    if ptr > memory.len() || payload.len() > memory.len() - ptr {
        return Err(TransferError::OutOfBounds);
    }
    match push_length(stack, payload.len()) {
        Ok(()) => {},
        Err(e) => return Err(e),
    }
    place_bytes(memory, ptr, payload)
}

/// The `len` bytes of `memory` at `ptr`; refused when they do not lie within it.
pub fn bytes_at(memory: &[u8], ptr: usize, len: usize) -> (r: Result<Vec<u8>, TransferError>)
    ensures
        match region(memory@, ptr as nat, len as nat) {
            Some(bytes) => r is Ok && r->Ok_0@ == bytes,
            None => r == Err::<Vec<u8>, TransferError>(TransferError::OutOfBounds),
        },
{
    if ptr > memory.len() || len > memory.len() - ptr {
        return Err(TransferError::OutOfBounds);
    }
    Ok(slice_to_vec(slice_subrange(memory, ptr, ptr + len)))
}

/// The text held in the `len` bytes of `memory` at `ptr`; refused when they do
/// not lie within it or are not valid UTF-8.
pub fn text_at(memory: &[u8], ptr: usize, len: usize) -> (r: Result<String, TransferError>)
    ensures
        match region(memory@, ptr as nat, len as nat) {
            Some(bytes) => if valid_utf8(bytes) {
                r is Ok && r->Ok_0@ == decode_utf8(bytes)
            } else {
                r == Err::<String, TransferError>(TransferError::InvalidUtf8)
            },
            None => r == Err::<String, TransferError>(TransferError::OutOfBounds),
        },
{
    let bytes = match bytes_at(memory, ptr, len) {
        Ok(b) => b,
        Err(e) => return Err(e),
    };
    match utf8_str(bytes.as_slice()) {
        Some(s) => Ok(s.to_owned()),
        None => Err(TransferError::InvalidUtf8),
    }
}

/// Receiving side: takes the announced length and copies that many bytes of
/// `memory` from `ptr`. The length is taken off the stack even when the bytes
/// turn out to lie outside memory.
pub fn read_bytes(memory: &[u8], ptr: usize, stack: &mut LengthStack) -> (r: Result<
    Vec<u8>,
    TransferError,
>)
    requires
        old(stack).wf(),
    ensures
        final(stack).wf(),
        final(stack)@ == after_pop(old(stack)@),
        match receive(old(stack)@) {
            Ok((len, _)) => match region(memory@, ptr as nat, len) {
                Some(bytes) => r is Ok && r->Ok_0@ == bytes,
                None => r == Err::<Vec<u8>, TransferError>(TransferError::OutOfBounds),
            },
            Err(e) => r == Err::<Vec<u8>, TransferError>(e),
        },
{
    match pop_length(stack) {
        Ok(len) => bytes_at(memory, ptr, len),
        Err(e) => Err(e),
    }
}

/// Receiving side for text: as `read_bytes`, and the bytes must be valid UTF-8.
pub fn read_string(memory: &[u8], ptr: usize, stack: &mut LengthStack) -> (r: Result<
    String,
    TransferError,
>)
    requires
        old(stack).wf(),
    ensures
        final(stack).wf(),
        final(stack)@ == after_pop(old(stack)@),
        match receive(old(stack)@) {
            Ok((len, _)) => match region(memory@, ptr as nat, len) {
                Some(bytes) => if valid_utf8(bytes) {
                    r is Ok && r->Ok_0@ == decode_utf8(bytes)
                } else {
                    r == Err::<String, TransferError>(TransferError::InvalidUtf8)
                },
                None => r == Err::<String, TransferError>(TransferError::OutOfBounds),
            },
            Err(e) => r == Err::<String, TransferError>(e),
        },
{
    match pop_length(stack) {
        Ok(len) => text_at(memory, ptr, len),
        Err(e) => Err(e),
    }
}

/// Sending side for text: writes the UTF-8 bytes of `value` as `write_bytes` does.
pub fn write_string(memory: &mut [u8], ptr: usize, value: &str, stack: &mut LengthStack) -> (r:
    Result<(), TransferError>)
    requires
        old(stack).wf(),
    ensures
        final(stack).wf(),
        ptr + encode_utf8(value@).len() > old(memory)@.len() ==> r == Err::<(), TransferError>(
            TransferError::OutOfBounds,
        ) && final(stack)@ == old(stack)@ && final(memory)@ == old(memory)@,
        ptr + encode_utf8(value@).len() <= old(memory)@.len() ==> match announce(
            old(stack)@,
            encode_utf8(value@).len(),
        ) {
            Ok(s) => r is Ok && final(stack)@ == s && final(memory)@ == written(
                old(memory)@,
                ptr as int,
                encode_utf8(value@),
            ),
            Err(e) => r == Err::<(), TransferError>(e) && final(stack)@ == old(stack)@
                && final(memory)@ == old(memory)@,
        },
{
    write_bytes(memory, ptr, value.as_bytes(), stack)
}

/// A value that a sender can hand across the boundary: its bytes go out and
/// their count goes on the length stack.
pub trait ToMem: Sized {
    /// The bytes that stand for the value.
    spec fn mem_bytes(&self) -> Seq<u8>;

    /// Announces the byte count and hands the bytes over. On refusal the stack is unchanged.
    fn to_mem(self, stack: &mut LengthStack) -> (r: Result<Vec<u8>, TransferError>)
        requires
            old(stack).wf(),
        ensures
            final(stack).wf(),
            match announce(old(stack)@, self.mem_bytes().len()) {
                Ok(s) => r is Ok && r->Ok_0@ == self.mem_bytes() && final(stack)@ == s,
                Err(e) => r == Err::<Vec<u8>, TransferError>(e) && final(stack)@ == old(stack)@,
            },
    ;
}

/// A value that a receiver can rebuild from the bytes at a pointer, once it has
/// taken their count off the length stack.
pub trait FromMem: Sized {
    /// Whether `bytes` stand for some value.
    spec fn mem_readable(bytes: Seq<u8>) -> bool;

    /// Whether `v` is the value that `bytes` stand for.
    spec fn mem_value(v: Self, bytes: Seq<u8>) -> bool;

    /// Takes the announced count and rebuilds the value from the start of `memory`,
    /// the memory from the pointer onward.
    fn from_mem(memory: &[u8], stack: &mut LengthStack) -> (r: Result<Self, TransferError>)
        requires
            old(stack).wf(),
        ensures
            final(stack).wf(),
            final(stack)@ == after_pop(old(stack)@),
            match receive(old(stack)@) {
                Ok((len, _)) => match region(memory@, 0, len) {
                    Some(bytes) => if Self::mem_readable(bytes) {
                        r is Ok && Self::mem_value(r->Ok_0, bytes)
                    } else {
                        r is Err
                    },
                    None => r == Err::<Self, TransferError>(TransferError::OutOfBounds),
                },
                Err(e) => r == Err::<Self, TransferError>(e),
            },
    ;
}

fn hand_over(bytes: &[u8], stack: &mut LengthStack) -> (r: Result<Vec<u8>, TransferError>)
    requires
        old(stack).wf(),
    ensures
        final(stack).wf(),
        match announce(old(stack)@, bytes@.len()) {
            Ok(s) => r is Ok && r->Ok_0@ == bytes@ && final(stack)@ == s,
            Err(e) => r == Err::<Vec<u8>, TransferError>(e) && final(stack)@ == old(stack)@,
        },
{
    match push_length(stack, bytes.len()) {
        Ok(()) => Ok(slice_to_vec(bytes)),
        Err(e) => Err(e),
    }
}

impl ToMem for String {
    open spec fn mem_bytes(&self) -> Seq<u8> {
        encode_utf8(self@)
    }

    fn to_mem(self, stack: &mut LengthStack) -> (r: Result<Vec<u8>, TransferError>) {
        hand_over(self.as_str().as_bytes(), stack)
    }
}

impl<'a> ToMem for &'a str {
    open spec fn mem_bytes(&self) -> Seq<u8> {
        encode_utf8(self@)
    }

    fn to_mem(self, stack: &mut LengthStack) -> (r: Result<Vec<u8>, TransferError>) {
        hand_over(self.as_bytes(), stack)
    }
}

impl FromMem for String {
    open spec fn mem_readable(bytes: Seq<u8>) -> bool {
        valid_utf8(bytes)
    }

    open spec fn mem_value(v: String, bytes: Seq<u8>) -> bool {
        v@ == decode_utf8(bytes)
    }

    fn from_mem(memory: &[u8], stack: &mut LengthStack) -> (r: Result<String, TransferError>) {
        read_string(memory, 0, stack)
    }
}

/// Text handed over by `to_mem` and rebuilt by `from_mem` comes back unchanged,
/// and the stack returns to what it was.
pub proof fn lemma_text_round_trip(text: Seq<char>, s: Seq<i32>)
    requires
        encode_utf8(text).len() <= MAX_TRANSFER_LEN,
        s.len() < STACK_CAPACITY,
    ensures
        announce(s, encode_utf8(text).len()) is Ok,
        receive(announce(s, encode_utf8(text).len())->Ok_0) == Ok::<(nat, Seq<i32>), TransferError>(
            (encode_utf8(text).len(), s),
        ),
        region(encode_utf8(text), 0, encode_utf8(text).len()) == Some(encode_utf8(text)),
        valid_utf8(encode_utf8(text)),
        decode_utf8(encode_utf8(text)) == text,
{
    broadcast use vstd::utf8::encode_utf8_valid_utf8, vstd::utf8::encode_utf8_decode_utf8;

    let b = encode_utf8(text);
    assert(b.subrange(0, b.len() as int) =~= b);
    assert(s.push(b.len() as i32).drop_last() =~= s);
}

/// A payload written and then read back at the same place comes back whole, with
/// its length, and the stack returns to what it was.
pub proof fn lemma_transfer_round_trip(mem: Seq<u8>, ptr: nat, payload: Seq<u8>, s: Seq<i32>)
    requires
        ptr + payload.len() <= mem.len(),
        payload.len() <= MAX_TRANSFER_LEN,
        s.len() < STACK_CAPACITY,
    ensures
        announce(s, payload.len()) is Ok,
        receive(announce(s, payload.len())->Ok_0) == Ok::<(nat, Seq<i32>), TransferError>(
            (payload.len(), s),
        ),
        region(written(mem, ptr as int, payload), ptr, payload.len()) == Some(payload),
        written(mem, ptr as int, payload).len() == mem.len(),
{
    let w = written(mem, ptr as int, payload);
    assert(w.subrange(ptr as int, (ptr + payload.len()) as int) =~= payload);
    assert(s.push(payload.len() as i32).drop_last() =~= s);
}

} // verus!
