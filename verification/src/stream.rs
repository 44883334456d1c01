//! The bit reader.
//!
//! Reading is done by `bitbuffer`. This module states what each of its reads
//! returns and how far it moves the cursor, in terms of the bits that are
//! still unread, and hands the reads on as methods of [`Stream`].

use crate::bits::{
    bits_of_bytes, bits_signed_value, bits_value, bytes_of, lemma_bits_value_bound,
    lemma_bits_value_last,
};
use bitbuffer::{BitError, BitReadBuffer, BitReadStream, LittleEndian};
use vstd::arithmetic::power2::lemma2_to64;
use vstd::prelude::*;
use vstd::utf8::{decode_utf8, decode_utf8_encode_utf8, valid_utf8};

verus! {

/// Why a read from a [`Stream`] failed.
#[derive(Clone, Copy, Debug, PartialEq, Eq, Structural)]
pub enum ReadError {
    /// More bits were asked for than the integer type holds.
    TooManyBits { requested: usize, max: usize },
    /// Fewer bits are left in the stream than were asked for.
    NotEnoughData { requested: usize, bits_left: usize },
    /// A position outside the stream.
    IndexOutOfBounds { pos: usize, size: usize },
    /// A tag that names no variant.
    UnmatchedDiscriminant { discriminant: usize },
    /// Text of `len` bytes that is not UTF-8.
    Utf8Error { len: usize },
    /// Text that does not fit the length it has to be written in.
    StringTooLong { string_length: usize, requested_length: usize },
}

/// The outcome of reading one field from a run of bits: the value read or
/// the error, and the bits that are left unread after it.
pub type Taken<T> = (Result<T, ReadError>, Seq<bool>);

/// `next`, unless `first` failed: then the failure of `first`, and the bits
/// that were unread when it failed.
pub open spec fn after<T, U>(first: Taken<T>, next: Taken<U>) -> Taken<U> {
    match first.0 {
        Ok(_) => next,
        Err(error) => (Err(error), first.1),
    }
}

/// Takes one bit.
pub open spec fn take_bool(bits: Seq<bool>) -> Taken<bool> {
    if bits.len() >= 1 {
        (Ok(bits[0]), bits.skip(1))
    } else {
        (Err(ReadError::NotEnoughData { requested: 1, bits_left: 0 }), bits)
    }
}

/// Whether `count` bits can be taken as an integer of `width` bits, and the
/// error if not. Asking for more than the integer holds is refused before the
/// stream is looked at.
pub open spec fn take_refusal(bits: Seq<bool>, count: nat, width: nat) -> Option<ReadError> {
    if count > width {
        Some(ReadError::TooManyBits { requested: count as usize, max: width as usize })
    } else if bits.len() < count {
        Some(ReadError::NotEnoughData { requested: count as usize, bits_left: bits.len() as usize })
    } else {
        None
    }
}

/// Takes `count` bits as an unsigned integer of `width` bits.
pub open spec fn take_unsigned(bits: Seq<bool>, count: nat, width: nat) -> Taken<nat> {
    match take_refusal(bits, count, width) {
        Some(error) => (Err(error), bits),
        None => (Ok(bits_value(bits.take(count as int))), bits.skip(count as int)),
    }
}

/// Takes `count` bits as a two's-complement integer of `width` bits.
pub open spec fn take_signed(bits: Seq<bool>, count: nat, width: nat) -> Taken<int> {
    match take_refusal(bits, count, width) {
        Some(error) => (Err(error), bits),
        None => (Ok(bits_signed_value(bits.take(count as int))), bits.skip(count as int)),
    }
}

/// Text without the NUL characters at its end.
pub open spec fn without_trailing_nuls(text: Seq<char>) -> Seq<char>
    decreases text.len(),
{
    if text.len() > 0 && text.last() == '\0' {
        without_trailing_nuls(text.drop_last())
    } else {
        text
    }
}

/// Takes `len` bytes as UTF-8 text, NUL padding at the end removed. Bytes that
/// are not UTF-8 are an error, and are skipped all the same.
pub open spec fn take_sized_text(bits: Seq<bool>, len: nat) -> Taken<Seq<char>> {
    if bits.len() < 8 * len {
        (
            Err(
                ReadError::NotEnoughData {
                    requested: (8 * len) as usize,
                    bits_left: bits.len() as usize,
                },
            ),
            bits,
        )
    } else if !valid_utf8(bytes_of(bits, len)) {
        (Err(ReadError::Utf8Error { len: len as usize }), bits.skip(8 * len as int))
    } else {
        (Ok(without_trailing_nuls(decode_utf8(bytes_of(bits, len)))), bits.skip(8 * len as int))
    }
}

/// The place of the first zero byte among the whole bytes of `bits`, if there
/// is one.
pub open spec fn terminator_index(bits: Seq<bool>) -> Option<int> {
    bytes_of(bits, bits.len() / 8).index_of_first(0u8)
}

/// Takes the bytes up to a zero byte as UTF-8 text, and the zero byte with
/// them. `len` is the place of that zero byte.
pub open spec fn take_terminated_text(bits: Seq<bool>, len: int) -> Taken<Seq<char>> {
    if !valid_utf8(bytes_of(bits, len as nat)) {
        (Err(ReadError::Utf8Error { len: len as usize }), bits.skip(8 * (len + 1)))
    } else {
        (Ok(decode_utf8(bytes_of(bits, len as nat))), bits.skip(8 * (len + 1)))
    }
}

/// Takes text that a zero byte ends, and the zero byte with it. Without a zero
/// byte among the whole bytes that are left the stream is cut short: the
/// whole bytes are consumed, and the byte that is missing is the error.
pub open spec fn take_text(bits: Seq<bool>) -> Taken<Seq<char>> {
    match terminator_index(bits) {
        Some(len) => take_terminated_text(bits, len),
        None => (
            Err(ReadError::NotEnoughData { requested: 8, bits_left: (bits.len() % 8) as usize }),
            bits.skip(8 * (bits.len() / 8) as int),
        ),
    }
}

/// Passes over `count` bits.
pub open spec fn take_skip(bits: Seq<bool>, count: nat) -> Taken<()> {
    if bits.len() < count {
        (
            Err(
                ReadError::NotEnoughData { requested: count as usize, bits_left: bits.len() as usize },
            ),
            bits,
        )
    } else {
        (Ok(()), bits.skip(count as int))
    }
}

/// A result with its text as a sequence of characters.
pub open spec fn text_of(result: Result<String, ReadError>) -> Result<Seq<char>, ReadError> {
    match result {
        Ok(text) => Ok(text@),
        Err(error) => Err(error),
    }
}

/// What a read of unterminated text may do: no zero byte closes the text, so
/// it ends where the whole bytes of the stream end, or before.
pub open spec fn unterminated_text_outcome(
    bits: Seq<bool>,
    outcome: Result<Seq<char>, ReadError>,
    rest: Seq<bool>,
) -> bool {
    let whole = bits.len() / 8;
    match outcome {
        Ok(text) => exists|len: nat|
            len <= whole && valid_utf8(bytes_of(bits, len)) && text == decode_utf8(
                bytes_of(bits, len),
            ) && rest == bits.skip(8 * len as int),
        Err(error) => error == (ReadError::Utf8Error { len: whole as usize }) && rest == bits.skip(
            8 * whole as int,
        ),
    }
}

/// A cursor over the bits of a byte buffer: a `bitbuffer::BitReadStream` in
/// little-endian order. Within a byte the bits come least significant first.
#[verifier::external_body]
pub struct Stream<'a> {
    inner: BitReadStream<'a, LittleEndian>,
}

/// `bitbuffer::BitError`, the error of every read of `bitbuffer`.
#[verifier::external_type_specification]
#[verifier::external_body]
pub struct ExBitError(BitError);

/// The bits of a stream that no read has consumed yet, in reading order.
pub uninterp spec fn unread_bits(stream: Stream) -> Seq<bool>;

/// What a `bitbuffer::BitError` says, as a [`ReadError`].
pub uninterp spec fn error_of(error: BitError) -> ReadError;

/// A read's result with the error spelled out.
pub open spec fn spelled<T>(result: Result<T, BitError>) -> Result<T, ReadError> {
    match result {
        Ok(value) => Ok(value),
        Err(error) => Err(error_of(error)),
    }
}

/// `BitReadBuffer::new`, `BitReadBuffer::truncate` and `BitReadStream::new`:
/// a stream at position zero over the first `bit_len` bits of the bytes. The
/// reader adds the bits of a read, and of a machine word, to a position
/// before it compares: the stream is kept short enough for that sum.
#[verifier::external_body]
fn stream_over_bits<'a>(bytes: &'a [u8], bit_len: usize) -> (stream: Stream<'a>)
    requires
        bit_len <= 8 * bytes@.len(),
        8 * bytes@.len() + 2 * usize::BITS <= usize::MAX,
    ensures
        unread_bits(stream) == bits_of_bytes(bytes@).take(bit_len as int),
{
    let mut buffer = BitReadBuffer::new(bytes, LittleEndian);
    let _ = buffer.truncate(bit_len);
    Stream { inner: BitReadStream::new(buffer) }
}

/// `BitReadStream::bits_left`: how many bits are unread.
#[verifier::external_body]
fn stream_bits_left(stream: &Stream) -> (left: usize)
    ensures
        left == unread_bits(*stream).len(),
{
    stream.inner.bits_left()
}

/// `BitReadStream::read_bool`: the next bit, and the cursor one further; with
/// no bit left an error, and the cursor where it was.
#[verifier::external_body]
fn stream_read_bool(stream: &mut Stream) -> (result: Result<bool, BitError>)
    ensures
        (spelled(result), unread_bits(*final(stream))) == take_bool(unread_bits(*old(stream))),
{
    stream.inner.read_bool()
}

/// `BitReadStream::read_int::<u32>`: the next `count` bits as a number, first
/// bit least significant, and the cursor `count` further; an error, and the
/// cursor where it was, when `count` is over 32 or over what is left.
#[verifier::external_body]
fn stream_read_u32(stream: &mut Stream, count: usize) -> (result: Result<u32, BitError>)
    ensures
        (
            match result {
                Ok(value) => Ok(value as nat),
                Err(error) => Err(error_of(error)),
            },
            unread_bits(*final(stream)),
        ) == take_unsigned(unread_bits(*old(stream)), count as nat, 32),
{
    stream.inner.read_int::<u32>(count)
}

/// `BitReadStream::read_int::<usize>`: as for `u32`, with the width of
/// `usize` as the limit.
#[verifier::external_body]
fn stream_read_usize(stream: &mut Stream, count: usize) -> (result: Result<usize, BitError>)
    ensures
        (
            match result {
                Ok(value) => Ok(value as nat),
                Err(error) => Err(error_of(error)),
            },
            unread_bits(*final(stream)),
        ) == take_unsigned(unread_bits(*old(stream)), count as nat, usize::BITS as nat),
{
    stream.inner.read_int::<usize>(count)
}

/// `BitReadStream::read_int::<i32>`: the next `count` bits as a
/// two's-complement number whose sign is the last of them, and the cursor
/// `count` further; errors as for `u32`. For 31 bits the reader computes
/// `2^31 - 1` in 32 signed bits, which overflows: that count is left out.
#[verifier::external_body]
fn stream_read_i32(stream: &mut Stream, count: usize) -> (result: Result<i32, BitError>)
    requires
        count != 31,
    ensures
        (
            match result {
                Ok(value) => Ok(value as int),
                Err(error) => Err(error_of(error)),
            },
            unread_bits(*final(stream)),
        ) == take_signed(unread_bits(*old(stream)), count as nat, 32),
{
    stream.inner.read_int::<i32>(count)
}

/// `BitReadStream::read_string` with a length that the stream can serve:
/// that many bytes as UTF-8 text without the NULs at its end, and the cursor
/// past the bytes, also when they are not UTF-8.
#[verifier::external_body]
fn stream_read_sized_string(stream: &mut Stream, len: usize) -> (result: Result<String, BitError>)
    requires
        8 * len <= unread_bits(*old(stream)).len(),
    ensures
        (
            match result {
                Ok(text) => Ok(text@),
                Err(error) => Err(error_of(error)),
            },
            unread_bits(*final(stream)),
        ) == take_sized_text(unread_bits(*old(stream)), len as nat),
{
    stream.inner.read_string(Some(len)).map(|text| text.into_owned())
}

/// `BitReadStream::read_string` without a length: the bytes before the first
/// zero byte as UTF-8 text, and the cursor past that zero byte, also when the
/// bytes are not UTF-8. Where the stream holds no zero byte the text ends with
/// the stream's whole bytes, or before.
#[verifier::external_body]
fn stream_read_string(stream: &mut Stream) -> (result: Result<String, BitError>)
    ensures
        match terminator_index(unread_bits(*old(stream))) {
            Some(len) => (
                match result {
                    Ok(text) => Ok(text@),
                    Err(error) => Err(error_of(error)),
                },
                unread_bits(*final(stream)),
            ) == take_terminated_text(unread_bits(*old(stream)), len),
            None => unterminated_text_outcome(
                unread_bits(*old(stream)),
                match result {
                    Ok(text) => Ok(text@),
                    Err(error) => Err(error_of(error)),
                },
                unread_bits(*final(stream)),
            ),
        },
{
    stream.inner.read_string(None).map(|text| text.into_owned())
}

/// `BitReadStream::skip_bits`: the cursor `count` further; with fewer bits
/// left an error, and the cursor where it was.
#[verifier::external_body]
fn stream_skip_bits(stream: &mut Stream, count: usize) -> (result: Result<(), BitError>)
    ensures
        (spelled(result), unread_bits(*final(stream))) == take_skip(
            unread_bits(*old(stream)),
            count as nat,
        ),
{
    stream.inner.skip_bits(count)
}

/// Tells the variants of `bitbuffer::BitError` apart.
#[verifier::external_body]
fn read_error(error: BitError) -> (spelled_out: ReadError)
    ensures
        spelled_out == error_of(error),
{
    match error {
        BitError::TooManyBits { requested, max } => ReadError::TooManyBits { requested, max },
        BitError::NotEnoughData { requested, bits_left } => ReadError::NotEnoughData { requested, bits_left },
        BitError::IndexOutOfBounds { pos, size } => ReadError::IndexOutOfBounds { pos, size },
        BitError::UnmatchedDiscriminant { discriminant, .. } => ReadError::UnmatchedDiscriminant { discriminant },
        BitError::Utf8Error(_, len) => ReadError::Utf8Error { len },
        BitError::StringToLong { string_length, requested_length } => ReadError::StringTooLong { string_length, requested_length },
    }
}

impl<'a> View for Stream<'a> {
    type V = Seq<bool>;

    /// The bits that are still unread.
    closed spec fn view(&self) -> Seq<bool> {
        unread_bits(*self)
    }
}

impl<'a> Stream<'a> {
    /// A stream over `bytes`, with every bit unread.
    pub fn new(bytes: &'a [u8]) -> (stream: Stream<'a>)
        requires
            8 * bytes@.len() + 2 * usize::BITS <= usize::MAX,
        ensures
            stream@ == bits_of_bytes(bytes@),
    {
        let stream = stream_over_bits(bytes, 8 * bytes.len());
        assert(bits_of_bytes(bytes@).take(8 * bytes@.len() as int) =~= bits_of_bytes(bytes@));
        stream
    }

    /// A stream over the first `bit_len` bits of `bytes`, with every bit
    /// unread.
    pub fn with_bit_len(bytes: &'a [u8], bit_len: usize) -> (stream: Stream<'a>)
        requires
            bit_len <= 8 * bytes@.len(),
            8 * bytes@.len() + 2 * usize::BITS <= usize::MAX,
        ensures
            stream@ == bits_of_bytes(bytes@).take(bit_len as int),
    {
        stream_over_bits(bytes, bit_len)
    }

    /// The number of bits that are still unread.
    pub fn bits_left(&self) -> (left: usize)
        ensures
            left == self@.len(),
    {
        stream_bits_left(self)
    }

    /// Reads one bit.
    pub fn read_bool(&mut self) -> (result: Result<bool, ReadError>)
        ensures
            (result, final(self)@) == take_bool(old(self)@),
    {
        match stream_read_bool(self) {
            Ok(bit) => Ok(bit),
            Err(error) => Err(read_error(error)),
        }
    }

    /// Reads `count` bits as an unsigned number of at most 32 bits.
    pub fn read_int(&mut self, count: usize) -> (result: Result<u32, ReadError>)
        ensures
            (
                match result {
                    Ok(value) => Ok(value as nat),
                    Err(error) => Err(error),
                },
                final(self)@,
            ) == take_unsigned(old(self)@, count as nat, 32),
    {
        match stream_read_u32(self, count) {
            Ok(value) => Ok(value),
            Err(error) => Err(read_error(error)),
        }
    }

    /// Reads `count` bits as an unsigned number of the width of `usize`.
    pub fn read_size(&mut self, count: usize) -> (result: Result<usize, ReadError>)
        ensures
            (
                match result {
                    Ok(value) => Ok(value as nat),
                    Err(error) => Err(error),
                },
                final(self)@,
            ) == take_unsigned(old(self)@, count as nat, usize::BITS as nat),
    {
        match stream_read_usize(self, count) {
            Ok(value) => Ok(value),
            Err(error) => Err(read_error(error)),
        }
    }

    /// Passes over `count` bits.
    pub fn skip_bits(&mut self, count: usize) -> (result: Result<(), ReadError>)
        ensures
            (result, final(self)@) == take_skip(old(self)@, count as nat),
    {
        match stream_skip_bits(self, count) {
            Ok(()) => Ok(()),
            Err(error) => Err(read_error(error)),
        }
    }

    /// Reads `len` bytes as text.
    pub fn read_sized_string(&mut self, len: usize) -> (result: Result<String, ReadError>)
        requires
            8 * len <= usize::MAX,
        ensures
            (text_of(result), final(self)@) == take_sized_text(old(self)@, len as nat),
    {
        let left = self.bits_left();
        if left / 8 < len {
            return Err(ReadError::NotEnoughData { requested: 8 * len, bits_left: left });
        }
        match stream_read_sized_string(self, len) {
            Ok(text) => Ok(text),
            Err(error) => Err(read_error(error)),
        }
    }

    /// Reads text up to a zero byte.
    pub fn read_string(&mut self) -> (result: Result<String, ReadError>)
        ensures
            (text_of(result), final(self)@) == take_text(old(self)@),
    {
        let ghost bits = self@;
        let before = self.bits_left();
        let outcome = stream_read_string(self);
        let ghost moved = self@;
        let after = self.bits_left();
        proof {
            bytes_of(bits, bits.len() / 8).index_of_first_ensures(0u8);
        }
        let consumed = before - after;
        let whole = before - before % 8;
        match outcome {
            Ok(text) => {
                proof {
                    if let Some(len) = terminator_index(bits) {
                        decode_utf8_encode_utf8(bytes_of(bits, len as nat));
                    } else {
                        let len = choose|len: nat|
                            len <= bits.len() / 8 && valid_utf8(bytes_of(bits, len)) && text@
                                == decode_utf8(bytes_of(bits, len)) && moved == bits.skip(
                                8 * len as int,
                            );
                        decode_utf8_encode_utf8(bytes_of(bits, len));
                    }
                }
                let len = text.as_str().len();
                if consumed / 8 == len + 1 {
                    Ok(text)
                } else {
                    let _ = self.skip_bits(whole - consumed);
                    assert(self@ =~= bits.skip(8 * (bits.len() / 8) as int));
                    Err(ReadError::NotEnoughData { requested: 8, bits_left: before % 8 })
                }
            },
            Err(error) => {
                let error = read_error(error);
                match error {
                    ReadError::Utf8Error { len } => {
                        if consumed / 8 == len + 1 {
                            Err(error)
                        } else {
                            Err(ReadError::NotEnoughData { requested: 8, bits_left: before % 8 })
                        }
                    },
                    _ => Err(error),
                }
            },
        }
    }

    /// Reads `count` bits as a two's-complement number of at most 32 bits.
    pub fn read_signed_int(&mut self, count: usize) -> (result: Result<i32, ReadError>)
        ensures
            (
                match result {
                    Ok(value) => Ok(value as int),
                    Err(error) => Err(error),
                },
                final(self)@,
            ) == take_signed(old(self)@, count as nat, 32),
    {
        if count == 31 {
            proof {
                lemma2_to64();
                if self@.len() >= 31 {
                    lemma_bits_value_last(self@.take(31));
                    lemma_bits_value_bound(self@.take(31));
                }
            }
            match stream_read_u32(self, 31) {
                Ok(pattern) => if pattern >= 0x4000_0000 {
                    Ok((pattern - 0x4000_0000) as i32 - 0x4000_0000)
                } else {
                    Ok(pattern as i32)
                },
                Err(error) => Err(read_error(error)),
            }
        } else {
            match stream_read_i32(self, count) {
                Ok(value) => Ok(value),
                Err(error) => Err(read_error(error)),
            }
        }
    }
}

} // verus!
