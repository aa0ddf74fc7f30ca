//! Framing: each message is a four-byte little-endian length followed by
//! exactly that many payload bytes.
use vstd::prelude::*;
use vstd::arithmetic::div_mod::lemma_fundamental_div_mod;
use byteorder::{ByteOrder, LittleEndian};

verus! {

/// The largest payload a peer may announce, in bytes.
pub const MAX_MESSAGE_SIZE: usize = 1048576;

/// Why a frame could not be read.
#[derive(Debug, PartialEq, Eq, Structural, Clone, Copy)]
pub enum ReadError {
    /// The announced length is above [`MAX_MESSAGE_SIZE`].
    Oversized,
    /// The stream ended inside the payload.
    Truncated,
    /// The payload is not a request.
    Malformed,
    /// The underlying stream failed.
    Transport,
}

/// The number that four bytes encode, least significant first.
pub open spec fn le_u32(b: Seq<u8>) -> nat
    recommends
        b.len() == 4,
{
    b[0] as nat + 256 * (b[1] as nat) + 65536 * (b[2] as nat) + 16777216 * (b[3] as nat)
}

/// The four bytes that encode `n`, least significant first.
pub open spec fn le_bytes(n: nat) -> Seq<u8> {
    seq![
        (n % 256) as u8,
        (n / 256 % 256) as u8,
        (n / 256 / 256 % 256) as u8,
        (n / 256 / 256 / 256 % 256) as u8,
    ]
}

/// The frame that carries `payload`.
pub open spec fn frame_of(payload: Seq<u8>) -> Seq<u8> {
    le_bytes(payload.len()) + payload
}

/// What reading one frame from the start of `input` gives: nothing where the
/// length prefix is incomplete, else the payload and the bytes consumed.
pub open spec fn frame_at_start(input: Seq<u8>) -> Result<Option<(Seq<u8>, nat)>, ReadError> {
    if input.len() < 4 {
        Ok(None)
    } else {
        let n = le_u32(input.subrange(0, 4));
        if n > MAX_MESSAGE_SIZE {
            Err(ReadError::Oversized)
        } else if input.len() < 4 + n {
            Err(ReadError::Truncated)
        } else {
            Ok(Some((input.subrange(4, 4 + n as int), (4 + n) as nat)))
        }
    }
}

/// Relies on byteorder's `LittleEndian::read_u32`: the first four bytes of
/// `buf` read least significant first; it panics on fewer than four.
#[verifier::external_body]
fn read_le_u32(buf: &[u8]) -> (r: u32)
    requires
        buf@.len() >= 4,
    ensures
        r as nat == le_u32(buf@.subrange(0, 4)),
{
    LittleEndian::read_u32(buf)
}

/// Relies on byteorder's `LittleEndian::write_u32`: `n` written into four
/// bytes, least significant first.
#[verifier::external_body]
fn le_u32_bytes(n: u32) -> (r: Vec<u8>)
    ensures
        r@ == le_bytes(n as nat),
{
    let mut buf = vec![0u8; 4];
    LittleEndian::write_u32(&mut buf, n);
    buf
}

/// Reading back the bytes that encode `n` gives `n`.
pub proof fn lemma_le_round_trip(n: nat)
    requires
        n < 0x1_0000_0000,
    ensures
        le_bytes(n).len() == 4,
        le_u32(le_bytes(n)) == n,
{
    let n1 = n / 256;
    let n2 = n1 / 256;
    let n3 = n2 / 256;
    lemma_fundamental_div_mod(n as int, 256);
    lemma_fundamental_div_mod(n1 as int, 256);
    lemma_fundamental_div_mod(n2 as int, 256);
    assert(n3 < 256) by (nonlinear_arith)
        requires
            n < 0x1_0000_0000,
            n1 == n / 256,
            n2 == n1 / 256,
            n3 == n2 / 256,
    ;
    let b = le_bytes(n);
    assert(b[0] as nat == n % 256);
    assert(b[1] as nat == n1 % 256);
    assert(b[2] as nat == n2 % 256);
    assert(b[3] as nat == n3 % 256);
    assert(n3 % 256 == n3);
    assert(le_u32(b) == n) by (nonlinear_arith)
        requires
            le_u32(b) == (n % 256) + 256 * (n1 % 256) + 65536 * (n2 % 256) + 16777216 * n3,
            n == n % 256 + 256 * n1,
            n1 == n1 % 256 + 256 * n2,
            n2 == n2 % 256 + 256 * n3,
    ;
}

/// Framing and then reading a payload that the limit admits gives back that
/// payload, and consumes exactly its frame, whatever bytes follow.
pub proof fn lemma_frame_round_trip(payload: Seq<u8>, rest: Seq<u8>)
    requires
        payload.len() <= MAX_MESSAGE_SIZE,
    ensures
        frame_at_start(frame_of(payload) + rest) == Ok::<Option<(Seq<u8>, nat)>, ReadError>(
            Some((payload, payload.len() + 4)),
        ),
{
    let input = frame_of(payload) + rest;
    lemma_le_round_trip(payload.len());
    assert(input.subrange(0, 4) =~= le_bytes(payload.len()));
    assert(input.subrange(4, 4 + payload.len() as int) =~= payload);
}

/// The payload length announced by a four-byte header, or `Oversized` where
/// it is above [`MAX_MESSAGE_SIZE`].
pub fn frame_length(header: &[u8]) -> (r: Result<usize, ReadError>)
    requires
        header@.len() == 4,
    ensures
        le_u32(header@) > MAX_MESSAGE_SIZE ==> r == Err::<usize, ReadError>(ReadError::Oversized),
        le_u32(header@) <= MAX_MESSAGE_SIZE ==> r == Ok::<usize, ReadError>(le_u32(header@) as usize),
{
    let n = read_le_u32(header);
    assert(header@.subrange(0, 4) =~= header@);
    if n as usize > MAX_MESSAGE_SIZE {
        Err(ReadError::Oversized)
    } else {
        Ok(n as usize)
    }
}

/// Reads one frame from the start of `input`.
///
/// Fewer than four bytes mean the stream has ended: `Ok(None)`. An announced
/// length above the limit fails with `Oversized` before any payload is
/// looked at; one longer than what follows fails with `Truncated`. Otherwise
/// the payload is returned with the number of bytes the frame took.
pub fn read_frame(input: &[u8]) -> (r: Result<Option<(Vec<u8>, usize)>, ReadError>)
    ensures
        match (r, frame_at_start(input@)) {
            (Ok(None), Ok(None)) => true,
            (Ok(Some((p, used))), Ok(Some((sp, sused)))) => p@ == sp && used == sused,
            (Err(e), Err(se)) => e == se,
            _ => false,
        },
        input@.len() >= 4 && le_u32(input@.subrange(0, 4)) > MAX_MESSAGE_SIZE ==> r is Err
            && r->Err_0 == ReadError::Oversized,
{
    if input.len() < 4 {
        return Ok(None);
    }
    let n = read_le_u32(input);
    if n as usize > MAX_MESSAGE_SIZE {
        return Err(ReadError::Oversized);
    }
    let len = n as usize;
    if input.len() - 4 < len {
        return Err(ReadError::Truncated);
    }
    let mut payload: Vec<u8> = Vec::with_capacity(len);
    let mut i: usize = 0;
    while i < len
        invariant
            input@.len() >= 4,
            len <= input@.len() - 4,
            4 + len <= input.len(),
            i <= len,
            payload@ == input@.subrange(4, 4 + i),
        decreases len - i,
    {
        payload.push(input[4 + i]);
        i = i + 1;
        assert(payload@ =~= input@.subrange(4, 4 + i));
    }
    Ok(Some((payload, len + 4)))
}

/// The frame that carries `payload`: its length as four little-endian bytes,
/// then the payload itself.
pub fn encode_frame(payload: &[u8]) -> (r: Vec<u8>)
    requires
        payload@.len() <= u32::MAX,
    ensures
        r@ == frame_of(payload@),
{
    let mut r = le_u32_bytes(payload.len() as u32);
    let mut i: usize = 0;
    while i < payload.len()
        invariant
            i <= payload@.len(),
            r@ == le_bytes(payload@.len()) + payload@.subrange(0, i as int),
        decreases payload@.len() - i,
    {
        r.push(payload[i]);
        i = i + 1;
        assert(r@ =~= le_bytes(payload@.len()) + payload@.subrange(0, i as int));
    }
    assert(payload@.subrange(0, payload@.len() as int) =~= payload@);
    r
}

} // verus!
