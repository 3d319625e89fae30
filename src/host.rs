use crate::preimage::{preimage_valid, validate_preimage, OracleError, PreimageKey};
use vstd::prelude::*;
use vstd::string::StringSliceAdditionalSpecFns;

verus! {

/// The four big-endian bytes of `n`.
pub open spec fn be32(n: u32) -> Seq<u8> {
    seq![(n >> 24u32) as u8, (n >> 16u32) as u8, (n >> 8u32) as u8, n as u8]
}

/// The bytes of 32-bit words in the guest's little-endian order.
pub open spec fn word_bytes(words: Seq<u32>) -> Seq<u8> {
    Seq::new(
        4 * words.len(),
        |i: int| (words[i / 4] >> (8 * (i % 4)) as u32) as u8,
    )
}

/// The number of 32-bit words that hold `nbytes` bytes.
pub fn words_for_bytes(nbytes: u32) -> (r: usize)
    ensures
        r == (nbytes as int + 3) / 4,
{
    ((nbytes as u64 + 3) / 4) as usize
}

/// The first `nbytes` bytes of a host response received as words (all of
/// them if the words hold fewer).
pub fn bytes_from_words(words: &Vec<u32>, nbytes: u32) -> (r: Vec<u8>)
    ensures
        r@ == word_bytes(words@).take(
            if (nbytes as int) < 4 * words@.len() {
                nbytes as int
            } else {
                4 * words@.len() as int
            },
        ),
{
    let ghost all = word_bytes(words@);
    let ghost n: int = if (nbytes as int) < 4 * words@.len() {
        nbytes as int
    } else {
        4 * words@.len() as int
    };
    let mut out: Vec<u8> = Vec::new();
    let mut w: usize = 0;
    while w < words.len() && out.len() < nbytes as usize
        invariant
            0 <= w <= words@.len(),
            out@.len() <= nbytes,
            out@.len() <= 4 * w,
            out@.len() < 4 * w ==> out@.len() == nbytes,
            all == word_bytes(words@),
            n == (if (nbytes as int) < 4 * words@.len() {
                nbytes as int
            } else {
                4 * words@.len() as int
            }),
            out@ == all.take(out@.len() as int),
        decreases words@.len() - w,
    {
        let word = words[w];
        let mut k: u32 = 0;
        while k < 4 && out.len() < nbytes as usize
            invariant
                0 <= k <= 4,
                0 <= w < words@.len(),
                word == words@[w as int],
                out@.len() == 4 * w + k,
                out@.len() <= nbytes,
                all == word_bytes(words@),
                out@ == all.take(out@.len() as int),
            decreases 4 - k,
        {
            let b = (word >> (8 * k)) as u8;
            proof {
                let i = 4 * w + k;
                assert(i / 4 == w && i % 4 == k);
                assert(all[i as int] == b);
                assert(all.take(i + 1) =~= all.take(i as int).push(b));
            }
            out.push(b);
            k = k + 1;
        }
        w = w + 1;
    }
    assert(out@.len() == n);
    out
}

/// Frames a hint for the host: its length as four big-endian bytes, then
/// its bytes. Hints longer than a 32-bit length can say are refused.
pub fn frame_hint(hint: &str) -> (r: Result<Vec<u8>, OracleError>)
    ensures
        r is Ok <==> hint.spec_bytes().len() <= u32::MAX,
        r is Ok ==> r->Ok_0@ == be32(hint.spec_bytes().len() as u32) + hint.spec_bytes(),
        r is Err ==> r->Err_0 == OracleError::HintTooLong,
{
    let bytes = hint.as_bytes();
    if bytes.len() > u32::MAX as usize {
        return Err(OracleError::HintTooLong);
    }
    let n = bytes.len() as u32;
    let mut out: Vec<u8> = Vec::new();
    out.push((n >> 24u32) as u8);
    out.push((n >> 16u32) as u8);
    out.push((n >> 8u32) as u8);
    out.push(n as u8);
    let mut i: usize = 0;
    while i < bytes.len()
        invariant
            0 <= i <= bytes@.len(),
            out@ == be32(n) + bytes@.subrange(0, i as int),
        decreases bytes@.len() - i,
    {
        out.push(bytes[i]);
        assert(bytes@.subrange(0, i + 1) =~= bytes@.subrange(0, i as int).push(bytes@[i as int]));
        i = i + 1;
    }
    assert(bytes@.subrange(0, bytes@.len() as int) =~= bytes@);
    Ok(out)
}

/// Checks the host's reply to a hint: any reply acknowledges it, an empty
/// one does not.
pub fn check_hint_ack(ack: &Vec<u8>) -> (r: Result<(), OracleError>)
    ensures
        r is Ok <==> ack@.len() > 0,
        r is Err ==> r->Err_0 == OracleError::MissingHintAck,
{
    if ack.len() == 0 {
        Err(OracleError::MissingHintAck)
    } else {
        Ok(())
    }
}

/// The preimage oracle that talks to the host through the guest's
/// preimage and hint system calls.
#[derive(Debug, Clone, Copy, Default)]
pub struct RISCZeroOracle;

impl RISCZeroOracle {
    /// Reads the host's response to a preimage request, received as words
    /// with its byte length, and validates it against the key.
    pub fn receive_preimage(&self, key: &PreimageKey, words: &Vec<u32>, nbytes: u32) -> (r: Result<
        Vec<u8>,
        OracleError,
    >)
        ensures
            ({
                let got = bytes_from_words_spec(words@, nbytes);
                &&& r is Ok <==> preimage_valid(key@, got)
                &&& r is Ok ==> r->Ok_0@ == got
                &&& r is Err ==> r->Err_0 == OracleError::InvalidPreimage
            }),
    {
        let value = bytes_from_words(words, nbytes);
        match validate_preimage(key, value.as_slice()) {
            Ok(()) => Ok(value),
            Err(e) => Err(e),
        }
    }

    /// As `receive_preimage`, for a caller that expects exactly `len` bytes.
    pub fn receive_exact(&self, key: &PreimageKey, words: &Vec<u32>, nbytes: u32, len: usize) -> (r:
        Result<Vec<u8>, OracleError>)
        ensures
            ({
                let got = bytes_from_words_spec(words@, nbytes);
                &&& r is Ok <==> got.len() == len && preimage_valid(key@, got)
                &&& r is Ok ==> r->Ok_0@ == got
                &&& r == Err::<Vec<u8>, OracleError>(OracleError::LengthMismatch) <==> got.len()
                    != len
                &&& r is Err ==> r->Err_0 == OracleError::LengthMismatch || r->Err_0
                    == OracleError::InvalidPreimage
            }),
    {
        let value = bytes_from_words(words, nbytes);
        if value.len() != len {
            return Err(OracleError::LengthMismatch);
        }
        match validate_preimage(key, value.as_slice()) {
            Ok(()) => Ok(value),
            Err(e) => Err(e),
        }
    }
}

/// What `bytes_from_words` returns.
pub open spec fn bytes_from_words_spec(words: Seq<u32>, nbytes: u32) -> Seq<u8> {
    word_bytes(words).take(
        if (nbytes as int) < 4 * words.len() {
            nbytes as int
        } else {
            4 * words.len() as int
        },
    )
}

/// The preimage oracle that talks to the host over a pair of file
/// descriptors.
#[derive(Debug, Clone, Copy, Default)]
pub struct RISCZeroPOSIXOracle;

impl RISCZeroPOSIXOracle {
    /// Validates the bytes read back for a preimage request.
    pub fn receive_preimage(&self, key: &PreimageKey, response: Vec<u8>) -> (r: Result<
        Vec<u8>,
        OracleError,
    >)
        ensures
            r is Ok <==> preimage_valid(key@, response@),
            r is Ok ==> r->Ok_0@ == response@,
            r is Err ==> r->Err_0 == OracleError::InvalidPreimage,
    {
        match validate_preimage(key, response.as_slice()) {
            Ok(()) => Ok(response),
            Err(e) => Err(e),
        }
    }
}

} // verus!
