//! Wire encodings of submitted transactions: size limits, base58/base64
//! decoding through the outside encoders, and extraction of the leading
//! signature from the decoded bytes.
use vstd::prelude::*;
use vstd::string::StringSliceAdditionalSpecFns;
use base64::Engine as _;

verus! {

/// The wire encodings a client may submit a transaction in.
#[derive(Clone, Copy, Debug, PartialEq, Eq, Structural)]
pub enum BinaryEncoding {
    Base58,
    Base64,
}

/// Longest accepted base58 rendering of a transaction.
pub const MAX_BASE58_SIZE: usize = 1683;

/// Longest accepted base64 rendering of a transaction.
pub const MAX_BASE64_SIZE: usize = 1644;

/// A transaction signature is this many bytes.
pub const SIGNATURE_BYTES: usize = 64;

/// What base58 decoding yields on any text: a function of the text alone,
/// `None` on text that is not valid base58.
pub uninterp spec fn base58_decode_of(s: Seq<char>) -> Option<Seq<u8>>;

/// What base64 (standard alphabet, padded) decoding yields on any text: a
/// function of the text alone, `None` on text that is not valid base64.
pub uninterp spec fn base64_decode_of(s: Seq<char>) -> Option<Seq<u8>>;

/// The base58 rendering of any bytes: a function of the bytes alone.
pub uninterp spec fn base58_of(b: Seq<u8>) -> Seq<char>;

/// Relies on `bs58::decode(..).into_vec()`: the result is computed from
/// the input text alone.
#[verifier::external_body]
fn base58_decode(s: &str) -> (r: Option<Vec<u8>>)
    ensures
        match r {
            Some(v) => base58_decode_of(s@) == Some(v@),
            None => base58_decode_of(s@) is None,
        },
{
    match bs58::decode(s).into_vec() {
        Ok(v) => Some(v),
        Err(_) => None,
    }
}

/// Relies on `base64::engine::general_purpose::STANDARD.decode(..)`: the
/// result is computed from the input text alone.
#[verifier::external_body]
fn base64_decode(s: &str) -> (r: Option<Vec<u8>>)
    ensures
        match r {
            Some(v) => base64_decode_of(s@) == Some(v@),
            None => base64_decode_of(s@) is None,
        },
{
    match base64::engine::general_purpose::STANDARD.decode(s) {
        Ok(v) => Some(v),
        Err(_) => None,
    }
}

/// Relies on `bs58::encode(..).into_string()`: the result is computed from
/// the input bytes alone.
#[verifier::external_body]
fn base58_encode(b: &Vec<u8>) -> (r: String)
    ensures
        r@ == base58_of(b@),
{
    bs58::encode(b.as_slice()).into_string()
}

/// The leading short-vec length of a serialized transaction: the decoded
/// count and how many bytes it occupied, if well-formed (at most three
/// bytes, seven payload bits each, little-endian, final byte below 4 so
/// the count fits sixteen bits).
pub open spec fn spec_shortvec_len(b: Seq<u8>) -> Option<(int, int)> {
    if b.len() >= 1 && b[0] < 0x80 {
        Some((b[0] as int, 1int))
    } else if b.len() >= 2 && b[0] >= 0x80 && b[1] < 0x80 {
        Some((b[0] - 0x80 + 0x80 * b[1], 2int))
    } else if b.len() >= 3 && b[0] >= 0x80 && b[1] >= 0x80 && b[2] < 4 {
        Some((b[0] - 0x80 + 0x80 * (b[1] - 0x80) + 0x4000 * b[2], 3int))
    } else {
        None
    }
}

/// The first signature of a serialized transaction: the sixty-four bytes
/// after the leading signature count, if the framing is well-formed and at
/// least one signature is present.
pub open spec fn spec_first_signature(b: Seq<u8>) -> Option<Seq<u8>> {
    match spec_shortvec_len(b) {
        Some((count, off)) => if count >= 1 && b.len() >= off + SIGNATURE_BYTES {
            Some(b.subrange(off, off + SIGNATURE_BYTES))
        } else {
            None
        },
        None => None,
    }
}

/// Extract the first signature from decoded transaction bytes.
pub fn extract_signature(raw: &Vec<u8>) -> (r: Option<Vec<u8>>)
    ensures
        match r {
            Some(v) => spec_first_signature(raw@) == Some(v@),
            None => spec_first_signature(raw@) is None,
        },
{
    let n = raw.len();
    let (count, off): (usize, usize) = if n >= 1 && raw[0] < 0x80 {
        (raw[0] as usize, 1)
    } else if n >= 2 && raw[0] >= 0x80 && raw[1] < 0x80 {
        ((raw[0] - 0x80) as usize + 0x80 * (raw[1] as usize), 2)
    } else if n >= 3 && raw[0] >= 0x80 && raw[1] >= 0x80 && raw[2] < 4 {
        (
            (raw[0] - 0x80) as usize + 0x80 * ((raw[1] - 0x80) as usize) + 0x4000 * (
            raw[2] as usize),
            3,
        )
    } else {
        return None;
    };
    assert(spec_shortvec_len(raw@) == Some((count as int, off as int)));
    if count == 0 || n < off || n - off < SIGNATURE_BYTES {
        return None;
    }
    let mut sig: Vec<u8> = Vec::new();
    let mut i: usize = 0;
    while i < SIGNATURE_BYTES
        invariant
            off + SIGNATURE_BYTES <= raw@.len(),
            raw@.len() <= usize::MAX,
            0 <= i <= SIGNATURE_BYTES,
            sig@.len() == i,
            forall|j: int| 0 <= j < i ==> sig@[j] == raw@[off + j],
        decreases SIGNATURE_BYTES - i,
    {
        sig.push(raw[off + i]);
        i = i + 1;
    }
    proof {
        assert(sig@ =~= raw@.subrange(off as int, off + SIGNATURE_BYTES));
    }
    Some(sig)
}

/// Why a submission was rejected before reaching the forwarder.
#[derive(Clone, Copy, Debug, PartialEq, Eq, Structural)]
pub enum SendTxError {
    /// The encoded text exceeds the limit of its encoding.
    TooLarge,
    /// The text does not decode, or the decoded bytes are not a framed
    /// transaction carrying a signature.
    Decode,
    /// The forwarder refused the prepared transaction.
    Forwarder,
}

/// A submission ready for the forwarder.
#[derive(Debug, PartialEq, Eq)]
pub struct PreparedTransaction {
    /// The decoded transaction bytes, as they go out on the wire.
    pub raw_tx: Vec<u8>,
    /// Base58 rendering of the transaction's first signature: what the
    /// caller gets back and later polls statuses with.
    pub signature_base58: String,
    /// How many re-submissions the caller allows.
    pub max_retries: u16,
}

/// The size limit of one encoding.
pub open spec fn spec_size_limit(encoding: BinaryEncoding) -> int {
    match encoding {
        BinaryEncoding::Base58 => MAX_BASE58_SIZE as int,
        BinaryEncoding::Base64 => MAX_BASE64_SIZE as int,
    }
}

/// What the submitted text decodes to under its encoding.
pub open spec fn spec_decoded(tx: Seq<char>, encoding: BinaryEncoding) -> Option<Seq<u8>> {
    match encoding {
        BinaryEncoding::Base58 => base58_decode_of(tx),
        BinaryEncoding::Base64 => base64_decode_of(tx),
    }
}

/// Check and decode one submission: rejected as too large above its
/// encoding's size limit, rejected as undecodable when the text or the
/// signature framing is bad; otherwise the decoded bytes and the base58
/// rendering of the first signature.
pub fn prepare_transaction(tx: &str, encoding: BinaryEncoding, max_retries: u16) -> (r: Result<
    PreparedTransaction,
    SendTxError,
>)
    ensures
        r == Err::<PreparedTransaction, SendTxError>(SendTxError::TooLarge) <==> tx.spec_bytes().len()
            > spec_size_limit(encoding),
        tx.spec_bytes().len() <= spec_size_limit(encoding) ==> match r {
            Ok(p) => {
                &&& spec_decoded(tx@, encoding) == Some(p.raw_tx@)
                &&& spec_first_signature(p.raw_tx@) is Some
                &&& p.signature_base58@ == base58_of(spec_first_signature(p.raw_tx@).unwrap())
                &&& p.max_retries == max_retries
            },
            Err(e) => e == SendTxError::Decode && match spec_decoded(tx@, encoding) {
                Some(raw) => spec_first_signature(raw) is None,
                None => true,
            },
        },
{
    let len = tx.as_bytes().len();
    let limit = match encoding {
        BinaryEncoding::Base58 => MAX_BASE58_SIZE,
        BinaryEncoding::Base64 => MAX_BASE64_SIZE,
    };
    if len > limit {
        return Err(SendTxError::TooLarge);
    }
    let decoded = match encoding {
        BinaryEncoding::Base58 => base58_decode(tx),
        BinaryEncoding::Base64 => base64_decode(tx),
    };
    let raw_tx = match decoded {
        Some(v) => v,
        None => {
            return Err(SendTxError::Decode);
        },
    };
    let sig = match extract_signature(&raw_tx) {
        Some(s) => s,
        None => {
            return Err(SendTxError::Decode);
        },
    };
    let signature_base58 = base58_encode(&sig);
    Ok(PreparedTransaction { raw_tx, signature_base58, max_retries })
}

} // verus!
