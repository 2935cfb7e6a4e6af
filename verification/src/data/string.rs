//! Fixed-size Shift-JIS strings stored in PLC device words.
//!
//! A string value occupies `device_size` words (two bytes each) on the
//! wire, NUL-padded at the end.  The text itself is kept as raw Shift-JIS
//! bytes; only the conversions from and to UTF-8 go through an outside
//! encoder.

use vstd::prelude::*;
use crate::error::SLMPError;

verus! {

/// Largest string payload: 32 device words of two bytes each.
pub const PLCSTRING_MAX_BYTES: usize = 64;

/// Largest device size of a string value, in words.
pub const PLCSTRING_MAX_DEVICE_SIZE: usize = 32;

/// The Shift-JIS bytes of a text, or nothing when some character has no
/// Shift-JIS representation.  The result depends on the characters alone.
pub uninterp spec fn spec_sjis_encode(s: Seq<char>) -> Option<Seq<u8>>;

/// The text decoded from a run of Shift-JIS bytes.  The result depends on
/// the bytes alone.
pub uninterp spec fn spec_sjis_decode(b: Seq<u8>) -> Seq<char>;

/// Relies on encoding_rs's SHIFT_JIS encoder: the output bytes are a
/// function of the input characters alone, and `had_errors` reports
/// whether some character had no Shift-JIS representation.  The length
/// bound keeps the encoder's buffer-size calculation, which panics on
/// overflow, far from `usize::MAX`.
#[verifier::external_body]
fn encode_shift_jis(s: &str) -> (r: Option<Vec<u8>>)
    requires
        s@.len() <= 0x1000000,
    ensures
        r.deep_view() == spec_sjis_encode(s@),
{
    let (bytes, _, had_errors) = encoding_rs::SHIFT_JIS.encode(s);
    if had_errors {
        None
    } else {
        Some(bytes.into_owned())
    }
}

/// Relies on encoding_rs's SHIFT_JIS decoder: the output text is a
/// function of the input bytes alone (malformed sequences become
/// replacement characters, so decoding never fails).  The length bound
/// keeps the decoder's buffer-size calculation, which panics on
/// overflow, far from `usize::MAX`.
#[verifier::external_body]
fn decode_shift_jis(b: &[u8]) -> (r: String)
    requires
        b@.len() <= 0x1000000,
    ensures
        r@ == spec_sjis_decode(b@),
{
    let (text, _, _) = encoding_rs::SHIFT_JIS.decode(b);
    text.into_owned()
}

/// Index of the first NUL byte, or the length when there is none.
pub open spec fn spec_first_nul(s: Seq<u8>) -> int
    decreases s.len(),
{
    if s.len() == 0 {
        0
    } else if s[0] == 0 {
        0
    } else {
        1 + spec_first_nul(s.drop_first())
    }
}

/// `spec_first_nul` is the unique index bounded by the length whose prefix
/// is NUL-free and which is either the length or a NUL position.
pub proof fn lemma_first_nul_character(s: Seq<u8>)
    ensures
        0 <= spec_first_nul(s) <= s.len(),
        forall|k: int| 0 <= k < spec_first_nul(s) ==> s[k] != 0,
        spec_first_nul(s) < s.len() ==> s[spec_first_nul(s)] == 0,
    decreases s.len(),
{
    if s.len() > 0 && s[0] != 0 {
        lemma_first_nul_character(s.drop_first());
        assert forall|k: int| 0 <= k < spec_first_nul(s) implies s[k] != 0 by {
            if k > 0 {
                assert(s.drop_first()[k - 1] != 0);
            }
        }
    }
}

/// String stored as a fixed 64-byte Shift-JIS buffer.
///
/// `effective_len` counts the text bytes; the rest of the buffer is NUL.
/// `device_size` is the number of PLC words the value occupies on the wire.
#[derive(Clone, Copy, Debug, PartialEq, Eq)]
pub struct PLCString {
    pub data: [u8; 64],
    pub effective_len: u8,
    pub device_size: u8,
}

impl PLCString {
    /// Internal consistency of the buffer: the text region holds no NUL,
    /// everything after it is NUL, and the text fits the device words.
    pub open spec fn wf(self) -> bool {
        &&& 1 <= self.device_size <= 32
        &&& self.effective_len <= 2 * self.device_size
        &&& forall|k: int| 0 <= k < self.effective_len ==> self.data@[k] != 0
        &&& forall|k: int| self.effective_len <= k < 64 ==> self.data@[k] == 0
    }

    /// The wire bytes of the value: the buffer truncated to its device
    /// words.
    pub open spec fn spec_bytes(self) -> Seq<u8> {
        self.data@.take(2 * self.device_size as int)
    }

    /// Build a string value from raw Shift-JIS bytes.
    ///
    /// The text is cut at the first NUL byte and truncated to the device
    /// words; a device size beyond 32 words is clamped to 32.
    pub fn from_shift_jis_bytes(bytes: &[u8], device_size: u8) -> (r: PLCString)
        requires
            1 <= device_size,
        ensures
            r.wf(),
            r.device_size == if device_size > 32 { 32u8 } else { device_size },
            r.effective_len == if spec_first_nul(bytes@) < 2 * r.device_size {
                spec_first_nul(bytes@)
            } else {
                2 * r.device_size as int
            },
            forall|k: int| 0 <= k < r.effective_len ==> r.data@[k] == bytes@[k],
            forall|k: int| r.effective_len <= k < 64 ==> r.data@[k] == 0,
    {
        let ds: u8 = if device_size > 32 {
            32
        } else {
            device_size
        };
        proof {
            lemma_first_nul_character(bytes@);
        }
        let mut nul_pos: usize = 0;
        while nul_pos < bytes.len() && bytes[nul_pos] != 0
            invariant
                0 <= nul_pos <= bytes@.len(),
                forall|k: int| 0 <= k < nul_pos ==> bytes@[k] != 0,
                spec_first_nul(bytes@) >= nul_pos,
            decreases bytes@.len() - nul_pos,
        {
            proof {
                lemma_first_nul_extends(bytes@, nul_pos as int);
            }
            nul_pos = nul_pos + 1;
        }
        proof {
            if nul_pos < bytes@.len() {
                assert(spec_first_nul(bytes@) <= nul_pos) by {
                    if spec_first_nul(bytes@) > nul_pos {
                        assert(bytes@[nul_pos as int] != 0);
                    }
                }
            }
        }
        let eff: usize = if nul_pos < 2 * ds as usize {
            nul_pos
        } else {
            2 * ds as usize
        };
        let mut data: [u8; 64] = [0; 64];
        let mut i: usize = 0;
        while i < eff
            invariant
                0 <= i <= eff,
                eff <= 64,
                eff <= bytes@.len(),
                data@.len() == 64,
                forall|k: int| 0 <= k < i ==> data@[k] == bytes@[k],
                forall|k: int| i <= k < 64 ==> data@[k] == 0,
            decreases eff - i,
        {
            data[i] = bytes[i];
            i = i + 1;
        }
        PLCString { data, effective_len: eff as u8, device_size: ds }
    }

    /// The wire bytes of the value: `2 * device_size` bytes, NUL padded.
    pub fn as_bytes(&self) -> (r: &[u8])
        requires
            self.wf(),
        ensures
            r@ == self.spec_bytes(),
    {
        vstd::slice::slice_subrange(self.data.as_slice(), 0, 2 * self.device_size as usize)
    }

    /// Decode the text region back to UTF-8.
    pub fn to_string(&self) -> (r: String)
        requires
            self.wf(),
        ensures
            r@ == spec_sjis_decode(self.data@.take(self.effective_len as int)),
    {
        let text = vstd::slice::slice_subrange(
            self.data.as_slice(),
            0,
            self.effective_len as usize,
        );
        decode_shift_jis(text)
    }

    /// Whether the text region is empty.
    pub fn is_empty(&self) -> (r: bool)
        ensures
            r == (self.effective_len == 0),
    {
        self.effective_len == 0
    }

    /// Build a string value from UTF-8 text, validating it.
    ///
    /// Fails with `Validation` when the device size is outside 1..=32,
    /// when some character has no Shift-JIS representation, or when the
    /// encoded text needs more than `2 * device_size` bytes.
    pub fn from_text(text: &str, device_size: u8) -> (r: Result<PLCString, SLMPError>)
        requires
            text@.len() <= 0x1000000,
        ensures
            match r {
                Ok(s) => {
                    &&& 1 <= device_size <= 32
                    &&& s.wf()
                    &&& s.device_size == device_size
                    &&& spec_sjis_encode(text@) matches Some(b) && b.len() <= 2 * device_size
                        && s.effective_len == spec_first_nul(b) && (forall|k: int|
                        0 <= k < s.effective_len ==> s.data@[k] == b[k])
                },
                Err(e) => {
                    &&& e == SLMPError::Validation
                    &&& (device_size < 1 || device_size > 32 || spec_sjis_encode(text@) is None
                        || (spec_sjis_encode(text@) matches Some(b) && b.len() > 2 * device_size))
                },
            },
    {
        if device_size < 1 || device_size > 32 {
            return Err(SLMPError::Validation);
        }
        let encoded = encode_shift_jis(text);
        match encoded {
            None => {
                proof {
                    assert(spec_sjis_encode(text@) is None);
                }
                Err(SLMPError::Validation)
            },
            Some(b) => {
                proof {
                    assert(spec_sjis_encode(text@) matches Some(bs) && bs =~= b.deep_view());
                    assert(b.deep_view() =~= b@);
                }
                if b.len() > 2 * device_size as usize {
                    Err(SLMPError::Validation)
                } else {
                    proof {
                        lemma_first_nul_character(b@);
                    }
                    let s = PLCString::from_shift_jis_bytes(b.as_slice(), device_size);
                    Ok(s)
                }
            },
        }
    }
}

/// A NUL-free prefix of length `i` with more bytes behind it means the
/// first NUL lies strictly beyond `i`.
proof fn lemma_first_nul_extends(s: Seq<u8>, i: int)
    requires
        0 <= i < s.len(),
        forall|k: int| 0 <= k <= i ==> s[k] != 0,
    ensures
        spec_first_nul(s) > i,
{
    lemma_first_nul_character(s);
    if spec_first_nul(s) <= i {
        assert(s[spec_first_nul(s)] == 0);
    }
}

} // verus!
