//! Decoding of shielded memo fields: hexadecimal, zero padded, UTF-8 text.
use vstd::prelude::*;
use vstd::string::StringSliceAdditionalSpecFns;
use vstd::utf8::{decode_utf8, valid_utf8};

verus! {

/// Why a memo field could not be turned into text.
#[derive(Debug, Clone, Copy, PartialEq, Eq, Structural)]
pub enum MemoError {
    /// The field is not an even number of hexadecimal digits.
    InvalidHex,
    /// The bytes before the padding are not valid UTF-8.
    InvalidUtf8,
    /// The field is longer than the hexadecimal decoder can size its output for.
    TooLong,
}

/// The single byte that the node writes for "no memo".
pub const EMPTY_MEMO_MARK: u8 = 0xF6;

/// Value of a hexadecimal digit of either case.
pub open spec fn hex_digit(c: char) -> Option<int> {
    let n = c as u32 as int;
    if 48 <= n && n <= 57 {
        Some(n - 48)
    } else if 65 <= n && n <= 70 {
        Some(n - 55)
    } else if 97 <= n && n <= 102 {
        Some(n - 87)
    } else {
        None
    }
}

/// An even number of hexadecimal digits, upper or lower case mixed freely.
pub open spec fn is_hex_text(s: Seq<char>) -> bool {
    &&& s.len() % 2 == 0
    &&& forall|i: int| 0 <= i < s.len() ==> (#[trigger] hex_digit(s[i])) is Some
}

/// The bytes that hexadecimal text spells, two digits per byte, high digit first.
pub open spec fn hex_bytes(s: Seq<char>) -> Seq<u8> {
    Seq::new(
        (s.len() / 2) as nat,
        |i: int| (16 * hex_digit(s[2 * i])->0 + hex_digit(s[2 * i + 1])->0) as u8,
    )
}

/// The bytes before the first zero byte; all of them when there is none.
pub open spec fn unpadded(b: Seq<u8>) -> Seq<u8>
    decreases b.len(),
{
    if b.len() == 0 {
        b
    } else if b[0] == 0 {
        Seq::empty()
    } else {
        seq![b[0]] + unpadded(b.drop_first())
    }
}

/// The text of a memo field given as the bytes it decodes to.
pub open spec fn memo_text_of_bytes(b: Seq<u8>) -> Result<Seq<char>, MemoError> {
    let t = unpadded(b);
    if t == seq![EMPTY_MEMO_MARK] {
        Ok(Seq::empty())
    } else if valid_utf8(t) {
        Ok(decode_utf8(t))
    } else {
        Err(MemoError::InvalidUtf8)
    }
}

/// The text of a memo field given in hexadecimal.
pub open spec fn memo_text(hex: Seq<char>) -> Result<Seq<char>, MemoError> {
    if is_hex_text(hex) {
        memo_text_of_bytes(hex_bytes(hex))
    } else {
        Err(MemoError::InvalidHex)
    }
}

/// What `decode_memo` gives for a memo field: `memo_text`, unless the field
/// is too long for the hexadecimal decoder.
pub open spec fn decoded_memo(hex: Seq<char>) -> Result<Seq<char>, MemoError> {
    if vstd::utf8::encode_utf8(hex).len() > usize::MAX / 8 {
        Err(MemoError::TooLong)
    } else {
        memo_text(hex)
    }
}

/// A decoded memo compared with its model.
pub open spec fn memo_result_is(r: Result<String, MemoError>, m: Result<Seq<char>, MemoError>) -> bool {
    match r {
        Ok(s) => m == Ok::<Seq<char>, MemoError>(s@),
        Err(e) => m == Err::<Seq<char>, MemoError>(e),
    }
}

#[verifier::external_type_specification]
#[verifier::external_body]
pub struct ExDecodeError(data_encoding::DecodeError);

/// Relies on data_encoding::HEXUPPER_PERMISSIVE.decode: digits 0-9, A-F and a-f,
/// two per byte, anything else refused. It asserts that the input length is at
/// most usize::MAX / 8.
#[verifier::external_body]
fn hex_decode(s: &str) -> (r: Result<Vec<u8>, data_encoding::DecodeError>)
    requires
        s.spec_bytes().len() <= usize::MAX / 8,
    ensures
        r is Ok <==> is_hex_text(s@),
        r matches Ok(b) ==> b@ == hex_bytes(s@),
{
    data_encoding::HEXUPPER_PERMISSIVE.decode(s.as_bytes())
}

/// Relies on String::from_utf8: it accepts exactly the valid UTF-8 sequences
/// and keeps the characters they encode.
#[verifier::external_body]
fn utf8_string(b: Vec<u8>) -> (r: Option<String>)
    ensures
        r is Some <==> valid_utf8(b@),
        r matches Some(s) ==> s@ == decode_utf8(b@),
{
    String::from_utf8(b).ok()
}

proof fn lemma_unpadded_prefix(b: Seq<u8>, k: int)
    requires
        0 <= k <= b.len(),
        forall|j: int| 0 <= j < k ==> b[j] != 0,
        k == b.len() || b[k] == 0,
    ensures
        unpadded(b) == b.take(k),
    decreases b.len(),
{
    if b.len() == 0 {
        assert(b.take(k) =~= b);
    } else if b[0] == 0 {
        assert(b.take(k) =~= Seq::<u8>::empty());
    } else {
        let r = b.drop_first();
        assert forall|j: int| 0 <= j < k - 1 implies r[j] != 0 by {
            assert(b[j + 1] != 0);
        }
        lemma_unpadded_prefix(r, k - 1);
        assert(seq![b[0]] + r.take(k - 1) =~= b.take(k));
    }
}


/// A memo whose bytes hold no zero byte reads as the UTF-8 text of all its
/// bytes, and fails as invalid UTF-8 when they are not; the lone "no memo"
/// byte aside.
pub proof fn lemma_memo_without_padding(hex: Seq<char>)
    requires
        is_hex_text(hex),
        forall|i: int| 0 <= i < hex_bytes(hex).len() ==> hex_bytes(hex)[i] != 0,
        hex_bytes(hex) != seq![EMPTY_MEMO_MARK],
    ensures
        valid_utf8(hex_bytes(hex)) ==> memo_text(hex) == Ok::<Seq<char>, MemoError>(
            decode_utf8(hex_bytes(hex)),
        ),
        !valid_utf8(hex_bytes(hex)) ==> memo_text(hex) == Err::<Seq<char>, MemoError>(
            MemoError::InvalidUtf8,
        ),
        vstd::utf8::encode_utf8(hex).len() <= usize::MAX / 8 ==> decoded_memo(hex) == memo_text(
            hex,
        ),
{
    let b = hex_bytes(hex);
    lemma_unpadded_prefix(b, b.len() as int);
    assert(b.take(b.len() as int) =~= b);
}

/// A memo whose first zero byte stands at position `k` reads as the UTF-8
/// text of the bytes before `k`; whatever follows is ignored. The lone
/// "no memo" byte before the zero aside.
pub proof fn lemma_memo_padding_ignored(hex: Seq<char>, k: int)
    requires
        is_hex_text(hex),
        0 <= k < hex_bytes(hex).len(),
        hex_bytes(hex)[k] == 0,
        forall|j: int| 0 <= j < k ==> hex_bytes(hex)[j] != 0,
        hex_bytes(hex).take(k) != seq![EMPTY_MEMO_MARK],
    ensures
        valid_utf8(hex_bytes(hex).take(k)) ==> memo_text(hex) == Ok::<Seq<char>, MemoError>(
            decode_utf8(hex_bytes(hex).take(k)),
        ),
        !valid_utf8(hex_bytes(hex).take(k)) ==> memo_text(hex) == Err::<Seq<char>, MemoError>(
            MemoError::InvalidUtf8,
        ),
        vstd::utf8::encode_utf8(hex).len() <= usize::MAX / 8 ==> decoded_memo(hex) == memo_text(
            hex,
        ),
{
    lemma_unpadded_prefix(hex_bytes(hex), k);
}

/// Two memos that agree up to a zero byte that is the first zero of each
/// decode alike, whatever follows it (both within the decoder's size limit).
pub proof fn lemma_memo_tail_ignored(a: Seq<char>, b: Seq<char>, k: int)
    requires
        is_hex_text(a),
        is_hex_text(b),
        vstd::utf8::encode_utf8(a).len() <= usize::MAX / 8,
        vstd::utf8::encode_utf8(b).len() <= usize::MAX / 8,
        0 <= k < hex_bytes(a).len(),
        k < hex_bytes(b).len(),
        hex_bytes(a)[k] == 0,
        hex_bytes(b)[k] == 0,
        hex_bytes(a).take(k) == hex_bytes(b).take(k),
        forall|j: int| 0 <= j < k ==> hex_bytes(a)[j] != 0,
    ensures
        decoded_memo(a) == decoded_memo(b),
{
    let ba = hex_bytes(a);
    let bb = hex_bytes(b);
    assert forall|j: int| 0 <= j < k implies bb[j] != 0 by {
        assert(ba.take(k)[j] == ba[j]);
        assert(bb.take(k)[j] == bb[j]);
        assert(ba[j] != 0);
    }
    lemma_unpadded_prefix(hex_bytes(a), k);
    lemma_unpadded_prefix(hex_bytes(b), k);
}

/// Hexadecimal that decodes to the single byte 0xF6 is the empty memo.
pub proof fn lemma_memo_empty_mark(hex: Seq<char>)
    requires
        is_hex_text(hex),
        hex_bytes(hex) == seq![EMPTY_MEMO_MARK],
    ensures
        memo_text(hex) == Ok::<Seq<char>, MemoError>(Seq::empty()),
{
    let b = hex_bytes(hex);
    lemma_unpadded_prefix(b, 1);
    assert(b.take(1) =~= b);
}

/// Decoding depends on the memo text alone: the same text gives the same
/// result every time.
pub proof fn lemma_memo_deterministic(a: Seq<char>, b: Seq<char>)
    requires
        a == b,
    ensures
        memo_text(a) == memo_text(b),
{
}

/// Cuts the byte sequence at its first zero byte, which starts the padding.
pub fn remove_trailing_zeroes(s: Vec<u8>) -> (r: Vec<u8>)
    ensures
        r@ == unpadded(s@),
{
    let mut s = s;
    let mut i: usize = 0;
    while i < s.len() && s[i] != 0
        invariant
            i <= s.len(),
            forall|j: int| 0 <= j < i ==> s@[j] != 0,
        decreases s.len() - i,
    {
        i = i + 1;
    }
    proof {
        lemma_unpadded_prefix(s@, i as int);
    }
    s.truncate(i);
    s
}

/// The text of a memo field given as the bytes it decodes to: the bytes
/// before the padding, read as UTF-8, except that the lone byte 0xF6 means
/// an empty memo.
pub fn memo_from_bytes(bytes: Vec<u8>) -> (r: Result<String, MemoError>)
    ensures
        memo_result_is(r, memo_text_of_bytes(bytes@)),
{
    let cleaned = remove_trailing_zeroes(bytes);
    if cleaned.len() == 1 && cleaned[0] == EMPTY_MEMO_MARK {
        assert(cleaned@ =~= seq![EMPTY_MEMO_MARK]);
        return Ok(String::new());
    }
    assert(cleaned@ != seq![EMPTY_MEMO_MARK]) by {
        if cleaned@ == seq![EMPTY_MEMO_MARK] {
            assert(cleaned@[0] == EMPTY_MEMO_MARK);
        }
    }
    match utf8_string(cleaned) {
        Some(text) => Ok(text),
        None => Err(MemoError::InvalidUtf8),
    }
}

/// Decodes a memo field as the node sends it: hexadecimal of either case,
/// then as `memo_from_bytes`. Input too long for the decoder is refused
/// with `TooLong`.
pub fn decode_memo(memo_hex: &str) -> (r: Result<String, MemoError>)
    ensures
        memo_result_is(r, decoded_memo(memo_hex@)),
{
    if memo_hex.as_bytes().len() > usize::MAX / 8 {
        return Err(MemoError::TooLong);
    }
    match hex_decode(memo_hex) {
        Ok(bytes) => memo_from_bytes(bytes),
        Err(_) => Err(MemoError::InvalidHex),
    }
}

} // verus!
