//! The invite code: the coordinator's identity in a form a person can carry.
//!
//! The code is the coordinator's public key; it cannot be shortened, because it is the
//! identity itself. All that can be done is to make it readable: base32 instead of hex
//! (64 → 52 characters), split into groups, and forgiving about formatting on the way
//! back in.
use vstd::prelude::*;
use vstd::utf8::{encode_utf8, is_ascii_chars, is_ascii_chars_encode_utf8};

use data_encoding::BASE32_NOPAD;

use crate::room::{ascii_lower, lower_char, same_ignoring_ascii_case};
use crate::text::{chars_of, decimal, decimal_string, is_white, is_whitespace, string_of};
use vstd::string::StringExecFns;

verus! {

/// Length of each group in the grouped representation.
pub const GROUP: usize = 4;

/// The base32 length of 32 bytes.
pub const CODE_CHARS: usize = 52;

#[verifier::external_type_specification]
#[verifier::external_body]
pub struct ExDecodeError(data_encoding::DecodeError);

/// Why a pasted code does not name a coordinator.
#[derive(Debug, Clone, Copy, PartialEq, Eq)]
pub enum InviteError {
    /// Once the formatting is gone the code is not 52 characters long (its UTF-8 length
    /// is given).
    WrongLength { chars: usize },
    /// A character outside the base32 alphabet.
    InvalidCharacter,
    /// The code decoded, but not to a 32-byte identity.
    NotAKey,
}

/// The alphabet of unpadded base32 (RFC 4648).
pub open spec fn is_base32_symbol(c: char) -> bool {
    ('A' <= c && c <= 'Z') || ('2' <= c && c <= '7')
}

/// What data-encoding's `BASE32_NOPAD.encode` writes for some bytes.
pub uninterp spec fn base32_nopad_encoding(bytes: Seq<u8>) -> Seq<char>;

/// What data-encoding's `BASE32_NOPAD.decode` gives back for some text, if it accepts it.
pub uninterp spec fn base32_nopad_decoding(text: Seq<u8>) -> Option<Seq<u8>>;

/// The characters `char::to_uppercase` yields: Unicode's full uppercase mapping.
pub uninterp spec fn unicode_uppercase(c: char) -> Seq<char>;

/// `BASE32_NOPAD.encode` on 32 bytes.
///
/// Claimed of data-encoding 2.11.1, from its documentation: the output uses the
/// symbols `A`–`Z` and `2`–`7` only, 32 bytes take ⌈256 / 5⌉ = 52 of them, and the
/// encoding is correct: decoding the output gives the input back.
#[verifier::external_body]
fn base32_encode(key: &[u8; 32]) -> (r: String)
    ensures
        r@ == base32_nopad_encoding(key@),
        r@.len() == CODE_CHARS,
        forall|i: int| 0 <= i < r@.len() ==> is_base32_symbol(#[trigger] r@[i]),
        base32_nopad_decoding(encode_utf8(r@)) == Some(key@),
{
    BASE32_NOPAD.encode(key)
}

/// `BASE32_NOPAD.decode`.
///
/// Claimed of data-encoding 2.11.1: the result is a function of the input (success
/// and the bytes alike). The length bound keeps `decode_len` clear of its panic.
#[verifier::external_body]
fn base32_decode(text: &[u8]) -> (r: Result<Vec<u8>, data_encoding::DecodeError>)
    requires
        text@.len() <= usize::MAX / 8,
    ensures
        match base32_nopad_decoding(text@) {
            Some(bytes) => r matches Ok(v) && v@ == bytes,
            None => r is Err,
        },
{
    BASE32_NOPAD.decode(text)
}

/// `char::to_uppercase`, collected.
#[verifier::external_body]
fn uppercase(c: char) -> (r: Vec<char>)
    ensures
        r@ == unicode_uppercase(c),
{
    c.to_uppercase().collect()
}

/// A character with ASCII small letters raised to capitals.
pub open spec fn ascii_upper(c: char) -> char {
    if 'a' <= c && c <= 'z' {
        ((c as u32) - 32) as char
    } else {
        c
    }
}

fn upper_char(c: char) -> (r: char)
    ensures
        r == ascii_upper(c),
{
    if 'a' <= c && c <= 'z' {
        ((c as u8) - 32) as char
    } else {
        c
    }
}

/// What people put between groups when they retype or paste a code.
pub open spec fn is_separator(c: char) -> bool {
    is_white(c) || c == '-' || c == '_'
}

/// The uppercase form of one character; ASCII is raised directly, the rest goes by
/// Unicode's mapping.
pub open spec fn upper_of(c: char) -> Seq<char> {
    if (c as u32) < 128 {
        seq![ascii_upper(c)]
    } else {
        unicode_uppercase(c)
    }
}

/// A pasted code with the separators dropped and every letter raised.
pub open spec fn cleaned(code: Seq<char>) -> Seq<char>
    decreases code.len(),
{
    if code.len() == 0 {
        Seq::empty()
    } else if is_separator(code.last()) {
        cleaned(code.drop_last())
    } else {
        cleaned(code.drop_last()) + upper_of(code.last())
    }
}

/// A dash before every fourth character but the first.
pub open spec fn grouped(s: Seq<char>) -> Seq<char>
    decreases s.len(),
{
    if s.len() == 0 {
        Seq::empty()
    } else if (s.len() - 1) % (GROUP as int) == 0 && s.len() > 1 {
        grouped(s.drop_last()) + seq!['-', s.last()]
    } else {
        grouped(s.drop_last()).push(s.last())
    }
}

/// The code shared for an identity: its base32 form in small letters, grouped.
pub open spec fn invite_code_of(key: Seq<u8>) -> Seq<char> {
    grouped(base32_nopad_encoding(key).map_values(|c: char| ascii_lower(c)))
}

/// What a pasted code decodes to.
pub open spec fn decode_spec(code: Seq<char>) -> Result<Seq<u8>, InviteError> {
    let bytes = encode_utf8(cleaned(code));
    if bytes.len() != CODE_CHARS {
        Err(InviteError::WrongLength { chars: bytes.len() as usize })
    } else {
        match base32_nopad_decoding(bytes) {
            None => Err(InviteError::InvalidCharacter),
            Some(key) => if key.len() == 32 {
                Ok(key)
            } else {
                Err(InviteError::NotAKey)
            },
        }
    }
}

proof fn lemma_cleaned_append(a: Seq<char>, b: Seq<char>)
    ensures
        cleaned(a + b) == cleaned(a) + cleaned(b),
    decreases b.len(),
{
    if b.len() == 0 {
        assert(a + b =~= a);
        assert(cleaned(a) + cleaned(b) =~= cleaned(a));
    } else {
        lemma_cleaned_append(a, b.drop_last());
        assert((a + b).drop_last() =~= a + b.drop_last());
        assert((a + b).last() == b.last());
        if is_separator(b.last()) {
        } else {
            assert(cleaned(a) + cleaned(b) =~= cleaned(a) + cleaned(b.drop_last()) + upper_of(b.last()));
        }
    }
}

/// Grouping only adds separators.
proof fn lemma_cleaned_grouped(s: Seq<char>)
    ensures
        cleaned(grouped(s)) == cleaned(s),
    decreases s.len(),
{
    if s.len() > 0 {
        lemma_cleaned_grouped(s.drop_last());
        let tail = if (s.len() - 1) % (GROUP as int) == 0 && s.len() > 1 {
            seq!['-', s.last()]
        } else {
            seq![s.last()]
        };
        assert(grouped(s) =~= grouped(s.drop_last()) + tail);
        lemma_cleaned_append(grouped(s.drop_last()), tail);
        lemma_cleaned_append(s.drop_last(), seq![s.last()]);
        assert(s =~= s.drop_last() + seq![s.last()]);
        if tail.len() == 2 {
            assert(tail.drop_last() =~= seq!['-']);
            assert(seq!['-'].drop_last() =~= Seq::<char>::empty());
            assert(cleaned(seq!['-']) == cleaned(Seq::<char>::empty()));
        }
        assert(seq![s.last()].drop_last() =~= Seq::<char>::empty());
    }
}

/// Lowering base32 output and raising it again gives it back.
proof fn lemma_cleaned_lowered(s: Seq<char>)
    requires
        forall|i: int| 0 <= i < s.len() ==> is_base32_symbol(#[trigger] s[i]),
    ensures
        cleaned(s.map_values(|c: char| ascii_lower(c))) == s,
    decreases s.len(),
{
    let lowered = s.map_values(|c: char| ascii_lower(c));
    if s.len() > 0 {
        lemma_cleaned_lowered(s.drop_last());
        assert(lowered.drop_last() =~= s.drop_last().map_values(|c: char| ascii_lower(c)));
        let c = s.last();
        assert(is_base32_symbol(s[s.len() - 1]));
        assert(lowered.last() == ascii_lower(c));
        assert(ascii_upper(ascii_lower(c)) == c);
        assert(s =~= s.drop_last().push(c));
    } else {
        assert(lowered =~= s);
    }
}

/// A pasted code with only the separators dropped.
pub open spec fn kept(code: Seq<char>) -> Seq<char>
    decreases code.len(),
{
    if code.len() == 0 {
        Seq::empty()
    } else if is_separator(code.last()) {
        kept(code.drop_last())
    } else {
        kept(code.drop_last()).push(code.last())
    }
}

proof fn lemma_cleaned_is_kept(a: Seq<char>)
    ensures
        cleaned(a) == cleaned(kept(a)),
        forall|i: int| 0 <= i < kept(a).len() ==> !is_separator(#[trigger] kept(a)[i]),
    decreases a.len(),
{
    if a.len() > 0 {
        lemma_cleaned_is_kept(a.drop_last());
        if !is_separator(a.last()) {
            let k = kept(a);
            assert(k.drop_last() =~= kept(a.drop_last()));
            assert(k.last() == a.last());
            assert forall|i: int| 0 <= i < k.len() implies !is_separator(#[trigger] k[i]) by {
                if i < k.len() - 1 {
                    assert(k[i] == kept(a.drop_last())[i]);
                }
            }
        }
    }
}

proof fn lemma_cleaned_same_case(a: Seq<char>, b: Seq<char>)
    requires
        same_ignoring_ascii_case(a, b),
        forall|i: int| 0 <= i < a.len() ==> !is_separator(#[trigger] a[i]),
        forall|i: int| 0 <= i < b.len() ==> !is_separator(#[trigger] b[i]),
    ensures
        cleaned(a) == cleaned(b),
    decreases a.len(),
{
    if a.len() > 0 {
        let n = a.len() - 1;
        assert(ascii_lower(a[n]) == ascii_lower(b[n]));
        assert(!is_separator(a[n]) && !is_separator(b[n]));
        lemma_cleaned_same_case(a.drop_last(), b.drop_last());
        assert(upper_of(a.last()) == upper_of(b.last()));
    }
}

/// Turns a 32-byte identity into a shareable code.
pub fn encode(key: &[u8; 32]) -> (r: String)
    ensures
        r@ == invite_code_of(key@),
        decode_spec(r@) == Ok::<Seq<u8>, InviteError>(key@),
{
    let raw = base32_encode(key);
    let symbols = chars_of(raw.as_str());
    let ghost lowered = raw@.map_values(|c: char| ascii_lower(c));
    let mut out: Vec<char> = Vec::new();
    let mut i: usize = 0;
    while i < symbols.len()
        invariant
            i <= symbols@.len(),
            symbols@ == raw@,
            lowered == raw@.map_values(|c: char| ascii_lower(c)),
            out@ == grouped(lowered.take(i as int)),
        decreases symbols@.len() - i,
    {
        let ghost before = lowered.take(i as int);
        if i > 0 && i % GROUP == 0 {
            out.push('-');
        }
        out.push(lower_char(symbols[i]));
        i = i + 1;
        assert(lowered.take(i as int).drop_last() =~= before);
    }
    assert(lowered.take(i as int) =~= lowered);
    let code = string_of(out.as_slice());
    proof {
        lemma_cleaned_grouped(lowered);
        lemma_cleaned_lowered(raw@);
        is_ascii_chars_encode_utf8(raw@);
        assert(is_ascii_chars(raw@)) by {
            assert forall|i: int| 0 <= i < raw@.len() implies (raw@[i] as u32) < 128 by {
                assert(is_base32_symbol(raw@[i]));
            }
        }
    }
    code
}

/// Turns a code back into an identity.
///
/// People copy the code out of a chat and paste it, so dashes, underscores, whitespace
/// and letter case are all ignored.
pub fn decode(code: &str) -> (r: Result<[u8; 32], InviteError>)
    ensures
        match decode_spec(code@) {
            Ok(key) => r matches Ok(k) && k@ == key,
            Err(e) => r == Err::<[u8; 32], InviteError>(e),
        },
{
    let chars = chars_of(code);
    let mut kept: Vec<char> = Vec::new();
    let mut i: usize = 0;
    while i < chars.len()
        invariant
            i <= chars@.len(),
            chars@ == code@,
            kept@ == cleaned(chars@.take(i as int)),
        decreases chars@.len() - i,
    {
        let c = chars[i];
        let ghost before = kept@;
        if !(is_whitespace(c) || c == '-' || c == '_') {
            if (c as u32) < 128 {
                kept.push(upper_char(c));
                assert(kept@ =~= before + seq![ascii_upper(c)]);
            } else {
                let mut up = uppercase(c);
                kept.append(&mut up);
            }
        }
        assert(chars@.take(i + 1).drop_last() =~= chars@.take(i as int));
        i = i + 1;
    }
    assert(chars@.take(i as int) =~= code@);
    let text = string_of(kept.as_slice());
    let bytes = text.as_str().as_bytes();
    let length = bytes.len();
    if length != CODE_CHARS {
        return Err(InviteError::WrongLength { chars: length });
    }
    match base32_decode(bytes) {
        Err(_) => Err(InviteError::InvalidCharacter),
        Ok(decoded) => {
            if decoded.len() != 32 {
                return Err(InviteError::NotAKey);
            }
            let mut key = [0u8; 32];
            let mut j: usize = 0;
            while j < 32
                invariant
                    j <= 32,
                    decoded@.len() == 32,
                    forall|k: int| 0 <= k < j ==> key@[k] == decoded@[k],
                decreases 32 - j,
            {
                key[j] = decoded[j];
                j = j + 1;
            }
            assert(key@ =~= decoded@);
            Ok(key)
        },
    }
}

/// However a code is pasted (dashes, underscores or whitespace added or removed, letters
/// in either case) it decodes to the same thing.
pub proof fn lemma_formatting_is_ignored(a: Seq<char>, b: Seq<char>)
    requires
        same_ignoring_ascii_case(kept(a), kept(b)),
    ensures
        decode_spec(a) == decode_spec(b),
{
    lemma_cleaned_is_kept(a);
    lemma_cleaned_is_kept(b);
    lemma_cleaned_same_case(kept(a), kept(b));
}

impl InviteError {
    /// The refusal in words.
    pub open spec fn message_spec(self) -> Seq<char> {
        match self {
            InviteError::WrongLength { chars } => "an invite code must be 52 characters, got "@ + decimal(chars as nat),
            InviteError::InvalidCharacter => "the invite code contains an invalid character"@,
            InviteError::NotAKey => "the invite code did not decode to 32 bytes"@,
        }
    }

    pub fn message(&self) -> (r: String)
        ensures
            r@ == self.message_spec(),
    {
        match self {
            InviteError::WrongLength { chars } => {
                let mut text = String::from_str("an invite code must be 52 characters, got ");
                let count = decimal_string(*chars as u64);
                text.append(count.as_str());
                text
            },
            InviteError::InvalidCharacter => String::from_str("the invite code contains an invalid character"),
            InviteError::NotAKey => String::from_str("the invite code did not decode to 32 bytes"),
        }
    }
}

} // verus!
