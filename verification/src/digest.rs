//! Content hashes: SHA-256 digests and their lowercase hexadecimal text.

use sha2::Digest;
use vstd::prelude::*;

verus! {

/// The SHA-256 digest of a byte string.
pub uninterp spec fn sha256(bytes: Seq<u8>) -> Seq<u8>;

/// The bytes a running SHA-256 hasher has been fed so far.
pub uninterp spec fn absorbed(hasher: sha2::Sha256) -> Seq<u8>;

#[verifier::external_type_specification]
#[verifier::external_body]
pub struct ExSha256(sha2::Sha256);

/// Calls `sha2::Sha256::digest`: the digest is a function of the bytes alone and is
/// always 32 bytes long.
#[verifier::external_body]
pub(crate) fn sha256_digest(bytes: &[u8]) -> (digest: [u8; 32])
    ensures
        digest@ == sha256(bytes@),
{
    sha2::Sha256::digest(bytes).into()
}

/// Calls `sha2::Sha256::new`: a fresh hasher has been fed nothing.
#[verifier::external_body]
pub(crate) fn sha256_new() -> (hasher: sha2::Sha256)
    ensures
        absorbed(hasher) == Seq::<u8>::empty(),
{
    sha2::Sha256::new()
}

/// Calls `sha2::Sha256::update`: the bytes go behind what the hasher was fed before.
#[verifier::external_body]
pub(crate) fn sha256_update(hasher: &mut sha2::Sha256, bytes: &[u8])
    ensures
        absorbed(*final(hasher)) == absorbed(*old(hasher)) + bytes@,
{
    hasher.update(bytes);
}

/// Calls `sha2::Sha256::finalize`: the digest of everything the hasher was fed, the
/// same one that `sha2::Sha256::digest` gives for those bytes at once.
#[verifier::external_body]
pub(crate) fn sha256_finalize(hasher: sha2::Sha256) -> (digest: [u8; 32])
    ensures
        digest@ == sha256(absorbed(hasher)),
{
    hasher.finalize().into()
}

/// The lowercase hexadecimal digit for a value below sixteen.
pub open spec fn hex_digit(v: int) -> char {
    if v < 10 {
        ('0' as int + v) as char
    } else {
        ('a' as int + (v - 10)) as char
    }
}

/// Whether a character is a lowercase hexadecimal digit.
pub open spec fn is_hex_char(c: char) -> bool {
    ('0' <= c && c <= '9') || ('a' <= c && c <= 'f')
}

/// Whether a text is made of lowercase hexadecimal digits alone.
pub open spec fn is_hex_text(s: Seq<char>) -> bool {
    forall|i: int| 0 <= i < s.len() ==> is_hex_char(#[trigger] s[i])
}

/// The value of a lowercase hexadecimal digit.
pub open spec fn hex_value(c: char) -> int {
    if c <= '9' {
        c as int - '0' as int
    } else {
        c as int - 'a' as int + 10
    }
}

/// Lowercase hexadecimal text: two digits a byte, the high half first.
pub open spec fn hex_text(bytes: Seq<u8>) -> Seq<char> {
    Seq::new(
        2 * bytes.len(),
        |i: int|
            if i % 2 == 0 {
                hex_digit(bytes[i / 2] as int / 16)
            } else {
                hex_digit(bytes[i / 2] as int % 16)
            },
    )
}

/// Calls `hex::encode`: two lowercase hexadecimal digits for each byte.
#[verifier::external_body]
pub(crate) fn hex_encode(bytes: &[u8]) -> (text: String)
    ensures
        text@ == hex_text(bytes@),
{
    hex::encode(bytes)
}

/// Whether `c` is a lowercase hexadecimal digit.
pub fn hex_char(c: char) -> (yes: bool)
    ensures
        yes == is_hex_char(c),
{
    ('0' <= c && c <= '9') || ('a' <= c && c <= 'f')
}

/// Whether every character of `chars` is a lowercase hexadecimal digit.
pub fn all_hex_chars(chars: &[char]) -> (yes: bool)
    ensures
        yes == is_hex_text(chars@),
{
    let mut i: usize = 0;
    while i < chars.len()
        invariant
            i <= chars.len(),
            forall|j: int| 0 <= j < i ==> is_hex_char(#[trigger] chars@[j]),
        decreases chars.len() - i,
    {
        if !hex_char(chars[i]) {
            return false;
        }
        i = i + 1;
    }
    true
}

fn hex_char_value(c: char) -> (v: u8)
    requires
        is_hex_char(c),
    ensures
        v == hex_value(c),
        v < 16,
        hex_digit(v as int) == c,
{
    let code: u32 = c as u32;
    if c <= '9' {
        (code - 48) as u8
    } else {
        (code - 97 + 10) as u8
    }
}

/// Every byte is one high and one low hexadecimal digit, and those digits give it back.
proof fn lemma_hex_pair(hi: u8, lo: u8, byte: u8)
    requires
        hi < 16,
        lo < 16,
        byte == hi * 16 + lo,
    ensures
        byte as int / 16 == hi,
        byte as int % 16 == lo,
{
}

proof fn lemma_hex_text_at(bytes: Seq<u8>, i: int)
    requires
        0 <= i < bytes.len(),
    ensures
        hex_text(bytes)[2 * i] == hex_digit(bytes[i] as int / 16),
        hex_text(bytes)[2 * i + 1] == hex_digit(bytes[i] as int % 16),
{
    assert((2 * i) / 2 == i && (2 * i + 1) / 2 == i && (2 * i) % 2 == 0 && (2 * i + 1) % 2 == 1);
}

/// The hexadecimal text of two byte strings is the same only if the bytes are.
pub proof fn lemma_hex_text_injective(a: Seq<u8>, b: Seq<u8>)
    requires
        hex_text(a) == hex_text(b),
    ensures
        a == b,
{
    assert(hex_text(a).len() == 2 * a.len());
    assert(hex_text(b).len() == 2 * b.len());
    assert forall|i: int| 0 <= i < a.len() implies a[i] == b[i] by {
        lemma_hex_text_at(a, i);
        lemma_hex_text_at(b, i);
        let (ah, al) = (a[i] as int / 16, a[i] as int % 16);
        let (bh, bl) = (b[i] as int / 16, b[i] as int % 16);
        assert(0 <= ah < 16 && 0 <= al < 16 && 0 <= bh < 16 && 0 <= bl < 16);
        assert(hex_digit(ah) == hex_digit(bh) && hex_digit(al) == hex_digit(bl));
        assert(ah == bh && al == bl);
    }
    assert(a =~= b);
}

/// Hexadecimal text holds hexadecimal digits alone.
pub proof fn lemma_hex_text_is_hex(bytes: Seq<u8>)
    ensures
        is_hex_text(hex_text(bytes)),
        hex_text(bytes).len() == 2 * bytes.len(),
{
    assert forall|i: int| 0 <= i < hex_text(bytes).len() implies is_hex_char(
        #[trigger] hex_text(bytes)[i],
    ) by {
        let b = bytes[i / 2] as int;
        assert(0 <= b / 16 < 16 && 0 <= b % 16 < 16);
    }
}

/// The bytes whose lowercase hexadecimal text this is, or `None` where it is no such text.
pub fn decode_hex(text: &str) -> (decoded: Option<Vec<u8>>)
    ensures
        decoded is Some <==> text@.len() % 2 == 0 && is_hex_text(text@),
        decoded matches Some(bytes) ==> hex_text(bytes@) == text@ && text@.len() == 2
            * bytes@.len(),
{
    let chars: Vec<char> = crate::text::chars_of(text);
    if chars.len() % 2 != 0 || !all_hex_chars(chars.as_slice()) {
        return None;
    }
    let count: usize = chars.len() / 2;
    let mut bytes: Vec<u8> = Vec::new();
    let mut i: usize = 0;
    while i < count
        invariant
            i <= count,
            chars.len() == 2 * count,
            is_hex_text(chars@),
            bytes@.len() == i,
            forall|j: int|
                0 <= j < i ==> hex_digit(#[trigger] bytes@[j] as int / 16) == chars@[2 * j]
                    && hex_digit(bytes@[j] as int % 16) == chars@[2 * j + 1],
        decreases count - i,
    {
        let hi: u8 = hex_char_value(chars[2 * i]);
        let lo: u8 = hex_char_value(chars[2 * i + 1]);
        let byte: u8 = hi * 16 + lo;
        proof {
            lemma_hex_pair(hi, lo, byte);
        }
        bytes.push(byte);
        i = i + 1;
    }
    assert(hex_text(bytes@) =~= text@) by {
        assert forall|k: int| 0 <= k < text@.len() implies hex_text(bytes@)[k] == text@[k] by {
            let j = k / 2;
            assert(k == 2 * j || k == 2 * j + 1);
            lemma_hex_text_at(bytes@, j);
        }
    }
    Some(bytes)
}

/// The identity of an immutable object: the SHA-256 digest of its bytes.
#[derive(Debug, Clone, Copy, PartialEq, Eq, PartialOrd, Ord, Hash)]
pub struct ObjectHash {
    bytes: [u8; 32],
}

impl View for ObjectHash {
    type V = Seq<u8>;

    closed spec fn view(&self) -> Seq<u8> {
        self.bytes@
    }
}

/// Why a text is not an object hash.
#[derive(Debug, Clone, Copy, PartialEq, Eq)]
pub struct ObjectHashError;

impl ObjectHashError {
    /// What is wrong with the text.
    pub fn message(&self) -> (text: String)
        ensures
            text@ == "object hash must be exactly 64 lowercase hexadecimal characters"@,
    {
        "object hash must be exactly 64 lowercase hexadecimal characters".to_owned()
    }
}

/// The texts that name an object hash: 64 lowercase hexadecimal digits.
pub open spec fn is_object_hash_text(s: Seq<char>) -> bool {
    s.len() == 64 && is_hex_text(s)
}

impl ObjectHash {
    /// The hash with exactly these 32 bytes.
    pub fn from_bytes(bytes: [u8; 32]) -> (hash: ObjectHash)
        ensures
            hash@ == bytes@,
    {
        ObjectHash { bytes }
    }

    /// The hash of an object's bytes.
    pub fn digest(bytes: &[u8]) -> (hash: ObjectHash)
        ensures
            hash@ == sha256(bytes@),
    {
        ObjectHash { bytes: sha256_digest(bytes) }
    }

    /// An object hash is 32 bytes, and its bytes are all there is to it.
    pub proof fn lemma_bytes_determine(a: ObjectHash, b: ObjectHash)
        ensures
            a@.len() == 32,
            a@ == b@ ==> a == b,
    {
        if a@ == b@ {
            assert(a.bytes =~= b.bytes);
        }
    }

    /// Whether two hashes are the same.
    pub fn same(&self, other: &ObjectHash) -> (same: bool)
        ensures
            same == (*self == *other),
    {
        let mut i: usize = 0;
        while i < 32
            invariant
                i <= 32,
                forall|j: int| 0 <= j < i ==> self.bytes@[j] == other.bytes@[j],
            decreases 32 - i,
        {
            if self.bytes[i] != other.bytes[i] {
                return false;
            }
            i = i + 1;
        }
        assert(self.bytes@ =~= other.bytes@);
        proof {
            ObjectHash::lemma_bytes_determine(*self, *other);
        }
        true
    }

    /// The hash as text: its bytes in lowercase hexadecimal.
    pub fn to_text(&self) -> (text: String)
        ensures
            text@ == hex_text(self@),
            is_object_hash_text(text@),
    {
        let text: String = hex_encode(self.bytes.as_slice());
        proof {
            lemma_hex_text_is_hex(self@);
        }
        text
    }

    /// Reads the text that [`ObjectHash::to_text`] writes; any other text is refused.
    pub fn parse(text: &str) -> (parsed: Result<ObjectHash, ObjectHashError>)
        ensures
            parsed is Ok <==> is_object_hash_text(text@),
            parsed matches Ok(hash) ==> hex_text(hash@) == text@,
    {
        match decode_hex(text) {
            None => {
                Err(ObjectHashError)
            },
            Some(decoded) => {
                if decoded.len() != 32 {
                    return Err(ObjectHashError);
                }
                let mut bytes: [u8; 32] = [0u8; 32];
                let mut i: usize = 0;
                while i < 32
                    invariant
                        i <= 32,
                        decoded@.len() == 32,
                        forall|j: int| 0 <= j < i ==> bytes@[j] == decoded@[j],
                    decreases 32 - i,
                {
                    bytes[i] = decoded[i];
                    i = i + 1;
                }
                assert(bytes@ =~= decoded@);
                Ok(ObjectHash { bytes })
            },
        }
    }
}

/// Reading a hash's own text gives that hash back: the text is one that reading accepts,
/// and no other hash has it.
pub proof fn law_object_hash_text_round_trip(hash: ObjectHash)
    ensures
        is_object_hash_text(hex_text(hash@)),
        forall|read: ObjectHash| #[trigger] hex_text(read@) == hex_text(hash@) ==> read == hash,
{
    ObjectHash::lemma_bytes_determine(hash, hash);
    lemma_hex_text_is_hex(hash@);
    assert forall|read: ObjectHash| #[trigger]
        hex_text(read@) == hex_text(hash@) implies read == hash by {
        lemma_hex_text_injective(read@, hash@);
        ObjectHash::lemma_bytes_determine(read, hash);
    }
}

/// Which key sealed a blob: the first bytes of the key's digest.
#[derive(Debug, Clone, Copy, PartialEq, Eq, PartialOrd, Ord, Hash)]
pub struct KeyFingerprint {
    bytes: [u8; 8],
}

impl View for KeyFingerprint {
    type V = Seq<u8>;

    closed spec fn view(&self) -> Seq<u8> {
        self.bytes@
    }
}

impl KeyFingerprint {
    /// The fingerprint with exactly these bytes.
    pub fn from_bytes(bytes: [u8; 8]) -> (fingerprint: KeyFingerprint)
        ensures
            fingerprint@ == bytes@,
    {
        KeyFingerprint { bytes }
    }

    /// The fingerprint as lowercase hexadecimal text.
    pub fn to_text(&self) -> (text: String)
        ensures
            text@ == hex_text(self@),
    {
        hex_encode(self.bytes.as_slice())
    }

    /// Reads the text that [`KeyFingerprint::to_text`] writes; any other text gives `None`.
    pub fn parse(text: &str) -> (parsed: Option<KeyFingerprint>)
        ensures
            parsed is Some <==> text@.len() == 16 && is_hex_text(text@),
            parsed matches Some(value) ==> hex_text(value@) == text@,
    {
        match decode_hex(text) {
            None => {
                None
            },
            Some(decoded) => {
                if decoded.len() != 8 {
                    return None;
                }
                let mut bytes: [u8; 8] = [0u8; 8];
                let mut i: usize = 0;
                while i < 8
                    invariant
                        i <= 8,
                        decoded@.len() == 8,
                        forall|j: int| 0 <= j < i ==> bytes@[j] == decoded@[j],
                    decreases 8 - i,
                {
                    bytes[i] = decoded[i];
                    i = i + 1;
                }
                assert(bytes@ =~= decoded@);
                Some(KeyFingerprint { bytes })
            },
        }
    }

    /// Its bytes are all there is to it.
    pub proof fn lemma_bytes_determine(a: KeyFingerprint, b: KeyFingerprint)
        ensures
            a@.len() == 8,
            a@ == b@ ==> a == b,
    {
        if a@ == b@ {
            assert(a.bytes =~= b.bytes);
        }
    }

    /// Whether two values are the same.
    pub fn same(&self, other: &KeyFingerprint) -> (same: bool)
        ensures
            same == (*self == *other),
    {
        let mut i: usize = 0;
        while i < 8
            invariant
                i <= 8,
                forall|j: int| 0 <= j < i ==> self.bytes@[j] == other.bytes@[j],
            decreases 8 - i,
        {
            if self.bytes[i] != other.bytes[i] {
                return false;
            }
            i = i + 1;
        }
        assert(self.bytes@ =~= other.bytes@);
        proof {
            KeyFingerprint::lemma_bytes_determine(*self, *other);
        }
        true
    }
}

/// A circle of members that share rows among themselves.
#[derive(Debug, Clone, Copy, PartialEq, Eq, PartialOrd, Ord, Hash)]
pub struct CircleId {
    bytes: [u8; 16],
}

impl View for CircleId {
    type V = Seq<u8>;

    closed spec fn view(&self) -> Seq<u8> {
        self.bytes@
    }
}

impl CircleId {
    /// The circle with exactly these identity bytes.
    pub fn from_bytes(bytes: [u8; 16]) -> (circle: CircleId)
        ensures
            circle@ == bytes@,
    {
        CircleId { bytes }
    }

    /// The identity as lowercase hexadecimal text.
    pub fn to_text(&self) -> (text: String)
        ensures
            text@ == hex_text(self@),
    {
        hex_encode(self.bytes.as_slice())
    }

    /// Reads the text that [`CircleId::to_text`] writes; any other text gives `None`.
    pub fn parse(text: &str) -> (parsed: Option<CircleId>)
        ensures
            parsed is Some <==> text@.len() == 32 && is_hex_text(text@),
            parsed matches Some(value) ==> hex_text(value@) == text@,
    {
        match decode_hex(text) {
            None => {
                None
            },
            Some(decoded) => {
                if decoded.len() != 16 {
                    return None;
                }
                let mut bytes: [u8; 16] = [0u8; 16];
                let mut i: usize = 0;
                while i < 16
                    invariant
                        i <= 16,
                        decoded@.len() == 16,
                        forall|j: int| 0 <= j < i ==> bytes@[j] == decoded@[j],
                    decreases 16 - i,
                {
                    bytes[i] = decoded[i];
                    i = i + 1;
                }
                assert(bytes@ =~= decoded@);
                Some(CircleId { bytes })
            },
        }
    }

    /// Its bytes are all there is to it.
    pub proof fn lemma_bytes_determine(a: CircleId, b: CircleId)
        ensures
            a@.len() == 16,
            a@ == b@ ==> a == b,
    {
        if a@ == b@ {
            assert(a.bytes =~= b.bytes);
        }
    }

    /// Whether two values are the same.
    pub fn same(&self, other: &CircleId) -> (same: bool)
        ensures
            same == (*self == *other),
    {
        let mut i: usize = 0;
        while i < 16
            invariant
                i <= 16,
                forall|j: int| 0 <= j < i ==> self.bytes@[j] == other.bytes@[j],
            decreases 16 - i,
        {
            if self.bytes[i] != other.bytes[i] {
                return false;
            }
            i = i + 1;
        }
        assert(self.bytes@ =~= other.bytes@);
        proof {
            CircleId::lemma_bytes_determine(*self, *other);
        }
        true
    }
}

} // verus!
