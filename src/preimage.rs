use crate::bytes::B256;
use risc0_zkvm::sha::Sha256;
use vstd::prelude::*;

verus! {

/// The Keccak-256 digest of `data`.
pub uninterp spec fn keccak_of(data: Seq<u8>) -> Seq<u8>;

/// The SHA-256 digest of `data`.
pub uninterp spec fn sha256_of(data: Seq<u8>) -> Seq<u8>;

/// Relies on alloy_primitives::keccak256: the Keccak-256 digest of the input.
#[verifier::external_body]
pub(crate) fn keccak256(data: &[u8]) -> (r: B256)
    ensures
        r@ == keccak_of(data@),
{
    B256 { bytes: alloy_primitives::keccak256(data).0 }
}

/// Relies on risc0_zkvm::sha::Impl::hash_bytes: the SHA-256 digest of the
/// input, whose `as_bytes` are 32 bytes long.
#[verifier::external_body]
pub(crate) fn sha256(data: &[u8]) -> (r: B256)
    ensures
        r@ == sha256_of(data@),
{
    let digest = risc0_zkvm::sha::Impl::hash_bytes(data);
    let mut bytes = [0u8; 32];
    bytes.copy_from_slice(digest.as_bytes());
    B256 { bytes }
}

/// The kind of a preimage key, stored in its first byte.
#[derive(Clone, Copy, Debug, PartialEq, Eq, Structural)]
pub enum PreimageKeyType {
    Local,
    Keccak256,
    GlobalGeneric,
    Sha256,
    Blob,
    Precompile,
}

/// The tag byte of each key type.
pub open spec fn type_tag(t: PreimageKeyType) -> u8 {
    match t {
        PreimageKeyType::Local => 1,
        PreimageKeyType::Keccak256 => 2,
        PreimageKeyType::GlobalGeneric => 3,
        PreimageKeyType::Sha256 => 4,
        PreimageKeyType::Blob => 5,
        PreimageKeyType::Precompile => 6,
    }
}

/// The key type that a tag byte names, if any.
pub open spec fn type_of_tag(b: u8) -> Option<PreimageKeyType> {
    if b == 1 {
        Some(PreimageKeyType::Local)
    } else if b == 2 {
        Some(PreimageKeyType::Keccak256)
    } else if b == 3 {
        Some(PreimageKeyType::GlobalGeneric)
    } else if b == 4 {
        Some(PreimageKeyType::Sha256)
    } else if b == 5 {
        Some(PreimageKeyType::Blob)
    } else if b == 6 {
        Some(PreimageKeyType::Precompile)
    } else {
        None
    }
}

impl PreimageKeyType {
    /// The tag byte of this key type.
    pub fn tag(&self) -> (r: u8)
        ensures
            r == type_tag(*self),
    {
        match self {
            PreimageKeyType::Local => 1,
            PreimageKeyType::Keccak256 => 2,
            PreimageKeyType::GlobalGeneric => 3,
            PreimageKeyType::Sha256 => 4,
            PreimageKeyType::Blob => 5,
            PreimageKeyType::Precompile => 6,
        }
    }

    /// The key type named by a tag byte.
    pub fn from_tag(b: u8) -> (r: Option<PreimageKeyType>)
        ensures
            r == type_of_tag(b),
    {
        if b == 1 {
            Some(PreimageKeyType::Local)
        } else if b == 2 {
            Some(PreimageKeyType::Keccak256)
        } else if b == 3 {
            Some(PreimageKeyType::GlobalGeneric)
        } else if b == 4 {
            Some(PreimageKeyType::Sha256)
        } else if b == 5 {
            Some(PreimageKeyType::Blob)
        } else if b == 6 {
            Some(PreimageKeyType::Precompile)
        } else {
            None
        }
    }
}

/// A 32-byte preimage key: a type tag followed by 31 bytes of content hash.
#[derive(Clone, Copy, Debug)]
pub struct PreimageKey {
    pub key_type: PreimageKeyType,
    pub data: [u8; 31],
}

impl View for PreimageKey {
    type V = Seq<u8>;

    /// The rendered 32 bytes of the key.
    open spec fn view(&self) -> Seq<u8> {
        seq![type_tag(self.key_type)] + self.data@
    }
}

/// What a value must satisfy to be the preimage of a rendered key: for
/// Keccak-256 and SHA-256 keys the digest of the value, without its first
/// byte, is the key's content; other key types bind no content here.
pub open spec fn preimage_valid(key: Seq<u8>, value: Seq<u8>) -> bool {
    if key[0] == 2 {
        keccak_of(value).subrange(1, 32) == key.subrange(1, 32)
    } else if key[0] == 4 {
        sha256_of(value).subrange(1, 32) == key.subrange(1, 32)
    } else {
        true
    }
}

/// Why an exchange with the preimage host failed.
#[derive(Clone, Copy, Debug, PartialEq, Eq, Structural)]
pub enum OracleError {
    /// The value does not hash to the key's content.
    InvalidPreimage,
    /// The first byte of a key names no key type.
    InvalidKeyType,
    /// The host did not acknowledge a hint.
    MissingHintAck,
    /// A hint is too long for its 4-byte length prefix.
    HintTooLong,
    /// A preimage does not have the length that the caller asked for.
    LengthMismatch,
}

impl PreimageKey {
    /// The key of the given type whose content is the last 31 bytes of `key`.
    pub fn new(key: &B256, key_type: PreimageKeyType) -> (r: PreimageKey)
        ensures
            r.key_type == key_type,
            r.data@ == key@.subrange(1, 32),
    {
        let mut data = [0u8; 31];
        let mut i: usize = 0;
        while i < 31
            invariant
                0 <= i <= 31,
                data@.len() == 31,
                key@.len() == 32,
                forall|j: int| 0 <= j < i ==> data@[j] == key@[j + 1],
            decreases 31 - i,
        {
            data[i] = key.bytes[i + 1];
            i = i + 1;
        }
        let r = PreimageKey { key_type, data };
        assert(r.data@ =~= key@.subrange(1, 32));
        r
    }

    /// The key type.
    pub fn key_type(&self) -> (r: PreimageKeyType)
        ensures
            r == self.key_type,
    {
        self.key_type
    }

    /// The rendered 32 bytes: the type tag, then the content.
    pub fn to_bytes(&self) -> (r: B256)
        ensures
            r@ == self@,
    {
        let mut bytes = [0u8; 32];
        bytes[0] = self.key_type.tag();
        let mut i: usize = 0;
        while i < 31
            invariant
                0 <= i <= 31,
                bytes@.len() == 32,
                self.data@.len() == 31,
                bytes@[0] == type_tag(self.key_type),
                forall|j: int| 0 <= j < i ==> bytes@[j + 1] == self.data@[j],
            decreases 31 - i,
        {
            bytes[i + 1] = self.data[i];
            i = i + 1;
        }
        let r = B256 { bytes };
        assert(r@ =~= self@);
        r
    }

    /// Reads a rendered key; fails exactly when its first byte names no type.
    pub fn from_bytes(b: &B256) -> (r: Result<PreimageKey, OracleError>)
        ensures
            r is Ok <==> type_of_tag(b@[0]) is Some,
            r is Ok ==> r->Ok_0@ == b@,
            r is Err ==> r->Err_0 == OracleError::InvalidKeyType,
    {
        match PreimageKeyType::from_tag(b.bytes[0]) {
            Some(t) => {
                let k = PreimageKey::new(b, t);
                assert(k@ =~= b@);
                Ok(k)
            },
            None => Err(OracleError::InvalidKeyType),
        }
    }
}

/// Checks that `value` is a preimage of `key`: for Keccak-256 and SHA-256
/// keys, the digest of the value must match the key's content.
pub fn validate_preimage(key: &PreimageKey, value: &[u8]) -> (r: Result<(), OracleError>)
    ensures
        r is Ok <==> preimage_valid(key@, value@),
        r is Err ==> r->Err_0 == OracleError::InvalidPreimage,
{
    let image = match key.key_type {
        PreimageKeyType::Keccak256 => keccak256(value),
        PreimageKeyType::Sha256 => sha256(value),
        _ => {
            return Ok(());
        },
    };
    let expected = PreimageKey::new(&image, key.key_type);
    assert(key@.subrange(1, 32) =~= key.data@);
    assert(key@[0] == type_tag(key.key_type));
    assert((key@[0] == 2 && image@ == keccak_of(value@)) || (key@[0] == 4 && image@ == sha256_of(
        value@,
    )));
    let mut i: usize = 0;
    while i < 31
        invariant
            0 <= i <= 31,
            key.data@.len() == 31,
            expected.data@ == image@.subrange(1, 32),
            key@.subrange(1, 32) == key.data@,
            (key@[0] == 2 && image@ == keccak_of(value@)) || (key@[0] == 4 && image@ == sha256_of(
                value@,
            )),
            forall|j: int| 0 <= j < i ==> key.data@[j] == expected.data@[j],
        decreases 31 - i,
    {
        if key.data[i] != expected.data[i] {
            assert(key@.subrange(1, 32)[i as int] != image@.subrange(1, 32)[i as int]);
            assert(key@.subrange(1, 32) != image@.subrange(1, 32));
            return Err(OracleError::InvalidPreimage);
        }
        i = i + 1;
    }
    assert(key@.subrange(1, 32) =~= image@.subrange(1, 32));
    Ok(())
}

} // verus!
