//! Authenticated encryption of what a session carries.

use crate::text::same_text;
use ring::aead::{Aad, Algorithm, LessSafeKey, Nonce, UnboundKey};
use ring::error::Unspecified;
use vstd::prelude::*;

verus! {

#[verifier::external_type_specification]
#[verifier::external_body]
pub struct ExUnspecified(ring::error::Unspecified);

#[verifier::external_type_specification]
#[verifier::external_body]
pub struct ExAlgorithm(ring::aead::Algorithm);

#[verifier::external_type_specification]
#[verifier::external_body]
pub struct ExLessSafeKey(ring::aead::LessSafeKey);

#[verifier::external_type_specification]
#[verifier::external_body]
pub struct ExNonce(ring::aead::Nonce);

/// The algorithms that are known.
pub enum Aead {
    Chacha20Poly1305,
    Aes256Gcm,
    Aes128Gcm,
}

impl Aead {
    /// The length of a key.
    pub open spec fn key_len(self) -> nat {
        match self {
            Aead::Chacha20Poly1305 => 32,
            Aead::Aes256Gcm => 32,
            Aead::Aes128Gcm => 16,
        }
    }

    /// The most bytes that can be sealed at a time.
    pub open spec fn max_len(self) -> nat {
        match self {
            Aead::Chacha20Poly1305 => 274_877_906_880,
            Aead::Aes256Gcm => 68_719_476_704,
            Aead::Aes128Gcm => 68_719_476_704,
        }
    }
}

/// The length of a nonce.
pub const NONCE_LEN: usize = 12;

/// The length of the tag that sealing appends.
pub const TAG_LEN: usize = 16;

/// Which algorithm it is.
pub uninterp spec fn algorithm_id(algorithm: Algorithm) -> Aead;

/// The algorithm that a key is for.
pub uninterp spec fn key_algorithm(key: LessSafeKey) -> Aead;

/// The bytes of a key.
pub uninterp spec fn key_bytes(key: LessSafeKey) -> Seq<u8>;

/// The bytes of a nonce.
pub uninterp spec fn nonce_bytes(nonce: Nonce) -> Seq<u8>;

/// What sealing makes of a text: the encrypted text with its tag behind it.
pub uninterp spec fn sealed(
    algorithm: Aead,
    key: Seq<u8>,
    nonce: Seq<u8>,
    text: Seq<u8>,
) -> Seq<u8>;

/// What opening makes of an encrypted text with its tag, where the tag is right.
pub uninterp spec fn opened(
    algorithm: Aead,
    key: Seq<u8>,
    nonce: Seq<u8>,
    data: Seq<u8>,
) -> Option<Seq<u8>>;

/// `ring::aead::CHACHA20_POLY1305`.
#[verifier::external_body]
fn chacha20_poly1305() -> (algorithm: &'static Algorithm)
    ensures
        algorithm_id(*algorithm) == Aead::Chacha20Poly1305,
{
    &ring::aead::CHACHA20_POLY1305
}

/// `ring::aead::AES_256_GCM`.
#[verifier::external_body]
fn aes_256_gcm() -> (algorithm: &'static Algorithm)
    ensures
        algorithm_id(*algorithm) == Aead::Aes256Gcm,
{
    &ring::aead::AES_256_GCM
}

/// `ring::aead::AES_128_GCM`.
#[verifier::external_body]
fn aes_128_gcm() -> (algorithm: &'static Algorithm)
    ensures
        algorithm_id(*algorithm) == Aead::Aes128Gcm,
{
    &ring::aead::AES_128_GCM
}

/// `ring::aead::UnboundKey::new`, made a `LessSafeKey`: fails exactly where the key does not have
/// the length that the algorithm asks for.
#[verifier::external_body]
fn make_key(algorithm: &'static Algorithm, key: &[u8]) -> (made: Result<LessSafeKey, Unspecified>)
    ensures
        made is Ok <==> key@.len() == algorithm_id(*algorithm).key_len(),
        made matches Ok(k) ==> key_algorithm(k) == algorithm_id(*algorithm) && key_bytes(k)
            == key@,
{
    UnboundKey::new(algorithm, key).map(LessSafeKey::new)
}

/// `ring::aead::Nonce::try_assume_unique_for_key`: fails exactly where there are not twelve bytes.
#[verifier::external_body]
fn make_nonce(value: &[u8]) -> (made: Result<Nonce, Unspecified>)
    ensures
        made is Ok <==> value@.len() == NONCE_LEN,
        made matches Ok(n) ==> nonce_bytes(n) == value@,
{
    Nonce::try_assume_unique_for_key(value)
}

/// `ring::aead::LessSafeKey::seal_in_place_append_tag`, without further authenticated data: makes
/// the text the sealed one, which opens again. Fails exactly where the text is too long for the
/// algorithm, and then changes nothing.
#[verifier::external_body]
fn seal_append_tag(key: &LessSafeKey, nonce: Nonce, buf: &mut Vec<u8>) -> (res: Result<
    (),
    Unspecified,
>)
    ensures
        res is Ok <==> old(buf)@.len() <= key_algorithm(*key).max_len(),
        res is Ok ==> {
            &&& final(buf)@ == sealed(
                key_algorithm(*key),
                key_bytes(*key),
                nonce_bytes(nonce),
                old(buf)@,
            )
            &&& final(buf)@.len() == old(buf)@.len() + TAG_LEN
            &&& opened(
                key_algorithm(*key),
                key_bytes(*key),
                nonce_bytes(nonce),
                final(buf)@,
            ) == Some(old(buf)@)
        },
        res is Err ==> final(buf)@ == old(buf)@,
{
    key.seal_in_place_append_tag(nonce, Aad::empty(), buf)
}

/// `ring::aead::LessSafeKey::open_in_place`, without further authenticated data: puts the text
/// that was sealed over the front and leaves the tag behind it. Succeeds on what sealing with the
/// same key and nonce made, and then gives back what was sealed. What the buffer holds after a
/// failure is not stated.
#[verifier::external_body]
fn open_in_place(key: &LessSafeKey, nonce: Nonce, buf: &mut Vec<u8>) -> (res: Result<
    (),
    Unspecified,
>)
    ensures
        final(buf)@.len() == old(buf)@.len(),
        res is Ok <==> opened(
            key_algorithm(*key),
            key_bytes(*key),
            nonce_bytes(nonce),
            old(buf)@,
        ) is Some,
        res is Ok ==> {
            let text = opened(
                key_algorithm(*key),
                key_bytes(*key),
                nonce_bytes(nonce),
                old(buf)@,
            ).unwrap();
            &&& old(buf)@.len() == text.len() + TAG_LEN
            &&& final(buf)@ == text + old(buf)@.skip(text.len() as int)
        },
        forall|text: Seq<u8>|
            text.len() <= key_algorithm(*key).max_len() && old(buf)@ == #[trigger] sealed(
                key_algorithm(*key),
                key_bytes(*key),
                nonce_bytes(nonce),
                text,
            ) ==> res is Ok && final(buf)@ == text + old(buf)@.skip(text.len() as int),
{
    key.open_in_place(nonce, Aad::empty(), buf.as_mut_slice()).map(|_text| ())
}

/// Why something could not be encrypted or decrypted.
#[derive(Debug, Clone, Copy, PartialEq, Eq, Structural)]
pub enum CipherError {
    /// There is no algorithm of that name.
    UnknownCipher,
    /// The key does not have the length that the algorithm asks for.
    BadKey,
    /// There is no next nonce.
    NoNonce,
    /// The nonce is not twelve bytes long.
    BadNonce,
    /// The text is too long for the algorithm.
    TooLong,
    /// The data was not made with this key and nonce.
    Unauthentic,
}

/// Encrypts.
pub trait Encryptor {
    /// Encrypts what `buf` holds, in place.
    fn encypt(&mut self, buf: &mut Vec<u8>) -> Result<(), CipherError>;
}

/// Decrypts.
pub trait Decyptor {
    /// Decrypts what `buf` holds, in place.
    fn decrypt(&mut self, buf: &mut Vec<u8>) -> Result<(), CipherError>;
}

/// Gives one nonce after the other.
pub trait NonceAdance {
    /// The next nonce, where there is one. Which it is, a source of nonces says for itself: here
    /// nothing is known of it.
    open spec fn upcoming(&self) -> Option<Seq<u8>> {
        vstd::pervasive::arbitrary()
    }

    /// Takes the next nonce, where there is one.
    fn advance(&mut self) -> (nonce: Option<Vec<u8>>)
        ensures
            match (nonce, old(self).upcoming()) {
                (Some(n), Some(upcoming)) => n@ == upcoming,
                (None, None) => true,
                _ => false,
            },
    ;
}

/// What encrypting with the next nonce comes to.
pub open spec fn encrypted(
    algorithm: Aead,
    key: Seq<u8>,
    upcoming: Option<Seq<u8>>,
    text: Seq<u8>,
) -> Result<Seq<u8>, CipherError> {
    match upcoming {
        None => Err(CipherError::NoNonce),
        Some(nonce) => if nonce.len() != NONCE_LEN {
            Err(CipherError::BadNonce)
        } else if text.len() > algorithm.max_len() {
            Err(CipherError::TooLong)
        } else {
            Ok(sealed(algorithm, key, nonce, text))
        },
    }
}

/// What decrypting with the next nonce comes to: the text, with the tag behind it.
pub open spec fn decrypted(
    algorithm: Aead,
    key: Seq<u8>,
    upcoming: Option<Seq<u8>>,
    data: Seq<u8>,
) -> Result<Seq<u8>, CipherError> {
    match upcoming {
        None => Err(CipherError::NoNonce),
        Some(nonce) => if nonce.len() != NONCE_LEN {
            Err(CipherError::BadNonce)
        } else {
            match opened(algorithm, key, nonce, data) {
                Some(text) => Ok(text + data.skip(text.len() as int)),
                None => Err(CipherError::Unauthentic),
            }
        },
    }
}

/// Makes encryptors and decryptors for keys.
pub trait Cipher<N> {
    type Enc;

    type Dec;

    fn encyptor(&self, key: &[u8], nonce: N) -> Result<Self::Enc, CipherError>;

    fn decyptor(&self, key: &[u8], nonce: N) -> Result<Self::Dec, CipherError>;
}

/// The algorithm of a name, where there is one.
pub open spec fn cipher_of(name: Seq<char>) -> Option<Aead> {
    if name == "chacha20-poly1305"@ {
        Some(Aead::Chacha20Poly1305)
    } else if name == "chacha20-ietf-poly1305"@ {
        Some(Aead::Chacha20Poly1305)
    } else if name == "aes-256-gcm"@ {
        Some(Aead::Aes256Gcm)
    } else if name == "aes-128-gcm"@ {
        Some(Aead::Aes128Gcm)
    } else {
        None
    }
}

/// An algorithm.
pub struct AeadCipher {
    algorithm: &'static Algorithm,
}

/// A key that encrypts.
pub struct AeadEncryptor<N> {
    enc: LessSafeKey,
    nonce: N,
}

/// A key that decrypts.
pub struct AeadDecryptor<N> {
    enc: LessSafeKey,
    nonce: N,
}

impl AeadCipher {
    pub closed spec fn algorithm(&self) -> Aead {
        algorithm_id(*self.algorithm)
    }

    /// The algorithm of a name.
    pub fn new(cipher: &str) -> (made: Result<Self, CipherError>)
        ensures
            match (made, cipher_of(cipher@)) {
                (Ok(c), Some(algorithm)) => c.algorithm() == algorithm,
                (Err(e), None) => e == CipherError::UnknownCipher,
                _ => false,
            },
    {
        if same_text(cipher, "chacha20-poly1305") {
            Ok(AeadCipher { algorithm: chacha20_poly1305() })
        } else if same_text(cipher, "chacha20-ietf-poly1305") {
            Ok(AeadCipher { algorithm: chacha20_poly1305() })
        } else if same_text(cipher, "aes-256-gcm") {
            Ok(AeadCipher { algorithm: aes_256_gcm() })
        } else if same_text(cipher, "aes-128-gcm") {
            Ok(AeadCipher { algorithm: aes_128_gcm() })
        } else {
            Err(CipherError::UnknownCipher)
        }
    }
}

impl<N> Cipher<N> for AeadCipher {
    type Enc = AeadEncryptor<N>;

    type Dec = AeadDecryptor<N>;

    /// A key that encrypts. Fails exactly where the key does not have the right length.
    fn encyptor(&self, key: &[u8], nonce: N) -> (made: Result<AeadEncryptor<N>, CipherError>)
        ensures
            made is Ok <==> key@.len() == self.algorithm().key_len(),
            made matches Ok(e) ==> {
                &&& e.algorithm() == self.algorithm()
                &&& e.key() == key@
                &&& e.nonces() == nonce
            },
            made matches Err(e) ==> e == CipherError::BadKey,
    {
        match make_key(self.algorithm, key) {
            Ok(enc) => Ok(AeadEncryptor { enc, nonce }),
            Err(_) => Err(CipherError::BadKey),
        }
    }

    /// A key that decrypts. Fails exactly where the key does not have the right length.
    fn decyptor(&self, key: &[u8], nonce: N) -> (made: Result<AeadDecryptor<N>, CipherError>)
        ensures
            made is Ok <==> key@.len() == self.algorithm().key_len(),
            made matches Ok(d) ==> {
                &&& d.algorithm() == self.algorithm()
                &&& d.key() == key@
                &&& d.nonces() == nonce
            },
            made matches Err(e) ==> e == CipherError::BadKey,
    {
        match make_key(self.algorithm, key) {
            Ok(enc) => Ok(AeadDecryptor { enc, nonce }),
            Err(_) => Err(CipherError::BadKey),
        }
    }
}

impl<N> AeadEncryptor<N> {
    pub closed spec fn algorithm(&self) -> Aead {
        key_algorithm(self.enc)
    }

    pub closed spec fn key(&self) -> Seq<u8> {
        key_bytes(self.enc)
    }

    pub closed spec fn nonces(&self) -> N {
        self.nonce
    }

    /// Encrypts with a given nonce.
    pub fn seal(&self, nonce: &[u8], buf: &mut Vec<u8>) -> (res: Result<(), CipherError>)
        ensures
            match res {
                Ok(()) => {
                    &&& nonce@.len() == NONCE_LEN
                    &&& old(buf)@.len() <= self.algorithm().max_len()
                    &&& final(buf)@ == sealed(self.algorithm(), self.key(), nonce@, old(buf)@)
                    &&& final(buf)@.len() == old(buf)@.len() + TAG_LEN
                    &&& opened(self.algorithm(), self.key(), nonce@, final(buf)@) == Some(
                        old(buf)@,
                    )
                },
                Err(e) => e == (if nonce@.len() != NONCE_LEN {
                    CipherError::BadNonce
                } else {
                    CipherError::TooLong
                }),
            },
            res is Ok <==> nonce@.len() == NONCE_LEN && old(buf)@.len()
                <= self.algorithm().max_len(),
            res is Err ==> final(buf)@ == old(buf)@,
    {
        let nonce = match make_nonce(nonce) {
            Ok(nonce) => nonce,
            Err(_) => return Err(CipherError::BadNonce),
        };
        match seal_append_tag(&self.enc, nonce, buf) {
            Ok(()) => Ok(()),
            Err(_) => Err(CipherError::TooLong),
        }
    }
}

impl<N> AeadDecryptor<N> {
    pub closed spec fn algorithm(&self) -> Aead {
        key_algorithm(self.enc)
    }

    pub closed spec fn key(&self) -> Seq<u8> {
        key_bytes(self.enc)
    }

    pub closed spec fn nonces(&self) -> N {
        self.nonce
    }

    /// Decrypts with a given nonce. The text stands at the front then, and the tag stays behind
    /// it. What was sealed with the same key and nonce is given back.
    pub fn open(&self, nonce: &[u8], buf: &mut Vec<u8>) -> (res: Result<(), CipherError>)
        ensures
            final(buf)@.len() == old(buf)@.len(),
            nonce@.len() != NONCE_LEN ==> final(buf)@ == old(buf)@,
            match res {
                Ok(()) => {
                    &&& nonce@.len() == NONCE_LEN
                    &&& opened(self.algorithm(), self.key(), nonce@, old(buf)@) matches Some(text)
                    &&& old(buf)@.len() == text.len() + TAG_LEN
                    &&& final(buf)@ == text + old(buf)@.skip(text.len() as int)
                },
                Err(e) => e == (if nonce@.len() != NONCE_LEN {
                    CipherError::BadNonce
                } else {
                    CipherError::Unauthentic
                }),
            },
            res is Ok <==> nonce@.len() == NONCE_LEN && opened(
                self.algorithm(),
                self.key(),
                nonce@,
                old(buf)@,
            ) is Some,
            forall|text: Seq<u8>|
                nonce@.len() == NONCE_LEN && text.len() <= self.algorithm().max_len() && old(buf)@
                    == #[trigger] sealed(self.algorithm(), self.key(), nonce@, text) ==> res is Ok
                    && final(buf)@ == text + old(buf)@.skip(text.len() as int),
    {
        let nonce = match make_nonce(nonce) {
            Ok(nonce) => nonce,
            Err(_) => return Err(CipherError::BadNonce),
        };
        match open_in_place(&self.enc, nonce, buf) {
            Ok(()) => Ok(()),
            Err(_) => Err(CipherError::Unauthentic),
        }
    }
}

impl<N: NonceAdance> Encryptor for AeadEncryptor<N> {
    /// Encrypts with the next nonce. What it makes, decrypting with the same key and nonce gives
    /// back.
    fn encypt(&mut self, buf: &mut Vec<u8>) -> (res: Result<(), CipherError>)
        ensures
            final(self).algorithm() == old(self).algorithm(),
            final(self).key() == old(self).key(),
            ({
                let upcoming = old(self).nonces().upcoming();
                let algorithm = old(self).algorithm();
                let key = old(self).key();
                match (res, encrypted(algorithm, key, upcoming, old(buf)@)) {
                    (Ok(()), Ok(data)) => {
                        &&& final(buf)@ == data
                        &&& data.len() == old(buf)@.len() + TAG_LEN
                        &&& decrypted(algorithm, key, upcoming, data) == Ok::<
                            Seq<u8>,
                            CipherError,
                        >(old(buf)@ + data.skip(old(buf)@.len() as int))
                    },
                    (Err(e), Err(error)) => e == error && final(buf)@ == old(buf)@,
                    _ => false,
                }
            }),
    {
        match self.nonce.advance() {
            Some(nonce) => self.seal(nonce.as_slice(), buf),
            None => Err(CipherError::NoNonce),
        }
    }
}

impl<N: NonceAdance> Decyptor for AeadDecryptor<N> {
    /// Decrypts with the next nonce. What was encrypted with the same key and nonce is given back.
    /// What the buffer holds after data that was not is left open.
    fn decrypt(&mut self, buf: &mut Vec<u8>) -> (res: Result<(), CipherError>)
        ensures
            final(self).algorithm() == old(self).algorithm(),
            final(self).key() == old(self).key(),
            final(buf)@.len() == old(buf)@.len(),
            match (
                res,
                decrypted(
                    old(self).algorithm(),
                    old(self).key(),
                    old(self).nonces().upcoming(),
                    old(buf)@,
                ),
            ) {
                (Ok(()), Ok(data)) => final(buf)@ == data,
                (Err(e), Err(error)) => e == error && (e is Unauthentic || final(buf)@ == old(
                    buf,
                )@),
                _ => false,
            },
            forall|text: Seq<u8>|
                #![trigger encrypted(
                    old(self).algorithm(),
                    old(self).key(),
                    old(self).nonces().upcoming(),
                    text,
                )]
                encrypted(
                    old(self).algorithm(),
                    old(self).key(),
                    old(self).nonces().upcoming(),
                    text,
                ) == Ok::<Seq<u8>, CipherError>(old(buf)@) ==> res is Ok && final(buf)@ == text
                    + old(buf)@.skip(text.len() as int),
    {
        match self.nonce.advance() {
            Some(nonce) => self.open(nonce.as_slice(), buf),
            None => Err(CipherError::NoNonce),
        }
    }
}

/// Encrypting fails for want of a nonce, for a nonce that is not twelve bytes long, or for a text
/// that is too long, and in no other case. What it gives is the text sealed with that nonce.
pub proof fn law_encrypting_takes_a_whole_nonce(
    algorithm: Aead,
    key: Seq<u8>,
    upcoming: Option<Seq<u8>>,
    text: Seq<u8>,
)
    ensures
        match encrypted(algorithm, key, upcoming, text) {
            Ok(data) => {
                &&& upcoming matches Some(nonce)
                &&& nonce.len() == 12
                &&& text.len() <= algorithm.max_len()
                &&& data == sealed(algorithm, key, nonce, text)
            },
            Err(CipherError::NoNonce) => upcoming is None,
            Err(CipherError::BadNonce) => upcoming matches Some(nonce) && nonce.len() != 12,
            Err(CipherError::TooLong) => {
                &&& upcoming matches Some(nonce)
                &&& nonce.len() == 12
                &&& text.len() > algorithm.max_len()
            },
            Err(_) => false,
        },
{
}

/// Decrypting fails for want of a nonce, for a nonce that is not twelve bytes long, or where the
/// data does not open with it, and in no other case. What it gives starts with the text, and the
/// bytes behind that stay as they were.
pub proof fn law_decrypting_puts_the_text_in_front(
    algorithm: Aead,
    key: Seq<u8>,
    upcoming: Option<Seq<u8>>,
    data: Seq<u8>,
)
    requires
        upcoming matches Some(nonce) ==> (opened(algorithm, key, nonce, data) matches Some(text)
            ==> text.len() <= data.len()),
    ensures
        match decrypted(algorithm, key, upcoming, data) {
            Ok(content) => {
                &&& upcoming matches Some(nonce)
                &&& nonce.len() == 12
                &&& opened(algorithm, key, nonce, data) matches Some(text)
                &&& content.len() == data.len()
                &&& content.take(text.len() as int) == text
                &&& content.skip(text.len() as int) == data.skip(text.len() as int)
            },
            Err(CipherError::NoNonce) => upcoming is None,
            Err(CipherError::BadNonce) => upcoming matches Some(nonce) && nonce.len() != 12,
            Err(CipherError::Unauthentic) => {
                &&& upcoming matches Some(nonce)
                &&& nonce.len() == 12
                &&& opened(algorithm, key, nonce, data) is None
            },
            Err(_) => false,
        },
{
    if let Some(nonce) = upcoming {
        if let Some(text) = opened(algorithm, key, nonce, data) {
            let content = text + data.skip(text.len() as int);
            assert(content.take(text.len() as int) =~= text);
            assert(content.skip(text.len() as int) =~= data.skip(text.len() as int));
        }
    }
}

/// Four names are known: two for ChaCha20-Poly1305 and one for each length of AES. There is no
/// algorithm of any other name.
pub proof fn law_algorithms_have_names(name: Seq<char>)
    ensures
        cipher_of("chacha20-poly1305"@) == Some(Aead::Chacha20Poly1305),
        cipher_of("chacha20-ietf-poly1305"@) == Some(Aead::Chacha20Poly1305),
        cipher_of("aes-256-gcm"@) == Some(Aead::Aes256Gcm),
        cipher_of("aes-128-gcm"@) == Some(Aead::Aes128Gcm),
        cipher_of(name) is Some ==> name == "chacha20-poly1305"@ || name
            == "chacha20-ietf-poly1305"@ || name == "aes-256-gcm"@ || name == "aes-128-gcm"@,
{
    reveal_strlit("chacha20-poly1305");
    reveal_strlit("chacha20-ietf-poly1305");
    reveal_strlit("aes-256-gcm");
    reveal_strlit("aes-128-gcm");
    assert("aes-256-gcm"@[4] == '2' && "aes-128-gcm"@[4] == '1');
    assert("aes-256-gcm"@.len() != "chacha20-poly1305"@.len());
    assert("aes-256-gcm"@.len() != "chacha20-ietf-poly1305"@.len());
    assert("aes-128-gcm"@.len() != "chacha20-poly1305"@.len());
    assert("aes-128-gcm"@.len() != "chacha20-ietf-poly1305"@.len());
}

} // verus!
