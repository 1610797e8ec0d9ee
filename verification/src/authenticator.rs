//! Access credentials: a pair of keys, checked against each other, that
//! signs requests. Reading the keys from the environment or from a file is
//! left to the caller.

use crate::pattern::{match_outcome, test_pattern};
use vstd::prelude::*;
use vstd::string::StringExecFns;

verus! {

/// The keys as a credentials file holds them.
#[derive(Debug)]
pub struct CredentialsJson {
    pub access_key: String,
    pub secret_key: String,
}

/// Why a pair of keys was turned down.
#[derive(Clone, Copy, Debug, PartialEq, Eq, Structural)]
pub enum CredentialsError {
    /// The access key is not `lha_` and up to a hundred digits and small letters.
    InvalidAccessKeyFormat,
    /// The secret key is not `lhs_` and up to a hundred digits and small letters.
    InvalidSecretKeyFormat,
    /// What follows `lha_` is no base32 text.
    UndecodableAccessKey,
    /// What follows `lhs_` is no base32 text.
    UndecodableSecretKey,
    /// The access key does not decode to 32 bytes.
    InvalidAccessKeyLength,
    /// The secret key does not decode to 32 bytes.
    InvalidSecretKeyLength,
    /// The access key is not the public key of the secret key.
    KeyMismatch,
}

impl CredentialsError {
    /// The error in words.
    pub fn message(&self) -> (text: &'static str)
        ensures
            text@ == match *self {
                CredentialsError::InvalidAccessKeyFormat => "invalid access key format"@,
                CredentialsError::InvalidSecretKeyFormat => "invalid secret key format"@,
                CredentialsError::UndecodableAccessKey => "invalid access key encoding"@,
                CredentialsError::UndecodableSecretKey => "invalid secret key encoding"@,
                CredentialsError::InvalidAccessKeyLength => "invalid access key length"@,
                CredentialsError::InvalidSecretKeyLength => "invalid secret key length"@,
                CredentialsError::KeyMismatch => "secret key does not match access key"@,
            },
    {
        match self {
            CredentialsError::InvalidAccessKeyFormat => "invalid access key format",
            CredentialsError::InvalidSecretKeyFormat => "invalid secret key format",
            CredentialsError::UndecodableAccessKey => "invalid access key encoding",
            CredentialsError::UndecodableSecretKey => "invalid secret key encoding",
            CredentialsError::InvalidAccessKeyLength => "invalid access key length",
            CredentialsError::InvalidSecretKeyLength => "invalid secret key length",
            CredentialsError::KeyMismatch => "secret key does not match access key",
        }
    }
}

/// What `data_encoding::BASE32_NOPAD` decodes a text into, or nothing
/// where the text is not in that encoding.
pub uninterp spec fn base32_decoded(text: Seq<u8>) -> Option<Seq<u8>>;

/// What `data_encoding::BASE64` encodes bytes into.
pub uninterp spec fn base64_text(bytes: Seq<u8>) -> Seq<char>;

/// The Ed25519 public key that belongs to a secret key of 32 bytes, as
/// `ed25519_dalek` derives it.
pub uninterp spec fn ed25519_public(secret: Seq<u8>) -> Seq<u8>;

/// The Ed25519 signature of a message under a secret key of 32 bytes, as
/// `ed25519_dalek` computes it.
pub uninterp spec fn ed25519_signature(secret: Seq<u8>, message: Seq<u8>) -> Seq<u8>;

/// Calls `Encoding::decode` on `data_encoding::BASE32_NOPAD`. Trusted: the
/// outcome depends on the text alone.
#[verifier::external_body]
fn base32_decode(text: &[u8]) -> (bytes: Option<Vec<u8>>)
    ensures
        bytes.deep_view() == base32_decoded(text@),
{
    data_encoding::BASE32_NOPAD.decode(text).ok()
}

/// Calls `Encoding::encode` on `data_encoding::BASE64`. Trusted: the text
/// depends on the bytes alone.
#[verifier::external_body]
fn base64_encode(bytes: &[u8]) -> (text: String)
    ensures
        text@ == base64_text(bytes@),
{
    data_encoding::BASE64.encode(bytes)
}

/// Derives the public key of a secret key with `PublicKey::from` of
/// `ed25519_dalek`. Trusted: the key has 32 bytes and depends on the secret
/// key alone. `SecretKey::from_bytes` takes exactly 32 bytes.
#[verifier::external_body]
fn derive_public(secret: &[u8]) -> (public: Vec<u8>)
    requires
        secret@.len() == 32,
    ensures
        public@ == ed25519_public(secret@),
        public@.len() == 32,
{
    let sk = ed25519_dalek::SecretKey::from_bytes(secret).unwrap();
    ed25519_dalek::PublicKey::from(&sk).to_bytes().to_vec()
}

/// Signs a message with `Keypair::sign` of `ed25519_dalek`. Trusted: the
/// signature depends on the secret key and the message alone.
#[verifier::external_body]
fn sign_message(secret: &[u8], message: &[u8]) -> (signature: Vec<u8>)
    requires
        secret@.len() == 32,
    ensures
        signature@ == ed25519_signature(secret@, message@),
{
    let sk = ed25519_dalek::SecretKey::from_bytes(secret).unwrap();
    let public = ed25519_dalek::PublicKey::from(&sk);
    let keypair = ed25519_dalek::Keypair { secret: sk, public };
    ed25519_dalek::Signer::sign(&keypair, message).to_bytes().to_vec()
}

/// The pattern of an access key.
pub open spec fn access_key_pattern() -> Seq<char> {
    "^lha_([0-9a-z]{1,100})$"@
}

/// The pattern of a secret key.
pub open spec fn secret_key_pattern() -> Seq<char> {
    "^lhs_([0-9a-z]{1,100})$"@
}

/// A byte with a small letter turned into the capital.
pub open spec fn upper(b: u8) -> u8 {
    if 97 <= b <= 122 {
        (b - 32) as u8
    } else {
        b
    }
}

/// What follows the first four bytes of a key, small letters turned into
/// capitals; nothing where the key is shorter.
pub open spec fn key_body(key: Seq<u8>) -> Option<Seq<u8>> {
    if key.len() >= 4 {
        Some(Seq::new((key.len() - 4) as nat, |i: int| upper(key[i + 4])))
    } else {
        None
    }
}

/// The bytes that a text takes.
pub open spec fn bytes_of(text: Seq<char>) -> Seq<u8> {
    vstd::utf8::encode_utf8(text)
}

/// The secret and the public key that a pair of key texts stands for, or
/// the first reason to turn the pair down. Both texts must match their
/// pattern; what follows the prefix must decode, in capitals, to 32 bytes
/// each; and the access key must be the public key of the secret key.
pub open spec fn checked_keys(ak: Seq<char>, sk: Seq<char>) -> Result<(Seq<u8>, Seq<u8>), CredentialsError> {
    if match_outcome(access_key_pattern(), ak) != Some(true) || key_body(bytes_of(ak)) is None {
        Err(CredentialsError::InvalidAccessKeyFormat)
    } else if match_outcome(secret_key_pattern(), sk) != Some(true) || key_body(bytes_of(sk)) is None {
        Err(CredentialsError::InvalidSecretKeyFormat)
    } else {
        match judged_decoded(
            base32_decoded(key_body(bytes_of(ak)).unwrap()),
            base32_decoded(key_body(bytes_of(sk)).unwrap()),
        ) {
            Err(e) => Err(e),
            Ok((ak_bin, sk_bin)) => if ed25519_public(sk_bin) != ak_bin {
                Err(CredentialsError::KeyMismatch)
            } else {
                Ok((sk_bin, ak_bin))
            },
        }
    }
}

/// What becomes of a pair of decoded keys: the keys themselves, or the
/// first thing wrong with them. A key that did not decode comes first,
/// the access key before the secret key, then a key that is not 32 bytes
/// long, the access key before the secret key.
pub open spec fn judged_decoded(ak_bin: Option<Seq<u8>>, sk_bin: Option<Seq<u8>>) -> Result<
    (Seq<u8>, Seq<u8>),
    CredentialsError,
> {
    match ak_bin {
        None => Err(CredentialsError::UndecodableAccessKey),
        Some(a) => match sk_bin {
            None => Err(CredentialsError::UndecodableSecretKey),
            Some(s) => if a.len() != 32 {
                Err(CredentialsError::InvalidAccessKeyLength)
            } else if s.len() != 32 {
                Err(CredentialsError::InvalidSecretKeyLength)
            } else {
                Ok((a, s))
            },
        },
    }
}

/// Decides whether a pair of decoded keys can be a pair of keys.
pub fn judge_decoded(ak_bin: Option<Vec<u8>>, sk_bin: Option<Vec<u8>>) -> (verdict: Result<
    (Vec<u8>, Vec<u8>),
    CredentialsError,
>)
    ensures
        match judged_decoded(ak_bin.deep_view(), sk_bin.deep_view()) {
            Ok((a, s)) => verdict matches Ok((ak, sk)) && ak@ == a && sk@ == s,
            Err(e) => verdict == Err::<(Vec<u8>, Vec<u8>), CredentialsError>(e),
        },
{
    match ak_bin {
        None => Err(CredentialsError::UndecodableAccessKey),
        Some(a) => match sk_bin {
            None => Err(CredentialsError::UndecodableSecretKey),
            Some(s) => {
                assert(a.deep_view() =~= a@);
                assert(s.deep_view() =~= s@);
                if a.len() != 32 {
                    Err(CredentialsError::InvalidAccessKeyLength)
                } else if s.len() != 32 {
                    Err(CredentialsError::InvalidSecretKeyLength)
                } else {
                    Ok((a, s))
                }
            },
        },
    }
}

/// Decides whether an access key is the public key derived from the
/// secret key.
pub fn judge_pair(ak_bin: &Vec<u8>, public: &Vec<u8>) -> (verdict: Result<(), CredentialsError>)
    ensures
        verdict == if ak_bin@ == public@ {
            Ok::<(), CredentialsError>(())
        } else {
            Err(CredentialsError::KeyMismatch)
        },
{
    if same_bytes(public, ak_bin) {
        Ok(())
    } else {
        Err(CredentialsError::KeyMismatch)
    }
}

/// Reads what follows the prefix of a key, in capitals.
fn read_key_body(key: &str) -> (body: Option<Vec<u8>>)
    ensures
        body.deep_view() == key_body(bytes_of(key@)),
{
    let bytes = key.as_bytes();
    if bytes.len() < 4 {
        return None;
    }
    let mut body: Vec<u8> = Vec::new();
    let mut i: usize = 4;
    while i < bytes.len()
        invariant
            4 <= i <= bytes.len(),
            bytes@ == bytes_of(key@),
            body@.len() == i - 4,
            forall|k: int| 0 <= k < body@.len() ==> body@[k] == upper(bytes@[k + 4]),
        decreases bytes.len() - i,
    {
        let b = bytes[i];
        let up: u8 = if 97 <= b && b <= 122 {
            b - 32
        } else {
            b
        };
        body.push(up);
        i = i + 1;
    }
    assert(body@ =~= key_body(bytes_of(key@)).unwrap());
    assert(body.deep_view() =~= body@);
    Some(body)
}

/// Whether two byte strings are the same.
fn same_bytes(a: &Vec<u8>, b: &Vec<u8>) -> (same: bool)
    ensures
        same == (a@ == b@),
{
    if a.len() != b.len() {
        return false;
    }
    let mut i: usize = 0;
    while i < a.len()
        invariant
            i <= a.len(),
            a.len() == b.len(),
            forall|k: int| 0 <= k < i ==> a@[k] == b@[k],
        decreases a.len() - i,
    {
        if a[i] != b[i] {
            return false;
        }
        i = i + 1;
    }
    assert(a@ =~= b@);
    true
}

/// The character of a decimal digit.
pub open spec fn digit_char(d: nat) -> char {
    if d == 0 {
        '0'
    } else if d == 1 {
        '1'
    } else if d == 2 {
        '2'
    } else if d == 3 {
        '3'
    } else if d == 4 {
        '4'
    } else if d == 5 {
        '5'
    } else if d == 6 {
        '6'
    } else if d == 7 {
        '7'
    } else if d == 8 {
        '8'
    } else {
        '9'
    }
}

/// A number written in decimal, without leading zeros.
pub open spec fn decimal(n: nat) -> Seq<char>
    decreases n,
{
    if n < 10 {
        seq![digit_char(n)]
    } else {
        decimal(n / 10).push(digit_char(n % 10))
    }
}

fn digit_text(d: u64) -> (text: &'static str)
    requires
        d < 10,
    ensures
        text@ == seq![digit_char(d as nat)],
{
    proof {
        reveal_strlit("0");
        reveal_strlit("1");
        reveal_strlit("2");
        reveal_strlit("3");
        reveal_strlit("4");
        reveal_strlit("5");
        reveal_strlit("6");
        reveal_strlit("7");
        reveal_strlit("8");
        reveal_strlit("9");
    }
    let text = if d == 0 {
        "0"
    } else if d == 1 {
        "1"
    } else if d == 2 {
        "2"
    } else if d == 3 {
        "3"
    } else if d == 4 {
        "4"
    } else if d == 5 {
        "5"
    } else if d == 6 {
        "6"
    } else if d == 7 {
        "7"
    } else if d == 8 {
        "8"
    } else {
        "9"
    };
    assert(text@ =~= seq![digit_char(d as nat)]);
    text
}

/// Writes a number in decimal.
pub fn decimal_text(n: u64) -> (text: String)
    ensures
        text@ == decimal(n as nat),
    decreases n,
{
    if n < 10 {
        digit_text(n).to_owned()
    } else {
        let mut text = decimal_text(n / 10);
        let ghost front = text@;
        text.append(digit_text(n % 10));
        assert(text@ =~= front.push(digit_char((n % 10) as nat)));
        text
    }
}

/// The text that is signed for a request made at `time_sec`, in seconds
/// since the epoch.
pub open spec fn payload(time_sec: u64) -> Seq<char> {
    "request:"@ + decimal(time_sec as nat)
}

/// The header fields that mark a request as made with these keys at a
/// given time: the access key, the time, and the signature of the time.
pub open spec fn signed_headers(ak: Seq<char>, secret: Seq<u8>, time_sec: u64) -> Seq<(Seq<char>, Seq<char>)> {
    seq![
        ("x-lighthouse-access-key"@, ak),
        ("x-lighthouse-request-time"@, decimal(time_sec as nat)),
        (
            "x-lighthouse-request-signature"@,
            base64_text(ed25519_signature(secret, bytes_of(payload(time_sec)))),
        ),
    ]
}

/// A checked pair of keys.
pub struct Credentials {
    ak: String,
    secret: Vec<u8>,
    public: Vec<u8>,
}

impl Credentials {
    #[verifier::type_invariant]
    closed spec fn inv(self) -> bool {
        self.secret@.len() == 32
    }

    /// The access key as it was given.
    pub closed spec fn access_key(self) -> Seq<char> {
        self.ak@
    }

    /// The 32 bytes of the secret key.
    pub closed spec fn secret_key(self) -> Seq<u8> {
        self.secret@
    }

    /// The 32 bytes of the public key.
    pub closed spec fn public_key(self) -> Seq<u8> {
        self.public@
    }

    /// Checks a pair of keys and keeps them.
    pub fn init(keys: &CredentialsJson) -> (checked: Result<Credentials, CredentialsError>)
        ensures
            match checked_keys(keys.access_key@, keys.secret_key@) {
                Ok((secret, public)) => checked matches Ok(c) && c.access_key() == keys.access_key@
                    && c.secret_key() == secret && c.public_key() == public,
                Err(e) => checked == Err::<Credentials, CredentialsError>(e),
            },
    {
        let ak = keys.access_key.as_str();
        let sk = keys.secret_key.as_str();
        let ak_body = match (test_pattern("^lha_([0-9a-z]{1,100})$", ak), read_key_body(ak)) {
            (Some(true), Some(body)) => body,
            _ => {
                return Err(CredentialsError::InvalidAccessKeyFormat);
            },
        };
        let sk_body = match (test_pattern("^lhs_([0-9a-z]{1,100})$", sk), read_key_body(sk)) {
            (Some(true), Some(body)) => body,
            _ => {
                return Err(CredentialsError::InvalidSecretKeyFormat);
            },
        };
        assert(ak_body.deep_view() =~= ak_body@);
        assert(sk_body.deep_view() =~= sk_body@);
        let ak_bin = base32_decode(ak_body.as_slice());
        let sk_bin = base32_decode(sk_body.as_slice());
        let (ak_bin, sk_bin) = match judge_decoded(ak_bin, sk_bin) {
            Ok(pair) => pair,
            Err(e) => {
                return Err(e);
            },
        };
        let computed_pubkey = derive_public(sk_bin.as_slice());
        match judge_pair(&ak_bin, &computed_pubkey) {
            Ok(()) => {},
            Err(e) => {
                return Err(e);
            },
        }
        Ok(Credentials { ak: keys.access_key.clone(), secret: sk_bin, public: computed_pubkey })
    }

    /// The signature of a request made at `time_sec`, in base64.
    pub fn sign(&self, time_sec: u64) -> (signature: String)
        ensures
            signature@ == base64_text(ed25519_signature(self.secret_key(), bytes_of(payload(time_sec)))),
    {
        proof {
            use_type_invariant(self);
        }
        let mut text = "request:".to_owned();
        text.append(decimal_text(time_sec).as_str());
        let sig = sign_message(self.secret.as_slice(), text.as_str().as_bytes());
        base64_encode(sig.as_slice())
    }

    /// The header fields to add to a request made at `current_time`, in
    /// seconds since the epoch, each as its name and its value.
    pub fn annotate_request(&self, current_time: u64) -> (headers: Vec<(String, String)>)
        ensures
            headers.deep_view() == signed_headers(self.access_key(), self.secret_key(), current_time),
    {
        let sig = self.sign(current_time);
        let mut headers: Vec<(String, String)> = Vec::new();
        headers.push(("x-lighthouse-access-key".to_owned(), self.ak.clone()));
        headers.push(("x-lighthouse-request-time".to_owned(), decimal_text(current_time)));
        headers.push(("x-lighthouse-request-signature".to_owned(), sig));
        assert(headers.deep_view() =~= signed_headers(self.access_key(), self.secret_key(), current_time));
        headers
    }
}

} // verus!
