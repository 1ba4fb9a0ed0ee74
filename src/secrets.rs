use vstd::prelude::*;

use base64::engine::general_purpose;
use base64::Engine;

use crate::disk::read_array;

verus! {

/// Length of a symmetric key.
pub const KEY_SIZE_BYTES: usize = 32;

/// A secret text (a passphrase or an API token), wiped when dropped.
pub struct PasswordValue {
    pub value: String,
}

/// A 256-bit symmetric key, wiped when dropped.
pub struct AesKeyValue {
    pub value: [u8; 32],
}

/// Relies on zeroize's `Zeroize` for `String`: the bytes are overwritten with
/// zeros and the string is left empty.
#[verifier::external_body]
fn wipe_text(s: &mut String)
    ensures
        final(s)@.len() == 0,
    opens_invariants none
    no_unwind
{
    zeroize::Zeroize::zeroize(s)
}

/// Relies on zeroize's `Zeroize` for byte arrays: every byte is overwritten
/// with zero.
#[verifier::external_body]
fn wipe_bytes(b: &mut [u8; 32])
    ensures
        final(b)@ == Seq::new(32, |i: int| 0u8),
    opens_invariants none
    no_unwind
{
    zeroize::Zeroize::zeroize(b)
}

impl Drop for PasswordValue {
    fn drop(&mut self)
        opens_invariants none
        no_unwind
    {
        wipe_text(&mut self.value);
    }
}

impl Drop for AesKeyValue {
    fn drop(&mut self)
        opens_invariants none
        no_unwind
    {
        wipe_bytes(&mut self.value);
    }
}

impl Default for AesKeyValue {
    /// The all-zero key.
    fn default() -> (r: Self)
        ensures
            r.value@ == Seq::new(32, |i: int| 0u8),
    {
        let r = AesKeyValue { value: [0u8; 32] };
        assert(r.value@ =~= Seq::new(32, |i: int| 0u8));
        r
    }
}

impl From<String> for PasswordValue {
    fn from(value: String) -> (r: Self)
        ensures
            r.value == value,
    {
        PasswordValue { value }
    }
}

impl vstd::std_specs::convert::FromSpecImpl<String> for PasswordValue {
    open spec fn obeys_from_spec() -> bool {
        true
    }

    open spec fn from_spec(v: String) -> PasswordValue {
        PasswordValue { value: v }
    }
}

/// The padded standard base64 text of some bytes.
pub uninterp spec fn base64_text(bytes: Seq<u8>) -> Seq<char>;

/// The bytes that a padded standard base64 text stands for, if it is one.
pub uninterp spec fn base64_bytes(text: Seq<char>) -> Option<Seq<u8>>;

/// Relies on base64's `general_purpose::STANDARD.encode`: the padded
/// standard base64 text of the bytes.
#[verifier::external_body]
fn base64_encode(bytes: &[u8]) -> (r: String)
    ensures
        r@ == base64_text(bytes@),
{
    general_purpose::STANDARD.encode(bytes)
}

/// Relies on base64's `general_purpose::STANDARD.decode`: the bytes that a
/// padded standard base64 text stands for; the text that `encode` gave for
/// some bytes decodes to those bytes.
#[verifier::external_body]
fn base64_decode(text: &str) -> (r: Option<Vec<u8>>)
    ensures
        r is None <==> (base64_bytes(text@) is None),
        r is Some ==> base64_bytes(text@) == Some(r.unwrap()@),
        forall|b: Seq<u8>|
            #![trigger base64_text(b)]
            base64_text(b) == text@ ==> (r is Some && r.unwrap()@ == b),
{
    general_purpose::STANDARD.decode(text).ok()
}

impl AesKeyValue {
    /// The text under which this key is kept in the secret vault.
    pub fn to_vault_text(&self) -> (r: PasswordValue)
        ensures
            r.value@ == base64_text(self.value@),
    {
        PasswordValue { value: base64_encode(self.value.as_slice()) }
    }

    /// The key that the secret vault keeps under this text: none unless the
    /// text decodes to exactly 32 bytes. A key reads back from its own text.
    pub fn from_vault_text(text: &PasswordValue) -> (r: Option<AesKeyValue>)
        ensures
            match base64_bytes(text.value@) {
                Some(b) => if b.len() == KEY_SIZE_BYTES {
                    r matches Some(k) && k.value@ == b
                } else {
                    r is None
                },
                None => r is None,
            },
            forall|key: Seq<u8>|
                #![trigger base64_text(key)]
                key.len() == KEY_SIZE_BYTES && base64_text(key) == text.value@ ==> (r matches Some(k)
                    && k.value@ == key),
    {
        match base64_decode(text.value.as_str()) {
            Some(bytes) => {
                if bytes.len() == KEY_SIZE_BYTES {
                    let value: [u8; 32] = read_array(bytes.as_slice(), 0);
                    assert(bytes@.subrange(0, 32) =~= bytes@);
                    Some(AesKeyValue { value })
                } else {
                    None
                }
            },
            None => None,
        }
    }
}

/// Credentials for the remote alias service.
pub struct FastMailAccount {
    pub bearer: PasswordValue,
}

/// The secret vault failed, for another reason than a missing entry.
#[derive(Debug)]
pub struct PasswordStorageError(pub String);

} // verus!
