//! Checks who published a checksum file.
//!
//! A checksum only proves that a file arrived whole: it comes from the same place as the file, so
//! whoever could replace one could replace both. yt-dlp also signs its checksum file (a detached
//! OpenPGP signature), and the key it must be signed with is part of the application
//! ([`SignedBy`]).
use std::io::Cursor;

use pgp::composed::{Deserializable, DetachedSignature, SignedPublicKey};
use pgp::types::KeyDetails;
use vstd::prelude::*;

use super::platform::SignedBy;
use super::Error;
use crate::text;

verus! {

// ---------------------------------------------------------------------------
// What the OpenPGP library says of a key and a signature
// ---------------------------------------------------------------------------

/// The fingerprint of the key in an armored text, when the text can be read as a key.
pub uninterp spec fn key_fingerprint(key: Seq<char>) -> Option<Seq<char>>;

/// Whether the bindings of the key in an armored text are valid, or why they aren't.
pub uninterp spec fn key_bindings(key: Seq<char>) -> Result<(), Seq<char>>;

/// How many subkeys the key in an armored text has.
pub uninterp spec fn key_subkeys(key: Seq<char>) -> nat;

/// Whether some bytes can be read as a detached signature.
pub uninterp spec fn signature_form(signature: Seq<u8>) -> bool;

/// Whether a signature of `data` was made with the primary key in an armored text.
pub uninterp spec fn signed_by_primary(key: Seq<char>, signature: Seq<u8>, data: Seq<u8>) -> bool;

/// Whether a signature of `data` was made with a subkey, by its place, of the key in an armored
/// text.
pub uninterp spec fn signed_by_subkey(
    key: Seq<char>,
    signature: Seq<u8>,
    data: Seq<u8>,
    place: nat,
) -> bool;

/// What reading a key gave, for contracts.
pub open spec fn reading(r: Result<String, String>) -> Result<Seq<char>, Seq<char>> {
    match r {
        Ok(s) => Ok(s@),
        Err(e) => Err(e@),
    }
}

/// What a check without a result of its own gave, for contracts.
pub open spec fn checking(r: Result<(), String>) -> Result<(), Seq<char>> {
    match r {
        Ok(()) => Ok(()),
        Err(e) => Err(e@),
    }
}

/// Reads an armored key with `SignedPublicKey::from_armor_single` and writes its `fingerprint()`
/// in lower case hexadecimal; an error is handed on as its text. Whether there is a fingerprint,
/// and which, depends on the armored text alone, and a fingerprint is a row of hexadecimal digits,
/// which are ASCII. Nothing is said of the text of an error: it may hold a backtrace, which is up
/// to the environment.
#[verifier::external_body]
fn read_fingerprint(key: &str) -> (r: Result<String, String>)
    ensures
        match r {
            Ok(fingerprint) => key_fingerprint(key@) == Some(fingerprint@) && super::ascii(
                fingerprint@,
            ),
            Err(_) => key_fingerprint(key@) is None,
        },
{
    match SignedPublicKey::from_armor_single(Cursor::new(key)) {
        Ok((key, _)) => Ok(format!("{:x}", key.fingerprint())),
        Err(e) => Err(format!("{e}")),
    }
}

/// Checks the bindings of a readable armored key with `SignedPublicKey::verify_bindings`; an error
/// is handed on as its text. The answer depends on the armored text alone: no clock is read.
#[verifier::external_body]
fn read_bindings(key: &str) -> (r: Result<(), String>)
    requires
        key_fingerprint(key@) is Some,
    ensures
        checking(r) == key_bindings(key@),
{
    match SignedPublicKey::from_armor_single(Cursor::new(key)) {
        Ok((key, _)) => key.verify_bindings().map_err(|e| format!("{e}")),
        Err(e) => Err(format!("{e}")),
    }
}

/// Counts the `public_subkeys` of a readable armored key, which depends on the armored text alone.
#[verifier::external_body]
fn read_subkeys(key: &str) -> (r: usize)
    requires
        key_fingerprint(key@) is Some,
    ensures
        r == key_subkeys(key@),
{
    match SignedPublicKey::from_armor_single(Cursor::new(key)) {
        Ok((key, _)) => key.public_subkeys.len(),
        Err(_) => 0,
    }
}

/// Reads a detached signature with `DetachedSignature::from_bytes`; an error is handed on as its
/// text. Whether it can be read depends on the bytes alone. Nothing is said of the text of an
/// error: it may hold a backtrace, which is up to the environment.
#[verifier::external_body]
fn read_signature(signature: &[u8]) -> (r: Result<(), String>)
    ensures
        r is Ok == signature_form(signature@),
{
    match DetachedSignature::from_bytes(Cursor::new(signature)) {
        Ok(_) => Ok(()),
        Err(e) => Err(format!("{e}")),
    }
}

/// Checks a readable signature with `DetachedSignature::verify` against the primary key of a
/// readable armored key. The answer depends on the key, the signature and the data alone.
#[verifier::external_body]
fn verify_primary(key: &str, signature: &[u8], data: &[u8]) -> (r: bool)
    requires
        key_fingerprint(key@) is Some,
        signature_form(signature@),
    ensures
        r == signed_by_primary(key@, signature@, data@),
{
    let key = SignedPublicKey::from_armor_single(Cursor::new(key));
    match (key, DetachedSignature::from_bytes(Cursor::new(signature))) {
        (Ok((key, _)), Ok(signature)) => signature.verify(&key, data).is_ok(),
        _ => false,
    }
}

/// Checks a readable signature with `DetachedSignature::verify` against one of the
/// `public_subkeys` of a readable armored key. The answer depends on the key, the signature, the
/// data and the subkey's place alone.
#[verifier::external_body]
fn verify_subkey(key: &str, signature: &[u8], data: &[u8], place: usize) -> (r: bool)
    requires
        key_fingerprint(key@) is Some,
        signature_form(signature@),
        place < key_subkeys(key@),
    ensures
        r == signed_by_subkey(key@, signature@, data@, place as nat),
{
    let key = SignedPublicKey::from_armor_single(Cursor::new(key));
    match (key, DetachedSignature::from_bytes(Cursor::new(signature))) {
        (Ok((key, _)), Ok(signature)) => signature.verify(&key.public_subkeys[place], data).is_ok(),
        _ => false,
    }
}

// ---------------------------------------------------------------------------
// What is made of that
// ---------------------------------------------------------------------------

/// The error of checksums that are not trusted for `reason`.
pub open spec fn refusal(reason: Seq<char>) -> Error<Seq<char>> {
    Error::Checksum("Refusing to trust the checksums: "@ + reason + "."@)
}

pub fn refused(reason: &str) -> (r: Error)
    ensures
        r@ == refusal(reason@),
{
    Error::Checksum(text::concat3("Refusing to trust the checksums: ", reason, "."))
}

/// What is made of a key that was read as `found` when it should have the fingerprint `expected`.
pub open spec fn fingerprint_verdict(
    found: Result<Seq<char>, Seq<char>>,
    expected: Seq<char>,
) -> Result<(), Error<Seq<char>>> {
    match found {
        Err(e) => Err(refusal("the signing key can't be read ("@ + e + ")"@)),
        Ok(fingerprint) => if text::same_letters(fingerprint, expected) {
            Ok(())
        } else {
            Err(refusal("the signing key is "@ + fingerprint + ", not "@ + expected))
        },
    }
}

/// What is made of a key that was read as `found` when it should have the fingerprint `expected`:
/// a swapped key must not quietly become the new authority.
pub fn judge_fingerprint(found: &Result<String, String>, expected: &str) -> (r: Result<(), Error>)
    ensures
        super::outcome(r) == fingerprint_verdict(reading(*found), expected@),
{
    match found {
        Err(e) => Err(
            refused(text::concat3("the signing key can't be read (", e.as_str(), ")").as_str()),
        ),
        Ok(fingerprint) => if text::eq_ignore_ascii_case(fingerprint.as_str(), expected) {
            Ok(())
        } else {
            let mut reason: String = text::concat3(
                "the signing key is ",
                fingerprint.as_str(),
                ", not ",
            );
            reason.append(expected);
            Err(refused(reason.as_str()))
        },
    }
}

/// What is made of the bindings of the key.
pub open spec fn bindings_verdict(bindings: Result<(), Seq<char>>) -> Result<(), Error<Seq<char>>> {
    match bindings {
        Ok(()) => Ok(()),
        Err(e) => Err(refusal("the signing key is not valid ("@ + e + ")"@)),
    }
}

pub fn judge_bindings(bindings: &Result<(), String>) -> (r: Result<(), Error>)
    ensures
        super::outcome(r) == bindings_verdict(checking(*bindings)),
{
    match bindings {
        Ok(()) => Ok(()),
        Err(e) => Err(
            refused(text::concat3("the signing key is not valid (", e.as_str(), ")").as_str()),
        ),
    }
}

/// What is made of a signature that was read as `form` and checked against the key.
pub open spec fn signature_verdict(form: Result<(), Seq<char>>, signed: bool) -> Result<
    (),
    Error<Seq<char>>,
> {
    match form {
        Err(e) => Err(refusal("the signature can't be read ("@ + e + ")"@)),
        Ok(()) => if signed {
            Ok(())
        } else {
            Err(refusal("the checksum file is not signed by the expected key"@))
        },
    }
}

pub fn judge_signature(form: &Result<(), String>, signed: bool) -> (r: Result<(), Error>)
    ensures
        super::outcome(r) == signature_verdict(checking(*form), signed),
{
    match form {
        Err(e) => Err(
            refused(text::concat3("the signature can't be read (", e.as_str(), ")").as_str()),
        ),
        Ok(()) => if signed {
            Ok(())
        } else {
            Err(refused("the checksum file is not signed by the expected key"))
        },
    }
}

/// Whether the key of `signer` is the one its fingerprint names, and valid. `reason` is why it
/// can't be read, when it can't.
pub open spec fn key_verdict(signer: SignedBy<Seq<char>>, reason: Seq<char>) -> Result<
    (),
    Error<Seq<char>>,
> {
    let found = match key_fingerprint(signer.key) {
        Some(fingerprint) => Ok(fingerprint),
        None => Err(reason),
    };
    match fingerprint_verdict(found, signer.fingerprint) {
        Err(e) => Err(e),
        Ok(()) => bindings_verdict(key_bindings(signer.key)),
    }
}

/// Checks the compiled-in key: it has to be the one its fingerprint names, and valid.
pub fn trusted_key(signer: &SignedBy) -> (r: Result<(), Error>)
    ensures
        exists|reason: Seq<char>| super::outcome(r) == #[trigger] key_verdict(signer@, reason),
        r is Ok ==> super::ascii(signer.fingerprint@),
{
    let found: Result<String, String> = read_fingerprint(signer.key.as_str());
    let ghost reason = reading(found)->Err_0;
    match judge_fingerprint(&found, signer.fingerprint.as_str()) {
        Err(e) => {
            proof {
                assert(Err::<(), Error<Seq<char>>>(e@) == key_verdict(signer@, reason));
            }
            return Err(e);
        },
        Ok(()) => {},
    }
    proof {
        let fingerprint = found->Ok_0@;
        let expected = signer.fingerprint@;
        assert forall|i: int| 0 <= i < expected.len() implies (#[trigger] expected[i]) as u32
            <= 127 by {
            assert(text::lower(fingerprint[i]) == text::lower(expected[i]));
            assert(fingerprint[i] as u32 <= 127);
        }
    }
    let r: Result<(), Error> = judge_bindings(&read_bindings(signer.key.as_str()));
    proof {
        assert(super::outcome(r) == key_verdict(signer@, reason));
    }
    r
}

/// Whether a signature of `data` was made with the primary key or with one of the subkeys.
pub open spec fn signed_by(key: Seq<char>, signature: Seq<u8>, data: Seq<u8>) -> bool {
    signed_by_primary(key, signature, data) || exists|place: nat|
        place < key_subkeys(key) && #[trigger] signed_by_subkey(key, signature, data, place)
}

/// The verdict on a checksum file: the key of `signer` has to be the one its fingerprint names,
/// and `signature` a signature of `data` by that key. `reason` is why the key or the signature
/// can't be read, when one can't.
pub open spec fn verdict(
    data: Seq<u8>,
    signature: Seq<u8>,
    signer: SignedBy<Seq<char>>,
    reason: Seq<char>,
) -> Result<(), Error<Seq<char>>> {
    match key_verdict(signer, reason) {
        Err(e) => Err(e),
        Ok(()) => signature_verdict(
            if signature_form(signature) {
                Ok(())
            } else {
                Err(reason)
            },
            signed_by(signer.key, signature, data),
        ),
    }
}

/// Whether `checked` is the verdict on a checksum file, whatever made a key or a signature
/// unreadable.
pub open spec fn is_verdict(
    data: Seq<u8>,
    signature: Seq<u8>,
    signer: SignedBy<Seq<char>>,
    checked: Result<(), Error<Seq<char>>>,
) -> bool {
    exists|reason: Seq<char>| checked == #[trigger] verdict(data, signature, signer, reason)
}

/// Whether `signature` is a signature of `data` by the key of `signer`, and that key is valid and
/// the one its fingerprint names.
pub open spec fn accepts(
    data: Seq<u8>,
    signature: Seq<u8>,
    signer: SignedBy<Seq<char>>,
) -> bool {
    &&& key_fingerprint(signer.key) matches Some(fingerprint)
    &&& text::same_letters(fingerprint, signer.fingerprint)
    &&& key_bindings(signer.key) is Ok
    &&& signature_form(signature)
    &&& signed_by(signer.key, signature, data)
}

/// `Ok` only when `signature` is a valid signature of `data` by the key in `signer`, and that key
/// really has the fingerprint `signer` expects. Only why a key or a signature can't be read is left
/// open: it is the OpenPGP library's own text.
pub fn verify(data: &[u8], signature: &[u8], signer: &SignedBy) -> (r: Result<(), Error>)
    ensures
        is_verdict(data@, signature@, signer@, super::outcome(r)),
        r is Ok <==> accepts(data@, signature@, signer@),
        r is Ok ==> super::ascii(signer.fingerprint@),
{
    match trusted_key(signer) {
        Err(e) => {
            proof {
                let reason = choose|reason: Seq<char>|
                    Err::<(), Error<Seq<char>>>(e@) == #[trigger] key_verdict(signer@, reason);
                assert(Err::<(), Error<Seq<char>>>(e@) == verdict(
                    data@,
                    signature@,
                    signer@,
                    reason,
                ));
            }
            return Err(e);
        },
        Ok(()) => {},
    }
    let form: Result<(), String> = read_signature(signature);
    let ghost reason = checking(form)->Err_0;
    proof {
        let other = choose|other: Seq<char>|
            Ok::<(), Error<Seq<char>>>(()) == #[trigger] key_verdict(signer@, other);
        assert(key_verdict(signer@, other) == key_verdict(signer@, reason));
    }
    if form.is_err() {
        let r: Result<(), Error> = judge_signature(&form, false);
        proof {
            assert(super::outcome(r) == verdict(data@, signature@, signer@, reason));
        }
        return r;
    }
    let key: &str = signer.key.as_str();
    // Normally made with the primary key; a signing subkey is accepted too.
    let mut signed: bool = verify_primary(key, signature, data);
    if !signed {
        let count: usize = read_subkeys(key);
        let mut place: usize = 0;
        while place < count && !signed
            invariant
                key@ == signer.key@,
                key_fingerprint(key@) is Some,
                signature_form(signature@),
                place <= count == key_subkeys(key@),
                !signed_by_primary(key@, signature@, data@),
                signed == exists|p: nat|
                    p < place && #[trigger] signed_by_subkey(key@, signature@, data@, p),
            decreases count - place,
        {
            signed = verify_subkey(key, signature, data, place);
            place = place + 1;
        }
    }
    let r: Result<(), Error> = judge_signature(&form, signed);
    proof {
        assert(super::outcome(r) == verdict(data@, signature@, signer@, reason));
    }
    r
}

/// Replacing the key alone is not enough to be trusted: whatever the verdict accepts comes with a
/// key that has the expected fingerprint and valid bindings, and was signed with it.
pub proof fn law_only_the_expected_key_is_trusted(
    data: Seq<u8>,
    signature: Seq<u8>,
    signer: SignedBy<Seq<char>>,
    checked: Result<(), Error<Seq<char>>>,
)
    requires
        is_verdict(data, signature, signer, checked),
    ensures
        checked is Ok <==> accepts(data, signature, signer),
        checked matches Err(e) ==> e is Checksum,
{
}

} // verus!
