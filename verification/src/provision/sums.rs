//! Getting a checksum file, with its signature checked when upstream signs one.
//!
//! Both are fetched from "latest", which can move between the two requests, so a signature that
//! doesn't match is fetched once more before it is believed.
use vstd::prelude::*;

use super::platform::{SignedBy, Source};
use super::{signature, Error};
use crate::text;

verus! {

/// Where getting a checksum file stands.
#[derive(Debug)]
pub struct SumsFetch<T = String> {
    pub url: T,
    pub signer: Option<SignedBy<T>>,
    /// Whether this is the second attempt.
    pub retried: bool,
    /// The file, while its signature is awaited.
    pub sums: Option<T>,
}

impl View for SumsFetch {
    type V = SumsFetch<Seq<char>>;

    open spec fn view(&self) -> SumsFetch<Seq<char>> {
        SumsFetch {
            url: self.url@,
            signer: match self.signer {
                Some(signer) => Some(signer@),
                None => None,
            },
            retried: self.retried,
            sums: text::opt_text(self.sums),
        }
    }
}

/// What has to be done next to get a checksum file.
#[derive(Debug)]
pub enum SumsStep<T = String> {
    /// Fetch a text from this address.
    FetchText(T),
    /// Fetch some bytes from this address.
    FetchBytes(T),
    Done(Result<T, Error<T>>),
}

impl View for SumsStep {
    type V = SumsStep<Seq<char>>;

    open spec fn view(&self) -> SumsStep<Seq<char>> {
        match *self {
            SumsStep::FetchText(url) => SumsStep::FetchText(url@),
            SumsStep::FetchBytes(url) => SumsStep::FetchBytes(url@),
            SumsStep::Done(result) => SumsStep::Done(super::text_outcome(result)),
        }
    }
}

/// What checking a signature gave.
pub type Checked<T = String> = Result<(), Error<T>>;

/// What came back: a text, or a signature. Of a signature that was checked only what that gave is
/// left, `B` being [`Checked`].
#[derive(Debug)]
pub enum SumsReply<T = String, B = Vec<u8>> {
    Text(Result<T, Error<T>>),
    Bytes(Result<B, Error<T>>),
}

/// The outcome of fetching some bytes, for contracts.
pub open spec fn bytes_outcome(r: Result<Vec<u8>, Error>) -> Result<Seq<u8>, Error<Seq<char>>> {
    match r {
        Ok(bytes) => Ok(bytes@),
        Err(e) => Err(e@),
    }
}

impl View for SumsReply {
    type V = SumsReply<Seq<char>, Seq<u8>>;

    open spec fn view(&self) -> SumsReply<Seq<char>, Seq<u8>> {
        match *self {
            SumsReply::Text(r) => SumsReply::Text(super::text_outcome(r)),
            SumsReply::Bytes(r) => SumsReply::Bytes(bytes_outcome(r)),
        }
    }
}

/// The outcome of fetching and checking a signature, for contracts.
pub open spec fn checked_outcome(r: Result<Checked, Error>) -> Result<
    Checked<Seq<char>>,
    Error<Seq<char>>,
> {
    match r {
        Ok(checked) => Ok(super::outcome(checked)),
        Err(e) => Err(e@),
    }
}

impl View for SumsReply<String, Checked> {
    type V = SumsReply<Seq<char>, Checked<Seq<char>>>;

    open spec fn view(&self) -> SumsReply<Seq<char>, Checked<Seq<char>>> {
        match *self {
            SumsReply::Text(r) => SumsReply::Text(super::text_outcome(r)),
            SumsReply::Bytes(r) => SumsReply::Bytes(checked_outcome(r)),
        }
    }
}

/// The checksum file `sums`, when `signature`, once fetched and checked, turns out to be right.
pub open spec fn signed_sums(
    sums: Seq<char>,
    signature: Result<Checked<Seq<char>>, Error<Seq<char>>>,
) -> Result<Seq<char>, Error<Seq<char>>> {
    match signature {
        Err(e) => Err(Error::Checksum("Could not get the signature: "@ + super::error_text(e))),
        Ok(Err(e)) => Err(e),
        Ok(Ok(())) => Ok(sums),
    }
}

/// The checksum file `sums`, when `signature`, once fetched and checked, turns out to be right.
pub fn signed_file(sums: String, signature: Result<Checked, Error>) -> (r: Result<String, Error>)
    ensures
        super::text_outcome(r) == signed_sums(sums@, checked_outcome(signature)),
{
    match signature {
        Err(e) => Err(
            Error::Checksum(
                text::concat2("Could not get the signature: ", e.to_string().as_str()),
            ),
        ),
        Ok(Err(e)) => Err(e),
        Ok(Ok(())) => Ok(sums),
    }
}

/// Whether `checked` is what becomes of `signature` when it is held against the checksum file
/// `sums` and `signer`.
pub open spec fn is_checked(
    sums: Seq<char>,
    signature: Result<Seq<u8>, Error<Seq<char>>>,
    signer: SignedBy<Seq<char>>,
    checked: Result<Checked<Seq<char>>, Error<Seq<char>>>,
) -> bool {
    match signature {
        Err(e) => checked == Err::<Checked<Seq<char>>, Error<Seq<char>>>(e),
        Ok(bytes) => checked matches Ok(verdict) && signature::is_verdict(
            vstd::utf8::encode_utf8(sums),
            bytes,
            signer,
            verdict,
        ),
    }
}

/// Whether `signature` is there and a signature of the checksum file `sums` by `signer`.
pub open spec fn is_signed(
    sums: Seq<char>,
    signature: Result<Seq<u8>, Error<Seq<char>>>,
    signer: SignedBy<Seq<char>>,
) -> bool {
    signature matches Ok(bytes) && signature::accepts(
        vstd::utf8::encode_utf8(sums),
        bytes,
        signer,
    )
}

/// Holds a signature that was fetched against the checksum file `sums` and `signer`.
pub fn check_signature(
    sums: &str,
    signature: Result<Vec<u8>, Error>,
    signer: &SignedBy,
) -> (r: Result<Checked, Error>)
    ensures
        is_checked(sums@, bytes_outcome(signature), signer@, checked_outcome(r)),
        (r matches Ok(Ok(()))) <==> is_signed(sums@, bytes_outcome(signature), signer@),
        r matches Ok(Ok(())) ==> super::ascii(signer.fingerprint@),
{
    match signature {
        Err(e) => Err(e),
        Ok(bytes) => Ok(signature::verify(sums.as_bytes(), bytes.as_slice(), signer)),
    }
}

/// The start of getting the checksum file of `source`.
pub open spec fn begun(source: Source<Seq<char>>) -> SumsFetch<Seq<char>> {
    SumsFetch {
        url: source.checksum_url,
        signer: source.signed_by,
        retried: false,
        sums: None,
    }
}

/// What follows a failed attempt: the second one, or giving up.
pub open spec fn retry(fetch: SumsFetch<Seq<char>>, e: Error<Seq<char>>) -> (
    SumsFetch<Seq<char>>,
    SumsStep<Seq<char>>,
) {
    let idle = SumsFetch { sums: None::<Seq<char>>, ..fetch };
    if fetch.retried || fetch.signer is None {
        (idle, SumsStep::Done(Err(e)))
    } else {
        (SumsFetch { retried: true, ..idle }, SumsStep::FetchText(fetch.url))
    }
}

/// Whether `reply` is what is awaited.
pub open spec fn awaits<B>(fetch: SumsFetch<Seq<char>>, reply: SumsReply<Seq<char>, B>) -> bool {
    match reply {
        SumsReply::Text(_) => fetch.sums is None,
        SumsReply::Bytes(_) => fetch.sums is Some && fetch.signer is Some,
    }
}

/// Whether `seen` is what becomes of `reply` when a signature in it is checked.
pub open spec fn seen_as(
    fetch: SumsFetch<Seq<char>>,
    reply: SumsReply<Seq<char>, Seq<u8>>,
    seen: SumsReply<Seq<char>, Checked<Seq<char>>>,
) -> bool {
    match reply {
        SumsReply::Text(text) => seen == SumsReply::<Seq<char>, Checked<Seq<char>>>::Text(text),
        SumsReply::Bytes(signature) => seen matches SumsReply::Bytes(checked) && is_checked(
            fetch.sums->0,
            signature,
            fetch.signer->0,
            checked,
        ),
    }
}

/// What follows `reply`, in which a signature was checked.
pub open spec fn advanced(
    fetch: SumsFetch<Seq<char>>,
    reply: SumsReply<Seq<char>, Checked<Seq<char>>>,
) -> (SumsFetch<Seq<char>>, SumsStep<Seq<char>>) {
    match reply {
        SumsReply::Text(Err(e)) => retry(fetch, e),
        SumsReply::Text(Ok(sums)) => match fetch.signer {
            None => (fetch, SumsStep::Done(Ok(sums))),
            Some(signer) => (
                SumsFetch { sums: Some(sums), ..fetch },
                SumsStep::FetchBytes(signer.url),
            ),
        },
        SumsReply::Bytes(checked) => match signed_sums(fetch.sums->0, checked) {
            Err(e) => retry(fetch, e),
            Ok(sums) => (
                SumsFetch { sums: None::<Seq<char>>, ..fetch },
                SumsStep::Done(Ok(sums)),
            ),
        },
    }
}

/// Starts getting the checksum file of `source`, with its signature checked when upstream signs
/// one.
pub fn fetch_sums(source: &Source) -> (r: (SumsFetch, SumsStep))
    ensures
        r.0@ == begun(source@),
        r.1@ == SumsStep::<Seq<char>>::FetchText(source@.checksum_url),
{
    let signer: Option<SignedBy> = match &source.signed_by {
        Some(signer) => Some(signer.clone()),
        None => None,
    };
    (
        SumsFetch { url: source.checksum_url.clone(), signer, retried: false, sums: None },
        SumsStep::FetchText(source.checksum_url.clone()),
    )
}

impl SumsFetch {
    fn retried_after(self, e: Error) -> (r: (SumsFetch, SumsStep))
        ensures
            (r.0@, r.1@) == retry(self@, e@),
    {
        if self.retried || self.signer.is_none() {
            (SumsFetch { sums: None, ..self }, SumsStep::Done(Err(e)))
        } else {
            let url: String = self.url.clone();
            (SumsFetch { retried: true, sums: None, ..self }, SumsStep::FetchText(url))
        }
    }

    /// Checks the signature that came back, when one did.
    pub fn check(&self, reply: SumsReply) -> (r: SumsReply<String, Checked>)
        requires
            awaits(self@, reply@),
        ensures
            seen_as(self@, reply@, r@),
            awaits(self@, r@),
    {
        match reply {
            SumsReply::Text(text) => SumsReply::Text(text),
            SumsReply::Bytes(bytes) => match (&self.sums, &self.signer) {
                (Some(sums), Some(signer)) => SumsReply::Bytes(
                    check_signature(sums.as_str(), bytes, signer),
                ),
                _ => {
                    proof {
                        assert(false);
                    }
                    SumsReply::Text(Err(Error::Unsupported))
                },
            },
        }
    }

    /// Goes on with what came back, in which a signature was checked.
    pub fn go_on(self, reply: SumsReply<String, Checked>) -> (r: (SumsFetch, SumsStep))
        requires
            awaits(self@, reply@),
        ensures
            (r.0@, r.1@) == advanced(self@, reply@),
    {
        match reply {
            SumsReply::Text(Err(e)) => self.retried_after(e),
            SumsReply::Text(Ok(sums)) => match &self.signer {
                None => (self, SumsStep::Done(Ok(sums))),
                Some(signer) => {
                    let url: String = signer.url.clone();
                    (SumsFetch { sums: Some(sums), ..self }, SumsStep::FetchBytes(url))
                },
            },
            SumsReply::Bytes(checked) => match &self.sums {
                Some(sums) => match signed_file(sums.clone(), checked) {
                    Err(e) => self.retried_after(e),
                    Ok(sums) => (SumsFetch { sums: None, ..self }, SumsStep::Done(Ok(sums))),
                },
                None => {
                    proof {
                        assert(false);
                    }
                    (self, SumsStep::Done(Err(Error::Unsupported)))
                },
            },
        }
    }

    /// Goes on with what came back.
    pub fn advance(self, reply: SumsReply) -> (r: (SumsFetch, SumsStep))
        requires
            awaits(self@, reply@),
        ensures
            exists|seen: SumsReply<Seq<char>, Checked<Seq<char>>>|
                seen_as(self@, reply@, seen) && (r.0@, r.1@) == #[trigger] advanced(self@, seen),
    {
        let seen: SumsReply<String, Checked> = self.check(reply);
        let r: (SumsFetch, SumsStep) = self.go_on(seen);
        proof {
            assert(seen_as(self@, reply@, seen@));
            assert((r.0@, r.1@) == advanced(self@, seen@));
        }
        r
    }
}

/// One attempt: a text, and what checking its signature gave where one is asked for.
pub open spec fn attempted(
    fetch: SumsFetch<Seq<char>>,
    sums: Result<Seq<char>, Error<Seq<char>>>,
    signature: Result<Checked<Seq<char>>, Error<Seq<char>>>,
) -> (SumsFetch<Seq<char>>, SumsStep<Seq<char>>) {
    let (next, step) = advanced(fetch, SumsReply::Text(sums));
    if step is FetchBytes {
        advanced(next, SumsReply::Bytes(signature))
    } else {
        (next, step)
    }
}

/// What one attempt with a signature gives.
pub open spec fn attempt_result(
    sums: Result<Seq<char>, Error<Seq<char>>>,
    signature: Result<Checked<Seq<char>>, Error<Seq<char>>>,
) -> Result<Seq<char>, Error<Seq<char>>> {
    match sums {
        Err(e) => Err(e),
        Ok(text) => signed_sums(text, signature),
    }
}

/// A signed checksum file is asked for once more when the first attempt fails in any way, and the
/// second answer is final.
pub proof fn law_a_signed_file_is_asked_for_twice_at_most(
    source: Source<Seq<char>>,
    first: (Result<Seq<char>, Error<Seq<char>>>, Result<Checked<Seq<char>>, Error<Seq<char>>>),
    second: (Result<Seq<char>, Error<Seq<char>>>, Result<Checked<Seq<char>>, Error<Seq<char>>>),
)
    requires
        source.signed_by is Some,
    ensures
        ({
            let (fetch, step) = attempted(begun(source), first.0, first.1);
            match attempt_result(first.0, first.1) {
                Ok(sums) => step == SumsStep::<Seq<char>>::Done(Ok(sums)),
                Err(_) => {
                    &&& step == SumsStep::<Seq<char>>::FetchText(source.checksum_url)
                    &&& attempted(fetch, second.0, second.1).1 == SumsStep::<Seq<char>>::Done(
                        attempt_result(second.0, second.1),
                    )
                },
            }
        }),
{
}

/// A checksum file without a signer is asked for once.
pub proof fn law_an_unsigned_file_is_asked_for_once(
    source: Source<Seq<char>>,
    sums: Result<Seq<char>, Error<Seq<char>>>,
)
    requires
        source.signed_by is None,
    ensures
        advanced(begun(source), SumsReply::Text(sums)).1 == SumsStep::<Seq<char>>::Done(sums),
{
}

/// However often it is asked for, a checksum file that has a signer is handed over only with a
/// signature by that signer.
pub proof fn law_asking_again_does_not_skip_the_signature(
    fetch: SumsFetch<Seq<char>>,
    reply: SumsReply<Seq<char>, Seq<u8>>,
    seen: SumsReply<Seq<char>, Checked<Seq<char>>>,
    sums: Seq<char>,
)
    requires
        awaits(fetch, reply),
        seen_as(fetch, reply, seen),
        fetch.signer is Some,
        advanced(fetch, seen).1 == SumsStep::<Seq<char>>::Done(Ok(sums)),
    ensures
        fetch.sums == Some(sums),
        reply matches SumsReply::Bytes(signature) && is_signed(sums, signature, fetch.signer->0),
        advanced(fetch, seen).0.signer == fetch.signer,
{
}

} // verus!
