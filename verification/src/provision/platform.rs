//! Where a component comes from on this platform.
use vstd::prelude::*;

verus! {

/// Who signs a checksum file: where the signature is, the armored key it must be made with, and
/// the fingerprint that key must have.
#[derive(Debug, PartialEq, Eq)]
pub struct SignedBy<T = String> {
    pub url: T,
    pub key: T,
    pub fingerprint: T,
}

impl View for SignedBy {
    type V = SignedBy<Seq<char>>;

    open spec fn view(&self) -> SignedBy<Seq<char>> {
        SignedBy { url: self.url@, key: self.key@, fingerprint: self.fingerprint@ }
    }
}

impl Clone for SignedBy {
    fn clone(&self) -> (r: Self)
        ensures
            r == *self,
    {
        SignedBy {
            url: self.url.clone(),
            key: self.key.clone(),
            fingerprint: self.fingerprint.clone(),
        }
    }
}

/// How a component is published.
#[derive(Debug, PartialEq, Eq)]
pub enum Packaging<T = String> {
    /// The executable itself, installed under this name.
    Raw { install_as: T },
    /// An archive that has to be extracted.
    Archive,
}

impl View for Packaging {
    type V = Packaging<Seq<char>>;

    open spec fn view(&self) -> Packaging<Seq<char>> {
        match *self {
            Packaging::Raw { install_as } => Packaging::Raw { install_as: install_as@ },
            Packaging::Archive => Packaging::Archive,
        }
    }
}

/// Where a component and its checksum are published.
#[derive(Debug, PartialEq, Eq)]
pub struct Source<T = String> {
    pub url: T,
    /// The name of the file behind `url`.
    pub asset: T,
    pub checksum_url: T,
    pub packaging: Packaging<T>,
    /// Under which key the checksum is recorded, for a component whose published checksum is that
    /// of an archive.
    pub state_key: Option<T>,
    /// Who signs the checksum file, when upstream does.
    pub signed_by: Option<SignedBy<T>>,
}

impl View for Source {
    type V = Source<Seq<char>>;

    open spec fn view(&self) -> Source<Seq<char>> {
        Source {
            url: self.url@,
            asset: self.asset@,
            checksum_url: self.checksum_url@,
            packaging: self.packaging@,
            state_key: match self.state_key {
                Some(key) => Some(key@),
                None => None,
            },
            signed_by: match self.signed_by {
                Some(signer) => Some(signer@),
                None => None,
            },
        }
    }
}

} // verus!
