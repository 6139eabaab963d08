//! Certificates and the pending request for the external minting service.
//!
//! Minting is a two-phase operation: `EAKazi::mint_certificate_to_trainee`
//! produces a [`MintRequest`] describing the outgoing call and the context
//! captured for its callback, and `EAKazi::on_mint_certificate_callback`
//! commits a certificate once the service reports the minted token identity.

use vstd::prelude::*;

verus! {

/// A certificate: a uniquely identified token recording that a trainee
/// completed a course, attesting to the course's skills. Created only as the
/// committed result of a successful mint callback; never mutated.
#[derive(Debug)]
pub struct CertificateToken {
    /// The token identity, assigned by the external minting service.
    pub token_id: String,
    /// The skills attested to; membership is what matters.
    pub skills: Vec<u128>,
    /// The course the certificate was earned from.
    pub course: u128,
    /// The trainer of record of that course.
    pub issuer: u128,
}

impl CertificateToken {
    pub fn new(token_id_: String, skills_: Vec<u128>, course_: u128, trainer: u128) -> (r: Self)
        ensures
            r.token_id == token_id_,
            r.skills == skills_,
            r.course == course_,
            r.issuer == trainer,
    {
        Self { token_id: token_id_, skills: skills_, course: course_, issuer: trainer }
    }
}

/// A dispatched minting request. The first five fields are the arguments of
/// the outgoing call; the last two, together with `token_owner_id` and
/// `trainer`, are the snapshot the callback must use, captured at request
/// time because the course record may change before the callback fires.
#[derive(Debug)]
pub struct MintRequest {
    /// The trainee the token is minted for.
    pub token_owner_id: u128,
    /// The trainer of record at request time.
    pub trainer: u128,
    /// The course's name at request time.
    pub course_name: String,
    pub certificate_url: String,
    pub issue_date: String,
    /// The course the certificate is for.
    pub course_id: u128,
    /// The course's skill list at request time.
    pub skills: Vec<u128>,
}

} // verus!
