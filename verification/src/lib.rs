//! A verified model of a training-and-employment marketplace: trainers
//! register courses, trainees enroll and earn skill certificates, employers
//! post jobs with wages held in escrow, and applicants are matched to jobs by
//! the skills their certificates attest to.
//!
//! Certificate minting and wage transfers are performed by external services.
//! Each entry point that depends on such a service returns a pending request
//! describing the outgoing call together with the context captured for its
//! callback; the callback entry point receives the outcome and commits the
//! deferred state change. The caller's identity and the current time are
//! ambient in the deployment environment and are passed in explicitly here.

mod apps;
mod certificate;
mod course;
mod eakazi;
mod errors;
mod job;
mod matching;
mod store;
mod wages;

pub use apps::{AppStore, app_key};
pub use certificate::{CertificateToken, MintRequest};
pub use course::Course;
pub use eakazi::{EAKazi, lemma_escrow_never_negative};
pub use errors::EAKaziError;
pub use job::{Job, JobApplication, JOB_STATUS_OPEN, STATUS_APPLIED, STATUS_EMPLOYED, STATUS_ENDED};
pub use matching::{cert_has_skill, certs_cover, matched_count, payees, payees_for_skill, qualifies, evaluate, vec_contains_u128, lemma_matched_count_bounds};
pub use store::KvMap;
pub use wages::{applicant_share, trainer_divisor, trainer_share, lemma_applicant_share_bounds, lemma_wage_split_exact, split_wage, PendingPayment};
