//! Synchronous rejection reasons. Every entry point rejects fail-fast: on an
//! error no state is committed.

use vstd::prelude::*;

verus! {

#[derive(Clone, Copy, Debug, PartialEq, Eq, Structural)]
pub enum EAKaziError {
    /// A course with the same course-key or the same id already exists.
    AlreadyExists,
    /// No course with the given id exists.
    CourseNotFound,
    /// No job with the given id exists.
    JobNotFound,
    /// The applicant's certificates do not cover enough of the job's skills.
    Unqualified,
    /// The applicant has already applied to this job.
    AlreadyApplied,
    /// The caller is not the job's owning employer.
    NotOwner,
    /// The applicant has not applied to this job.
    NotApplied,
    /// The application is not in the status the transition starts from.
    InvalidStatus,
    /// The deposit does not cover the wages to be escrowed.
    InsufficientDeposit,
    /// The employer's escrow balance does not cover the wage.
    InsufficientEscrow,
}

} // verus!
