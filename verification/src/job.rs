//! Jobs and job applications, with the application's three-step lifecycle:
//! applied, then confirmed by the employer, then ended. The transitions are
//! monotonic; no transition runs in reverse or skips a step.

use vstd::prelude::*;

verus! {

/// A job that is open for applications.
pub const JOB_STATUS_OPEN: u8 = 0;

/// A freshly created application; the employer has not yet confirmed it.
pub const STATUS_APPLIED: u8 = 0;

/// The employer confirmed the employment and the start date was recorded.
pub const STATUS_EMPLOYED: u8 = 1;

/// The employer ended the employment.
pub const STATUS_ENDED: u8 = 2;

/// A job posting. The wages for its roles and duration are moved into the
/// owner's escrow balance when it is created.
#[derive(Debug)]
pub struct Job {
    pub id: u128,
    pub name: String,
    pub description: String,
    pub status: u8,
    pub skills: Vec<u128>,
    pub job_owner: u128,
    pub wage: u128,
    pub number_of_roles: u128,
    pub number_of_roles_taken: u128,
}

impl Job {
    pub fn new(
        id_: u128,
        name_: String,
        description_: String,
        skills_: Vec<u128>,
        job_owner_: u128,
        wage_: u128,
        number_of_roles_: u128,
    ) -> (r: Self)
        ensures
            r.id == id_,
            r.name == name_,
            r.description == description_,
            r.skills == skills_,
            r.job_owner == job_owner_,
            r.wage == wage_,
            r.number_of_roles == number_of_roles_,
            r.status == JOB_STATUS_OPEN,
            r.number_of_roles_taken == 0,
    {
        Self {
            id: id_,
            name: name_,
            description: description_,
            skills: skills_,
            job_owner: job_owner_,
            wage: wage_,
            number_of_roles: number_of_roles_,
            status: 0,
            number_of_roles_taken: 0,
        }
    }
}

/// An application of one applicant to one job, keyed by that pair. It records
/// the trainers entitled to a payment share for this placement, as computed
/// when the application was made.
#[derive(Debug)]
pub struct JobApplication {
    pub applicant: u128,
    pub job_id: u128,
    pub status: u8,
    pub start_date: Option<u64>,
    pub trainers_to_pay: Vec<u128>,
}

impl JobApplication {
    pub fn new(job_id_: u128, trainers: Vec<u128>, applicant_: u128) -> (r: Self)
        ensures
            r.applicant == applicant_,
            r.job_id == job_id_,
            r.trainers_to_pay == trainers,
            r.start_date is None,
            r.status == STATUS_APPLIED,
    {
        Self {
            applicant: applicant_,
            job_id: job_id_,
            trainers_to_pay: trainers,
            start_date: None,
            status: STATUS_APPLIED,
        }
    }
}

} // verus!
