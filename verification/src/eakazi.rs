//! The marketplace state and its entry points.
//!
//! The state is a single explicit object holding one store per record kind;
//! every operation takes it explicitly, together with the caller's identity
//! and, where one is needed, the current time. Participants are named by
//! opaque principal identifiers.
//!
//! Entry points that depend on an external service — certificate minting,
//! wage transfers — are two-phase: the triggering call validates, computes,
//! and returns a pending request; the matching callback entry point receives
//! the outcome and the captured context and commits the deferred change. A
//! reported failure commits nothing. In particular the escrow debit of a wage
//! payment is deferred until the transfer's completion is confirmed, so a
//! failed transfer leaves the balance untouched.

use vstd::prelude::*;
use crate::apps::AppStore;
use crate::certificate::{CertificateToken, MintRequest};
use crate::course::Course;
use crate::errors::EAKaziError;
use crate::job::{Job, JobApplication, JOB_STATUS_OPEN, STATUS_APPLIED, STATUS_EMPLOYED, STATUS_ENDED};
use crate::matching::{evaluate, payees, qualifies, vec_contains_u128};
use crate::store::KvMap;
use crate::wages::{applicant_share, split_wage, trainer_share, PendingPayment};

verus! {

/// Copies a vector of plain identifiers.
#[verifier::loop_isolation(false)]
fn copy_u128_vec(v: &Vec<u128>) -> (r: Vec<u128>)
    ensures
        r@ == v@,
{
    let n = v.len();
    let mut r: Vec<u128> = Vec::new();
    let mut i: usize = 0;
    while i < n
        invariant
            i <= n,
            r@ == v@.subrange(0, i as int),
        decreases n - i,
    {
        r.push(v[i]);
        proof {
            assert(r@ =~= v@.subrange(0, i + 1));
        }
        i = i + 1;
    }
    proof {
        assert(v@.subrange(0, n as int) =~= v@);
    }
    r
}

/// The marketplace state: courses and enrollments, certificates, jobs and
/// applications, and the per-employer escrow balances.
pub struct EAKazi {
    courses: KvMap<Course>,
    jobs: KvMap<Job>,
    job_applications: AppStore,
    course_trainer: KvMap<u128>,
    enrolments: KvMap<Vec<u128>>,
    certificates: KvMap<Vec<CertificateToken>>,
    wages_in_escrow: KvMap<u128>,
}

impl EAKazi {
    /// The stored courses, by course id.
    pub closed spec fn spec_courses(&self) -> Map<u128, Course> {
        self.courses@
    }

    /// The stored jobs, by job id.
    pub closed spec fn spec_jobs(&self) -> Map<u128, Job> {
        self.jobs@
    }

    /// The stored applications, by (job id, applicant).
    pub closed spec fn spec_applications(&self) -> Map<(u128, u128), JobApplication> {
        self.job_applications@
    }

    /// The trainer of record of each course, by course id.
    pub closed spec fn spec_course_trainer(&self) -> Map<u128, u128> {
        self.course_trainer@
    }

    /// The enrollment list of a course, empty when none was recorded.
    pub closed spec fn enrolled(&self, course_id: u128) -> Seq<u128> {
        if self.enrolments@.contains_key(course_id) {
            self.enrolments@[course_id]@
        } else {
            Seq::empty()
        }
    }

    /// The certificates a trainee holds, empty when none was recorded.
    pub closed spec fn certs_of(&self, trainee: u128) -> Seq<CertificateToken> {
        if self.certificates@.contains_key(trainee) {
            self.certificates@[trainee]@
        } else {
            Seq::empty()
        }
    }

    /// The escrow balance of an employer, zero when none was recorded.
    pub closed spec fn escrow_of(&self, employer: u128) -> u128 {
        if self.wages_in_escrow@.contains_key(employer) {
            self.wages_in_escrow@[employer]
        } else {
            0
        }
    }

    /// Some stored course carries this course-key.
    pub open spec fn course_key_taken(&self, key: Seq<char>) -> bool {
        exists|id: u128|
            #[trigger] self.spec_courses().contains_key(id) && self.spec_courses()[id].course_key@
                == key
    }

    /// Well-formedness: the stores' keys are distinct, every course has a
    /// trainer of record, and every application sits under its own key.
    /// Constructors establish it and every operation preserves it.
    pub closed spec fn wf(&self) -> bool {
        &&& self.courses.wf()
        &&& self.jobs.wf()
        &&& self.job_applications.wf()
        &&& self.course_trainer.wf()
        &&& self.enrolments.wf()
        &&& self.certificates.wf()
        &&& self.wages_in_escrow.wf()
        &&& self.spec_course_trainer().dom() == self.spec_courses().dom()
        &&& forall|k: (u128, u128)| #[trigger]
            self.spec_applications().contains_key(k) ==> self.spec_applications()[k].job_id == k.0
                && self.spec_applications()[k].applicant == k.1
    }
}

impl Default for EAKazi {
    /// The empty state: no courses, certificates, jobs, applications or
    /// escrow.
    fn default() -> (r: Self)
        ensures
            r.wf(),
            r.spec_courses() == Map::<u128, Course>::empty(),
            r.spec_jobs() == Map::<u128, Job>::empty(),
            r.spec_applications() == Map::<(u128, u128), JobApplication>::empty(),
            r.spec_course_trainer() == Map::<u128, u128>::empty(),
            forall|c: u128| r.enrolled(c) == Seq::<u128>::empty(),
            forall|p: u128| r.certs_of(p) == Seq::<CertificateToken>::empty(),
            forall|p: u128| r.escrow_of(p) == 0,
    {
        let r = EAKazi {
            courses: KvMap::new(),
            jobs: KvMap::new(),
            job_applications: AppStore::new(),
            course_trainer: KvMap::new(),
            enrolments: KvMap::new(),
            certificates: KvMap::new(),
            wages_in_escrow: KvMap::new(),
        };
        proof {
            assert(r.spec_course_trainer().dom() =~= r.spec_courses().dom());
        }
        r
    }
}

impl EAKazi {
    /// Registers a course owned by `owner`, its trainer of record. Fails
    /// when a course with the same course-key — or the same id, a distinct
    /// identifier — already exists; on failure nothing changes.
    pub fn create_course(
        &mut self,
        owner: u128,
        course_id: u128,
        name_: String,
        description_: String,
        course_key_: String,
        skills_: Vec<u128>,
    ) -> (r: Result<(), EAKaziError>)
        requires
            old(self).wf(),
        ensures
            final(self).wf(),
            (r is Ok) == (!old(self).course_key_taken(course_key_@) && !old(self).spec_courses().contains_key(course_id)),
            r is Err ==> r == Err::<(), EAKaziError>(EAKaziError::AlreadyExists) && *final(self)
                == *old(self),
            r is Ok ==> ({
                &&& final(self).spec_courses() == old(self).spec_courses().insert(
                    course_id,
                    final(self).spec_courses()[course_id],
                )
                &&& final(self).spec_courses()[course_id] == (Course {
                    id: course_id,
                    name: name_,
                    description: description_,
                    course_key: course_key_,
                    skills: skills_,
                })
                &&& final(self).spec_course_trainer() == old(self).spec_course_trainer().insert(
                    course_id,
                    owner,
                )
                &&& final(self).spec_jobs() == old(self).spec_jobs()
                &&& final(self).spec_applications() == old(self).spec_applications()
                &&& forall|c: u128| final(self).enrolled(c) == old(self).enrolled(c)
                &&& forall|p: u128| final(self).certs_of(p) == old(self).certs_of(p)
                &&& forall|p: u128| final(self).escrow_of(p) == old(self).escrow_of(p)
            }),
    {
        if self.exists_by_key(&course_key_) {
            return Err(EAKaziError::AlreadyExists);
        }
        if self.courses.contains_key(course_id) {
            return Err(EAKaziError::AlreadyExists);
        }
        let course = Course::new(course_id, name_, description_, course_key_, skills_);
        self.courses.insert(course_id, course);
        self.course_trainer.insert(course_id, owner);
        proof {
            assert(self.spec_course_trainer().dom() =~= self.spec_courses().dom());
        }
        Ok(())
    }

    /// Whether some stored course carries this course-key.
    #[verifier::loop_isolation(false)]
    pub fn exists_by_key(&self, course_key_: &String) -> (r: bool)
        requires
            self.wf(),
        ensures
            r == self.course_key_taken(course_key_@),
    {
        proof {
            self.courses.lemma_keys();
        }
        let n = self.courses.len();
        let mut i: usize = 0;
        while i < n
            invariant
                i <= n,
                forall|j: int|
                    0 <= j < i ==> self.spec_courses()[#[trigger] self.courses.keys()[j]].course_key@
                        != course_key_@,
            decreases n - i,
        {
            let c = self.courses.value_at(i);
            if c.course_key == *course_key_ {
                proof {
                    assert(self.spec_courses().contains_key(self.courses.keys()[i as int]));
                }
                return true;
            }
            i = i + 1;
        }
        proof {
            assert forall|id: u128| #[trigger]
                self.spec_courses().contains_key(id) implies self.spec_courses()[id].course_key@
                != course_key_@ by {
                assert(self.courses.keys().contains(id));
                let j = choose|j: int|
                    0 <= j < self.courses.keys().len() && self.courses.keys()[j] == id;
                assert(self.spec_courses()[self.courses.keys()[j]].course_key@ != course_key_@);
            }
        }
        false
    }

    /// Appends `trainee` to the enrollment list of the course. The list is
    /// append-only and enrolling twice is not prevented. Fails when the
    /// course does not exist; on failure nothing changes.
    pub fn enroll_for_course(&mut self, course_id: u128, trainee: u128) -> (r: Result<
        (),
        EAKaziError,
    >)
        requires
            old(self).wf(),
        ensures
            final(self).wf(),
            (r is Ok) == old(self).spec_courses().contains_key(course_id),
            r is Err ==> r == Err::<(), EAKaziError>(EAKaziError::CourseNotFound) && *final(self)
                == *old(self),
            r is Ok ==> ({
                &&& final(self).enrolled(course_id) == old(self).enrolled(course_id).push(trainee)
                &&& forall|c: u128| c != course_id ==> final(self).enrolled(c) == old(self).enrolled(c)
                &&& final(self).spec_courses() == old(self).spec_courses()
                &&& final(self).spec_course_trainer() == old(self).spec_course_trainer()
                &&& final(self).spec_jobs() == old(self).spec_jobs()
                &&& final(self).spec_applications() == old(self).spec_applications()
                &&& forall|p: u128| final(self).certs_of(p) == old(self).certs_of(p)
                &&& forall|p: u128| final(self).escrow_of(p) == old(self).escrow_of(p)
            }),
    {
        if !self.courses.contains_key(course_id) {
            return Err(EAKaziError::CourseNotFound);
        }
        let mut registered_trainees = match self.enrolments.take(course_id) {
            Some(v) => v,
            None => Vec::new(),
        };
        registered_trainees.push(trainee);
        self.enrolments.insert(course_id, registered_trainees);
        Ok(())
    }

    /// Builds the minting request for a certificate of this course for
    /// `trainee_id`: the outgoing call's arguments together with the
    /// snapshot — trainer of record, course name and skills as of now — that
    /// the callback must commit, whatever happens to the course in between.
    /// Fails when the course does not exist. The state is untouched: only
    /// the callback commits.
    pub fn mint_certificate_to_trainee(
        &self,
        course_id: u128,
        trainee_id: u128,
        certificate_url: String,
        issue_date: String,
    ) -> (r: Result<MintRequest, EAKaziError>)
        requires
            self.wf(),
        ensures
            (r is Ok) == self.spec_courses().contains_key(course_id),
            r is Err ==> r == Err::<MintRequest, EAKaziError>(EAKaziError::CourseNotFound),
            r is Ok ==> ({
                let req = r->Ok_0;
                &&& req.token_owner_id == trainee_id
                &&& req.trainer == self.spec_course_trainer()[course_id]
                &&& req.course_name == self.spec_courses()[course_id].name
                &&& req.certificate_url == certificate_url
                &&& req.issue_date == issue_date
                &&& req.course_id == course_id
                &&& req.skills@ == self.spec_courses()[course_id].skills@
            }),
    {
        let course = match self.courses.get(course_id) {
            Some(c) => c,
            None => {
                return Err(EAKaziError::CourseNotFound);
            },
        };
        let trainer = match self.course_trainer.get(course_id) {
            Some(t) => *t,
            None => {
                proof {
                    assert(self.spec_course_trainer().dom().contains(course_id));
                }
                return Err(EAKaziError::CourseNotFound);
            },
        };
        Ok(
            MintRequest {
                token_owner_id: trainee_id,
                trainer,
                course_name: course.name.clone(),
                certificate_url,
                issue_date,
                course_id,
                skills: copy_u128_vec(&course.skills),
            },
        )
    }

    /// Commits the outcome of a minting request. On a reported token
    /// identity, appends to the trainee's collection a certificate built
    /// from that identity and the captured snapshot; on a reported failure,
    /// commits nothing at all.
    pub fn on_mint_certificate_callback(
        &mut self,
        owner_id: u128,
        skills: Vec<u128>,
        course_id: u128,
        trainer: u128,
        mint_result: Option<String>,
    )
        requires
            old(self).wf(),
        ensures
            final(self).wf(),
            mint_result is None ==> *final(self) == *old(self),
            mint_result is Some ==> ({
                &&& final(self).certs_of(owner_id) == old(self).certs_of(owner_id).push(
                    (CertificateToken {
                        token_id: mint_result->Some_0,
                        skills: skills,
                        course: course_id,
                        issuer: trainer,
                    }),
                )
                &&& forall|p: u128| p != owner_id ==> final(self).certs_of(p) == old(self).certs_of(
                    p,
                )
                &&& final(self).spec_courses() == old(self).spec_courses()
                &&& final(self).spec_course_trainer() == old(self).spec_course_trainer()
                &&& final(self).spec_jobs() == old(self).spec_jobs()
                &&& final(self).spec_applications() == old(self).spec_applications()
                &&& forall|c: u128| final(self).enrolled(c) == old(self).enrolled(c)
                &&& forall|p: u128| final(self).escrow_of(p) == old(self).escrow_of(p)
            }),
    {
        let token_id = match mint_result {
            Some(t) => t,
            None => {
                return ;
            },
        };
        let certificate = CertificateToken::new(token_id, skills, course_id, trainer);
        let mut user_certs = match self.certificates.take(owner_id) {
            Some(v) => v,
            None => Vec::new(),
        };
        user_certs.push(certificate);
        self.certificates.insert(owner_id, user_certs);
    }

    /// Posts a job owned by `job_owner`, the caller. The wages for all roles
    /// over the whole duration must be covered by the attached deposit; that
    /// amount is credited to the owner's escrow balance, on top of any prior
    /// escrow. On an insufficient deposit nothing changes. A job posted
    /// under an already-used id replaces the stored job.
    pub fn create_job(
        &mut self,
        job_id_: u128,
        job_owner: u128,
        name: String,
        description_: String,
        skills_: Vec<u128>,
        wage: u128,
        number_of_roles: u128,
        duration: u128,
        deposit: u128,
    ) -> (r: Result<(), EAKaziError>)
        requires
            old(self).wf(),
            wage * number_of_roles <= u128::MAX,
            wage * number_of_roles * duration <= u128::MAX,
            old(self).escrow_of(job_owner) + wage * number_of_roles * duration <= u128::MAX,
        ensures
            final(self).wf(),
            (r is Ok) == (deposit >= wage * number_of_roles * duration),
            r is Err ==> r == Err::<(), EAKaziError>(EAKaziError::InsufficientDeposit) && *final(self) == *old(self),
            r is Ok ==> ({
                &&& final(self).spec_jobs() == old(self).spec_jobs().insert(
                    job_id_,
                    final(self).spec_jobs()[job_id_],
                )
                &&& final(self).spec_jobs()[job_id_] == (Job {
                    id: job_id_,
                    name: name,
                    description: description_,
                    status: JOB_STATUS_OPEN,
                    skills: skills_,
                    job_owner: job_owner,
                    wage: wage,
                    number_of_roles: number_of_roles,
                    number_of_roles_taken: 0,
                })
                &&& final(self).escrow_of(job_owner) == old(self).escrow_of(job_owner) + wage
                    * number_of_roles * duration
                &&& forall|p: u128| p != job_owner ==> final(self).escrow_of(p) == old(self).escrow_of(p)
                &&& final(self).spec_courses() == old(self).spec_courses()
                &&& final(self).spec_course_trainer() == old(self).spec_course_trainer()
                &&& final(self).spec_applications() == old(self).spec_applications()
                &&& forall|c: u128| final(self).enrolled(c) == old(self).enrolled(c)
                &&& forall|p: u128| final(self).certs_of(p) == old(self).certs_of(p)
            }),
    {
        let wage_to_pay = wage * number_of_roles * duration;
        if deposit < wage_to_pay {
            return Err(EAKaziError::InsufficientDeposit);
        }
        let job = Job::new(job_id_, name, description_, skills_, job_owner, wage, number_of_roles);
        self.jobs.insert(job_id_, job);
        let previous_wages_in_escrow = match self.wages_in_escrow.take(job_owner) {
            Some(b) => b,
            None => 0,
        };
        self.wages_in_escrow.insert(job_owner, previous_wages_in_escrow + wage_to_pay);
        Ok(())
    }

    /// Applies `applicant`, the caller, to a job. The applicant must
    /// qualify by their certificates with a non-empty trainer payee list,
    /// and must not have applied before: a second application is rejected,
    /// never silently overwritten. On success the application is stored
    /// freshly applied, with the payee list computed now; on failure nothing
    /// changes.
    pub fn apply_to_job(&mut self, job_id: u128, applicant: u128) -> (r: Result<(), EAKaziError>)
        requires
            old(self).wf(),
        ensures
            final(self).wf(),
            ({
                let job_present = old(self).spec_jobs().contains_key(job_id);
                let skills = old(self).spec_jobs()[job_id].skills@;
                let certs = old(self).certs_of(applicant);
                let good = job_present && qualifies(skills, certs) && payees(skills, certs).len()
                    > 0;
                &&& (r is Ok) == (good && !old(self).spec_applications().contains_key(
                    (job_id, applicant),
                ))
                &&& !job_present ==> r == Err::<(), EAKaziError>(EAKaziError::JobNotFound)
                &&& job_present && !(qualifies(skills, certs) && payees(skills, certs).len() > 0)
                    ==> r == Err::<(), EAKaziError>(EAKaziError::Unqualified)
                &&& good && old(self).spec_applications().contains_key((job_id, applicant)) ==> r
                    == Err::<(), EAKaziError>(EAKaziError::AlreadyApplied)
                &&& r is Err ==> *final(self) == *old(self)
                &&& r is Ok ==> ({
                    &&& final(self).spec_applications() == old(self).spec_applications().insert(
                        (job_id, applicant),
                        final(self).spec_applications()[(job_id, applicant)],
                    )
                    &&& final(self).spec_applications()[(job_id, applicant)].applicant == applicant
                    &&& final(self).spec_applications()[(job_id, applicant)].job_id == job_id
                    &&& final(self).spec_applications()[(job_id, applicant)].status
                        == STATUS_APPLIED
                    &&& final(self).spec_applications()[(job_id, applicant)].start_date is None
                    &&& final(self).spec_applications()[(job_id, applicant)].trainers_to_pay@
                        == payees(skills, certs)
                    &&& final(self).spec_courses() == old(self).spec_courses()
                    &&& final(self).spec_course_trainer() == old(self).spec_course_trainer()
                    &&& final(self).spec_jobs() == old(self).spec_jobs()
                    &&& forall|c: u128| final(self).enrolled(c) == old(self).enrolled(c)
                    &&& forall|p: u128| final(self).certs_of(p) == old(self).certs_of(p)
                    &&& forall|p: u128| final(self).escrow_of(p) == old(self).escrow_of(p)
                })
            }),
    {
        let job = match self.jobs.get(job_id) {
            Some(j) => j,
            None => {
                return Err(EAKaziError::JobNotFound);
            },
        };
        let no_certs: Vec<CertificateToken> = Vec::new();
        let user_certs = match self.certificates.get(applicant) {
            Some(v) => v,
            None => &no_certs,
        };
        let trainers = match evaluate(&job.skills, user_certs) {
            Some(t) => t,
            None => {
                return Err(EAKaziError::Unqualified);
            },
        };
        if trainers.len() == 0 {
            return Err(EAKaziError::Unqualified);
        }
        if self.job_applications.contains(job_id, applicant) {
            return Err(EAKaziError::AlreadyApplied);
        }
        let application = JobApplication::new(job_id, trainers, applicant);
        self.job_applications.insert_new(application);
        Ok(())
    }

    /// The employer confirms an applicant's employment: the caller must own
    /// the job, the application must exist and be freshly applied, and its
    /// status then steps to employed with the current time recorded as the
    /// start date. Any other starting status is rejected; on failure nothing
    /// changes.
    pub fn confirm_job_emloyment(
        &mut self,
        job_id: u128,
        applicant: u128,
        caller: u128,
        now: u64,
    ) -> (r: Result<(), EAKaziError>)
        requires
            old(self).wf(),
        ensures
            final(self).wf(),
            ({
                let job_present = old(self).spec_jobs().contains_key(job_id);
                let owner_ok = job_present && caller == old(self).spec_jobs()[job_id].job_owner;
                let app_present = old(self).spec_applications().contains_key((job_id, applicant));
                let app = old(self).spec_applications()[(job_id, applicant)];
                &&& (r is Ok) == (owner_ok && app_present && app.status == STATUS_APPLIED)
                &&& !job_present ==> r == Err::<(), EAKaziError>(EAKaziError::JobNotFound)
                &&& job_present && !owner_ok ==> r == Err::<(), EAKaziError>(EAKaziError::NotOwner)
                &&& owner_ok && !app_present ==> r == Err::<(), EAKaziError>(
                    EAKaziError::NotApplied,
                )
                &&& owner_ok && app_present && app.status != STATUS_APPLIED ==> r == Err::<
                    (),
                    EAKaziError,
                >(EAKaziError::InvalidStatus)
                &&& r is Err ==> *final(self) == *old(self)
                &&& r is Ok ==> ({
                    &&& final(self).spec_applications() == old(self).spec_applications().insert(
                        (job_id, applicant),
                        final(self).spec_applications()[(job_id, applicant)],
                    )
                    &&& final(self).spec_applications()[(job_id, applicant)] == (JobApplication {
                        status: STATUS_EMPLOYED,
                        start_date: Some(now),
                        ..app
                    })
                    &&& final(self).spec_courses() == old(self).spec_courses()
                    &&& final(self).spec_course_trainer() == old(self).spec_course_trainer()
                    &&& final(self).spec_jobs() == old(self).spec_jobs()
                    &&& forall|c: u128| final(self).enrolled(c) == old(self).enrolled(c)
                    &&& forall|p: u128| final(self).certs_of(p) == old(self).certs_of(p)
                    &&& forall|p: u128| final(self).escrow_of(p) == old(self).escrow_of(p)
                })
            }),
    {
        let job = match self.jobs.get(job_id) {
            Some(j) => j,
            None => {
                return Err(EAKaziError::JobNotFound);
            },
        };
        if caller != job.job_owner {
            return Err(EAKaziError::NotOwner);
        }
        match self.job_applications.get(job_id, applicant) {
            Some(a) => {
                if a.status != STATUS_APPLIED {
                    return Err(EAKaziError::InvalidStatus);
                }
            },
            None => {
                return Err(EAKaziError::NotApplied);
            },
        }
        let mut job_app = match self.job_applications.take(job_id, applicant) {
            Some(a) => a,
            None => {
                return Err(EAKaziError::NotApplied);
            },
        };
        job_app.status = STATUS_EMPLOYED;
        job_app.start_date = Some(now);
        self.job_applications.insert_new(job_app);
        proof {
            assert(self.spec_applications() =~= old(self).spec_applications().insert(
                (job_id, applicant),
                self.spec_applications()[(job_id, applicant)],
            ));
        }
        Ok(())
    }

    /// The employer ends an applicant's employment: the caller must own the
    /// job, the application must exist and be in the employed status, and
    /// its status then steps to ended. Ending an application that was never
    /// confirmed — or one already ended — is rejected; on failure nothing
    /// changes. Ending does not itself pay the wage: payment is a separate,
    /// explicit action.
    pub fn end_job_employment(&mut self, job_id: u128, applicant: u128, caller: u128) -> (r: Result<
        (),
        EAKaziError,
    >)
        requires
            old(self).wf(),
        ensures
            final(self).wf(),
            ({
                let job_present = old(self).spec_jobs().contains_key(job_id);
                let owner_ok = job_present && caller == old(self).spec_jobs()[job_id].job_owner;
                let app_present = old(self).spec_applications().contains_key((job_id, applicant));
                let app = old(self).spec_applications()[(job_id, applicant)];
                &&& (r is Ok) == (owner_ok && app_present && app.status == STATUS_EMPLOYED)
                &&& !job_present ==> r == Err::<(), EAKaziError>(EAKaziError::JobNotFound)
                &&& job_present && !owner_ok ==> r == Err::<(), EAKaziError>(EAKaziError::NotOwner)
                &&& owner_ok && !app_present ==> r == Err::<(), EAKaziError>(
                    EAKaziError::NotApplied,
                )
                &&& owner_ok && app_present && app.status != STATUS_EMPLOYED ==> r == Err::<
                    (),
                    EAKaziError,
                >(EAKaziError::InvalidStatus)
                &&& r is Err ==> *final(self) == *old(self)
                &&& r is Ok ==> ({
                    &&& final(self).spec_applications() == old(self).spec_applications().insert(
                        (job_id, applicant),
                        final(self).spec_applications()[(job_id, applicant)],
                    )
                    &&& final(self).spec_applications()[(job_id, applicant)] == (JobApplication {
                        status: STATUS_ENDED,
                        ..app
                    })
                    &&& final(self).spec_courses() == old(self).spec_courses()
                    &&& final(self).spec_course_trainer() == old(self).spec_course_trainer()
                    &&& final(self).spec_jobs() == old(self).spec_jobs()
                    &&& forall|c: u128| final(self).enrolled(c) == old(self).enrolled(c)
                    &&& forall|p: u128| final(self).certs_of(p) == old(self).certs_of(p)
                    &&& forall|p: u128| final(self).escrow_of(p) == old(self).escrow_of(p)
                })
            }),
    {
        let job = match self.jobs.get(job_id) {
            Some(j) => j,
            None => {
                return Err(EAKaziError::JobNotFound);
            },
        };
        if caller != job.job_owner {
            return Err(EAKaziError::NotOwner);
        }
        match self.job_applications.get(job_id, applicant) {
            Some(a) => {
                if a.status != STATUS_EMPLOYED {
                    return Err(EAKaziError::InvalidStatus);
                }
            },
            None => {
                return Err(EAKaziError::NotApplied);
            },
        }
        let mut job_app = match self.job_applications.take(job_id, applicant) {
            Some(a) => a,
            None => {
                return Err(EAKaziError::NotApplied);
            },
        };
        job_app.status = STATUS_ENDED;
        self.job_applications.insert_new(job_app);
        proof {
            assert(self.spec_applications() =~= old(self).spec_applications().insert(
                (job_id, applicant),
                self.spec_applications()[(job_id, applicant)],
            ));
        }
        Ok(())
    }

    /// Prepares the wage payment for an application: the caller must own
    /// the job, the application must exist, and the owner's escrow must
    /// cover the wage. The result carries the split — nine tenths to the
    /// applicant, the rest divided evenly among the trainers on the payee
    /// list — and the escrow balance after debiting the full wage. Nothing
    /// is committed here: the balance is written by the callback once the
    /// transfer's completion is confirmed, so the escrow cannot be left
    /// short by a failed transfer.
    pub fn pay_wage(&self, job_id: u128, applicant: u128, caller: u128) -> (r: Result<
        PendingPayment,
        EAKaziError,
    >)
        requires
            self.wf(),
        ensures
            ({
                let job_present = self.spec_jobs().contains_key(job_id);
                let job = self.spec_jobs()[job_id];
                let owner_ok = job_present && caller == job.job_owner;
                let app_present = self.spec_applications().contains_key((job_id, applicant));
                let app = self.spec_applications()[(job_id, applicant)];
                let funds_ok = self.escrow_of(job.job_owner) >= job.wage;
                &&& (r is Ok) == (owner_ok && app_present && funds_ok)
                &&& !job_present ==> r == Err::<PendingPayment, EAKaziError>(
                    EAKaziError::JobNotFound,
                )
                &&& job_present && !owner_ok ==> r == Err::<PendingPayment, EAKaziError>(
                    EAKaziError::NotOwner,
                )
                &&& owner_ok && !app_present ==> r == Err::<PendingPayment, EAKaziError>(
                    EAKaziError::NotApplied,
                )
                &&& owner_ok && app_present && !funds_ok ==> r == Err::<
                    PendingPayment,
                    EAKaziError,
                >(EAKaziError::InsufficientEscrow)
                &&& r is Ok ==> ({
                    let p = r->Ok_0;
                    &&& p.employer == job.job_owner
                    &&& p.applicant == applicant
                    &&& p.new_escrow == self.escrow_of(job.job_owner) - job.wage
                    &&& p.wage_to_applicant == applicant_share(job.wage as int)
                    &&& p.trainers_to_pay@ == app.trainers_to_pay@
                    &&& p.wage_to_trainer == trainer_share(
                        job.wage as int,
                        app.trainers_to_pay@.len() as int,
                    )
                })
            }),
    {
        let job = match self.jobs.get(job_id) {
            Some(j) => j,
            None => {
                return Err(EAKaziError::JobNotFound);
            },
        };
        let owner = job.job_owner;
        if caller != owner {
            return Err(EAKaziError::NotOwner);
        }
        let application = match self.job_applications.get(job_id, applicant) {
            Some(a) => a,
            None => {
                return Err(EAKaziError::NotApplied);
            },
        };
        let wage_in_escrow = match self.wages_in_escrow.get(owner) {
            Some(b) => *b,
            None => 0,
        };
        let wage_for_job = job.wage;
        if wage_in_escrow < wage_for_job {
            return Err(EAKaziError::InsufficientEscrow);
        }
        let split = split_wage(wage_for_job, application.trainers_to_pay.len());
        Ok(
            PendingPayment {
                employer: owner,
                new_escrow: wage_in_escrow - wage_for_job,
                applicant,
                wage_to_applicant: split.0,
                trainers_to_pay: copy_u128_vec(&application.trainers_to_pay),
                wage_to_trainer: split.1,
            },
        )
    }

    /// Commits the outcome of a wage payment: on a confirmed transfer the
    /// precomputed balance is written to the employer's escrow; on a
    /// reported failure nothing changes, leaving the escrow undebited.
    pub fn on_pay_wage_callback(
        &mut self,
        job_owner: u128,
        new_escrow: u128,
        transfer_succeeded: bool,
    )
        requires
            old(self).wf(),
        ensures
            final(self).wf(),
            !transfer_succeeded ==> *final(self) == *old(self),
            transfer_succeeded ==> ({
                &&& final(self).escrow_of(job_owner) == new_escrow
                &&& forall|p: u128| p != job_owner ==> final(self).escrow_of(p) == old(self).escrow_of(p)
                &&& final(self).spec_courses() == old(self).spec_courses()
                &&& final(self).spec_course_trainer() == old(self).spec_course_trainer()
                &&& final(self).spec_jobs() == old(self).spec_jobs()
                &&& final(self).spec_applications() == old(self).spec_applications()
                &&& forall|c: u128| final(self).enrolled(c) == old(self).enrolled(c)
                &&& forall|p: u128| final(self).certs_of(p) == old(self).certs_of(p)
            }),
    {
        if transfer_succeeded {
            self.wages_in_escrow.insert(job_owner, new_escrow);
        }
    }

    /// Checks whether the applicant's certificates qualify them for the job
    /// and, when they do, returns the trainers to be paid for the placement:
    /// for each required skill in order, the issuer of every certificate
    /// attesting to it.
    pub fn user_has_skills_for_job(&self, user: u128, job_id: u128) -> (r: Option<Vec<u128>>)
        requires
            self.wf(),
            self.spec_jobs().contains_key(job_id),
        ensures
            ({
                let skills = self.spec_jobs()[job_id].skills@;
                let certs = self.certs_of(user);
                &&& (r is Some) == qualifies(skills, certs)
                &&& match r {
                    Some(t) => t@ == payees(skills, certs),
                    None => !qualifies(skills, certs),
                }
            }),
    {
        let job = match self.jobs.get(job_id) {
            Some(j) => j,
            None => {
                return None;
            },
        };
        let no_certs: Vec<CertificateToken> = Vec::new();
        let user_certs = match self.certificates.get(user) {
            Some(v) => v,
            None => &no_certs,
        };
        evaluate(&job.skills, user_certs)
    }

    /// The employer's escrow balance, zero when none was recorded.
    pub fn escrow_balance(&self, employer: u128) -> (r: u128)
        requires
            self.wf(),
        ensures
            r == self.escrow_of(employer),
    {
        match self.wages_in_escrow.get(employer) {
            Some(b) => *b,
            None => 0,
        }
    }

    /// Whether a course with this id exists.
    pub fn course_exists(&self, course_id_: u128) -> (r: bool)
        requires
            self.wf(),
        ensures
            r == self.spec_courses().contains_key(course_id_),
    {
        self.courses.contains_key(course_id_)
    }

    /// Whether a job with this id exists.
    pub fn job_exists(&self, job_id: u128) -> (r: bool)
        requires
            self.wf(),
        ensures
            r == self.spec_jobs().contains_key(job_id),
    {
        self.jobs.contains_key(job_id)
    }

    /// Whether the user appears on the course's enrollment list.
    pub fn is_user_enrolled(&self, course_id_: u128, user_id: u128) -> (r: bool)
        requires
            self.wf(),
        ensures
            r == self.enrolled(course_id_).contains(user_id),
    {
        match self.enrolments.get(course_id_) {
            Some(v) => vec_contains_u128(v, user_id),
            None => false,
        }
    }

    /// A copy of the stored course, if one exists under this id.
    pub fn get_course_by_id(&self, course_id_: u128) -> (r: Option<Course>)
        requires
            self.wf(),
        ensures
            match r {
                Some(c) => {
                    &&& self.spec_courses().contains_key(course_id_)
                    &&& c.id == self.spec_courses()[course_id_].id
                    &&& c.name == self.spec_courses()[course_id_].name
                    &&& c.description == self.spec_courses()[course_id_].description
                    &&& c.course_key == self.spec_courses()[course_id_].course_key
                    &&& c.skills@ == self.spec_courses()[course_id_].skills@
                },
                None => !self.spec_courses().contains_key(course_id_),
            },
    {
        match self.courses.get(course_id_) {
            Some(c) => Some(
                Course {
                    id: c.id,
                    name: c.name.clone(),
                    description: c.description.clone(),
                    course_key: c.course_key.clone(),
                    skills: copy_u128_vec(&c.skills),
                },
            ),
            None => None,
        }
    }

    /// A copy of the stored job, if one exists under this id.
    pub fn get_job_by_id(&self, job_id_: u128) -> (r: Option<Job>)
        requires
            self.wf(),
        ensures
            match r {
                Some(j) => {
                    &&& self.spec_jobs().contains_key(job_id_)
                    &&& j.id == self.spec_jobs()[job_id_].id
                    &&& j.name == self.spec_jobs()[job_id_].name
                    &&& j.description == self.spec_jobs()[job_id_].description
                    &&& j.status == self.spec_jobs()[job_id_].status
                    &&& j.skills@ == self.spec_jobs()[job_id_].skills@
                    &&& j.job_owner == self.spec_jobs()[job_id_].job_owner
                    &&& j.wage == self.spec_jobs()[job_id_].wage
                    &&& j.number_of_roles == self.spec_jobs()[job_id_].number_of_roles
                    &&& j.number_of_roles_taken == self.spec_jobs()[job_id_].number_of_roles_taken
                },
                None => !self.spec_jobs().contains_key(job_id_),
            },
    {
        match self.jobs.get(job_id_) {
            Some(j) => Some(
                Job {
                    id: j.id,
                    name: j.name.clone(),
                    description: j.description.clone(),
                    status: j.status,
                    skills: copy_u128_vec(&j.skills),
                    job_owner: j.job_owner,
                    wage: j.wage,
                    number_of_roles: j.number_of_roles,
                    number_of_roles_taken: j.number_of_roles_taken,
                },
            ),
            None => None,
        }
    }

    /// A copy of the stored application, if one exists under this pair.
    pub fn get_job_aplication(&self, job_id_: u128, applicant: u128) -> (r: Option<JobApplication>)
        requires
            self.wf(),
        ensures
            match r {
                Some(a) => {
                    &&& self.spec_applications().contains_key((job_id_, applicant))
                    &&& a.applicant == self.spec_applications()[(job_id_, applicant)].applicant
                    &&& a.job_id == self.spec_applications()[(job_id_, applicant)].job_id
                    &&& a.status == self.spec_applications()[(job_id_, applicant)].status
                    &&& a.start_date == self.spec_applications()[(job_id_, applicant)].start_date
                    &&& a.trainers_to_pay@ == self.spec_applications()[(
                        job_id_,
                        applicant,
                    )].trainers_to_pay@
                },
                None => !self.spec_applications().contains_key((job_id_, applicant)),
            },
    {
        match self.job_applications.get(job_id_, applicant) {
            Some(a) => Some(
                JobApplication {
                    applicant: a.applicant,
                    job_id: a.job_id,
                    status: a.status,
                    start_date: a.start_date,
                    trainers_to_pay: copy_u128_vec(&a.trainers_to_pay),
                },
            ),
            None => None,
        }
    }
}

/// Escrow balances never go negative: they are unsigned throughout, every
/// credit adds to the prior balance, and the one debit — a wage payment —
/// is prepared only when the balance covers the full wage and committed only
/// through its callback. No committed operation can drive a balance below
/// zero.
pub proof fn lemma_escrow_never_negative(s: &EAKazi, employer: u128)
    ensures
        s.escrow_of(employer) >= 0,
{
}

} // verus!
