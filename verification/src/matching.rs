//! Skill-based matching of an applicant to a job.
//!
//! For each skill the job requires, every certificate the applicant holds is
//! scanned; each certificate attesting to the skill contributes its issuing
//! trainer to the payee list, and the skill counts as matched (once, however
//! many certificates attest to it). The applicant qualifies when the matched
//! skills exceed half of the required ones; exactly half does not qualify. A
//! job with no required skills trivially matches any applicant, with an empty
//! payee list.

use vstd::prelude::*;
use crate::certificate::CertificateToken;

verus! {

/// The certificate attests to `skill`.
pub open spec fn cert_has_skill(c: CertificateToken, skill: u128) -> bool {
    c.skills@.contains(skill)
}

/// Some certificate in `certs` attests to `skill`.
pub open spec fn certs_cover(certs: Seq<CertificateToken>, skill: u128) -> bool {
    exists|i: int| 0 <= i < certs.len() && cert_has_skill(certs[i], skill)
}

/// How many entries of the required skill list some certificate attests to.
/// A skill listed twice counts twice; each entry counts at most once.
pub open spec fn matched_count(skills: Seq<u128>, certs: Seq<CertificateToken>) -> int
    decreases skills.len(),
{
    if skills.len() == 0 {
        0
    } else {
        matched_count(skills.drop_last(), certs) + if certs_cover(certs, skills.last()) {
            1int
        } else {
            0int
        }
    }
}

/// The issuers of the certificates attesting to `skill`, in certificate
/// order. One trainer appears once per attesting certificate.
pub open spec fn payees_for_skill(certs: Seq<CertificateToken>, skill: u128) -> Seq<u128>
    decreases certs.len(),
{
    if certs.len() == 0 {
        Seq::empty()
    } else {
        payees_for_skill(certs.drop_last(), skill) + if cert_has_skill(certs.last(), skill) {
            seq![certs.last().issuer]
        } else {
            Seq::empty()
        }
    }
}

/// The full payee list: for each required skill in order, the issuers of the
/// certificates attesting to it. One trainer appears once per matched skill
/// and attesting certificate, reflecting that several skills taught by the
/// same trainer are each paid.
pub open spec fn payees(skills: Seq<u128>, certs: Seq<CertificateToken>) -> Seq<u128>
    decreases skills.len(),
{
    if skills.len() == 0 {
        Seq::empty()
    } else {
        payees(skills.drop_last(), certs) + payees_for_skill(certs, skills.last())
    }
}

/// The match decision: more than half of the required skills are covered, as
/// an integer percentage; a job with no required skills always matches.
pub open spec fn qualifies(skills: Seq<u128>, certs: Seq<CertificateToken>) -> bool {
    skills.len() == 0 || matched_count(skills, certs) * 100 / (skills.len() as int) > 50
}

pub proof fn lemma_matched_count_bounds(skills: Seq<u128>, certs: Seq<CertificateToken>)
    ensures
        0 <= matched_count(skills, certs) <= skills.len(),
    decreases skills.len(),
{
    if skills.len() > 0 {
        lemma_matched_count_bounds(skills.drop_last(), certs);
    }
}

/// Extending the scanned prefix of the certificates by one changes coverage
/// and the per-skill payee list exactly by that certificate's contribution.
proof fn lemma_cert_scan_step(certs: Seq<CertificateToken>, j: int, skill: u128)
    requires
        0 <= j < certs.len(),
    ensures
        certs_cover(certs.subrange(0, j + 1), skill) == (certs_cover(certs.subrange(0, j), skill)
            || cert_has_skill(certs[j], skill)),
        payees_for_skill(certs.subrange(0, j + 1), skill) == payees_for_skill(
            certs.subrange(0, j),
            skill,
        ) + if cert_has_skill(certs[j], skill) {
            seq![certs[j].issuer]
        } else {
            Seq::<u128>::empty()
        },
{
    let a = certs.subrange(0, j);
    let b = certs.subrange(0, j + 1);
    assert(b.drop_last() =~= a);
    assert(b.last() == certs[j]);
    if certs_cover(b, skill) {
        let t = choose|t: int| 0 <= t < b.len() && cert_has_skill(b[t], skill);
        if t < j {
            assert(a[t] == b[t]);
        }
    }
    if certs_cover(a, skill) {
        let t = choose|t: int| 0 <= t < a.len() && cert_has_skill(a[t], skill);
        assert(b[t] == a[t]);
    }
    if cert_has_skill(certs[j], skill) {
        assert(cert_has_skill(b[j], skill));
    }
}

/// Extending the processed prefix of the required skills by one adds that
/// skill's match bit and its payees.
proof fn lemma_skill_scan_step(skills: Seq<u128>, certs: Seq<CertificateToken>, i: int)
    requires
        0 <= i < skills.len(),
    ensures
        matched_count(skills.subrange(0, i + 1), certs) == matched_count(
            skills.subrange(0, i),
            certs,
        ) + if certs_cover(certs, skills[i]) {
            1int
        } else {
            0int
        },
        payees(skills.subrange(0, i + 1), certs) == payees(skills.subrange(0, i), certs)
            + payees_for_skill(certs, skills[i]),
{
    let a = skills.subrange(0, i);
    let b = skills.subrange(0, i + 1);
    assert(b.drop_last() =~= a);
    assert(b.last() == skills[i]);
}

/// Whether `v` contains `x`.
#[verifier::loop_isolation(false)]
pub fn vec_contains_u128(v: &Vec<u128>, x: u128) -> (r: bool)
    ensures
        r == v@.contains(x),
{
    let n = v.len();
    let mut i: usize = 0;
    while i < n
        invariant
            i <= n,
            forall|j: int| 0 <= j < i ==> v@[j] != x,
        decreases n - i,
    {
        if v[i] == x {
            return true;
        }
        i = i + 1;
    }
    false
}

/// Evaluates one applicant's certificates against one job's required skills.
/// Returns the payee list exactly when the applicant qualifies.
#[verifier::loop_isolation(false)]
pub fn evaluate(job_skills: &Vec<u128>, certs: &Vec<CertificateToken>) -> (r: Option<Vec<u128>>)
    ensures
        (r is Some) == qualifies(job_skills@, certs@),
        match r {
            Some(t) => t@ == payees(job_skills@, certs@),
            None => !qualifies(job_skills@, certs@),
        },
{
    let ns = job_skills.len();
    let nc = certs.len();
    let mut trainers: Vec<u128> = Vec::new();
    let mut matches: u128 = 0;
    let mut i: usize = 0;
    while i < ns
        invariant
            i <= ns,
            matches == matched_count(job_skills@.subrange(0, i as int), certs@),
            trainers@ == payees(job_skills@.subrange(0, i as int), certs@),
        decreases ns - i,
    {
        let skill = job_skills[i];
        let mut found = false;
        let mut j: usize = 0;
        proof {
            assert(certs@.subrange(0, 0) =~= Seq::<CertificateToken>::empty());
            assert(trainers@ =~= payees(job_skills@.subrange(0, i as int), certs@)
                + payees_for_skill(certs@.subrange(0, 0), skill));
        }
        while j < nc
            invariant
                j <= nc,
                i < ns,
                skill == job_skills@[i as int],
                matches == matched_count(job_skills@.subrange(0, i as int), certs@),
                found == certs_cover(certs@.subrange(0, j as int), skill),
                trainers@ == payees(job_skills@.subrange(0, i as int), certs@) + payees_for_skill(
                    certs@.subrange(0, j as int),
                    skill,
                ),
            decreases nc - j,
        {
            proof {
                lemma_cert_scan_step(certs@, j as int, skill);
            }
            if vec_contains_u128(&certs[j].skills, skill) {
                trainers.push(certs[j].issuer);
                found = true;
                proof {
                    assert(trainers@ =~= payees(job_skills@.subrange(0, i as int), certs@)
                        + payees_for_skill(certs@.subrange(0, j + 1 as int), skill));
                }
            } else {
                proof {
                    assert(trainers@ =~= payees(job_skills@.subrange(0, i as int), certs@)
                        + payees_for_skill(certs@.subrange(0, j + 1 as int), skill));
                }
            }
            j = j + 1;
        }
        proof {
            assert(certs@.subrange(0, nc as int) =~= certs@);
            lemma_skill_scan_step(job_skills@, certs@, i as int);
            lemma_matched_count_bounds(job_skills@.subrange(0, i as int), certs@);
        }
        if found {
            matches = matches + 1;
        }
        i = i + 1;
    }
    proof {
        assert(job_skills@.subrange(0, ns as int) =~= job_skills@);
    }
    if ns == 0 {
        return Some(trainers);
    }
    let total: u128 = ns as u128;
    proof {
        lemma_matched_count_bounds(job_skills@, certs@);
    }
    let percentage: u128 = matches * 100 / total;
    if percentage > 50 {
        Some(trainers)
    } else {
        None
    }
}

} // verus!
