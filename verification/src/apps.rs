//! The store of job applications, keyed by the pair of job id and applicant.
//! The key is carried by the application itself; the store keeps at most one
//! application per pair.

use vstd::prelude::*;
use crate::job::JobApplication;

verus! {

/// The pair an application is keyed by.
pub open spec fn app_key(a: JobApplication) -> (u128, u128) {
    (a.job_id, a.applicant)
}

/// Pairwise-distinct keys in a sequence of applications.
pub open spec fn unique_app_keys(s: Seq<JobApplication>) -> bool {
    forall|i: int, j: int|
        #![trigger s[i], s[j]]
        0 <= i < j < s.len() ==> app_key(s[i]) != app_key(s[j])
}

/// The map described by a sequence of applications; later entries win.
pub open spec fn app_map_of(s: Seq<JobApplication>) -> Map<(u128, u128), JobApplication>
    decreases s.len(),
{
    if s.len() == 0 {
        Map::empty()
    } else {
        app_map_of(s.drop_last()).insert(app_key(s.last()), s.last())
    }
}

/// With pairwise-distinct keys, `app_map_of` contains exactly the listed
/// applications, each under its own key.
pub proof fn lemma_app_map_props(s: Seq<JobApplication>)
    requires
        unique_app_keys(s),
    ensures
        forall|k: (u128, u128)|
            #[trigger] app_map_of(s).contains_key(k) <==> exists|i: int|
                0 <= i < s.len() && app_key(s[i]) == k,
        forall|i: int| 0 <= i < s.len() ==> app_map_of(s).contains_key(app_key(#[trigger] s[i])),
        forall|i: int| 0 <= i < s.len() ==> app_map_of(s)[app_key(#[trigger] s[i])] == s[i],
    decreases s.len(),
{
    if s.len() > 0 {
        let s0 = s.drop_last();
        lemma_app_map_props(s0);
        assert forall|k: (u128, u128)| #[trigger]
            app_map_of(s).contains_key(k) implies exists|i: int|
            0 <= i < s.len() && app_key(s[i]) == k by {
            if k == app_key(s.last()) {
                assert(app_key(s[s.len() - 1]) == k);
            } else {
                assert(app_map_of(s0).contains_key(k));
                let i = choose|i: int| 0 <= i < s0.len() && app_key(s0[i]) == k;
                assert(s0[i] == s[i]);
                assert(app_key(s[i]) == k);
            }
        }
        assert forall|k: (u128, u128)| (exists|i: int|
            0 <= i < s.len() && app_key(s[i]) == k) implies #[trigger]
            app_map_of(s).contains_key(k) by {
            let i = choose|i: int| 0 <= i < s.len() && app_key(s[i]) == k;
            if i < s.len() - 1 {
                assert(app_key(s0[i]) == k);
            }
        }
        assert forall|i: int| 0 <= i < s.len() implies app_map_of(s)[app_key(#[trigger] s[i])]
            == s[i] by {
            if i < s.len() - 1 {
                assert(app_key(s[i]) != app_key(s.last()));
                assert(s0[i] == s[i]);
            }
        }
    }
}

/// Appending an application with a fresh key inserts it into the described
/// map.
pub proof fn lemma_app_map_push(s: Seq<JobApplication>, a: JobApplication)
    ensures
        app_map_of(s.push(a)) == app_map_of(s).insert(app_key(a), a),
{
    assert(s.push(a).drop_last() =~= s);
    assert(s.push(a).last() == a);
}

/// Removing an application removes its key from the described map.
pub proof fn lemma_app_map_remove(s: Seq<JobApplication>, i: int)
    requires
        unique_app_keys(s),
        0 <= i < s.len(),
    ensures
        app_map_of(s.remove(i)) == app_map_of(s).remove(app_key(s[i])),
    decreases s.len(),
{
    let k = app_key(s[i]);
    let t = s.remove(i);
    lemma_app_map_props(s);
    if i == s.len() - 1 {
        assert(t =~= s.drop_last());
        assert(!app_map_of(s.drop_last()).contains_key(k)) by {
            lemma_app_map_props(s.drop_last());
            if app_map_of(s.drop_last()).contains_key(k) {
                let j = choose|j: int|
                    0 <= j < s.drop_last().len() && app_key(s.drop_last()[j]) == k;
                assert(app_key(s[j]) == k);
            }
        }
        assert(app_map_of(s.drop_last()).insert(k, s.last()).remove(k) =~= app_map_of(
            s.drop_last(),
        ));
    } else {
        let s0 = s.drop_last();
        lemma_app_map_remove(s0, i);
        assert(t.drop_last() =~= s0.remove(i));
        assert(t.last() == s.last());
        assert(k != app_key(s.last()));
        assert(app_map_of(s0).remove(k).insert(app_key(s.last()), s.last()) =~= app_map_of(
            s0,
        ).insert(app_key(s.last()), s.last()).remove(k));
    }
}

/// The store of applications, at most one per (job id, applicant) pair.
pub struct AppStore {
    entries: Vec<JobApplication>,
}

impl View for AppStore {
    type V = Map<(u128, u128), JobApplication>;

    closed spec fn view(&self) -> Map<(u128, u128), JobApplication> {
        app_map_of(self.entries@)
    }
}

impl AppStore {
    /// Pairwise-distinct keys; constructors establish it and methods keep it.
    pub closed spec fn wf(&self) -> bool {
        unique_app_keys(self.entries@)
    }

    pub fn new() -> (r: Self)
        ensures
            r.wf(),
            r@ == Map::<(u128, u128), JobApplication>::empty(),
    {
        AppStore { entries: Vec::new() }
    }

    #[verifier::loop_isolation(false)]
    pub fn get(&self, job_id: u128, applicant: u128) -> (r: Option<&JobApplication>)
        requires
            self.wf(),
        ensures
            match r {
                Some(a) => self@.contains_key((job_id, applicant)) && *a == self@[(
                    job_id,
                    applicant,
                )],
                None => !self@.contains_key((job_id, applicant)),
            },
    {
        proof {
            lemma_app_map_props(self.entries@);
        }
        let n = self.entries.len();
        let mut i: usize = 0;
        while i < n
            invariant
                i <= n,
                forall|j: int| 0 <= j < i ==> app_key(#[trigger] self.entries@[j]) != (
                    job_id,
                    applicant,
                ),
            decreases n - i,
        {
            if self.entries[i].job_id == job_id && self.entries[i].applicant == applicant {
                return Some(&self.entries[i]);
            }
            i = i + 1;
        }
        None
    }

    pub fn contains(&self, job_id: u128, applicant: u128) -> (r: bool)
        requires
            self.wf(),
        ensures
            r == self@.contains_key((job_id, applicant)),
    {
        self.get(job_id, applicant).is_some()
    }

    /// Stores an application under a key not yet present.
    pub fn insert_new(&mut self, app: JobApplication)
        requires
            old(self).wf(),
            !old(self)@.contains_key((app.job_id, app.applicant)),
        ensures
            final(self).wf(),
            final(self)@ == old(self)@.insert((app.job_id, app.applicant), app),
    {
        proof {
            lemma_app_map_props(self.entries@);
            lemma_app_map_push(self.entries@, app);
        }
        self.entries.push(app);
        proof {
            assert forall|i: int, j: int|
                0 <= i < j < self.entries@.len() implies app_key(#[trigger] self.entries@[i])
                != app_key(#[trigger] self.entries@[j]) by {
                if j < self.entries@.len() - 1 {
                    assert(self.entries@[i] == old(self).entries@[i]);
                    assert(self.entries@[j] == old(self).entries@[j]);
                } else {
                    assert(self.entries@[i] == old(self).entries@[i]);
                }
            }
        }
    }

    /// Removes and returns the application under the given key, if any.
    #[verifier::loop_isolation(false)]
    pub fn take(&mut self, job_id: u128, applicant: u128) -> (r: Option<JobApplication>)
        requires
            old(self).wf(),
        ensures
            final(self).wf(),
            match r {
                Some(a) => old(self)@.contains_key((job_id, applicant)) && a == old(self)@[(
                    job_id,
                    applicant,
                )] && final(self)@ == old(self)@.remove((job_id, applicant)),
                None => !old(self)@.contains_key((job_id, applicant)) && *final(self) == *old(
                    self,
                ),
            },
    {
        proof {
            lemma_app_map_props(self.entries@);
        }
        let n = self.entries.len();
        let mut i: usize = 0;
        while i < n
            invariant
                i <= n,
                *self == *old(self),
                forall|j: int| 0 <= j < i ==> app_key(#[trigger] self.entries@[j]) != (
                    job_id,
                    applicant,
                ),
            decreases n - i,
        {
            if self.entries[i].job_id == job_id && self.entries[i].applicant == applicant {
                proof {
                    lemma_app_map_remove(self.entries@, i as int);
                }
                let app = self.entries.remove(i);
                proof {
                    assert forall|a: int, b: int|
                        0 <= a < b < self.entries@.len() implies app_key(
                        #[trigger] self.entries@[a],
                    ) != app_key(#[trigger] self.entries@[b]) by {
                        let a0: int = if a < i { a } else { a + 1 };
                        let b0: int = if b < i { b } else { b + 1 };
                        assert(self.entries@[a] == old(self).entries@[a0]);
                        assert(self.entries@[b] == old(self).entries@[b0]);
                    }
                }
                return Some(app);
            }
            i = i + 1;
        }
        None
    }
}

} // verus!
