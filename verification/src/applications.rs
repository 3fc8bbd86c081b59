use vstd::prelude::*;

use crate::board::account_index;
use crate::board::app_linked;
use crate::board::identifier_taken;
use crate::board::JobBoard;
use crate::clock;
use crate::enums::AccountType;
use crate::enums::ApplicationStatus;
use crate::enums::BoardError;
use crate::enums::Decision;
use crate::postings::has_posting;
use crate::postings::posting_index;
use crate::records::Account;
use crate::records::Application;
use crate::records::Posting;

verus! {

/// Whether some application carries this id.
pub open spec fn has_application(apps: Seq<Application>, id: i64) -> bool {
    exists|k: int| 0 <= k < apps.len() && (#[trigger] apps[k].id) == id
}

/// The index of the application carrying this id; meaningful only when
/// `has_application` holds, and then unique by well-formedness.
pub open spec fn application_index(apps: Seq<Application>, id: i64) -> int {
    choose|k: int| 0 <= k < apps.len() && (#[trigger] apps[k].id) == id
}

/// The application state a decision assigns.
pub open spec fn decided_app_status(d: Decision) -> ApplicationStatus {
    match d {
        Decision::Accept => ApplicationStatus::Accepted,
        Decision::Reject => ApplicationStatus::Rejected,
    }
}

/// An application joined with its posting's display fields, as the applicant
/// sees it.
#[derive(Debug)]
pub struct SubmittedApplication {
    pub id: i64,
    pub post_id: i64,
    pub post_title: String,
    pub company_name: String,
    pub status: ApplicationStatus,
    pub answers: String,
    pub created_at: i64,
    pub updated_at: i64,
}

/// An application joined with its posting's title and the applicant's
/// identity, as the receiving employer sees it.
#[derive(Debug)]
pub struct ReceivedApplication {
    pub id: i64,
    pub post_id: i64,
    pub post_title: String,
    pub applicant_id: String,
    pub first_name: String,
    pub last_name: String,
    pub email: String,
    pub status: ApplicationStatus,
    pub answers: String,
    pub created_at: i64,
    pub updated_at: i64,
}

/// The submitted-side view of one application: its own fields plus the title
/// and company name of the posting it references.
pub open spec fn submitted_entry(postings: Seq<Posting>, a: Application) -> SubmittedApplication {
    let p = postings[posting_index(postings, a.post_id)];
    SubmittedApplication {
        id: a.id,
        post_id: a.post_id,
        post_title: p.title,
        company_name: p.company_name,
        status: a.status,
        answers: a.answers,
        created_at: a.created_at,
        updated_at: a.updated_at,
    }
}

/// What a student's application listing holds: one entry per application the
/// student made, in stored order, joined with the posting.
pub open spec fn submitted_of(
    apps: Seq<Application>,
    postings: Seq<Posting>,
    applicant: Seq<char>,
) -> Seq<SubmittedApplication> {
    apps.filter(|a: Application| a.applicant_id@ == applicant).map_values(
        |a: Application| submitted_entry(postings, a),
    )
}

/// The received-side view of one application: its own fields plus the
/// posting's title and the applicant's identity fields.
pub open spec fn received_entry(
    postings: Seq<Posting>,
    accounts: Seq<Account>,
    a: Application,
) -> ReceivedApplication {
    let p = postings[posting_index(postings, a.post_id)];
    let u = accounts[account_index(accounts, a.applicant_id@)];
    ReceivedApplication {
        id: a.id,
        post_id: a.post_id,
        post_title: p.title,
        applicant_id: a.applicant_id,
        first_name: u.first_name,
        last_name: u.last_name,
        email: u.email,
        status: a.status,
        answers: a.answers,
        created_at: a.created_at,
        updated_at: a.updated_at,
    }
}

/// What an employer's received listing holds: one entry per application
/// addressed to the employer whose applicant still resolves to an account, in
/// stored order, joined with the posting and the applicant.
pub open spec fn received_of(
    apps: Seq<Application>,
    postings: Seq<Posting>,
    accounts: Seq<Account>,
    employer: Seq<char>,
) -> Seq<ReceivedApplication> {
    apps.filter(
        |a: Application| a.employer_id@ == employer && identifier_taken(accounts, a.applicant_id@),
    ).map_values(|a: Application| received_entry(postings, accounts, a))
}

impl JobBoard {
    /// Index of the application carrying this id, if any.
    fn find_application(&self, id: i64) -> (r: Option<usize>)
        ensures
            match r {
                Some(k) => k < self.applications@.len() && self.applications@[k as int].id == id,
                None => !has_application(self.applications@, id),
            },
    {
        let mut k: usize = 0;
        while k < self.applications.len()
            invariant
                k <= self.applications@.len(),
                forall|j: int| 0 <= j < k ==> (#[trigger] self.applications@[j].id) != id,
            decreases self.applications@.len() - k,
        {
            if self.applications[k].id == id {
                return Some(k);
            }
            k += 1;
        }
        None
    }

    /// Files an application by `applicant` against a posting. `NotFound`
    /// exactly when the posting id resolves to no posting; nothing else gates
    /// the call — deliberately, a student may apply to a posting in any
    /// moderation state, and a second application to the same posting simply
    /// produces a second record. The posting owner's identifier is copied
    /// onto the application at this instant and never changes afterwards; the
    /// application starts Pending. `StoreError` happens only when the id
    /// counter is exhausted.
    pub fn apply(&mut self, applicant: &str, post_id: i64, answers: &str) -> (r: Result<
        &Application,
        BoardError,
    >)
        requires
            old(self).wf(),
        ensures
            final(self).wf(),
            final(self).secret == old(self).secret,
            final(self).accounts == old(self).accounts,
            final(self).postings == old(self).postings,
            final(self).messages == old(self).messages,
            final(self).next_posting_id == old(self).next_posting_id,
            final(self).next_message_id == old(self).next_message_id,
            r is Err ==> *final(self) == *old(self),
            match r {
                Ok(a) => {
                    let k = posting_index(old(self).postings@, post_id);
                    &&& has_posting(old(self).postings@, post_id)
                    &&& final(self).applications@ == old(self).applications@.push(*a)
                    &&& final(self).next_application_id == old(self).next_application_id + 1
                    &&& a.id == old(self).next_application_id
                    &&& a.post_id == post_id
                    &&& a.applicant_id@ == applicant@
                    &&& a.employer_id@ == old(self).postings@[k].employer_id@
                    &&& a.status is Pending
                    &&& a.answers@ == answers@
                    &&& a.created_at == a.updated_at
                },
                Err(e) => if !has_posting(old(self).postings@, post_id) {
                    e == BoardError::NotFound
                } else {
                    e == BoardError::StoreError && old(self).next_application_id == i64::MAX
                },
            },
    {
        let ghost before = *self;
        let k = match self.find_posting(post_id) {
            Some(k) => k,
            None => {
                return Err(BoardError::NotFound);
            },
        };
        proof {
            let kk = posting_index(self.postings@, post_id);
            assert(has_posting(self.postings@, post_id));
            assert(0 <= kk < self.postings@.len() && self.postings@[kk].id == post_id);
            assert(kk == k as int);
        }
        if self.next_application_id == i64::MAX {
            return Err(BoardError::StoreError);
        }
        let now = clock::now_unix();
        let application = Application {
            id: self.next_application_id,
            post_id,
            applicant_id: applicant.to_owned(),
            employer_id: self.postings[k].employer_id.clone(),
            status: ApplicationStatus::Pending,
            answers: answers.to_owned(),
            created_at: now,
            updated_at: now,
        };
        let ghost added = application;
        self.applications.push(application);
        self.next_application_id = self.next_application_id + 1;
        proof {
            let a0 = before.applications@;
            let a1 = self.applications@;
            assert(a1 == a0.push(added));
            assert forall|x: int, y: int|
                0 <= x < a1.len() && 0 <= y < a1.len() && x != y implies (#[trigger] a1[x].id) != (
            #[trigger] a1[y].id) by {
                if x < a0.len() && y < a0.len() {
                    assert(a0[x].id != a0[y].id);
                }
            }
            assert forall|x: int| 0 <= x < a1.len() implies app_linked(
                self.postings@,
                #[trigger] a1[x],
            ) by {
                if x < a0.len() {
                    assert(app_linked(self.postings@, a0[x]));
                } else {
                    assert(self.postings@[k as int].id == added.post_id);
                    assert(self.postings@[k as int].employer_id@ == added.employer_id@);
                }
            }
        }
        let n = self.applications.len();
        Ok(&self.applications[n - 1])
    }

    /// Every application this student filed, in stored order, each joined
    /// with its posting's title and company name. The posting always exists:
    /// deleting a posting deletes its applications with it.
    pub fn list_submitted(&self, applicant: &str) -> (r: Vec<SubmittedApplication>)
        requires
            self.wf(),
        ensures
            r@ == submitted_of(self.applications@, self.postings@, applicant@),
    {
        let target: String = applicant.to_owned();
        let mut out: Vec<SubmittedApplication> = Vec::new();
        let mut i: usize = 0;
        proof {
            reveal(Seq::<_>::filter);
            assert(submitted_of(self.applications@.take(0), self.postings@, applicant@) =~= Seq::<
                SubmittedApplication,
            >::empty());
        }
        while i < self.applications.len()
            invariant
                self.wf(),
                i <= self.applications@.len(),
                target@ == applicant@,
                out@ == submitted_of(
                    self.applications@.take(i as int),
                    self.postings@,
                    applicant@,
                ),
            decreases self.applications@.len() - i,
        {
            proof {
                reveal(Seq::<_>::filter);
                assert(self.applications@.take(i as int + 1).drop_last() =~= self.applications@
                    .take(i as int));
                assert(self.applications@.take(i as int + 1).last()
                    == self.applications@[i as int]);
            }
            if self.applications[i].applicant_id == target {
                proof {
                    assert(app_linked(self.postings@, self.applications@[i as int]));
                    assert(has_posting(self.postings@, self.applications@[i as int].post_id));
                }
                let k = match self.find_posting(self.applications[i].post_id) {
                    Some(k) => k,
                    // Unreachable: well-formedness links every application to
                    // an existing posting, proved above.
                    None => {
                        proof {
                            assert(false);
                        }
                        return out;
                    },
                };
                proof {
                    let kk = posting_index(self.postings@, self.applications@[i as int].post_id);
                    assert(0 <= kk < self.postings@.len() && self.postings@[kk].id
                        == self.applications@[i as int].post_id);
                    assert(kk == k as int);
                }
                let a = &self.applications[i];
                out.push(SubmittedApplication {
                    id: a.id,
                    post_id: a.post_id,
                    post_title: self.postings[k].title.clone(),
                    company_name: self.postings[k].company_name.clone(),
                    status: a.status,
                    answers: a.answers.clone(),
                    created_at: a.created_at,
                    updated_at: a.updated_at,
                });
                proof {
                    let pref1 = self.applications@.take(i as int + 1);
                    let fpred = |a: Application| a.applicant_id@ == applicant@;
                    assert(pref1.filter(fpred) == self.applications@.take(i as int).filter(
                        fpred,
                    ).push(self.applications@[i as int]));
                    assert(out@ =~= pref1.filter(fpred).map_values(
                        |a: Application| submitted_entry(self.postings@, a),
                    ));
                }
            }
            i += 1;
        }
        proof {
            assert(self.applications@.take(self.applications@.len() as int)
                =~= self.applications@);
        }
        out
    }

    /// Every application addressed to this employer, in stored order, joined
    /// with the posting's title and the applicant's identity. The caller must
    /// resolve (`InvalidCredential` otherwise) and must be an employer
    /// (`Forbidden` otherwise). An application whose applicant identifier
    /// resolves to no account is left out of the listing.
    pub fn list_received(&self, employer: &str) -> (r: Result<Vec<ReceivedApplication>, BoardError>)
        requires
            self.wf(),
        ensures
            match r {
                Ok(v) => {
                    &&& self.resolve_spec(employer@) matches Some(a) && a.role is Employer
                    &&& v@ == received_of(
                        self.applications@,
                        self.postings@,
                        self.accounts@,
                        employer@,
                    )
                },
                Err(e) => match self.resolve_spec(employer@) {
                    None => e == BoardError::InvalidCredential,
                    Some(a) => e == BoardError::Forbidden && !(a.role is Employer),
                },
            },
    {
        let i = match self.find_account(employer) {
            Some(i) => i,
            None => {
                return Err(BoardError::InvalidCredential);
            },
        };
        proof {
            let j = account_index(self.accounts@, employer@);
            assert(identifier_taken(self.accounts@, employer@));
            assert(0 <= j < self.accounts@.len() && self.accounts@[j].identifier@ == employer@);
            assert(j == i as int);
        }
        if !(self.accounts[i].role == AccountType::Employer) {
            return Err(BoardError::Forbidden);
        }
        let target: String = employer.to_owned();
        let mut out: Vec<ReceivedApplication> = Vec::new();
        let mut x: usize = 0;
        proof {
            reveal(Seq::<_>::filter);
            assert(received_of(
                self.applications@.take(0),
                self.postings@,
                self.accounts@,
                employer@,
            ) =~= Seq::<ReceivedApplication>::empty());
        }
        while x < self.applications.len()
            invariant
                self.wf(),
                x <= self.applications@.len(),
                target@ == employer@,
                out@ == received_of(
                    self.applications@.take(x as int),
                    self.postings@,
                    self.accounts@,
                    employer@,
                ),
            decreases self.applications@.len() - x,
        {
            proof {
                reveal(Seq::<_>::filter);
                assert(self.applications@.take(x as int + 1).drop_last() =~= self.applications@
                    .take(x as int));
                assert(self.applications@.take(x as int + 1).last()
                    == self.applications@[x as int]);
            }
            let mut included = false;
            if self.applications[x].employer_id == target {
                if let Some(u) = self.find_account(self.applications[x].applicant_id.as_str()) {
                    included = true;
                    proof {
                        assert(identifier_taken(
                            self.accounts@,
                            self.applications@[x as int].applicant_id@,
                        ));
                        let uu = account_index(
                            self.accounts@,
                            self.applications@[x as int].applicant_id@,
                        );
                        assert(0 <= uu < self.accounts@.len() && self.accounts@[uu].identifier@
                            == self.applications@[x as int].applicant_id@);
                        assert(uu == u as int);
                        assert(app_linked(self.postings@, self.applications@[x as int]));
                        assert(has_posting(self.postings@, self.applications@[x as int].post_id));
                    }
                    let k = match self.find_posting(self.applications[x].post_id) {
                        Some(k) => k,
                        // Unreachable: well-formedness links every application
                        // to an existing posting, proved above.
                        None => {
                            proof {
                                assert(false);
                            }
                            return Err(BoardError::StoreError);
                        },
                    };
                    proof {
                        let kk = posting_index(
                            self.postings@,
                            self.applications@[x as int].post_id,
                        );
                        assert(0 <= kk < self.postings@.len() && self.postings@[kk].id
                            == self.applications@[x as int].post_id);
                        assert(kk == k as int);
                    }
                    let a = &self.applications[x];
                    out.push(ReceivedApplication {
                        id: a.id,
                        post_id: a.post_id,
                        post_title: self.postings[k].title.clone(),
                        applicant_id: a.applicant_id.clone(),
                        first_name: self.accounts[u].first_name.clone(),
                        last_name: self.accounts[u].last_name.clone(),
                        email: self.accounts[u].email.clone(),
                        status: a.status,
                        answers: a.answers.clone(),
                        created_at: a.created_at,
                        updated_at: a.updated_at,
                    });
                }
            }
            proof {
                let pref1 = self.applications@.take(x as int + 1);
                let fpred = |a: Application|
                    a.employer_id@ == employer@ && identifier_taken(
                        self.accounts@,
                        a.applicant_id@,
                    );
                if included {
                    assert(fpred(self.applications@[x as int]));
                    assert(pref1.filter(fpred) == self.applications@.take(x as int).filter(
                        fpred,
                    ).push(self.applications@[x as int]));
                    assert(out@ =~= pref1.filter(fpred).map_values(
                        |a: Application| received_entry(self.postings@, self.accounts@, a),
                    ));
                } else {
                    assert(!fpred(self.applications@[x as int]));
                    assert(pref1.filter(fpred) == self.applications@.take(x as int).filter(fpred));
                }
            }
            x += 1;
        }
        proof {
            assert(self.applications@.take(self.applications@.len() as int)
                =~= self.applications@);
        }
        Ok(out)
    }

    /// Decides an application: pending → accepted or pending → rejected.
    /// `NotFound` exactly when the id resolves to no application; `Forbidden`
    /// exactly when the caller is not the employer the application is
    /// addressed to — only that employer may decide it. A repeat decision on
    /// an already-decided application is allowed and overwrites the state,
    /// mirroring the moderation policy. Only that one application's status
    /// and update time change.
    pub fn set_status(&mut self, application_id: i64, caller: &str, decision: Decision) -> (r:
        Result<&Application, BoardError>)
        requires
            old(self).wf(),
        ensures
            final(self).wf(),
            final(self).secret == old(self).secret,
            final(self).accounts == old(self).accounts,
            final(self).postings == old(self).postings,
            final(self).messages == old(self).messages,
            final(self).next_posting_id == old(self).next_posting_id,
            final(self).next_application_id == old(self).next_application_id,
            final(self).next_message_id == old(self).next_message_id,
            r is Err ==> *final(self) == *old(self),
            match r {
                Ok(a) => {
                    let k = application_index(old(self).applications@, application_id);
                    &&& has_application(old(self).applications@, application_id)
                    &&& old(self).applications@[k].employer_id@ == caller@
                    &&& *a == (Application {
                        status: decided_app_status(decision),
                        updated_at: a.updated_at,
                        ..old(self).applications@[k]
                    })
                    &&& final(self).applications@ == old(self).applications@.update(k, *a)
                },
                Err(e) => if !has_application(old(self).applications@, application_id) {
                    e == BoardError::NotFound
                } else {
                    e == BoardError::Forbidden && old(self).applications@[application_index(
                        old(self).applications@,
                        application_id,
                    )].employer_id@ != caller@
                },
            },
    {
        let ghost before = *self;
        let k = match self.find_application(application_id) {
            Some(k) => k,
            None => {
                return Err(BoardError::NotFound);
            },
        };
        proof {
            let kk = application_index(self.applications@, application_id);
            assert(has_application(self.applications@, application_id));
            assert(0 <= kk < self.applications@.len() && self.applications@[kk].id
                == application_id);
            assert(kk == k as int);
        }
        let target: String = caller.to_owned();
        if !(self.applications[k].employer_id == target) {
            return Err(BoardError::Forbidden);
        }
        let now = clock::now_unix();
        self.applications[k].status = match decision {
            Decision::Accept => ApplicationStatus::Accepted,
            Decision::Reject => ApplicationStatus::Rejected,
        };
        self.applications[k].updated_at = now;
        proof {
            let a0 = before.applications@;
            let a1 = self.applications@;
            assert(a1 =~= a0.update(
                k as int,
                Application {
                    status: decided_app_status(decision),
                    updated_at: now,
                    ..a0[k as int]
                },
            ));
            assert forall|x: int| 0 <= x < a1.len() implies (#[trigger] a1[x].id) == a0[x].id
                && a1[x].post_id == a0[x].post_id && a1[x].employer_id@ == a0[x].employer_id@ by {}
            assert forall|x: int| 0 <= x < a1.len() implies app_linked(
                self.postings@,
                #[trigger] a1[x],
            ) by {
                assert(app_linked(self.postings@, a0[x]));
                let w = choose|w: int|
                    0 <= w < self.postings@.len() && (#[trigger] self.postings@[w].id)
                        == a0[x].post_id && self.postings@[w].employer_id@ == a0[x].employer_id@;
                assert(self.postings@[w].id == a1[x].post_id && self.postings@[w].employer_id@
                    == a1[x].employer_id@);
            }
        }
        Ok(&self.applications[k])
    }
}

} // verus!
