use vstd::prelude::*;
use vstd::multiset::Multiset;

use crate::board::app_linked;
use crate::board::account_index;
use crate::board::identifier_taken;
use crate::board::is_employer;
use crate::board::lemma_app_linked_push;
use crate::board::lemma_app_linked_same_owners;
use crate::board::JobBoard;
use crate::clock;
use crate::enums::AccountType;
use crate::enums::BoardError;
use crate::enums::Decision;
use crate::enums::PostingStatus;
use crate::records::Posting;
use crate::requests::CreatePostRequest;
use crate::requests::Post;

verus! {

/// Whether some posting carries this id.
pub open spec fn has_posting(postings: Seq<Posting>, id: i64) -> bool {
    exists|k: int| 0 <= k < postings.len() && (#[trigger] postings[k].id) == id
}

/// The index of the posting carrying this id; meaningful only when
/// `has_posting` holds, and then unique by well-formedness.
pub open spec fn posting_index(postings: Seq<Posting>, id: i64) -> int {
    choose|k: int| 0 <= k < postings.len() && (#[trigger] postings[k].id) == id
}

/// The moderation state a decision assigns.
pub open spec fn decided_status(d: Decision) -> PostingStatus {
    match d {
        Decision::Accept => PostingStatus::Accepted,
        Decision::Reject => PostingStatus::Rejected,
    }
}

/// The postings an administrator has accepted, in stored order.
pub open spec fn accepted_postings(postings: Seq<Posting>) -> Seq<Posting> {
    postings.filter(|p: Posting| p.status is Accepted)
}

/// The postings still awaiting moderation, in stored order.
pub open spec fn pending_postings(postings: Seq<Posting>) -> Seq<Posting> {
    postings.filter(|p: Posting| p.status is Pending)
}

/// The postings owned by this employer, in stored order and in every
/// moderation state.
pub open spec fn owned_postings(postings: Seq<Posting>, owner: Seq<char>) -> Seq<Posting> {
    postings.filter(|p: Posting| p.employer_id@ == owner)
}

/// Newest first: creation dates never increase along the sequence.
pub open spec fn sorted_by_date_desc(s: Seq<Posting>) -> bool {
    forall|i: int, j: int| 0 <= i <= j < s.len() ==> (#[trigger] s[i].date) >= (#[trigger] s[j].date)
}

/// The applications that survive a posting's cascade delete: those that
/// reference any other posting, in stored order.
pub open spec fn surviving_applications(
    apps: Seq<crate::records::Application>,
    posting_id: i64,
) -> Seq<crate::records::Application> {
    apps.filter(|a: crate::records::Application| a.post_id != posting_id)
}

/// The posting as it stands after its content is replaced: id, owner,
/// company name, creation date and moderation state are untouched. An absent
/// `questions` payload keeps the stored questions.
pub open spec fn with_content(p: Posting, f: Post) -> Posting {
    Posting {
        title: f.title,
        description: f.description,
        tags: f.tags,
        documents: f.documents,
        tips: f.tips,
        skills: f.skills,
        experience: f.experience,
        jobtype: f.jobtype,
        location: f.location,
        questions: match f.questions {
            Some(q) => q,
            None => p.questions,
        },
        ..p
    }
}

impl JobBoard {
    /// Index of the posting carrying this id, if any.
    pub(crate) fn find_posting(&self, id: i64) -> (r: Option<usize>)
        ensures
            match r {
                Some(k) => k < self.postings@.len() && self.postings@[k as int].id == id,
                None => !has_posting(self.postings@, id),
            },
    {
        let mut k: usize = 0;
        while k < self.postings.len()
            invariant
                k <= self.postings@.len(),
                forall|j: int| 0 <= j < k ==> (#[trigger] self.postings@[j].id) != id,
            decreases self.postings@.len() - k,
        {
            if self.postings[k].id == id {
                return Some(k);
            }
            k += 1;
        }
        None
    }

    /// Creates a posting owned by the caller. The caller must resolve
    /// (`InvalidCredential` otherwise), must be an employer (`Forbidden`
    /// otherwise), and must have all four onboarding agreements set
    /// (`IncompleteOnboarding` otherwise). On success the posting is appended
    /// with the next fresh id, the given content, the caller as owner, the
    /// current time as creation date, and status Pending — it is not publicly
    /// visible until an administrator accepts it. `StoreError` happens only
    /// when the id counter is exhausted.
    pub fn create_posting(&mut self, caller: &str, req: &CreatePostRequest) -> (r: Result<
        &Posting,
        BoardError,
    >)
        requires
            old(self).wf(),
        ensures
            final(self).wf(),
            final(self).secret == old(self).secret,
            final(self).accounts == old(self).accounts,
            final(self).applications == old(self).applications,
            final(self).messages == old(self).messages,
            final(self).next_application_id == old(self).next_application_id,
            final(self).next_message_id == old(self).next_message_id,
            r is Err ==> *final(self) == *old(self),
            match r {
                Ok(p) => {
                    &&& old(self).resolve_spec(caller@) matches Some(a) && a.role is Employer
                        && a.profile.forms.employer.complete()
                    &&& final(self).postings@ == old(self).postings@.push(*p)
                    &&& final(self).next_posting_id == old(self).next_posting_id + 1
                    &&& p.id == old(self).next_posting_id
                    &&& p.employer_id@ == caller@
                    &&& p.status is Pending
                    &&& p.title@ == req.title@
                    &&& p.description@ == req.description@
                    &&& p.tags@ == req.tags@
                    &&& p.documents@ == req.documents@
                    &&& p.tips@ == req.tips@
                    &&& p.skills@ == req.skills@
                    &&& p.experience@ == req.experience@
                    &&& p.jobtype@ == req.jobtype@
                    &&& p.location@ == req.location@
                    &&& (req.questions matches Some(q) ==> p.questions@ == q@)
                    &&& (req.questions is None ==> p.questions@.len() == 0)
                    &&& p.company_name@ == req.company_name@
                },
                Err(e) => match old(self).resolve_spec(caller@) {
                    None => e == BoardError::InvalidCredential,
                    Some(a) => if !(a.role is Employer) {
                        e == BoardError::Forbidden
                    } else if !a.profile.forms.employer.complete() {
                        e == BoardError::IncompleteOnboarding
                    } else {
                        e == BoardError::StoreError && old(self).next_posting_id == i64::MAX
                    },
                },
            },
    {
        let ghost before = *self;
        let i = match self.find_account(caller) {
            Some(i) => i,
            None => {
                return Err(BoardError::InvalidCredential);
            },
        };
        proof {
            let j = account_index(self.accounts@, caller@);
            assert(identifier_taken(self.accounts@, caller@));
            assert(0 <= j < self.accounts@.len() && self.accounts@[j].identifier@ == caller@);
            assert(j == i as int);
        }
        if !(self.accounts[i].role == AccountType::Employer) {
            return Err(BoardError::Forbidden);
        }
        let agreements = &self.accounts[i].profile.forms.employer;
        if !(agreements.employer_agreement && agreements.job_posting_guidelines
            && agreements.insurance_certificate && agreements.benefits_description) {
            return Err(BoardError::IncompleteOnboarding);
        }
        if self.next_posting_id == i64::MAX {
            return Err(BoardError::StoreError);
        }
        let date = clock::now_unix();
        let posting = Posting {
            id: self.next_posting_id,
            employer_id: caller.to_owned(),
            title: req.title.clone(),
            description: req.description.clone(),
            tags: req.tags.clone(),
            documents: req.documents.clone(),
            tips: req.tips.clone(),
            skills: req.skills.clone(),
            experience: req.experience.clone(),
            jobtype: req.jobtype.clone(),
            location: req.location.clone(),
            questions: match &req.questions {
                Some(q) => q.clone(),
                None => String::new(),
            },
            company_name: req.company_name.clone(),
            date,
            status: PostingStatus::Pending,
        };
        let ghost added = posting;
        self.postings.push(posting);
        self.next_posting_id = self.next_posting_id + 1;
        proof {
            let p0 = before.postings@;
            let p1 = self.postings@;
            assert(p1 == p0.push(added));
            assert forall|a: int, b: int|
                0 <= a < p1.len() && 0 <= b < p1.len() && a != b implies (#[trigger] p1[a].id) != (
            #[trigger] p1[b].id) by {
                if a < p0.len() && b < p0.len() {
                    assert(p0[a].id != p0[b].id);
                }
            }
            assert forall|a: int| 0 <= a < p1.len() implies is_employer(
                self.accounts@,
                (#[trigger] p1[a]).employer_id@,
            ) by {
                if a < p0.len() {
                    assert(is_employer(self.accounts@, p0[a].employer_id@));
                } else {
                    assert(self.accounts@[i as int].identifier@ == added.employer_id@);
                    assert(self.accounts@[i as int].role is Employer);
                }
            }
            assert forall|a: int| 0 <= a < self.applications@.len() implies app_linked(
                p1,
                #[trigger] self.applications@[a],
            ) by {
                assert(app_linked(p0, self.applications@[a]));
                lemma_app_linked_push(p0, added, self.applications@[a]);
            }
        }
        let n = self.postings.len();
        Ok(&self.postings[n - 1])
    }

    /// Sets a posting's moderation state. The caller must resolve
    /// (`InvalidCredential` otherwise) and must be an administrator
    /// (`Forbidden` otherwise); an absent posting id is `NotFound`. A repeat
    /// moderation of an already-decided posting is allowed and overwrites the
    /// state. Nothing but that one posting's status changes.
    pub fn moderate(&mut self, caller: &str, posting_id: i64, decision: Decision) -> (r: Result<
        &Posting,
        BoardError,
    >)
        requires
            old(self).wf(),
        ensures
            final(self).wf(),
            final(self).secret == old(self).secret,
            final(self).accounts == old(self).accounts,
            final(self).applications == old(self).applications,
            final(self).messages == old(self).messages,
            final(self).next_posting_id == old(self).next_posting_id,
            final(self).next_application_id == old(self).next_application_id,
            final(self).next_message_id == old(self).next_message_id,
            r is Err ==> *final(self) == *old(self),
            match r {
                Ok(p) => {
                    let k = posting_index(old(self).postings@, posting_id);
                    &&& old(self).resolve_spec(caller@) matches Some(a)
                        && a.role is Administrator
                    &&& has_posting(old(self).postings@, posting_id)
                    &&& *p == (Posting { status: decided_status(decision), ..old(self).postings@[k] })
                    &&& final(self).postings@ == old(self).postings@.update(k, *p)
                },
                Err(e) => match old(self).resolve_spec(caller@) {
                    None => e == BoardError::InvalidCredential,
                    Some(a) => if !(a.role is Administrator) {
                        e == BoardError::Forbidden
                    } else {
                        e == BoardError::NotFound && !has_posting(old(self).postings@, posting_id)
                    },
                },
            },
    {
        let ghost before = *self;
        let i = match self.find_account(caller) {
            Some(i) => i,
            None => {
                return Err(BoardError::InvalidCredential);
            },
        };
        proof {
            let j = account_index(self.accounts@, caller@);
            assert(identifier_taken(self.accounts@, caller@));
            assert(0 <= j < self.accounts@.len() && self.accounts@[j].identifier@ == caller@);
            assert(j == i as int);
        }
        if !(self.accounts[i].role == AccountType::Administrator) {
            return Err(BoardError::Forbidden);
        }
        let k = match self.find_posting(posting_id) {
            Some(k) => k,
            None => {
                return Err(BoardError::NotFound);
            },
        };
        proof {
            let kk = posting_index(self.postings@, posting_id);
            assert(has_posting(self.postings@, posting_id));
            assert(0 <= kk < self.postings@.len() && self.postings@[kk].id == posting_id);
            assert(kk == k as int);
        }
        self.postings[k].status = match decision {
            Decision::Accept => PostingStatus::Accepted,
            Decision::Reject => PostingStatus::Rejected,
        };
        proof {
            let p0 = before.postings@;
            let p1 = self.postings@;
            assert(p1 == p0.update(
                k as int,
                Posting { status: decided_status(decision), ..p0[k as int] },
            ));
            assert forall|a: int| 0 <= a < p1.len() implies (#[trigger] p1[a].id) == p0[a].id
                && p1[a].employer_id@ == p0[a].employer_id@ by {}
            assert forall|a: int| 0 <= a < p1.len() implies is_employer(
                self.accounts@,
                (#[trigger] p1[a]).employer_id@,
            ) by {
                assert(is_employer(self.accounts@, p0[a].employer_id@));
            }
            assert forall|a: int| 0 <= a < self.applications@.len() implies app_linked(
                p1,
                #[trigger] self.applications@[a],
            ) by {
                assert(app_linked(p0, self.applications@[a]));
                lemma_app_linked_same_owners(p0, p1, self.applications@[a]);
            }
        }
        Ok(&self.postings[k])
    }

    /// Index of the posting with the latest creation date among `v`.
    fn index_of_latest(v: &Vec<Posting>) -> (r: usize)
        requires
            v@.len() > 0,
        ensures
            r < v@.len(),
            forall|k: int| 0 <= k < v@.len() ==> (#[trigger] v@[k].date) <= v@[r as int].date,
    {
        let mut best: usize = 0;
        let mut k: usize = 1;
        while k < v.len()
            invariant
                best < k <= v@.len(),
                forall|j: int| 0 <= j < k ==> (#[trigger] v@[j].date) <= v@[best as int].date,
            decreases v@.len() - k,
        {
            if v[k].date > v[best].date {
                best = k;
            }
            k += 1;
        }
        best
    }

    /// The public listing: exactly the accepted postings, newest first.
    /// Pending and rejected postings never appear here.
    pub fn list_public(&self) -> (r: Vec<Posting>)
        ensures
            r@.to_multiset() == accepted_postings(self.postings@).to_multiset(),
            r@.len() == accepted_postings(self.postings@).len(),
            sorted_by_date_desc(r@),
    {
        broadcast use vstd::seq_lib::group_to_multiset_ensures;
        broadcast use vstd::multiset::group_multiset_axioms;

        let mut rest: Vec<Posting> = Vec::new();
        let mut i: usize = 0;
        proof {
            reveal(Seq::<_>::filter);
            assert(accepted_postings(self.postings@.take(0)) =~= Seq::<Posting>::empty());
        }
        while i < self.postings.len()
            invariant
                i <= self.postings@.len(),
                rest@ == accepted_postings(self.postings@.take(i as int)),
            decreases self.postings@.len() - i,
        {
            proof {
                reveal(Seq::<_>::filter);
                assert(self.postings@.take(i as int + 1).drop_last() =~= self.postings@.take(
                    i as int,
                ));
                assert(self.postings@.take(i as int + 1).last() == self.postings@[i as int]);
            }
            if self.postings[i].status == PostingStatus::Accepted {
                rest.push(self.postings[i].clone());
            }
            i += 1;
        }
        proof {
            assert(self.postings@.take(self.postings@.len() as int) =~= self.postings@);
        }
        let ghost base = rest@;
        let mut out: Vec<Posting> = Vec::new();
        while rest.len() > 0
            invariant
                out@.to_multiset().add(rest@.to_multiset()) == base.to_multiset(),
                out@.len() + rest@.len() == base.len(),
                sorted_by_date_desc(out@),
                forall|a: int, b: int|
                    0 <= a < out@.len() && 0 <= b < rest@.len() ==> (#[trigger] out@[a].date) >= (
                    #[trigger] rest@[b].date),
            decreases rest@.len(),
        {
            let m = Self::index_of_latest(&rest);
            let ghost out0 = out@;
            let ghost rest0 = rest@;
            let p = rest.remove(m);
            out.push(p);
            proof {
                broadcast use vstd::seq_lib::group_to_multiset_ensures;
                broadcast use vstd::multiset::group_multiset_axioms;

                assert(rest0.contains(rest0[m as int]));
                assert(rest0.to_multiset().count(rest0[m as int]) > 0);
                assert(out@.to_multiset() =~= out0.to_multiset().insert(rest0[m as int]));
                assert(rest@.to_multiset() =~= rest0.to_multiset().remove(rest0[m as int]));
                assert(out@.to_multiset().add(rest@.to_multiset()) =~= base.to_multiset());
            }
        }
        proof {
            broadcast use vstd::seq_lib::group_to_multiset_ensures;
            broadcast use vstd::multiset::group_multiset_axioms;

            assert(rest@.to_multiset() =~= Multiset::<Posting>::empty());
            assert(out@.to_multiset().add(rest@.to_multiset()) =~= out@.to_multiset());
            assert(out@.to_multiset().len() == base.to_multiset().len());
        }
        out
    }

    /// The moderation queue: exactly the pending postings, in stored order.
    /// The caller must resolve (`InvalidCredential` otherwise) and must be an
    /// administrator (`Forbidden` otherwise).
    pub fn list_pending(&self, caller: &str) -> (r: Result<Vec<Posting>, BoardError>)
        requires
            self.wf(),
        ensures
            match r {
                Ok(v) => {
                    &&& self.resolve_spec(caller@) matches Some(a) && a.role is Administrator
                    &&& v@ == pending_postings(self.postings@)
                },
                Err(e) => match self.resolve_spec(caller@) {
                    None => e == BoardError::InvalidCredential,
                    Some(a) => e == BoardError::Forbidden && !(a.role is Administrator),
                },
            },
    {
        let i = match self.find_account(caller) {
            Some(i) => i,
            None => {
                return Err(BoardError::InvalidCredential);
            },
        };
        proof {
            let j = account_index(self.accounts@, caller@);
            assert(identifier_taken(self.accounts@, caller@));
            assert(0 <= j < self.accounts@.len() && self.accounts@[j].identifier@ == caller@);
            assert(j == i as int);
        }
        if !(self.accounts[i].role == AccountType::Administrator) {
            return Err(BoardError::Forbidden);
        }
        let mut out: Vec<Posting> = Vec::new();
        let mut k: usize = 0;
        proof {
            reveal(Seq::<_>::filter);
            assert(pending_postings(self.postings@.take(0)) =~= Seq::<Posting>::empty());
        }
        while k < self.postings.len()
            invariant
                k <= self.postings@.len(),
                out@ == pending_postings(self.postings@.take(k as int)),
            decreases self.postings@.len() - k,
        {
            proof {
                reveal(Seq::<_>::filter);
                assert(self.postings@.take(k as int + 1).drop_last() =~= self.postings@.take(
                    k as int,
                ));
                assert(self.postings@.take(k as int + 1).last() == self.postings@[k as int]);
            }
            if self.postings[k].status == PostingStatus::Pending {
                out.push(self.postings[k].clone());
            }
            k += 1;
        }
        proof {
            assert(self.postings@.take(self.postings@.len() as int) =~= self.postings@);
        }
        Ok(out)
    }

    /// Every posting owned by this identifier, in stored order, whatever its
    /// moderation state.
    pub fn list_owned(&self, owner: &str) -> (r: Vec<Posting>)
        ensures
            r@ == owned_postings(self.postings@, owner@),
    {
        let target: String = owner.to_owned();
        let mut out: Vec<Posting> = Vec::new();
        let mut k: usize = 0;
        proof {
            reveal(Seq::<_>::filter);
            assert(owned_postings(self.postings@.take(0), owner@) =~= Seq::<Posting>::empty());
        }
        while k < self.postings.len()
            invariant
                k <= self.postings@.len(),
                target@ == owner@,
                out@ == owned_postings(self.postings@.take(k as int), owner@),
            decreases self.postings@.len() - k,
        {
            proof {
                reveal(Seq::<_>::filter);
                assert(self.postings@.take(k as int + 1).drop_last() =~= self.postings@.take(
                    k as int,
                ));
                assert(self.postings@.take(k as int + 1).last() == self.postings@[k as int]);
            }
            if self.postings[k].employer_id == target {
                out.push(self.postings[k].clone());
            }
            k += 1;
        }
        proof {
            assert(self.postings@.take(self.postings@.len() as int) =~= self.postings@);
        }
        out
    }

    /// Replaces a posting's content fields. An absent posting id is
    /// `NotFound`; a caller other than the posting's owner gets `Forbidden`
    /// and the record is left untouched. The posting's id, owner, company
    /// name, creation date and moderation state never change here.
    pub fn update_posting(&mut self, posting_id: i64, caller: &str, fields: &Post) -> (r: Result<
        &Posting,
        BoardError,
    >)
        requires
            old(self).wf(),
        ensures
            final(self).wf(),
            final(self).secret == old(self).secret,
            final(self).accounts == old(self).accounts,
            final(self).applications == old(self).applications,
            final(self).messages == old(self).messages,
            final(self).next_posting_id == old(self).next_posting_id,
            final(self).next_application_id == old(self).next_application_id,
            final(self).next_message_id == old(self).next_message_id,
            r is Err ==> *final(self) == *old(self),
            match r {
                Ok(p) => {
                    let k = posting_index(old(self).postings@, posting_id);
                    &&& has_posting(old(self).postings@, posting_id)
                    &&& old(self).postings@[k].employer_id@ == caller@
                    &&& *p == with_content(old(self).postings@[k], *fields)
                    &&& final(self).postings@ == old(self).postings@.update(k, *p)
                },
                Err(e) => if !has_posting(old(self).postings@, posting_id) {
                    e == BoardError::NotFound
                } else {
                    e == BoardError::Forbidden && old(self).postings@[posting_index(
                        old(self).postings@,
                        posting_id,
                    )].employer_id@ != caller@
                },
            },
    {
        let ghost before = *self;
        let k = match self.find_posting(posting_id) {
            Some(k) => k,
            None => {
                return Err(BoardError::NotFound);
            },
        };
        proof {
            let kk = posting_index(self.postings@, posting_id);
            assert(has_posting(self.postings@, posting_id));
            assert(0 <= kk < self.postings@.len() && self.postings@[kk].id == posting_id);
            assert(kk == k as int);
        }
        let target: String = caller.to_owned();
        if !(self.postings[k].employer_id == target) {
            return Err(BoardError::Forbidden);
        }
        let updated = Posting {
            id: self.postings[k].id,
            employer_id: self.postings[k].employer_id.clone(),
            title: fields.title.clone(),
            description: fields.description.clone(),
            tags: fields.tags.clone(),
            documents: fields.documents.clone(),
            tips: fields.tips.clone(),
            skills: fields.skills.clone(),
            experience: fields.experience.clone(),
            jobtype: fields.jobtype.clone(),
            location: fields.location.clone(),
            questions: match &fields.questions {
                Some(q) => q.clone(),
                None => self.postings[k].questions.clone(),
            },
            company_name: self.postings[k].company_name.clone(),
            date: self.postings[k].date,
            status: self.postings[k].status,
        };
        self.postings[k] = updated;
        proof {
            let p0 = before.postings@;
            let p1 = self.postings@;
            assert(p1 == p0.update(k as int, with_content(p0[k as int], *fields)));
            assert forall|a: int| 0 <= a < p1.len() implies (#[trigger] p1[a].id) == p0[a].id
                && p1[a].employer_id@ == p0[a].employer_id@ by {}
            assert forall|a: int| 0 <= a < p1.len() implies is_employer(
                self.accounts@,
                (#[trigger] p1[a]).employer_id@,
            ) by {
                assert(is_employer(self.accounts@, p0[a].employer_id@));
            }
            assert forall|a: int| 0 <= a < self.applications@.len() implies app_linked(
                p1,
                #[trigger] self.applications@[a],
            ) by {
                assert(app_linked(p0, self.applications@[a]));
                lemma_app_linked_same_owners(p0, p1, self.applications@[a]);
            }
        }
        Ok(&self.postings[k])
    }

    /// Deletes a posting together with every application that references it,
    /// as one step: afterwards no posting carries the id and no application
    /// references it, and nothing else changed. An absent posting id is
    /// `NotFound`; a caller other than the posting's owner gets `Forbidden`
    /// and both records stay exactly as they were. No intermediate state —
    /// applications gone but the posting still there, or the reverse — is
    /// ever observable.
    pub fn delete_posting(&mut self, posting_id: i64, caller: &str) -> (r: Result<(), BoardError>)
        requires
            old(self).wf(),
        ensures
            final(self).wf(),
            final(self).secret == old(self).secret,
            final(self).accounts == old(self).accounts,
            final(self).messages == old(self).messages,
            final(self).next_posting_id == old(self).next_posting_id,
            final(self).next_application_id == old(self).next_application_id,
            final(self).next_message_id == old(self).next_message_id,
            r is Err ==> *final(self) == *old(self),
            match r {
                Ok(()) => {
                    let k = posting_index(old(self).postings@, posting_id);
                    &&& has_posting(old(self).postings@, posting_id)
                    &&& old(self).postings@[k].employer_id@ == caller@
                    &&& final(self).postings@ == old(self).postings@.remove(k)
                    &&& final(self).applications@ == surviving_applications(
                        old(self).applications@,
                        posting_id,
                    )
                    &&& !has_posting(final(self).postings@, posting_id)
                    &&& (forall|j: int|
                        0 <= j < final(self).applications@.len()
                            ==> (#[trigger] final(self).applications@[j]).post_id != posting_id)
                },
                Err(e) => if !has_posting(old(self).postings@, posting_id) {
                    e == BoardError::NotFound
                } else {
                    e == BoardError::Forbidden && old(self).postings@[posting_index(
                        old(self).postings@,
                        posting_id,
                    )].employer_id@ != caller@
                },
            },
    {
        let ghost before = *self;
        let k = match self.find_posting(posting_id) {
            Some(k) => k,
            None => {
                return Err(BoardError::NotFound);
            },
        };
        proof {
            let kk = posting_index(self.postings@, posting_id);
            assert(has_posting(self.postings@, posting_id));
            assert(0 <= kk < self.postings@.len() && self.postings@[kk].id == posting_id);
            assert(kk == k as int);
        }
        let target: String = caller.to_owned();
        if !(self.postings[k].employer_id == target) {
            return Err(BoardError::Forbidden);
        }
        let mut kept: Vec<crate::records::Application> = Vec::new();
        let mut j: usize = 0;
        proof {
            reveal(Seq::<_>::filter);
            assert(surviving_applications(self.applications@.take(0), posting_id) =~= Seq::<
                crate::records::Application,
            >::empty());
        }
        while j < self.applications.len()
            invariant
                *self == before,
                before.wf(),
                j <= self.applications@.len(),
                kept@ == surviving_applications(self.applications@.take(j as int), posting_id),
                forall|x: int|
                    0 <= x < kept@.len() ==> self.applications@.take(j as int).contains(
                        #[trigger] kept@[x],
                    ),
                forall|x1: int, x2: int|
                    0 <= x1 < x2 < kept@.len() ==> (#[trigger] kept@[x1].id) != (
                    #[trigger] kept@[x2].id),
            decreases self.applications@.len() - j,
        {
            proof {
                reveal(Seq::<_>::filter);
                assert(self.applications@.take(j as int + 1).drop_last() =~= self.applications@
                    .take(j as int));
                assert(self.applications@.take(j as int + 1).last()
                    == self.applications@[j as int]);
            }
            let ghost kept0 = kept@;
            let ghost prefix0 = self.applications@.take(j as int);
            let ghost prefix1 = self.applications@.take(j as int + 1);
            if !(self.applications[j].post_id == posting_id) {
                kept.push(self.applications[j].clone());
            }
            proof {
                assert forall|x: int| 0 <= x < kept@.len() implies prefix1.contains(
                    #[trigger] kept@[x],
                ) by {
                    if x < kept0.len() {
                        assert(prefix0.contains(kept0[x]));
                        let y0 = choose|y0: int|
                            0 <= y0 < prefix0.len() && prefix0[y0] == kept0[x];
                        assert(prefix0[y0] == self.applications@[y0]);
                        assert(prefix1[y0] == self.applications@[y0]);
                        assert(prefix1[y0] == kept@[x]);
                    } else {
                        assert(prefix1[j as int] == self.applications@[j as int]);
                        assert(kept@[x] == self.applications@[j as int]);
                    }
                }
                assert forall|x1: int, x2: int| 0 <= x1 < x2 < kept@.len() implies (
                #[trigger] kept@[x1].id) != (#[trigger] kept@[x2].id) by {
                    if x2 == kept0.len() {
                        assert(prefix0.contains(kept0[x1]));
                        let y0 = choose|y0: int|
                            0 <= y0 < prefix0.len() && prefix0[y0] == kept0[x1];
                        assert(prefix0[y0] == self.applications@[y0]);
                        assert(kept@[x1] == self.applications@[y0]);
                        assert(kept@[x2] == self.applications@[j as int]);
                        assert(self.applications@[y0].id != self.applications@[j as int].id);
                    }
                }
            }
            j += 1;
        }
        proof {
            assert(self.applications@.take(self.applications@.len() as int)
                =~= self.applications@);
        }
        self.applications = kept;
        self.postings.remove(k);
        proof {
            broadcast use vstd::seq_lib::group_filter_ensures;

            let p0 = before.postings@;
            let p1 = self.postings@;
            let a0 = before.applications@;
            let a1 = self.applications@;
            assert(p1 == p0.remove(k as int));
            assert(a1 == surviving_applications(a0, posting_id));
            assert forall|x: int| 0 <= x < p1.len() implies #[trigger] p1[x] == (if x < k as int {
                p0[x]
            } else {
                p0[x + 1]
            }) by {}
            assert forall|x: int| 0 <= x < p1.len() implies (#[trigger] p1[x].id) != posting_id by {
                if x < k as int {
                    assert(p0[x].id != p0[k as int].id);
                } else {
                    assert(p0[x + 1].id != p0[k as int].id);
                }
            }
            assert forall|x: int, y: int|
                0 <= x < p1.len() && 0 <= y < p1.len() && x != y implies (#[trigger] p1[x].id) != (
            #[trigger] p1[y].id) by {}
            assert forall|x: int| 0 <= x < p1.len() implies is_employer(
                self.accounts@,
                (#[trigger] p1[x]).employer_id@,
            ) by {
                if x < k as int {
                    assert(is_employer(self.accounts@, p0[x].employer_id@));
                } else {
                    assert(is_employer(self.accounts@, p0[x + 1].employer_id@));
                }
            }
            assert forall|x: int| 0 <= x < a1.len() implies (#[trigger] a1[x].post_id)
                != posting_id by {
                assert(surviving_applications(a0, posting_id)[x] == a1[x]);
            }
            assert forall|x: int| 0 <= x < a1.len() implies a0.contains(#[trigger] a1[x]) by {
                assert(a0.take(a0.len() as int).contains(a1[x]));
                assert(a0.take(a0.len() as int) =~= a0);
            }
            assert forall|x: int| 0 <= x < a1.len() implies app_linked(p1, #[trigger] a1[x]) by {
                assert(a0.contains(a1[x]));
                let y = choose|y: int| 0 <= y < a0.len() && a0[y] == a1[x];
                assert(app_linked(p0, a0[y]));
                assert(a1[x].post_id != posting_id);
                lemma_app_linked_remove(p0, k as int, a1[x]);
            }
            assert forall|x: int| 0 <= x < a1.len() implies 0 < (#[trigger] a1[x].id)
                < self.next_application_id by {
                assert(a0.contains(a1[x]));
                let w = choose|w: int| 0 <= w < a0.len() && a0[w] == a1[x];
                assert(0 < a0[w].id < before.next_application_id);
            }
        }
        Ok(())
    }
}

/// Removing one posting keeps an application link whose posting is a
/// different one.
pub proof fn lemma_app_linked_remove(s: Seq<Posting>, rk: int, a: crate::records::Application)
    requires
        0 <= rk < s.len(),
        app_linked(s, a),
        s[rk].id != a.post_id,
    ensures
        app_linked(s.remove(rk), a),
{
    let k = choose|k: int|
        0 <= k < s.len() && (#[trigger] s[k].id) == a.post_id && s[k].employer_id@
            == a.employer_id@;
    assert(k != rk);
    if k < rk {
        assert(s.remove(rk)[k] == s[k]);
        assert(s.remove(rk)[k].id == a.post_id && s.remove(rk)[k].employer_id@ == a.employer_id@);
    } else {
        assert(s.remove(rk)[k - 1] == s[k]);
        assert(s.remove(rk)[k - 1].id == a.post_id && s.remove(rk)[k - 1].employer_id@
            == a.employer_id@);
    }
}

} // verus!
