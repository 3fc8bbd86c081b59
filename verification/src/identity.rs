use vstd::prelude::*;

use crate::board::account_index;
use crate::board::email_index;
use crate::board::email_taken;
use crate::board::identifier_taken;
use crate::board::is_employer;
use crate::board::lemma_is_employer_push;
use crate::board::lemma_is_employer_same_roles;
use crate::board::JobBoard;
use crate::clock;
use crate::credential;
use crate::credential::verifies;
use crate::enums::AccountStatus;
use crate::enums::AccountType;
use crate::enums::BoardError;
use crate::profile::EmployerForms;
use crate::profile::Forms;
use crate::profile::ProfileInfo;
use crate::records::Account;
use crate::requests::UpdateEmployerAgreementsRequest;
use crate::token;

verus! {

/// How many accounts of a role the prefix of the account list holds.
pub open spec fn count_role(s: Seq<Account>, role: AccountType) -> nat
    decreases s.len(),
{
    if s.len() == 0 {
        0nat
    } else {
        count_role(s.drop_last(), role) + (if s.last().role == role {
            1nat
        } else {
            0nat
        })
    }
}

/// What the public account directory shows of one account: identity and
/// presentation fields only — never the email, the password hash, or the
/// profile beyond its picture.
#[derive(Debug)]
pub struct DirectoryEntry {
    pub identifier: String,
    pub first_name: String,
    pub last_name: String,
    pub pfp: String,
    pub role: AccountType,
}

/// The directory projection of one account.
pub open spec fn directory_entry(a: Account) -> DirectoryEntry {
    DirectoryEntry {
        identifier: a.identifier,
        first_name: a.first_name,
        last_name: a.last_name,
        pfp: a.profile.pfp,
        role: a.role,
    }
}

/// The account as it stands after the employer agreements are replaced;
/// nothing else of the account changes.
pub open spec fn with_employer_agreements(
    a: Account,
    req: UpdateEmployerAgreementsRequest,
) -> Account {
    Account {
        profile: ProfileInfo {
            forms: Forms {
                employer: EmployerForms {
                    employer_agreement: req.employer_agreement,
                    job_posting_guidelines: req.job_posting_guidelines,
                    insurance_certificate: req.insurance_certificate,
                    benefits_description: req.benefits_description,
                },
                ..a.profile.forms
            },
            ..a.profile
        },
        ..a
    }
}

impl JobBoard {
    /// Index of the account carrying this identifier, if any.
    pub(crate) fn find_account(&self, identifier: &str) -> (r: Option<usize>)
        ensures
            match r {
                Some(i) => i < self.accounts@.len() && self.accounts@[i as int].identifier@
                    == identifier@,
                None => !identifier_taken(self.accounts@, identifier@),
            },
    {
        let target: String = identifier.to_owned();
        let mut i: usize = 0;
        while i < self.accounts.len()
            invariant
                i <= self.accounts@.len(),
                target@ == identifier@,
                forall|k: int|
                    0 <= k < i ==> (#[trigger] self.accounts@[k].identifier@) != identifier@,
            decreases self.accounts@.len() - i,
        {
            if self.accounts[i].identifier == target {
                return Some(i);
            }
            i += 1;
        }
        None
    }

    /// Index of the account carrying this email, if any.
    fn find_email(&self, email: &str) -> (r: Option<usize>)
        ensures
            match r {
                Some(i) => i < self.accounts@.len() && self.accounts@[i as int].email@ == email@,
                None => !email_taken(self.accounts@, email@),
            },
    {
        let target: String = email.to_owned();
        let mut i: usize = 0;
        while i < self.accounts.len()
            invariant
                i <= self.accounts@.len(),
                target@ == email@,
                forall|k: int| 0 <= k < i ==> (#[trigger] self.accounts@[k].email@) != email@,
            decreases self.accounts@.len() - i,
        {
            if self.accounts[i].email == target {
                return Some(i);
            }
            i += 1;
        }
        None
    }

    /// Creates an account. Fails with `ConfigurationError` while the server
    /// secret is unset, and with `DuplicateEmail` exactly when the email is
    /// already taken. A fresh random identifier is drawn and becomes the
    /// account's permanent bearer token; in the negligible case that the draw
    /// collides with an existing identifier, or the hashing primitive refuses
    /// its input, nothing is recorded and `StoreError` is returned. On
    /// success the new account is appended: its email, name and role are the
    /// given ones, its role is fixed from here on, its profile is the default
    /// payload for the role with every agreement flag false, and its stored
    /// hash verifies against the given password under the server secret.
    pub fn register(
        &mut self,
        email: &str,
        password: &str,
        first_name: &str,
        last_name: &str,
        role: AccountType,
    ) -> (r: Result<&Account, BoardError>)
        requires
            old(self).wf(),
        ensures
            final(self).wf(),
            final(self).secret == old(self).secret,
            final(self).postings == old(self).postings,
            final(self).applications == old(self).applications,
            final(self).messages == old(self).messages,
            final(self).next_posting_id == old(self).next_posting_id,
            final(self).next_application_id == old(self).next_application_id,
            final(self).next_message_id == old(self).next_message_id,
            r is Err ==> *final(self) == *old(self),
            (r == Err::<&Account, BoardError>(BoardError::ConfigurationError)) <==> old(
                self,
            ).secret is None,
            (r == Err::<&Account, BoardError>(BoardError::DuplicateEmail)) <==> (old(
                self,
            ).secret is Some && email_taken(old(self).accounts@, email@)),
            r is Err ==> (r == Err::<&Account, BoardError>(BoardError::ConfigurationError) || r
                == Err::<&Account, BoardError>(BoardError::DuplicateEmail) || r == Err::<
                &Account,
                BoardError,
            >(BoardError::StoreError)),
            r matches Ok(a) ==> {
                &&& final(self).accounts@ == old(self).accounts@.push(*a)
                &&& a.email@ == email@
                &&& a.first_name@ == first_name@
                &&& a.last_name@ == last_name@
                &&& a.role == role
                &&& a.status is Active
                &&& a.profile.is_default_for(role)
                &&& a.identifier@.len() == 36
                &&& !identifier_taken(old(self).accounts@, a.identifier@)
                &&& !email_taken(old(self).accounts@, email@)
                &&& old(self).secret matches Some(s) && verifies(password@, a.password_hash@, s@)
                &&& a.created_at == a.last_login
            },
    {
        let ghost before = *self;
        if self.secret.is_none() {
            return Err(BoardError::ConfigurationError);
        }
        if self.find_email(email).is_some() {
            return Err(BoardError::DuplicateEmail);
        }
        let hash = match &self.secret {
            Some(sec) => credential::hash_password(password, sec.as_str()),
            None => None,
        };
        let hash = match hash {
            Some(h) => h,
            None => {
                return Err(BoardError::StoreError);
            },
        };
        let identifier = token::fresh_identifier();
        if self.find_account(identifier.as_str()).is_some() {
            return Err(BoardError::StoreError);
        }
        let now = clock::now_unix();
        let account = Account {
            identifier,
            email: email.to_owned(),
            password_hash: hash,
            first_name: first_name.to_owned(),
            last_name: last_name.to_owned(),
            role,
            profile: ProfileInfo::new(role),
            status: AccountStatus::Active,
            created_at: now,
            last_login: now,
        };
        let ghost added = account;
        self.accounts.push(account);
        proof {
            let s0 = before.accounts@;
            let s1 = self.accounts@;
            assert(s1 == s0.push(added));
            assert forall|i: int, j: int|
                0 <= i < s1.len() && 0 <= j < s1.len() && i != j implies (#[trigger] s1[i].email@)
                != (#[trigger] s1[j].email@) by {
                if i < s0.len() && j < s0.len() {
                    assert(s0[i].email@ != s0[j].email@);
                } else if i == s0.len() {
                    assert(s1[j].email@ == s0[j].email@);
                    if s0[j].email@ == added.email@ {
                        assert(email_taken(s0, email@));
                    }
                } else {
                    assert(s1[i].email@ == s0[i].email@);
                    if s0[i].email@ == added.email@ {
                        assert(email_taken(s0, email@));
                    }
                }
            }
            assert forall|i: int, j: int|
                0 <= i < s1.len() && 0 <= j < s1.len() && i != j implies (
            #[trigger] s1[i].identifier@) != (#[trigger] s1[j].identifier@) by {
                if i < s0.len() && j < s0.len() {
                    assert(s0[i].identifier@ != s0[j].identifier@);
                } else if i == s0.len() {
                    assert(s1[j].identifier@ == s0[j].identifier@);
                    if s0[j].identifier@ == added.identifier@ {
                        assert(identifier_taken(s0, added.identifier@));
                    }
                } else {
                    assert(s1[i].identifier@ == s0[i].identifier@);
                    if s0[i].identifier@ == added.identifier@ {
                        assert(identifier_taken(s0, added.identifier@));
                    }
                }
            }
            assert forall|i: int| 0 <= i < self.postings@.len() implies is_employer(
                s1,
                (#[trigger] self.postings@[i]).employer_id@,
            ) by {
                assert(is_employer(s0, self.postings@[i].employer_id@));
                lemma_is_employer_push(s0, added, self.postings@[i].employer_id@);
            }
        }
        let n = self.accounts.len();
        Ok(&self.accounts[n - 1])
    }

    /// Looks the email up and verifies the password against the stored hash.
    /// Fails with `ConfigurationError` while the server secret is unset.
    /// Otherwise succeeds exactly when the email belongs to an account whose
    /// hash verifies against the given password; an unknown email and a wrong
    /// password fail with the same `AuthFailure`, so the outcome never tells
    /// a caller which emails exist.
    pub fn authenticate(&self, email: &str, password: &str) -> (r: Result<&Account, BoardError>)
        requires
            self.wf(),
        ensures
            match r {
                Ok(a) => {
                    &&& self.email_lookup(email@) == Some(*a)
                    &&& self.secret matches Some(s) && verifies(password@, a.password_hash@, s@)
                },
                Err(e) => {
                    if self.secret is None {
                        e == BoardError::ConfigurationError
                    } else {
                        &&& e == BoardError::AuthFailure
                        &&& match self.email_lookup(email@) {
                            None => true,
                            Some(acc) => self.secret matches Some(s) && !verifies(
                                password@,
                                acc.password_hash@,
                                s@,
                            ),
                        }
                    }
                },
            },
    {
        let sec = match &self.secret {
            Some(s) => s,
            None => {
                return Err(BoardError::ConfigurationError);
            },
        };
        let i = match self.find_email(email) {
            Some(i) => i,
            None => {
                return Err(BoardError::AuthFailure);
            },
        };
        let account = &self.accounts[i];
        proof {
            let j = email_index(self.accounts@, email@);
            assert(email_taken(self.accounts@, email@));
            assert(0 <= j < self.accounts@.len() && self.accounts@[j].email@ == email@);
            assert(j == i as int);
        }
        if credential::verify_password(password, account.password_hash.as_str(), sec.as_str()) {
            Ok(account)
        } else {
            Err(BoardError::AuthFailure)
        }
    }

    /// Resolves a bearer identifier to its account; `NotFound` exactly when
    /// no account carries the identifier.
    pub fn resolve(&self, identifier: &str) -> (r: Result<&Account, BoardError>)
        requires
            self.wf(),
        ensures
            match r {
                Ok(a) => self.resolve_spec(identifier@) == Some(*a),
                Err(e) => e == BoardError::NotFound && self.resolve_spec(identifier@) is None,
            },
    {
        match self.find_account(identifier) {
            Some(i) => {
                proof {
                    let j = account_index(self.accounts@, identifier@);
                    assert(identifier_taken(self.accounts@, identifier@));
                    assert(0 <= j < self.accounts@.len() && self.accounts@[j].identifier@
                        == identifier@);
                    assert(j == i as int);
                }
                Ok(&self.accounts[i])
            },
            None => Err(BoardError::NotFound),
        }
    }

    /// How many accounts the board holds.
    pub fn total_users(&self) -> (r: usize)
        ensures
            r == self.accounts@.len(),
    {
        self.accounts.len()
    }

    /// How many employer accounts the board holds.
    pub fn total_employers(&self) -> (r: usize)
        ensures
            r as nat == count_role(self.accounts@, AccountType::Employer),
    {
        let mut n: usize = 0;
        let mut i: usize = 0;
        while i < self.accounts.len()
            invariant
                i <= self.accounts@.len(),
                n <= i,
                n as nat == count_role(self.accounts@.take(i as int), AccountType::Employer),
            decreases self.accounts@.len() - i,
        {
            proof {
                assert(self.accounts@.take(i as int + 1).drop_last() =~= self.accounts@.take(
                    i as int,
                ));
                assert(self.accounts@.take(i as int + 1).last() == self.accounts@[i as int]);
            }
            if self.accounts[i].role == AccountType::Employer {
                n += 1;
            }
            i += 1;
        }
        proof {
            assert(self.accounts@.take(self.accounts@.len() as int) =~= self.accounts@);
        }
        n
    }

    /// The public account directory: one entry per account, in stored order,
    /// holding only what anyone may see — identifier, name, picture and role,
    /// and neither the email nor the password hash.
    pub fn public_directory(&self) -> (r: Vec<DirectoryEntry>)
        ensures
            r@ == self.accounts@.map_values(|a: Account| directory_entry(a)),
            r@.len() == self.accounts@.len(),
    {
        let mut out: Vec<DirectoryEntry> = Vec::new();
        let mut i: usize = 0;
        proof {
            assert(out@ =~= self.accounts@.take(0).map_values(|a: Account| directory_entry(a)));
        }
        while i < self.accounts.len()
            invariant
                i <= self.accounts@.len(),
                out@ == self.accounts@.take(i as int).map_values(
                    |a: Account| directory_entry(a),
                ),
            decreases self.accounts@.len() - i,
        {
            let a = &self.accounts[i];
            out.push(DirectoryEntry {
                identifier: a.identifier.clone(),
                first_name: a.first_name.clone(),
                last_name: a.last_name.clone(),
                pfp: a.profile.pfp.clone(),
                role: a.role,
            });
            proof {
                assert(out@ =~= self.accounts@.take(i as int + 1).map_values(
                    |a: Account| directory_entry(a),
                ));
            }
            i += 1;
        }
        proof {
            assert(self.accounts@.take(self.accounts@.len() as int) =~= self.accounts@);
        }
        out
    }

    /// Replaces the caller's four employer agreement flags. Fails with
    /// `InvalidCredential` exactly when the caller's identifier resolves to
    /// no account, and with `Forbidden` exactly when it resolves to an
    /// account that is not an employer. On success only those four flags of
    /// that one account change.
    pub fn set_employer_agreements(
        &mut self,
        caller: &str,
        req: &UpdateEmployerAgreementsRequest,
    ) -> (r: Result<(), BoardError>)
        requires
            old(self).wf(),
        ensures
            final(self).wf(),
            final(self).secret == old(self).secret,
            final(self).postings == old(self).postings,
            final(self).applications == old(self).applications,
            final(self).messages == old(self).messages,
            final(self).next_posting_id == old(self).next_posting_id,
            final(self).next_application_id == old(self).next_application_id,
            final(self).next_message_id == old(self).next_message_id,
            r is Err ==> *final(self) == *old(self),
            match r {
                Ok(()) => {
                    let i = account_index(old(self).accounts@, caller@);
                    &&& old(self).resolve_spec(caller@) matches Some(a) && a.role is Employer
                    &&& final(self).accounts@ == old(self).accounts@.update(
                        i,
                        with_employer_agreements(old(self).accounts@[i], *req),
                    )
                },
                Err(e) => {
                    if old(self).resolve_spec(caller@) is None {
                        e == BoardError::InvalidCredential
                    } else {
                        e == BoardError::Forbidden && !(old(self).resolve_spec(
                            caller@,
                        ).unwrap().role is Employer)
                    }
                },
            },
    {
        let ghost before = *self;
        let i = match self.find_account(caller) {
            Some(i) => i,
            None => {
                return Err(BoardError::InvalidCredential);
            },
        };
        proof {
            let j = account_index(self.accounts@, caller@);
            assert(identifier_taken(self.accounts@, caller@));
            assert(0 <= j < self.accounts@.len() && self.accounts@[j].identifier@ == caller@);
            assert(j == i as int);
        }
        if !(self.accounts[i].role == AccountType::Employer) {
            return Err(BoardError::Forbidden);
        }
        self.accounts[i].profile.forms.employer = EmployerForms {
            employer_agreement: req.employer_agreement,
            job_posting_guidelines: req.job_posting_guidelines,
            insurance_certificate: req.insurance_certificate,
            benefits_description: req.benefits_description,
        };
        proof {
            let s0 = before.accounts@;
            let s1 = self.accounts@;
            assert(s1 == s0.update(
                i as int,
                with_employer_agreements(s0[i as int], *req),
            ));
            assert forall|k: int| 0 <= k < s0.len() implies (#[trigger] s1[k].identifier@)
                == s0[k].identifier@ && s1[k].role == s0[k].role && s1[k].email@
                == s0[k].email@ by {}
            assert forall|p: int| 0 <= p < self.postings@.len() implies is_employer(
                s1,
                (#[trigger] self.postings@[p]).employer_id@,
            ) by {
                assert(is_employer(s0, self.postings@[p].employer_id@));
                lemma_is_employer_same_roles(s0, s1, self.postings@[p].employer_id@);
            }
        }
        Ok(())
    }
}

} // verus!
