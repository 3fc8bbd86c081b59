use vstd::prelude::*;

use crate::enums::AccountType;
use crate::records::Account;
use crate::records::Application;
use crate::records::Message;
use crate::records::Posting;

verus! {

/// Whether some account already carries this email.
pub open spec fn email_taken(accounts: Seq<Account>, email: Seq<char>) -> bool {
    exists|i: int| 0 <= i < accounts.len() && (#[trigger] accounts[i].email@) == email
}

/// Whether some account already carries this identifier.
pub open spec fn identifier_taken(accounts: Seq<Account>, id: Seq<char>) -> bool {
    exists|i: int| 0 <= i < accounts.len() && (#[trigger] accounts[i].identifier@) == id
}

/// The index of the account carrying this identifier; meaningful only when
/// `identifier_taken` holds, and then unique by well-formedness.
pub open spec fn account_index(accounts: Seq<Account>, id: Seq<char>) -> int {
    choose|i: int| 0 <= i < accounts.len() && (#[trigger] accounts[i].identifier@) == id
}

/// The index of the account carrying this email; meaningful only when
/// `email_taken` holds, and then unique by well-formedness.
pub open spec fn email_index(accounts: Seq<Account>, email: Seq<char>) -> int {
    choose|i: int| 0 <= i < accounts.len() && (#[trigger] accounts[i].email@) == email
}

/// Whether this identifier belongs to an account with the employer role.
pub open spec fn is_employer(accounts: Seq<Account>, id: Seq<char>) -> bool {
    exists|k: int|
        0 <= k < accounts.len() && (#[trigger] accounts[k].identifier@) == id
            && accounts[k].role is Employer
}

/// No two accounts share an email.
pub open spec fn emails_unique(s: Seq<Account>) -> bool {
    forall|i: int, j: int|
        0 <= i < s.len() && 0 <= j < s.len() && i != j ==> (#[trigger] s[i].email@) != (
        #[trigger] s[j].email@)
}

/// No two accounts share an identifier.
pub open spec fn identifiers_unique(s: Seq<Account>) -> bool {
    forall|i: int, j: int|
        0 <= i < s.len() && 0 <= j < s.len() && i != j ==> (#[trigger] s[i].identifier@) != (
        #[trigger] s[j].identifier@)
}

/// An application's posting link: the posting it references exists, and the
/// application's denormalized employer identifier agrees with that posting's
/// owner.
pub open spec fn app_linked(postings: Seq<Posting>, a: Application) -> bool {
    exists|k: int|
        0 <= k < postings.len() && (#[trigger] postings[k].id) == a.post_id
            && postings[k].employer_id@ == a.employer_id@
}

/// The full state of the board. Durable storage mirrors this value; the
/// transport layer around the library only moves plain values in and out.
pub struct JobBoard {
    /// The server-wide credential secret. While it is `None`, registration
    /// and authentication fail with a configuration error.
    pub secret: Option<String>,
    pub accounts: Vec<Account>,
    pub postings: Vec<Posting>,
    pub applications: Vec<Application>,
    pub messages: Vec<Message>,
    pub next_posting_id: i64,
    pub next_application_id: i64,
    pub next_message_id: i64,
}

impl JobBoard {
    /// Well-formedness, established by the constructor and preserved by every
    /// operation: emails and identifiers are unique; postings carry unique,
    /// never-reused ids and are owned by employer accounts; applications
    /// reference existing postings and agree with them on the owning
    /// employer; the message ledger is append-only with strictly increasing
    /// ids.
    pub open spec fn wf(self) -> bool {
        &&& emails_unique(self.accounts@)
        &&& identifiers_unique(self.accounts@)
        &&& forall|i: int, j: int|
            0 <= i < self.postings@.len() && 0 <= j < self.postings@.len() && i != j ==> (
            #[trigger] self.postings@[i].id) != (#[trigger] self.postings@[j].id)
        &&& forall|i: int|
            0 <= i < self.postings@.len() ==> 0 < (#[trigger] self.postings@[i].id)
                < self.next_posting_id
        &&& forall|i: int|
            0 <= i < self.postings@.len() ==> is_employer(
                self.accounts@,
                (#[trigger] self.postings@[i]).employer_id@,
            )
        &&& forall|i: int, j: int|
            0 <= i < self.applications@.len() && 0 <= j < self.applications@.len() && i != j ==> (
            #[trigger] self.applications@[i].id) != (#[trigger] self.applications@[j].id)
        &&& forall|i: int|
            0 <= i < self.applications@.len() ==> 0 < (#[trigger] self.applications@[i].id)
                < self.next_application_id
        &&& forall|i: int|
            0 <= i < self.applications@.len() ==> app_linked(
                self.postings@,
                #[trigger] self.applications@[i],
            )
        &&& forall|i: int, j: int|
            0 <= i < j < self.messages@.len() ==> (#[trigger] self.messages@[i].id) < (
            #[trigger] self.messages@[j].id)
        &&& forall|i: int|
            0 <= i < self.messages@.len() ==> 0 < (#[trigger] self.messages@[i].id)
                < self.next_message_id
        &&& self.next_posting_id >= 1
        &&& self.next_application_id >= 1
        &&& self.next_message_id >= 1
    }

    /// The account this identifier resolves to, if any.
    pub open spec fn resolve_spec(self, id: Seq<char>) -> Option<Account> {
        if identifier_taken(self.accounts@, id) {
            Some(self.accounts@[account_index(self.accounts@, id)])
        } else {
            None
        }
    }

    /// The account carrying this email, if any.
    pub open spec fn email_lookup(self, email: Seq<char>) -> Option<Account> {
        if email_taken(self.accounts@, email) {
            Some(self.accounts@[email_index(self.accounts@, email)])
        } else {
            None
        }
    }

    /// An empty board, configured with the credential secret (or the lack of
    /// one).
    pub fn new(secret: Option<String>) -> (r: JobBoard)
        ensures
            r.wf(),
            r.secret == secret,
            r.accounts@.len() == 0,
            r.postings@.len() == 0,
            r.applications@.len() == 0,
            r.messages@.len() == 0,
            r.next_posting_id == 1,
            r.next_application_id == 1,
            r.next_message_id == 1,
    {
        JobBoard {
            secret,
            accounts: Vec::new(),
            postings: Vec::new(),
            applications: Vec::new(),
            messages: Vec::new(),
            next_posting_id: 1,
            next_application_id: 1,
            next_message_id: 1,
        }
    }
}

/// Growing the account list preserves an employer lookup: the witness account
/// is untouched.
pub proof fn lemma_is_employer_push(s: Seq<Account>, a: Account, id: Seq<char>)
    requires
        is_employer(s, id),
    ensures
        is_employer(s.push(a), id),
{
    let k = choose|k: int|
        0 <= k < s.len() && (#[trigger] s[k].identifier@) == id && s[k].role is Employer;
    assert(s.push(a)[k].identifier@ == id && s.push(a)[k].role is Employer);
}

/// An account edit that keeps every identifier and role also keeps every
/// employer lookup.
pub proof fn lemma_is_employer_same_roles(s0: Seq<Account>, s1: Seq<Account>, id: Seq<char>)
    requires
        is_employer(s0, id),
        s1.len() == s0.len(),
        forall|k: int|
            0 <= k < s0.len() ==> (#[trigger] s1[k].identifier@) == s0[k].identifier@ && s1[k].role
                == s0[k].role,
    ensures
        is_employer(s1, id),
{
    let k = choose|k: int|
        0 <= k < s0.len() && (#[trigger] s0[k].identifier@) == id && s0[k].role is Employer;
    assert(0 <= k < s0.len() && s0[k].identifier@ == id && s0[k].role is Employer);
    assert(s1[k].identifier@ == s0[k].identifier@ && s1[k].role == s0[k].role);
    assert(s1[k].identifier@ == id && s1[k].role is Employer);
}

/// A posting edit that keeps every id and owner also keeps every application
/// link.
pub proof fn lemma_app_linked_same_owners(s0: Seq<Posting>, s1: Seq<Posting>, a: Application)
    requires
        app_linked(s0, a),
        s1.len() == s0.len(),
        forall|k: int|
            0 <= k < s0.len() ==> (#[trigger] s1[k].id) == s0[k].id && s1[k].employer_id@
                == s0[k].employer_id@,
    ensures
        app_linked(s1, a),
{
    let k = choose|k: int|
        0 <= k < s0.len() && (#[trigger] s0[k].id) == a.post_id && s0[k].employer_id@
            == a.employer_id@;
    assert(s1[k].id == a.post_id && s1[k].employer_id@ == a.employer_id@);
}

/// Growing the posting list preserves an application link.
pub proof fn lemma_app_linked_push(s: Seq<Posting>, p: Posting, a: Application)
    requires
        app_linked(s, a),
    ensures
        app_linked(s.push(p), a),
{
    let k = choose|k: int|
        0 <= k < s.len() && (#[trigger] s[k].id) == a.post_id && s[k].employer_id@
            == a.employer_id@;
    assert(s.push(p)[k].id == a.post_id && s.push(p)[k].employer_id@ == a.employer_id@);
}

} // verus!
