use vstd::prelude::*;

use crate::enums::AccountType;
use crate::enums::AuthType;
use crate::enums::Decision;

verus! {

/// Payload of a registration call.
#[derive(Debug)]
pub struct RegisterRequest {
    pub email: String,
    pub password: String,
    pub first_name: String,
    pub last_name: String,
    pub account_type: AccountType,
}

/// Payload of a login call.
#[derive(Debug)]
pub struct LoginRequest {
    pub email: String,
    pub password: String,
}

/// A combined credential request naming which flow it asks for.
#[derive(Debug)]
pub struct AuthRequest {
    pub authtype: AuthType,
    pub email: String,
    pub password: String,
    pub firstname: Option<String>,
    pub lastname: Option<String>,
}

/// The four employer onboarding agreements, as submitted by the employer.
#[derive(Clone, Copy, PartialEq, Eq, Structural, Debug)]
pub struct UpdateEmployerAgreementsRequest {
    pub employer_agreement: bool,
    pub job_posting_guidelines: bool,
    pub insurance_certificate: bool,
    pub benefits_description: bool,
}

/// Content fields of a new posting. The posting's id, owner, creation date
/// and moderation state are assigned by the board, never by the caller.
#[derive(Debug)]
pub struct CreatePostRequest {
    pub title: String,
    pub description: String,
    pub tags: String,
    pub documents: String,
    pub tips: String,
    pub skills: String,
    pub experience: String,
    pub jobtype: String,
    pub location: String,
    pub questions: Option<String>,
    pub company_name: String,
}

/// Replacement content for an existing posting. Updating never touches the
/// posting's id, owner, company name, creation date or moderation state.
#[derive(Debug)]
pub struct Post {
    pub id: Option<i64>,
    pub title: String,
    pub description: String,
    pub tags: String,
    pub documents: String,
    pub tips: String,
    pub skills: String,
    pub experience: String,
    pub jobtype: String,
    pub location: String,
    pub questions: Option<String>,
}

/// Payload of an application call: which posting, and the free-form answers.
#[derive(Debug)]
pub struct CreateApplicationRequest {
    pub post_id: i64,
    pub answers: String,
}

/// Payload of an application-status call. Only the literal texts "accepted"
/// and "rejected" name a decision.
#[derive(Debug)]
pub struct UpdateApplicationStatusRequest {
    pub status: String,
}

impl UpdateApplicationStatusRequest {
    /// The decision this request asks for: Accept for the text "accepted",
    /// Reject for "rejected", and nothing for any other text.
    pub fn decision(&self) -> (r: Option<Decision>)
        ensures
            r == Some(Decision::Accept) <==> self.status@ == "accepted"@,
            r == Some(Decision::Reject) <==> self.status@ == "rejected"@,
            r is None <==> (self.status@ != "accepted"@ && self.status@ != "rejected"@),
    {
        proof {
            reveal_strlit("accepted");
            reveal_strlit("rejected");
            assert("accepted"@[0] == 'a');
            assert("rejected"@[0] == 'r');
            assert("accepted"@ != "rejected"@);
        }
        if self.status == "accepted".to_owned() {
            Some(Decision::Accept)
        } else if self.status == "rejected".to_owned() {
            Some(Decision::Reject)
        } else {
            None
        }
    }
}

/// One question a posting asks of applicants, with the applicant's answer
/// once one is given.
#[derive(Debug)]
pub struct ApplicationQuestions {
    pub id: i32,
    pub question: String,
    pub answer: Option<String>,
}

/// Payload of a message-send call.
#[derive(Debug)]
pub struct MessageRequest {
    pub receiver_id: String,
    pub content: String,
    pub message_type: Option<String>,
    pub file_url: Option<String>,
}

} // verus!
