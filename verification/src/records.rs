use vstd::prelude::*;

use crate::enums::AccountStatus;
use crate::enums::AccountType;
use crate::enums::ApplicationStatus;
use crate::enums::PostingStatus;
use crate::profile::ProfileInfo;

verus! {

/// One account of the board. The identifier is the opaque bearer token a
/// client presents on every authenticated call; it and the email are each
/// unique across the board. Only the password's hash is ever stored.
#[derive(Debug)]
pub struct Account {
    pub identifier: String,
    pub email: String,
    pub password_hash: String,
    pub first_name: String,
    pub last_name: String,
    pub role: AccountType,
    pub profile: ProfileInfo,
    pub status: AccountStatus,
    pub created_at: i64,
    pub last_login: i64,
}

/// One job posting, owned by exactly one employer account. All text fields
/// are opaque to the board; `date` is the creation time in seconds since the
/// Unix epoch and orders the public listing.
#[derive(Debug)]
pub struct Posting {
    pub id: i64,
    pub employer_id: String,
    pub title: String,
    pub description: String,
    pub tags: String,
    pub documents: String,
    pub tips: String,
    pub skills: String,
    pub experience: String,
    pub jobtype: String,
    pub location: String,
    pub questions: String,
    pub company_name: String,
    pub date: i64,
    pub status: PostingStatus,
}

impl Clone for Posting {
    fn clone(&self) -> (r: Self)
        ensures
            r == *self,
    {
        Posting {
            id: self.id,
            employer_id: self.employer_id.clone(),
            title: self.title.clone(),
            description: self.description.clone(),
            tags: self.tags.clone(),
            documents: self.documents.clone(),
            tips: self.tips.clone(),
            skills: self.skills.clone(),
            experience: self.experience.clone(),
            jobtype: self.jobtype.clone(),
            location: self.location.clone(),
            questions: self.questions.clone(),
            company_name: self.company_name.clone(),
            date: self.date,
            status: self.status,
        }
    }
}

/// One application by a student against a posting. The owning employer's
/// identifier is copied from the posting when the application is created and
/// never changes afterwards.
#[derive(Debug)]
pub struct Application {
    pub id: i64,
    pub post_id: i64,
    pub applicant_id: String,
    pub employer_id: String,
    pub status: ApplicationStatus,
    pub answers: String,
    pub created_at: i64,
    pub updated_at: i64,
}

impl Clone for Application {
    fn clone(&self) -> (r: Self)
        ensures
            r == *self,
    {
        Application {
            id: self.id,
            post_id: self.post_id,
            applicant_id: self.applicant_id.clone(),
            employer_id: self.employer_id.clone(),
            status: self.status,
            answers: self.answers.clone(),
            created_at: self.created_at,
            updated_at: self.updated_at,
        }
    }
}

/// One message of the append-only ledger. Once stored, only the read flag
/// ever changes, and only from false to true when the receiver retrieves the
/// conversation.
#[derive(Debug)]
pub struct Message {
    pub id: i64,
    pub sender_id: String,
    pub receiver_id: String,
    pub content: String,
    pub timestamp: i64,
    pub read: bool,
    pub message_type: Option<String>,
    pub file_url: Option<String>,
}

impl Clone for Message {
    fn clone(&self) -> (r: Self)
        ensures
            r == *self,
    {
        Message {
            id: self.id,
            sender_id: self.sender_id.clone(),
            receiver_id: self.receiver_id.clone(),
            content: self.content.clone(),
            timestamp: self.timestamp,
            read: self.read,
            message_type: match &self.message_type {
                Some(t) => Some(t.clone()),
                None => None,
            },
            file_url: match &self.file_url {
                Some(u) => Some(u.clone()),
                None => None,
            },
        }
    }
}

} // verus!
