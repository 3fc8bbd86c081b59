//! Verified core of a job-board service: accounts and credentials, bearer
//! authorization, posting moderation, applications, and a message ledger.
//!
//! The state of the whole board is one value, [`board::JobBoard`]; every
//! operation of the service is a method on it whose contract states exactly
//! which callers it accepts, which records it touches, and what it returns.
//! Durable storage and HTTP transport are left to the surrounding program.

pub mod applications;
pub mod board;
mod clock;
pub mod credential;
pub mod enums;
pub mod guard;
pub mod identity;
pub mod laws;
pub mod messaging;
pub mod postings;
pub mod profile;
pub mod records;
pub mod requests;
mod token;

pub use applications::ReceivedApplication;
pub use applications::SubmittedApplication;
pub use board::JobBoard;
pub use enums::AccountStatus;
pub use enums::AccountType;
pub use enums::ApplicationStatus;
pub use enums::AuthType;
pub use enums::BoardError;
pub use enums::Decision;
pub use enums::ExperienceLevel;
pub use enums::JobType;
pub use enums::PostingStatus;
pub use guard::Requirement;
pub use identity::DirectoryEntry;
pub use messaging::ConversationSummary;
pub use records::Account;
pub use records::Application;
pub use records::Message;
pub use records::Posting;
