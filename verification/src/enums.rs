use vstd::prelude::*;

verus! {

/// The role of an account. The role is chosen at registration and never
/// changes afterwards.
#[derive(Clone, Copy, PartialEq, Eq, Structural, Debug)]
pub enum AccountType {
    Employer,
    Administrator,
    Student,
}

/// Experience level asked for by a posting.
#[derive(Clone, Copy, PartialEq, Eq, Structural, Debug)]
pub enum ExperienceLevel {
    Easy,
    Intermediate,
    Advanced,
}

/// Whether a posting offers full-time or part-time work.
#[derive(Clone, Copy, PartialEq, Eq, Structural, Debug)]
pub enum JobType {
    FullTime,
    PartTime,
}

/// Which credential flow a client asks for.
#[derive(Clone, Copy, PartialEq, Eq, Structural, Debug)]
pub enum AuthType {
    Login,
    Register,
}

/// Lifecycle state of an account record.
#[derive(Clone, Copy, PartialEq, Eq, Structural, Debug)]
pub enum AccountStatus {
    Active,
    Inactive,
    Suspended,
}

/// Moderation state of a posting. A posting starts Pending and is visible to
/// the public listing only once an administrator has accepted it.
#[derive(Clone, Copy, PartialEq, Eq, Structural, Debug)]
pub enum PostingStatus {
    Pending,
    Accepted,
    Rejected,
}

/// State of an application. An application starts Pending and is decided by
/// the employer that owns the posting it was made against.
#[derive(Clone, Copy, PartialEq, Eq, Structural, Debug)]
pub enum ApplicationStatus {
    Pending,
    Accepted,
    Rejected,
}

/// A decision taken by an authority: an administrator moderating a posting,
/// or an employer deciding an application.
#[derive(Clone, Copy, PartialEq, Eq, Structural, Debug)]
pub enum Decision {
    Accept,
    Reject,
}

/// Why an operation was refused. Business-rule violations are caught at the
/// lifecycle-manager boundary and reported through this type; they are never
/// surfaced as raw store failures.
#[derive(Clone, Copy, PartialEq, Eq, Structural, Debug)]
pub enum BoardError {
    /// The request payload had the wrong shape.
    ValidationError,
    /// Login failed. Deliberately the same for an unknown email and for a
    /// wrong password, so a caller cannot probe which emails exist.
    AuthFailure,
    /// No bearer credential was presented.
    MissingCredential,
    /// A bearer credential was presented but resolves to no account.
    InvalidCredential,
    /// The caller is authenticated but lacks the role or the ownership the
    /// operation demands.
    Forbidden,
    /// The addressed record does not exist.
    NotFound,
    /// Registration was asked for an email that is already taken.
    DuplicateEmail,
    /// An employer tried to create a posting before completing all four
    /// onboarding agreements.
    IncompleteOnboarding,
    /// The server-wide credential secret is unset.
    ConfigurationError,
    /// The store could not complete the operation.
    StoreError,
}

impl BoardError {
    /// The HTTP status this error is reported as: 400 for malformed input,
    /// 401 for missing or failed authentication, 403 for role or ownership
    /// mismatches, 404 for absent records, 409 for business-rule conflicts,
    /// and 500 for store or configuration failures.
    pub open spec fn status_spec(self) -> u16 {
        match self {
            BoardError::ValidationError => 400,
            BoardError::AuthFailure => 401,
            BoardError::MissingCredential => 401,
            BoardError::InvalidCredential => 401,
            BoardError::Forbidden => 403,
            BoardError::NotFound => 404,
            BoardError::DuplicateEmail => 409,
            BoardError::IncompleteOnboarding => 409,
            BoardError::ConfigurationError => 500,
            BoardError::StoreError => 500,
        }
    }

    /// The HTTP status code a transport layer reports for this error.
    pub fn http_status(&self) -> (code: u16)
        ensures
            code == self.status_spec(),
    {
        match self {
            BoardError::ValidationError => 400,
            BoardError::AuthFailure => 401,
            BoardError::MissingCredential => 401,
            BoardError::InvalidCredential => 401,
            BoardError::Forbidden => 403,
            BoardError::NotFound => 404,
            BoardError::DuplicateEmail => 409,
            BoardError::IncompleteOnboarding => 409,
            BoardError::ConfigurationError => 500,
            BoardError::StoreError => 500,
        }
    }
}

} // verus!
