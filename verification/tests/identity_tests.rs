use job_board::board::JobBoard;
use job_board::credential;
use job_board::enums::{AccountType, BoardError};
use job_board::guard::Requirement;

fn board() -> JobBoard {
    JobBoard::new(Some("server-secret".to_owned()))
}

#[test]
fn register_issues_resolvable_identifier() {
    let mut b = board();
    let id = b
        .register("a@x.com", "pw", "Ada", "Lovelace", AccountType::Student)
        .unwrap()
        .identifier
        .clone();
    assert_eq!(id.len(), 36);
    let a = b.resolve(&id).unwrap();
    assert_eq!(a.email, "a@x.com");
    assert_eq!(a.first_name, "Ada");
    assert_eq!(a.last_name, "Lovelace");
    assert!(matches!(a.role, AccountType::Student));
    assert_eq!(b.total_users(), 1);
}

#[test]
fn duplicate_email_is_refused() {
    let mut b = board();
    b.register("a@x.com", "pw", "Ada", "L", AccountType::Student).unwrap();
    let r = b.register("a@x.com", "other", "Bob", "M", AccountType::Employer);
    assert_eq!(r.err(), Some(BoardError::DuplicateEmail));
    assert_eq!(b.total_users(), 1);
}

#[test]
fn register_needs_configured_secret() {
    let mut b = JobBoard::new(None);
    let r = b.register("a@x.com", "pw", "Ada", "L", AccountType::Student);
    assert_eq!(r.err(), Some(BoardError::ConfigurationError));
    assert_eq!(BoardError::ConfigurationError.http_status(), 500);
}

#[test]
fn authenticate_succeeds_then_fails_with_same_shape() {
    let mut b = board();
    b.register("a@x.com", "right-pw", "Ada", "L", AccountType::Student).unwrap();
    let ok = b.authenticate("a@x.com", "right-pw");
    assert!(ok.is_ok());
    assert_eq!(ok.unwrap().email, "a@x.com");

    let wrong_password = b.authenticate("a@x.com", "wrong-pw").err().unwrap();
    let unknown_email = b.authenticate("nobody@x.com", "right-pw").err().unwrap();
    assert_eq!(wrong_password, BoardError::AuthFailure);
    assert_eq!(unknown_email, BoardError::AuthFailure);
    assert_eq!(wrong_password, unknown_email);
}

#[test]
fn authenticate_without_secret_is_configuration_error() {
    let b = JobBoard::new(None);
    assert_eq!(b.authenticate("a@x.com", "pw").err(), Some(BoardError::ConfigurationError));
}

#[test]
fn resolve_unknown_identifier_is_not_found() {
    let b = board();
    assert_eq!(b.resolve("no-such-token").err(), Some(BoardError::NotFound));
}

#[test]
fn password_hash_is_not_the_password() {
    let h = credential::hash_password("hunter2", "server-secret").unwrap();
    assert_ne!(h, "hunter2");
    assert!(credential::verify_password("hunter2", &h, "server-secret"));
    assert!(!credential::verify_password("hunter3", &h, "server-secret"));
    assert!(!credential::verify_password("hunter2", &h, "other-secret"));
    assert!(!credential::verify_password("hunter2", "not-a-hash", "server-secret"));
}

#[test]
fn two_registrations_get_distinct_identifiers() {
    let mut b = board();
    let id1 = b
        .register("a@x.com", "pw", "Ada", "L", AccountType::Student)
        .unwrap()
        .identifier
        .clone();
    let id2 = b
        .register("b@x.com", "pw", "Bob", "M", AccountType::Student)
        .unwrap()
        .identifier
        .clone();
    assert_ne!(id1, id2);
}

#[test]
fn profile_defaults_are_seeded_by_role() {
    let mut b = board();
    let sid = b
        .register("s@x.com", "pw", "Stu", "Dent", AccountType::Student)
        .unwrap()
        .identifier
        .clone();
    let eid = b
        .register("e@x.com", "pw", "Emp", "Loyer", AccountType::Employer)
        .unwrap()
        .identifier
        .clone();

    let s = b.resolve(&sid).unwrap();
    assert!(!s.profile.forms.student.resume);
    assert!(!s.profile.forms.employer.employer_agreement);
    assert_eq!(s.profile.tasks.student.len(), 3);
    assert_eq!(s.profile.tasks.student[0], "Complete profile");
    assert_eq!(s.profile.tasks.employer.len(), 0);

    let e = b.resolve(&eid).unwrap();
    assert_eq!(e.profile.tasks.employer.len(), 3);
    assert_eq!(e.profile.tasks.employer[2], "Post job opportunities");
    assert_eq!(e.profile.tasks.student.len(), 0);
}

#[test]
fn total_employers_counts_only_employers() {
    let mut b = board();
    b.register("s@x.com", "pw", "S", "S", AccountType::Student).unwrap();
    b.register("e1@x.com", "pw", "E", "One", AccountType::Employer).unwrap();
    b.register("e2@x.com", "pw", "E", "Two", AccountType::Employer).unwrap();
    b.register("adm@x.com", "pw", "A", "Dmin", AccountType::Administrator).unwrap();
    assert_eq!(b.total_users(), 4);
    assert_eq!(b.total_employers(), 2);
}

#[test]
fn bearer_prefix_is_stripped_once_and_only_as_prefix() {
    assert_eq!(job_board::guard::strip_bearer("Bearer abc-123"), "abc-123");
    assert_eq!(job_board::guard::strip_bearer("abc-123"), "abc-123");
    assert_eq!(job_board::guard::strip_bearer("Bearer Bearer x"), "Bearer x");
    assert_eq!(job_board::guard::strip_bearer("Bearer"), "Bearer");
    assert_eq!(job_board::guard::strip_bearer(""), "");
}

#[test]
fn public_directory_leaks_no_credentials() {
    let mut b = board();
    let sid = b
        .register("s@x.com", "pw", "Stu", "Dent", AccountType::Student)
        .unwrap()
        .identifier
        .clone();
    b.register("e@x.com", "pw", "Emp", "Loyer", AccountType::Employer).unwrap();

    let dir = b.public_directory();
    assert_eq!(dir.len(), 2);
    assert_eq!(dir[0].identifier, sid);
    assert_eq!(dir[0].first_name, "Stu");
    assert!(matches!(dir[1].role, AccountType::Employer));
}

#[test]
fn authorize_checks_credential_then_requirement() {
    let mut b = board();
    let sid = b
        .register("s@x.com", "pw", "S", "S", AccountType::Student)
        .unwrap()
        .identifier
        .clone();

    let missing = b.authorize(None, &Requirement::AnyAuthenticated);
    assert_eq!(missing.err(), Some(BoardError::MissingCredential));

    let bogus = b.authorize(Some("bogus"), &Requirement::AnyAuthenticated);
    assert_eq!(bogus.err(), Some(BoardError::InvalidCredential));

    let ok = b.authorize(Some(&sid), &Requirement::AnyAuthenticated);
    assert_eq!(ok.unwrap().email, "s@x.com");

    let wrong_role = b.authorize(Some(&sid), &Requirement::Role(AccountType::Administrator));
    assert_eq!(wrong_role.err(), Some(BoardError::Forbidden));

    let owner_ok = b.authorize(Some(&sid), &Requirement::Owner(sid.clone()));
    assert!(owner_ok.is_ok());

    let not_owner = b.authorize(Some(&sid), &Requirement::Owner("someone-else".to_owned()));
    assert_eq!(not_owner.err(), Some(BoardError::Forbidden));
    assert_eq!(BoardError::MissingCredential.http_status(), 401);
    assert_eq!(BoardError::Forbidden.http_status(), 403);
}
