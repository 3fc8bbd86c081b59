use job_board::board::JobBoard;
use job_board::enums::{AccountType, BoardError, Decision, PostingStatus};
use job_board::requests::{CreatePostRequest, Post, UpdateEmployerAgreementsRequest};

fn board() -> JobBoard {
    JobBoard::new(Some("server-secret".to_owned()))
}

fn all_agreements() -> UpdateEmployerAgreementsRequest {
    UpdateEmployerAgreementsRequest {
        employer_agreement: true,
        job_posting_guidelines: true,
        insurance_certificate: true,
        benefits_description: true,
    }
}

fn post_request(title: &str) -> CreatePostRequest {
    CreatePostRequest {
        title: title.to_owned(),
        description: "desc".to_owned(),
        tags: "tags".to_owned(),
        documents: "docs".to_owned(),
        tips: "tips".to_owned(),
        skills: "skills".to_owned(),
        experience: "Easy".to_owned(),
        jobtype: "PartTime".to_owned(),
        location: "here".to_owned(),
        questions: None,
        company_name: "Acme".to_owned(),
    }
}

fn onboarded_employer(b: &mut JobBoard, email: &str) -> String {
    let id = b
        .register(email, "pw", "Emp", "Loyer", AccountType::Employer)
        .unwrap()
        .identifier
        .clone();
    b.set_employer_agreements(&id, &all_agreements()).unwrap();
    id
}

fn administrator(b: &mut JobBoard, email: &str) -> String {
    b.register(email, "pw", "Ad", "Min", AccountType::Administrator)
        .unwrap()
        .identifier
        .clone()
}

#[test]
fn creation_is_gated_on_role_and_onboarding() {
    let mut b = board();
    let sid = b
        .register("s@x.com", "pw", "S", "S", AccountType::Student)
        .unwrap()
        .identifier
        .clone();
    let eid = b
        .register("e@x.com", "pw", "E", "E", AccountType::Employer)
        .unwrap()
        .identifier
        .clone();

    assert_eq!(
        b.create_posting("bogus", &post_request("t")).err(),
        Some(BoardError::InvalidCredential)
    );
    assert_eq!(b.create_posting(&sid, &post_request("t")).err(), Some(BoardError::Forbidden));
    assert_eq!(
        b.create_posting(&eid, &post_request("t")).err(),
        Some(BoardError::IncompleteOnboarding)
    );
    assert_eq!(BoardError::IncompleteOnboarding.http_status(), 409);

    b.set_employer_agreements(&eid, &all_agreements()).unwrap();
    let p = b.create_posting(&eid, &post_request("t")).unwrap();
    assert_eq!(p.id, 1);
    assert!(matches!(p.status, PostingStatus::Pending));
    assert_eq!(p.employer_id, eid);
}

#[test]
fn agreements_are_gated_on_employer_role() {
    let mut b = board();
    let sid = b
        .register("s@x.com", "pw", "S", "S", AccountType::Student)
        .unwrap()
        .identifier
        .clone();
    assert_eq!(
        b.set_employer_agreements(&sid, &all_agreements()).err(),
        Some(BoardError::Forbidden)
    );
    assert_eq!(
        b.set_employer_agreements("bogus", &all_agreements()).err(),
        Some(BoardError::InvalidCredential)
    );
}

#[test]
fn moderation_controls_public_visibility() {
    let mut b = board();
    let eid = onboarded_employer(&mut b, "e@x.com");
    let adm = administrator(&mut b, "adm@x.com");

    let p1 = b.create_posting(&eid, &post_request("first")).unwrap().id;
    let p2 = b.create_posting(&eid, &post_request("second")).unwrap().id;

    assert_eq!(b.list_public().len(), 0);

    b.moderate(&adm, p1, Decision::Accept).unwrap();
    let public = b.list_public();
    assert_eq!(public.len(), 1);
    assert_eq!(public[0].title, "first");

    b.moderate(&adm, p2, Decision::Reject).unwrap();
    let public = b.list_public();
    assert_eq!(public.len(), 1);
    assert_eq!(public[0].title, "first");
}

#[test]
fn moderation_is_gated_and_checks_existence() {
    let mut b = board();
    let eid = onboarded_employer(&mut b, "e@x.com");
    let adm = administrator(&mut b, "adm@x.com");
    let pid = b.create_posting(&eid, &post_request("t")).unwrap().id;

    assert_eq!(b.moderate("bogus", pid, Decision::Accept).err(), Some(BoardError::InvalidCredential));
    assert_eq!(b.moderate(&eid, pid, Decision::Accept).err(), Some(BoardError::Forbidden));
    assert_eq!(b.moderate(&adm, 999, Decision::Accept).err(), Some(BoardError::NotFound));
    assert_eq!(BoardError::NotFound.http_status(), 404);
}

#[test]
fn remoderation_overwrites_the_decision() {
    let mut b = board();
    let eid = onboarded_employer(&mut b, "e@x.com");
    let adm = administrator(&mut b, "adm@x.com");
    let pid = b.create_posting(&eid, &post_request("t")).unwrap().id;

    b.moderate(&adm, pid, Decision::Accept).unwrap();
    assert_eq!(b.list_public().len(), 1);
    b.moderate(&adm, pid, Decision::Reject).unwrap();
    assert_eq!(b.list_public().len(), 0);
}

#[test]
fn pending_queue_is_for_administrators() {
    let mut b = board();
    let eid = onboarded_employer(&mut b, "e@x.com");
    let adm = administrator(&mut b, "adm@x.com");
    let pid = b.create_posting(&eid, &post_request("waiting")).unwrap().id;

    assert_eq!(b.list_pending(&eid).err(), Some(BoardError::Forbidden));
    assert_eq!(b.list_pending("bogus").err(), Some(BoardError::InvalidCredential));

    let pending = b.list_pending(&adm).unwrap();
    assert_eq!(pending.len(), 1);
    assert_eq!(pending[0].title, "waiting");

    b.moderate(&adm, pid, Decision::Accept).unwrap();
    assert_eq!(b.list_pending(&adm).unwrap().len(), 0);
}

#[test]
fn owned_listing_shows_every_state() {
    let mut b = board();
    let eid = onboarded_employer(&mut b, "e@x.com");
    let other = onboarded_employer(&mut b, "f@x.com");
    let adm = administrator(&mut b, "adm@x.com");

    let p1 = b.create_posting(&eid, &post_request("one")).unwrap().id;
    b.create_posting(&eid, &post_request("two")).unwrap();
    b.create_posting(&other, &post_request("theirs")).unwrap();

    b.moderate(&adm, p1, Decision::Reject).unwrap();

    let mine = b.list_owned(&eid);
    assert_eq!(mine.len(), 2);
    assert_eq!(mine[0].title, "one");
    assert!(matches!(mine[0].status, PostingStatus::Rejected));
    assert_eq!(mine[1].title, "two");
}

#[test]
fn update_by_non_owner_is_forbidden_and_changes_nothing() {
    let mut b = board();
    let owner = onboarded_employer(&mut b, "e@x.com");
    let intruder = onboarded_employer(&mut b, "f@x.com");
    let pid = b.create_posting(&owner, &post_request("original")).unwrap().id;

    let edit = Post {
        id: Some(pid),
        title: "hijacked".to_owned(),
        description: "x".to_owned(),
        tags: "x".to_owned(),
        documents: "x".to_owned(),
        tips: "x".to_owned(),
        skills: "x".to_owned(),
        experience: "x".to_owned(),
        jobtype: "x".to_owned(),
        location: "x".to_owned(),
        questions: None,
    };
    assert_eq!(b.update_posting(pid, &intruder, &edit).err(), Some(BoardError::Forbidden));
    assert_eq!(b.list_owned(&owner)[0].title, "original");
    assert_eq!(b.update_posting(999, &owner, &edit).err(), Some(BoardError::NotFound));

    let updated = b.update_posting(pid, &owner, &edit).unwrap();
    assert_eq!(updated.title, "hijacked");
    assert!(matches!(updated.status, PostingStatus::Pending));
    assert_eq!(updated.company_name, "Acme");
}

#[test]
fn update_keeps_questions_when_none_are_sent() {
    let mut b = board();
    let owner = onboarded_employer(&mut b, "e@x.com");
    let mut req = post_request("t");
    req.questions = Some("why?".to_owned());
    let pid = b.create_posting(&owner, &req).unwrap().id;

    let edit = Post {
        id: Some(pid),
        title: "t2".to_owned(),
        description: "d".to_owned(),
        tags: "g".to_owned(),
        documents: "o".to_owned(),
        tips: "i".to_owned(),
        skills: "k".to_owned(),
        experience: "e".to_owned(),
        jobtype: "j".to_owned(),
        location: "l".to_owned(),
        questions: None,
    };
    let updated = b.update_posting(pid, &owner, &edit).unwrap();
    assert_eq!(updated.questions, "why?");
}

#[test]
fn scenario_cashier_posting_appears_after_acceptance() {
    let mut b = board();
    let eid = b
        .register("e@x.com", "pw1", "Em", "Ployer", AccountType::Employer)
        .unwrap()
        .identifier
        .clone();
    b.set_employer_agreements(&eid, &all_agreements()).unwrap();
    let pid = b.create_posting(&eid, &post_request("Cashier")).unwrap().id;

    let before: Vec<String> = b.list_public().iter().map(|p| p.title.clone()).collect();
    assert!(!before.contains(&"Cashier".to_owned()));

    let adm = administrator(&mut b, "adm@x.com");
    b.moderate(&adm, pid, Decision::Accept).unwrap();

    let after: Vec<String> = b.list_public().iter().map(|p| p.title.clone()).collect();
    assert!(after.contains(&"Cashier".to_owned()));
}
