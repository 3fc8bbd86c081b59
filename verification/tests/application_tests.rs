use job_board::board::JobBoard;
use job_board::enums::{AccountType, ApplicationStatus, BoardError, Decision};
use job_board::requests::{CreatePostRequest, UpdateApplicationStatusRequest, UpdateEmployerAgreementsRequest};

fn board() -> JobBoard {
    JobBoard::new(Some("server-secret".to_owned()))
}

fn post_request(title: &str) -> CreatePostRequest {
    CreatePostRequest {
        title: title.to_owned(),
        description: "desc".to_owned(),
        tags: "t".to_owned(),
        documents: "d".to_owned(),
        tips: "p".to_owned(),
        skills: "s".to_owned(),
        experience: "Easy".to_owned(),
        jobtype: "PartTime".to_owned(),
        location: "here".to_owned(),
        questions: None,
        company_name: "Acme".to_owned(),
    }
}

fn onboarded_employer(b: &mut JobBoard, email: &str) -> String {
    let id = b
        .register(email, "pw", "Emp", "Loyer", AccountType::Employer)
        .unwrap()
        .identifier
        .clone();
    b.set_employer_agreements(
        &id,
        &UpdateEmployerAgreementsRequest {
            employer_agreement: true,
            job_posting_guidelines: true,
            insurance_certificate: true,
            benefits_description: true,
        },
    )
    .unwrap();
    id
}

fn student(b: &mut JobBoard, email: &str) -> String {
    b.register(email, "pw", "Stu", "Dent", AccountType::Student)
        .unwrap()
        .identifier
        .clone()
}

#[test]
fn applying_denormalizes_the_employer() {
    let mut b = board();
    let eid = onboarded_employer(&mut b, "e@x.com");
    let sid = student(&mut b, "s@x.com");
    let pid = b.create_posting(&eid, &post_request("t")).unwrap().id;

    let a = b.apply(&sid, pid, "{\"answer\":42}").unwrap();
    assert_eq!(a.post_id, pid);
    assert_eq!(a.applicant_id, sid);
    assert_eq!(a.employer_id, eid);
    assert!(matches!(a.status, ApplicationStatus::Pending));
    assert_eq!(a.created_at, a.updated_at);

    assert_eq!(b.apply(&sid, 999, "{}").err(), Some(BoardError::NotFound));
}

#[test]
fn applying_twice_produces_two_records() {
    let mut b = board();
    let eid = onboarded_employer(&mut b, "e@x.com");
    let sid = student(&mut b, "s@x.com");
    let pid = b.create_posting(&eid, &post_request("t")).unwrap().id;

    let first = b.apply(&sid, pid, "{}").unwrap().id;
    let second = b.apply(&sid, pid, "{}").unwrap().id;
    assert_ne!(first, second);

    let submitted = b.list_submitted(&sid);
    assert_eq!(submitted.len(), 2);
    assert_eq!(submitted[0].post_title, "t");
    assert_eq!(submitted[1].post_title, "t");
}

#[test]
fn submitted_listing_joins_the_posting() {
    let mut b = board();
    let eid = onboarded_employer(&mut b, "e@x.com");
    let sid = student(&mut b, "s@x.com");
    let other = student(&mut b, "s2@x.com");
    let pid = b.create_posting(&eid, &post_request("Barista")).unwrap().id;

    b.apply(&sid, pid, "{}").unwrap();
    b.apply(&other, pid, "{}").unwrap();

    let submitted = b.list_submitted(&sid);
    assert_eq!(submitted.len(), 1);
    assert_eq!(submitted[0].post_title, "Barista");
    assert_eq!(submitted[0].company_name, "Acme");
    assert!(matches!(submitted[0].status, ApplicationStatus::Pending));
}

#[test]
fn received_listing_joins_the_applicant() {
    let mut b = board();
    let eid = onboarded_employer(&mut b, "e@x.com");
    let other_e = onboarded_employer(&mut b, "f@x.com");
    let sid = student(&mut b, "s@x.com");
    let pid = b.create_posting(&eid, &post_request("Barista")).unwrap().id;
    b.apply(&sid, pid, "{}").unwrap();

    assert_eq!(b.list_received(&sid).err(), Some(BoardError::Forbidden));
    assert_eq!(b.list_received("bogus").err(), Some(BoardError::InvalidCredential));

    let mine = b.list_received(&eid).unwrap();
    assert_eq!(mine.len(), 1);
    assert_eq!(mine[0].post_title, "Barista");
    assert_eq!(mine[0].applicant_id, sid);
    assert_eq!(mine[0].first_name, "Stu");
    assert_eq!(mine[0].email, "s@x.com");

    assert_eq!(b.list_received(&other_e).unwrap().len(), 0);
}

#[test]
fn status_change_is_owner_only_and_overwrites_on_repeat() {
    let mut b = board();
    let eid = onboarded_employer(&mut b, "e@x.com");
    let intruder = onboarded_employer(&mut b, "f@x.com");
    let sid = student(&mut b, "s@x.com");
    let pid = b.create_posting(&eid, &post_request("t")).unwrap().id;
    let aid = b.apply(&sid, pid, "{}").unwrap().id;

    assert_eq!(b.set_status(aid, &sid, Decision::Accept).err(), Some(BoardError::Forbidden));
    assert_eq!(b.set_status(aid, &intruder, Decision::Accept).err(), Some(BoardError::Forbidden));
    assert_eq!(b.set_status(999, &eid, Decision::Accept).err(), Some(BoardError::NotFound));
    assert!(matches!(b.list_submitted(&sid)[0].status, ApplicationStatus::Pending));

    let a = b.set_status(aid, &eid, Decision::Accept).unwrap();
    assert!(matches!(a.status, ApplicationStatus::Accepted));

    let again = b.set_status(aid, &eid, Decision::Accept).unwrap();
    assert!(matches!(again.status, ApplicationStatus::Accepted));

    let flipped = b.set_status(aid, &eid, Decision::Reject).unwrap();
    assert!(matches!(flipped.status, ApplicationStatus::Rejected));
}

#[test]
fn cascade_delete_removes_posting_and_applications() {
    let mut b = board();
    let eid = onboarded_employer(&mut b, "e@x.com");
    let intruder = onboarded_employer(&mut b, "f@x.com");
    let s1 = student(&mut b, "s1@x.com");
    let s2 = student(&mut b, "s2@x.com");
    let pid = b.create_posting(&eid, &post_request("doomed")).unwrap().id;
    let kept_pid = b.create_posting(&eid, &post_request("kept")).unwrap().id;

    b.apply(&s1, pid, "{}").unwrap();
    b.apply(&s2, pid, "{}").unwrap();
    b.apply(&s1, kept_pid, "{}").unwrap();

    assert_eq!(b.delete_posting(pid, &intruder).err(), Some(BoardError::Forbidden));
    assert_eq!(b.list_owned(&eid).len(), 2);
    assert_eq!(b.delete_posting(999, &eid).err(), Some(BoardError::NotFound));

    b.delete_posting(pid, &eid).unwrap();
    let remaining = b.list_owned(&eid);
    assert_eq!(remaining.len(), 1);
    assert_eq!(remaining[0].id, kept_pid);
    assert_eq!(b.list_submitted(&s1).len(), 1);
    assert_eq!(b.list_submitted(&s1)[0].post_id, kept_pid);
    assert_eq!(b.list_submitted(&s2).len(), 0);
    assert_eq!(b.list_received(&eid).unwrap().len(), 1);
}

#[test]
fn status_request_text_names_a_decision() {
    let accept = UpdateApplicationStatusRequest { status: "accepted".to_owned() };
    let reject = UpdateApplicationStatusRequest { status: "rejected".to_owned() };
    let junk = UpdateApplicationStatusRequest { status: "Accepted".to_owned() };
    assert_eq!(accept.decision(), Some(Decision::Accept));
    assert_eq!(reject.decision(), Some(Decision::Reject));
    assert_eq!(junk.decision(), None);
    assert_eq!(BoardError::ValidationError.http_status(), 400);
}
