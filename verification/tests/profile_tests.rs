use job_board::profile::{EmployerForms, Forms, StudentForms, Tasks};

#[test]
fn new_forms_have_every_flag_clear() {
    let f = Forms::new();
    assert_eq!(
        f.student,
        StudentForms { resume: false, transcript: false, agreement: false, background_check: false }
    );
    assert_eq!(
        f.employer,
        EmployerForms {
            employer_agreement: false,
            job_posting_guidelines: false,
            insurance_certificate: false,
            benefits_description: false,
        }
    );
}

#[test]
fn new_tasks_are_empty() {
    let t = Tasks::new();
    assert!(t.student.is_empty());
    assert!(t.employer.is_empty());
}
