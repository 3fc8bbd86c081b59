use vstd::prelude::*;

use crate::enums::AccountType;

verus! {

/// Onboarding forms a student account can submit.
#[derive(Clone, Copy, PartialEq, Eq, Structural, Debug)]
pub struct StudentForms {
    pub resume: bool,
    pub transcript: bool,
    pub agreement: bool,
    pub background_check: bool,
}

/// The four employer onboarding agreements. A posting may be created only
/// once all four are true.
#[derive(Clone, Copy, PartialEq, Eq, Structural, Debug)]
pub struct EmployerForms {
    pub employer_agreement: bool,
    pub job_posting_guidelines: bool,
    pub insurance_certificate: bool,
    pub benefits_description: bool,
}

impl EmployerForms {
    /// The onboarding gate: every agreement has been given.
    pub open spec fn complete(self) -> bool {
        self.employer_agreement && self.job_posting_guidelines
            && self.insurance_certificate && self.benefits_description
    }
}

/// Form state for both roles, kept on every account.
#[derive(Clone, Copy, PartialEq, Eq, Structural, Debug)]
pub struct Forms {
    pub student: StudentForms,
    pub employer: EmployerForms,
}

impl Forms {
    /// A fresh form state: nothing submitted, nothing agreed.
    pub open spec fn fresh_spec() -> Forms {
        Forms {
            student: StudentForms {
                resume: false,
                transcript: false,
                agreement: false,
                background_check: false,
            },
            employer: EmployerForms {
                employer_agreement: false,
                job_posting_guidelines: false,
                insurance_certificate: false,
                benefits_description: false,
            },
        }
    }

    /// Form state of a new account: every flag false.
    pub fn new() -> (r: Forms)
        ensures
            r == Forms::fresh_spec(),
    {
        Forms {
            student: StudentForms {
                resume: false,
                transcript: false,
                agreement: false,
                background_check: false,
            },
            employer: EmployerForms {
                employer_agreement: false,
                job_posting_guidelines: false,
                insurance_certificate: false,
                benefits_description: false,
            },
        }
    }
}

/// Onboarding task lists shown to the two working roles.
#[derive(Debug)]
pub struct Tasks {
    pub student: Vec<String>,
    pub employer: Vec<String>,
}

impl Tasks {
    /// Task lists of a new account: both empty; role-appropriate entries are
    /// seeded by the profile constructor.
    pub fn new() -> (r: Tasks)
        ensures
            r.student@.len() == 0,
            r.employer@.len() == 0,
    {
        Tasks { student: Vec::new(), employer: Vec::new() }
    }
}

/// An emergency contact a student can deposit.
#[derive(Debug)]
pub struct EmergencyContact {
    pub name: String,
    pub relationship: String,
    pub phone: String,
}

/// Free-form contact details of an account.
#[derive(Debug)]
pub struct ContactInfo {
    pub phone: String,
    pub address: String,
    pub city: String,
    pub state: String,
    pub zip: String,
    pub country: String,
    pub emergency_contact: Option<EmergencyContact>,
}

/// Which notifications an account asks for.
#[derive(Clone, Copy, PartialEq, Eq, Structural, Debug)]
pub struct NotificationSettings {
    pub email_notifications: bool,
    pub push_notifications: bool,
    pub sms_notifications: bool,
}

/// Who may see the profile and its contact fields.
#[derive(Debug)]
pub struct PrivacySettings {
    pub profile_visibility: String,
    pub show_email: bool,
    pub show_phone: bool,
}

/// A salary band a student is looking for.
#[derive(Debug)]
pub struct SalaryRange {
    pub minimum: i32,
    pub maximum: i32,
    pub currency: String,
}

/// What kind of position a student is looking for.
#[derive(Debug)]
pub struct JobPreferences {
    pub desired_position: Vec<String>,
    pub desired_location: Vec<String>,
    pub salary_range: SalaryRange,
    pub job_type: Vec<String>,
    pub remote_preference: String,
}

/// Notification and privacy choices, plus optional job preferences.
#[derive(Debug)]
pub struct UserPreferences {
    pub notification_settings: NotificationSettings,
    pub privacy_settings: PrivacySettings,
    pub job_preferences: Option<JobPreferences>,
}

/// An education record. The grade-point average is kept in hundredths of a
/// grade point, so the record holds only plain integers.
#[derive(Debug)]
pub struct Education {
    pub institution: String,
    pub degree: String,
    pub field_of_study: String,
    pub start_date: String,
    pub end_date: Option<String>,
    pub gpa_hundredths: Option<u32>,
    pub achievements: Vec<String>,
}

/// A work-experience record.
#[derive(Debug)]
pub struct WorkExperience {
    pub company: String,
    pub position: String,
    pub location: String,
    pub start_date: String,
    pub end_date: Option<String>,
    pub responsibilities: Vec<String>,
}

/// The structured profile payload kept on every account: onboarding forms and
/// task lists, plus free-form presentation data.
#[derive(Debug)]
pub struct ProfileInfo {
    pub pfp: String,
    pub forms: Forms,
    pub tasks: Tasks,
    pub bio: String,
    pub contact: ContactInfo,
    pub preferences: UserPreferences,
    pub education: Option<Education>,
    pub work_experience: Option<WorkExperience>,
    pub skills: Vec<String>,
    pub certifications: Vec<String>,
}

/// The onboarding task list seeded for a student account.
pub open spec fn student_task_list() -> Seq<Seq<char>> {
    seq!["Complete profile"@, "Upload resume"@, "Submit required forms"@]
}

/// The onboarding task list seeded for an employer account.
pub open spec fn employer_task_list() -> Seq<Seq<char>> {
    seq!["Complete company profile"@, "Submit required documentation"@, "Post job opportunities"@]
}

impl ProfileInfo {
    /// What a freshly seeded profile looks like: all forms clear, the task
    /// list matching the role, and every presentation field empty or at its
    /// default.
    pub open spec fn is_default_for(self, role: AccountType) -> bool {
        &&& self.forms == Forms::fresh_spec()
        &&& self.tasks.student.deep_view() == (if role is Student {
            student_task_list()
        } else {
            Seq::<Seq<char>>::empty()
        })
        &&& self.tasks.employer.deep_view() == (if role is Employer {
            employer_task_list()
        } else {
            Seq::<Seq<char>>::empty()
        })
        &&& self.pfp@.len() == 0
        &&& self.bio@.len() == 0
        &&& self.contact.phone@.len() == 0
        &&& self.contact.address@.len() == 0
        &&& self.contact.city@.len() == 0
        &&& self.contact.state@.len() == 0
        &&& self.contact.zip@.len() == 0
        &&& self.contact.country@.len() == 0
        &&& self.contact.emergency_contact is None
        &&& self.preferences.notification_settings == (NotificationSettings {
            email_notifications: true,
            push_notifications: true,
            sms_notifications: false,
        })
        &&& self.preferences.privacy_settings.profile_visibility@ == "public"@
        &&& !self.preferences.privacy_settings.show_email
        &&& !self.preferences.privacy_settings.show_phone
        &&& self.preferences.job_preferences is None
        &&& self.education is None
        &&& self.work_experience is None
        &&& self.skills@.len() == 0
        &&& self.certifications@.len() == 0
    }

    /// The default profile payload given to a new account: all agreement and
    /// form flags false, and the onboarding task list appropriate to the
    /// account's role.
    pub fn new(role: AccountType) -> (r: ProfileInfo)
        ensures
            r.is_default_for(role),
    {
        let mut tasks = Tasks::new();
        if matches!(role, AccountType::Student) {
            tasks.student.push("Complete profile".to_owned());
            tasks.student.push("Upload resume".to_owned());
            tasks.student.push("Submit required forms".to_owned());
            proof {
                assert(tasks.student.deep_view() =~= student_task_list());
            }
        }
        if matches!(role, AccountType::Employer) {
            tasks.employer.push("Complete company profile".to_owned());
            tasks.employer.push("Submit required documentation".to_owned());
            tasks.employer.push("Post job opportunities".to_owned());
            proof {
                assert(tasks.employer.deep_view() =~= employer_task_list());
            }
        }
        proof {
            assert(tasks.student.deep_view() =~= Seq::<Seq<char>>::empty() || role is Student);
            assert(tasks.employer.deep_view() =~= Seq::<Seq<char>>::empty() || role is Employer);
        }
        ProfileInfo {
            pfp: String::new(),
            forms: Forms::new(),
            tasks,
            bio: String::new(),
            contact: ContactInfo {
                phone: String::new(),
                address: String::new(),
                city: String::new(),
                state: String::new(),
                zip: String::new(),
                country: String::new(),
                emergency_contact: None,
            },
            preferences: UserPreferences {
                notification_settings: NotificationSettings {
                    email_notifications: true,
                    push_notifications: true,
                    sms_notifications: false,
                },
                privacy_settings: PrivacySettings {
                    profile_visibility: "public".to_owned(),
                    show_email: false,
                    show_phone: false,
                },
                job_preferences: None,
            },
            education: None,
            work_experience: None,
            skills: Vec::new(),
            certifications: Vec::new(),
        }
    }
}

} // verus!
