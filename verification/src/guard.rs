use vstd::prelude::*;
use vstd::string::StrSliceExecFns;

use crate::board::account_index;
use crate::board::identifier_taken;
use crate::board::JobBoard;
use crate::enums::AccountType;
use crate::enums::BoardError;
use crate::records::Account;

verus! {

/// What an operation demands of its caller: bare authentication, a specific
/// role, or ownership of a resource (named by the owning account's
/// identifier).
#[derive(Debug)]
pub enum Requirement {
    AnyAuthenticated,
    Role(AccountType),
    Owner(String),
}

/// Whether a header value starts with the fixed bearer prefix.
pub open spec fn bearer_prefixed(header: Seq<char>) -> bool {
    header.len() >= 7 && header.subrange(0, 7) == "Bearer "@
}

/// The bearer token carried in an Authorization header value: the value with
/// the fixed prefix stripped, or the whole value where the prefix is absent.
pub fn strip_bearer(header: &str) -> (r: &str)
    ensures
        bearer_prefixed(header@) ==> r@ == header@.skip(7),
        !bearer_prefixed(header@) ==> r@ == header@,
{
    let n = header.unicode_len();
    if n >= 7 {
        let prefix = header.substring_char(0, 7);
        if prefix.to_owned() == "Bearer ".to_owned() {
            let rest = header.substring_char(7, n);
            proof {
                assert(rest@ =~= header@.skip(7));
            }
            return rest;
        }
    }
    header
}

/// Whether an account meets a requirement.
pub open spec fn requirement_met(a: Account, req: Requirement) -> bool {
    match req {
        Requirement::AnyAuthenticated => true,
        Requirement::Role(role) => a.role == role,
        Requirement::Owner(id) => a.identifier@ == id@,
    }
}

impl JobBoard {
    /// The authorization guard, run before any operation touches a record.
    /// An absent bearer credential is `MissingCredential`; a credential that
    /// resolves to no account is `InvalidCredential`; an account that fails
    /// the role or ownership requirement is `Forbidden`; otherwise the
    /// caller's account is handed back. Bearer tokens are the accounts'
    /// permanent identifiers; they carry no expiry.
    pub fn authorize(&self, bearer: Option<&str>, requirement: &Requirement) -> (r: Result<
        &Account,
        BoardError,
    >)
        requires
            self.wf(),
        ensures
            match r {
                Ok(a) => {
                    &&& bearer matches Some(t) && self.resolve_spec(t@) == Some(*a)
                    &&& requirement_met(*a, *requirement)
                },
                Err(e) => match bearer {
                    None => e == BoardError::MissingCredential,
                    Some(t) => match self.resolve_spec(t@) {
                        None => e == BoardError::InvalidCredential,
                        Some(a) => e == BoardError::Forbidden && !requirement_met(a, *requirement),
                    },
                },
            },
    {
        let token = match bearer {
            Some(t) => t,
            None => {
                return Err(BoardError::MissingCredential);
            },
        };
        let i = match self.find_account(token) {
            Some(i) => i,
            None => {
                return Err(BoardError::InvalidCredential);
            },
        };
        proof {
            let j = account_index(self.accounts@, token@);
            assert(identifier_taken(self.accounts@, token@));
            assert(0 <= j < self.accounts@.len() && self.accounts@[j].identifier@ == token@);
            assert(j == i as int);
        }
        let account = &self.accounts[i];
        let met = match requirement {
            Requirement::AnyAuthenticated => true,
            Requirement::Role(role) => account.role == *role,
            Requirement::Owner(id) => account.identifier == *id,
        };
        if met {
            Ok(account)
        } else {
            Err(BoardError::Forbidden)
        }
    }
}

} // verus!
