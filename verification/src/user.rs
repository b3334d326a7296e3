//! Users: an anonymous identity is just a client-held id; an authenticated
//! one carries the stored account fields and the access token it presented.

use crate::error::AppError;
use vstd::prelude::*;
use vstd::string::StrSliceExecFns;
use vstd::string::StringExecFns;

verus! {

#[derive(Clone, Debug)]
pub struct AccessToken {
    pub id: i64,
    pub created_at: i64,
    pub last_user_ip: String,
    pub last_user_agent: String,
}

#[derive(Clone, Debug)]
pub enum User {
    Anonymous { id: u128 },
    Authenticated {
        id: u128,
        created_at: i64,
        updated_at: i64,
        email: String,
        name: String,
        self_description: String,
        access_token: AccessToken,
    },
}

impl User {
    pub open spec fn spec_id(self) -> u128 {
        match self {
            User::Anonymous { id } => id,
            User::Authenticated { id, .. } => id,
        }
    }

    /// The display name handed to a reading: empty for an anonymous user.
    pub open spec fn spec_display_name(self) -> Seq<char> {
        match self {
            User::Anonymous { .. } => Seq::empty(),
            User::Authenticated { name, .. } => name@,
        }
    }

    /// The self-description handed to a reading: empty for an anonymous user.
    pub open spec fn spec_self_description(self) -> Seq<char> {
        match self {
            User::Anonymous { .. } => Seq::empty(),
            User::Authenticated { self_description, .. } => self_description@,
        }
    }

    pub fn id(&self) -> (r: u128)
        ensures
            r == self.spec_id(),
    {
        match self {
            User::Anonymous { id } => *id,
            User::Authenticated { id, .. } => *id,
        }
    }

    /// The user's name, absent for an anonymous user.
    pub fn name(&self) -> (r: Option<String>)
        ensures
            match r {
                Option::Some(n) => *self is Authenticated && n@ == self.spec_display_name(),
                Option::None => *self is Anonymous,
            },
    {
        match self {
            User::Anonymous { .. } => Option::None,
            User::Authenticated { name, .. } => Option::Some(name.clone()),
        }
    }

    /// The user's self-description, absent for an anonymous user.
    pub fn self_description(&self) -> (r: Option<String>)
        ensures
            match r {
                Option::Some(d) => *self is Authenticated && d@ == self.spec_self_description(),
                Option::None => *self is Anonymous,
            },
    {
        match self {
            User::Anonymous { .. } => Option::None,
            User::Authenticated { self_description, .. } => Option::Some(self_description.clone()),
        }
    }
}

#[derive(Clone, Debug)]
pub struct CreateUserRequest {
    pub email: String,
    pub name: String,
    pub password: String,
    pub self_description: String,
}

/// Whether a character occurs in a sequence.
pub open spec fn contains_char(s: Seq<char>, c: char) -> bool {
    exists|i: int| 0 <= i < s.len() && s[i] == c
}

impl CreateUserRequest {
    /// A request is acceptable when the password has at least 8 characters
    /// and the email contains an '@'.
    pub open spec fn spec_valid(self) -> bool {
        self.password@.len() >= 8 && contains_char(self.email@, '@')
    }

    /// Rejects a too-short password first, then an email without '@';
    /// anything else is accepted.
    pub fn validate(&self) -> (r: Result<(), AppError>)
        ensures
            r is Ok <==> self.spec_valid(),
            self.password@.len() < 8 ==> (r matches Result::Err(AppError::ValidateError(m))
                && m@ == "Password must be at least 8 characters long"@),
            self.password@.len() >= 8 && !contains_char(self.email@, '@') ==> (r
                matches Result::Err(AppError::ValidateError(m)) && m@ == "Email must contain '@'"@),
    {
        if self.password.unicode_len() < 8 {
            return Result::Err(
                AppError::ValidateError(
                    String::from_str("Password must be at least 8 characters long"),
                ),
            );
        }
        let n: usize = self.email.unicode_len();
        let mut i: usize = 0;
        let mut found = false;
        while i < n
            invariant
                i <= n,
                n == self.email@.len(),
                found <==> contains_char(self.email@.subrange(0, i as int), '@'),
            decreases n - i,
        {
            if self.email.as_str().get_char(i) == '@' {
                found = true;
                proof {
                    assert(self.email@.subrange(0, i + 1)[i as int] == '@');
                }
            }
            proof {
                assert(self.email@.subrange(0, i as int) =~= self.email@.subrange(
                    0,
                    i + 1,
                ).subrange(0, i as int));
                if contains_char(self.email@.subrange(0, i as int), '@') {
                    let w = choose|w: int|
                        0 <= w < i && self.email@.subrange(0, i as int)[w] == '@';
                    assert(self.email@.subrange(0, i + 1)[w] == '@');
                }
            }
            i = i + 1;
        }
        proof {
            assert(self.email@.subrange(0, n as int) =~= self.email@);
        }
        if !found {
            return Result::Err(AppError::ValidateError(String::from_str("Email must contain '@'")));
        }
        Result::Ok(())
    }
}

#[derive(Clone, Debug)]
pub struct AuthenticationResponse {
    pub access_token: String,
    pub user: User,
}

#[derive(Clone, Debug)]
pub struct LogInRequest {
    pub email: String,
    pub password: String,
}

} // verus!
