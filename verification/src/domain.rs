use vstd::prelude::*;

verus! {

/// The mathematical value of a [`User`]: its three fields as plain values.
pub ghost struct UserView {
    pub email: Seq<char>,
    pub password: Seq<char>,
    pub requires_2fa: bool,
}

/// A single identity record: the email is the unique lookup key, the password
/// is compared verbatim during validation, and `requires_2fa` flags whether a
/// second factor is demanded at login.
#[derive(Debug, PartialEq, Eq)]
pub struct User {
    pub email: String,
    pub password: String,
    pub requires_2fa: bool,
}

impl View for User {
    type V = UserView;

    open spec fn view(&self) -> UserView {
        UserView { email: self.email@, password: self.password@, requires_2fa: self.requires_2fa }
    }
}

impl Clone for User {
    fn clone(&self) -> (r: Self)
        ensures
            r@ == self@,
    {
        User {
            email: self.email.clone(),
            password: self.password.clone(),
            requires_2fa: self.requires_2fa,
        }
    }
}

impl User {
    pub fn new(email: String, password: String, requires_2fa: bool) -> (r: User)
        ensures
            r@ == (UserView { email: email@, password: password@, requires_2fa }),
    {
        User { email, password, requires_2fa }
    }
}

} // verus!
