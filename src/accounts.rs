//! User accounts as the store keeps them, and the sign-in decision.

use vstd::prelude::*;
use crate::ids::fresh_id;

verus! {

/// A stored user account.
pub struct User {
    pub id: String,
    pub email: String,
    pub password: String,
    pub name: String,
    pub plan_name: String,
}

/// A user account without its password.
pub struct UserOutput {
    pub id: String,
    pub email: String,
    pub name: String,
    pub plan_type: String,
}

/// The plan every new account starts on.
pub open spec fn spec_default_plan() -> Seq<char> {
    "Basic"@
}

/// The account with this id for a sign-up: the email is the user name
/// given, and the plan is the default one.
pub fn account_with_id(id: String, email: String, password: String, name: String) -> (r: User)
    ensures
        r.id@ == id@,
        r.email@ == email@,
        r.password@ == password@,
        r.name@ == name@,
        r.plan_name@ == spec_default_plan(),
{
    User { id, email, password, name, plan_name: "Basic".to_owned() }
}

/// A new account for a sign-up, under a fresh random id.
pub fn new_account(email: String, password: String, name: String) -> (r: User)
    ensures
        r.id@.len() == 36,
        r.email@ == email@,
        r.password@ == password@,
        r.name@ == name@,
        r.plan_name@ == spec_default_plan(),
{
    account_with_id(fresh_id(), email, password, name)
}

/// Signs in against the accounts stored under the given email: the first
/// of them must carry exactly this password.
pub fn sign_in_match(accounts: &Vec<User>, password: &String) -> (r: Option<UserOutput>)
    ensures
        r is Some <==> accounts.len() > 0 && accounts@[0].password@ == password@,
        r matches Some(u) ==> u.id@ == accounts@[0].id@ && u.email@ == accounts@[0].email@
            && u.name@ == accounts@[0].name@ && u.plan_type@ == accounts@[0].plan_name@,
{
    if accounts.len() > 0 && accounts[0].password == *password {
        Some(UserOutput {
            id: accounts[0].id.clone(),
            email: accounts[0].email.clone(),
            name: accounts[0].name.clone(),
            plan_type: accounts[0].plan_name.clone(),
        })
    } else {
        None
    }
}

} // verus!
