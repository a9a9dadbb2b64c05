//! What the login exchange needs computed: the arguments that ask for a
//! login, and the credential among the cookies that come back.

use crate::session::Credential;
use crate::text::same_text;
use vstd::prelude::*;

verus! {

/// The arguments of a login request: a JSON object with the e-mail
/// address, the password, and the wish to log in only.
pub open spec fn login_text(email: Seq<char>, password: Seq<char>) -> Seq<char> {
    "{\"email\":\""@ + email + "\",\"password\":\""@ + password + "\",\"only_login\":true}"@
}

/// The name of the cookie that holds the credential.
pub open spec fn credential_name() -> Seq<char> {
    "auth"@
}

/// Is `i` the place of the first cookie under the credential's name?
pub open spec fn first_credential_at(cookies: Seq<(String, String)>, i: int) -> bool {
    &&& 0 <= i < cookies.len()
    &&& cookies[i].0@ == credential_name()
    &&& forall|j: int| 0 <= j < i ==> (#[trigger] cookies[j]).0@ != credential_name()
}

/// The arguments of a login request. Nothing is escaped: the caller passes
/// an address and a password without quotes or backslashes.
pub fn login_arguments(email: &str, password: &str) -> (arguments: String)
    ensures
        arguments@ == login_text(email@, password@),
{
    let mut arguments = "{\"email\":\"".to_owned();
    arguments.append(email);
    arguments.append("\",\"password\":\"");
    arguments.append(password);
    arguments.append("\",\"only_login\":true}");
    arguments
}

/// The credential among the cookies of a login response: the first cookie
/// under the credential's name, as a copy. `None` exactly where no cookie
/// has that name.
pub fn pick_credential(cookies: &Vec<(String, String)>) -> (credential: Option<Credential>)
    ensures
        (match credential {
            Some(c) => exists|i: int|
                first_credential_at(cookies@, i) && c.name@ == cookies@[i].0@ && c.value@
                    == cookies@[i].1@,
            None => forall|j: int|
                0 <= j < cookies@.len() ==> (#[trigger] cookies@[j]).0@ != credential_name(),
        }),
{
    let mut i: usize = 0;
    while i < cookies.len()
        invariant
            i <= cookies@.len(),
            forall|j: int| 0 <= j < i ==> (#[trigger] cookies@[j]).0@ != credential_name(),
        decreases cookies@.len() - i,
    {
        if same_text(cookies[i].0.as_str(), "auth") {
            let credential = Credential { name: cookies[i].0.clone(), value: cookies[i].1.clone() };
            assert(first_credential_at(cookies@, i as int));
            return Some(credential);
        }
        i = i + 1;
    }
    None
}

} // verus!
