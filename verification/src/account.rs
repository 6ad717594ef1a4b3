//! Accounts: checking a signup form, hashing passwords, and logging in.
use vstd::prelude::*;
use vstd::utf8::encode_utf8;
use crate::records::{Credentials, LoginQuery, SignupForm, User};

verus! {

/// Whether `password` matches the PHC-format hash `hash`: the result of
/// `password_auth::verify_password`, a function of the two texts alone.
pub uninterp spec fn spec_password_matches(password: Seq<char>, hash: Seq<char>) -> bool;

/// Calls `password_auth::verify_password` on the UTF-8 bytes of the password
/// and the hash, and reports whether it returned `Ok`: the result is named
/// by `spec_password_matches`.
#[verifier::external_body]
fn verify_password(password: &str, hash: &str) -> (r: bool)
    ensures
        r == spec_password_matches(password@, hash@),
{
    password_auth::verify_password(password, hash).is_ok()
}

/// Calls `password_auth::generate_hash`, which salts the password with
/// operating-system randomness and hashes it with Argon2.  Claimed: the hash
/// it returns verifies against the same password.  It panics on a password
/// longer than Argon2 accepts (`u32::MAX` bytes), when the operating system
/// cannot supply randomness, or when the hashing memory cannot be had; the
/// first is excluded below, the others are not stated.
#[verifier::external_body]
fn generate_hash(password: &str) -> (r: String)
    requires
        encode_utf8(password@).len() <= u32::MAX,
    ensures
        spec_password_matches(password@, r@),
{
    password_auth::generate_hash(password)
}

/// The characters with the Unicode `White_Space` property.
pub open spec fn is_white_space(c: char) -> bool {
    ||| '\u{9}' <= c <= '\u{D}'
    ||| c == ' '
    ||| c == '\u{85}'
    ||| c == '\u{A0}'
    ||| c == '\u{1680}'
    ||| '\u{2000}' <= c <= '\u{200A}'
    ||| c == '\u{2028}'
    ||| c == '\u{2029}'
    ||| c == '\u{202F}'
    ||| c == '\u{205F}'
    ||| c == '\u{3000}'
}

/// The text without its leading whitespace.
pub open spec fn trim_start(s: Seq<char>) -> Seq<char>
    decreases s.len(),
{
    if s.len() > 0 && is_white_space(s[0]) {
        trim_start(s.drop_first())
    } else {
        s
    }
}

/// The text without its trailing whitespace.
pub open spec fn trim_end(s: Seq<char>) -> Seq<char>
    decreases s.len(),
{
    if s.len() > 0 && is_white_space(s.last()) {
        trim_end(s.drop_last())
    } else {
        s
    }
}

/// The text with leading and trailing whitespace removed.
pub open spec fn spec_trim(s: Seq<char>) -> Seq<char> {
    trim_end(trim_start(s))
}

/// Calls `str::trim`, documented to remove leading and trailing characters
/// with the Unicode `White_Space` property, and copies the result.
#[verifier::external_body]
fn trimmed(s: &str) -> (r: String)
    ensures
        r@ == spec_trim(s@),
{
    s.trim().to_string()
}

/// Why a signup form is turned down.
#[derive(Clone, Copy, Debug, PartialEq, Eq, Structural)]
pub enum SignupError {
    /// The username is empty or only whitespace.
    EmptyUsername,
    /// The two passwords differ.
    PasswordMismatch,
    /// The password has fewer than six bytes.
    PasswordTooShort,
}

/// The shortest password accepted, in bytes.
pub const MIN_PASSWORD_LEN: usize = 6;

/// The outcome of checking a signup form, in the order the checks run.
pub open spec fn spec_signup_check(form: SignupForm) -> Result<Seq<char>, SignupError> {
    if spec_trim(form.username@).len() == 0 {
        Err(SignupError::EmptyUsername)
    } else if form.password@ != form.confirm_password@ {
        Err(SignupError::PasswordMismatch)
    } else if encode_utf8(form.password@).len() < MIN_PASSWORD_LEN {
        Err(SignupError::PasswordTooShort)
    } else {
        Ok(spec_trim(form.username@))
    }
}

/// Check a signup form: the trimmed username must be non-empty, the
/// passwords must match, and the password must have at least six bytes.
/// Returns the trimmed username.
pub fn check_signup(form: &SignupForm) -> (r: Result<String, SignupError>)
    ensures
        match r {
            Ok(name) => spec_signup_check(*form) == Ok::<Seq<char>, SignupError>(name@),
            Err(e) => spec_signup_check(*form) == Err::<Seq<char>, SignupError>(e),
        },
{
    let username = trimmed(form.username.as_str());
    if username.as_str().is_empty() {
        return Err(SignupError::EmptyUsername);
    }
    if form.password != form.confirm_password {
        return Err(SignupError::PasswordMismatch);
    }
    if form.password.as_str().as_bytes().len() < MIN_PASSWORD_LEN {
        return Err(SignupError::PasswordTooShort);
    }
    Ok(username)
}


/// A new account ready to be stored: the trimmed username and the hash of
/// the password.
#[derive(Debug)]
pub struct NewAccount {
    pub username: String,
    pub password_hash: String,
}

/// Check a signup form and, when it passes, hash its password.
pub fn prepare_signup(form: &SignupForm) -> (r: Result<NewAccount, SignupError>)
    requires
        encode_utf8(form.password@).len() <= u32::MAX,
    ensures
        match r {
            Ok(a) => spec_signup_check(*form) == Ok::<Seq<char>, SignupError>(a.username@)
                && spec_password_matches(form.password@, a.password_hash@),
            Err(e) => spec_signup_check(*form) == Err::<Seq<char>, SignupError>(e),
        },
{
    match check_signup(form) {
        Ok(username) => {
            let password_hash = generate_hash(form.password.as_str());
            Ok(NewAccount { username, password_hash })
        },
        Err(e) => Err(e),
    }
}

/// Hash a password for storage; the hash verifies against the password.
pub fn hash_password(password: &str) -> (r: String)
    requires
        encode_utf8(password@).len() <= u32::MAX,
    ensures
        spec_password_matches(password@, r@),
{
    generate_hash(password)
}

/// Verify a username/password pair: `user` is the account stored under the
/// submitted username, if any.  Returns the account when the password
/// matches its hash, and `None` for an unknown user or a wrong password
/// alike.
pub fn authenticate(user: Option<User>, password: &str) -> (r: Option<User>)
    ensures
        r is Some <==> (user is Some && spec_password_matches(password@, user.unwrap().password_hash@)),
        r is Some ==> r == user,
{
    match user {
        Some(u) => {
            if verify_password(password, u.password_hash.as_str()) {
                Some(u)
            } else {
                None
            }
        },
        None => None,
    }
}

/// The message the signup page shows for a refused form.
pub open spec fn signup_error_text(e: SignupError) -> Seq<char> {
    match e {
        SignupError::EmptyUsername => "Username cannot be empty."@,
        SignupError::PasswordMismatch => "Passwords do not match."@,
        SignupError::PasswordTooShort => "Password must be at least 6 characters."@,
    }
}

/// Word a refused signup for the signup page.
pub fn signup_error_message(e: SignupError) -> (r: String)
    ensures
        r@ == signup_error_text(e),
{
    match e {
        SignupError::EmptyUsername => "Username cannot be empty.".to_string(),
        SignupError::PasswordMismatch => "Passwords do not match.".to_string(),
        SignupError::PasswordTooShort => "Password must be at least 6 characters.".to_string(),
    }
}

/// The notice for a signup whose username is already taken: the name in
/// bold, and a link to the login page with the name filled in.  The name is
/// inserted as given.
pub open spec fn taken_name_text(name: Seq<char>) -> Seq<char> {
    "The username <strong>"@ + name + "</strong> already exists. <a href=\"/login?username="@
        + name + "\">Log in instead</a>."@
}

/// Word the notice for a taken username.
pub fn taken_name_notice(name: &str) -> (r: String)
    ensures
        r@ == taken_name_text(name@),
{
    let mut s = String::new();
    s.append("The username <strong>");
    s.append(name);
    s.append("</strong> already exists. <a href=\"/login?username=");
    s.append(name);
    s.append("\">Log in instead</a>.");
    s
}

/// The login page a taken username links to.
pub open spec fn login_link_text(name: Seq<char>) -> Seq<char> {
    "/login?username="@ + name
}

/// Link to the login page with the username filled in.
pub fn login_link(name: &str) -> (r: String)
    ensures
        r@ == login_link_text(name@),
{
    let mut s = String::new();
    s.append("/login?username=");
    s.append(name);
    s
}

/// Where a successful login leads: the page named in the form, else the
/// user list.
pub open spec fn spec_login_target(next: Option<Seq<char>>) -> Seq<char> {
    match next {
        Some(n) => n,
        None => "/users"@,
    }
}

/// The page to send the user to after logging in with `creds`.
pub fn login_target(creds: &Credentials) -> (r: String)
    ensures
        r@ == spec_login_target(
            match creds.next {
                Some(n) => Some(n@),
                None => None,
            },
        ),
{
    match &creds.next {
        Some(n) => n.clone(),
        None => "/users".to_string(),
    }
}

/// The username the login form is filled in with: the one in the query,
/// else nothing.
pub fn login_prefill(q: &LoginQuery) -> (r: String)
    ensures
        r@ == match q.username {
            Some(u) => u@,
            None => Seq::<char>::empty(),
        },
{
    match &q.username {
        Some(u) => u.clone(),
        None => String::new(),
    }
}

/// The one message a refused login gets, whether the username is unknown
/// or the password wrong, so that the page does not tell which.
pub open spec fn login_error_text() -> Seq<char> {
    "Invalid username or password."@
}

/// Answer a login: `user` is the account stored under the submitted
/// username, if any.  On success, the account and the page to go to; on
/// failure, the same message for an unknown user and a wrong password.
pub fn login(user: Option<User>, creds: &Credentials) -> (r: Result<(User, String), String>)
    ensures
        r is Ok <==> (user is Some && spec_password_matches(creds.password@, user.unwrap().password_hash@)),
        r matches Ok((u, next)) ==> Some(u) == user && next@ == spec_login_target(
            match creds.next {
                Some(n) => Some(n@),
                None => None,
            },
        ),
        r matches Err(e) ==> e@ == login_error_text(),
{
    match authenticate(user, creds.password.as_str()) {
        Some(u) => Ok((u, login_target(creds))),
        None => Err("Invalid username or password.".to_string()),
    }
}

/// An account made by signup accepts the password it was made with.
pub proof fn law_signup_then_login(form: SignupForm, account: NewAccount, user: User)
    requires
        spec_signup_check(form) is Ok,
        spec_password_matches(form.password@, account.password_hash@),
        user.password_hash@ == account.password_hash@,
    ensures
        spec_password_matches(form.password@, user.password_hash@),
{
}

} // verus!
