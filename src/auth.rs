//! Sign-in: resolving credentials against stored password hashes or the
//! directory service, and reading the bearer token of a request.
use crate::api::{Claims, LoginData};
use crate::models::{User, UserView};
use crate::store::{find_user_view, Store};
use vstd::prelude::*;
use vstd::string::*;

verus! {

/// Who a successful sign-in identifies.
#[derive(Debug, Clone, PartialEq, Eq)]
pub struct Identity {
    pub user_id: String,
    pub display_name: String,
    pub contact_info: String,
}

/// The outcome of checking credentials against the stored users.
#[derive(Debug, Clone, PartialEq, Eq)]
pub enum LoginDecision {
    /// The password matches the stored hash.
    Accepted(Identity),
    /// The credentials are refused.
    Rejected,
    /// No hash is stored for the user: the directory service decides.
    Directory,
}

/// A verified identity from the claims of a request's token.
#[derive(Debug, Clone, PartialEq, Eq)]
pub struct ClaimsFromAuth(pub Claims);

/// What `bcrypt` says of a password against a stored hash: whether it
/// matches, or nothing when the hash cannot be read.
pub uninterp spec fn bcrypt_verdict(password: Seq<char>, hash: Seq<char>) -> Option<bool>;

/// Relies on `bcrypt::verify`: the hash carries its own salt and cost, so the
/// verdict depends on the password and the hash alone.
#[verifier::external_body]
fn bcrypt_verify(password: &str, hash: &str) -> (r: Option<bool>)
    ensures
        r == bcrypt_verdict(password@, hash@),
{
    bcrypt::verify(password, hash).ok()
}

/// Whether `i` is the identity recorded for user `u`.
pub open spec fn identity_of(i: Identity, u: UserView) -> bool {
    i.user_id@ == u.id && i.display_name@ == u.display_name && i.contact_info@ == u.contact_info
}

/// The decision for a user with a stored hash, given the hash check's verdict.
pub fn accept_password(user: &User, verdict: Option<bool>) -> (r: LoginDecision)
    ensures
        verdict == Some(true) ==> (r matches LoginDecision::Accepted(i) && identity_of(i, user@)),
        verdict != Some(true) ==> r == LoginDecision::Rejected,
{
    match verdict {
        Some(true) => LoginDecision::Accepted(
            Identity {
                user_id: user.id.clone(),
                display_name: user.display_name.clone(),
                contact_info: user.contact_info.clone(),
            },
        ),
        _ => LoginDecision::Rejected,
    }
}

/// Checks credentials against the stored users. A user that is not stored,
/// or has no password hash, is left to the directory service.
pub fn login(store: &Store, login_data: &LoginData) -> (r: LoginDecision)
    requires
        store.wf(),
    ensures
        match find_user_view(store.user_list(), login_data.user_id@) {
            None => r == LoginDecision::Directory,
            Some(u) => match u.password_hash {
                None => r == LoginDecision::Directory,
                Some(h) => if bcrypt_verdict(login_data.password@, h) == Some(true) {
                    r matches LoginDecision::Accepted(i) && identity_of(i, u)
                } else {
                    r == LoginDecision::Rejected
                },
            },
        },
{
    let i = match store.find_user(&login_data.user_id) {
        Some(i) => i,
        None => return LoginDecision::Directory,
    };
    let user = &store.users[i];
    assert(store.user_list()[i as int] == user@);
    match &user.password_hash {
        Some(h) => {
            let verdict = bcrypt_verify(login_data.password.as_str(), h.as_str());
            accept_password(user, verdict)
        },
        None => LoginDecision::Directory,
    }
}

/// The distinguished name to bind as: `uid=<user>,<organization>`.
pub fn directory_bind_dn(user_id: &String, organization: &String) -> (r: String)
    ensures
        r@ == seq!['u', 'i', 'd', '='] + user_id@ + seq![','] + organization@,
{
    proof {
        reveal_strlit("uid=");
        reveal_strlit(",");
    }
    let mut r = "uid=".to_owned();
    r.append(user_id.as_str());
    r.append(",");
    r.append(organization.as_str());
    r
}

/// The identity that the directory vouches for: only after a successful
/// bind, and only when the entry has a common name and a contact address
/// (the first of each is taken).
pub fn directory_identity(user_id: &String, bound: bool, names: &Vec<String>, contacts: &Vec<String>) -> (r: Option<Identity>)
    ensures
        (bound && names.len() > 0 && contacts.len() > 0) ==> (r matches Some(i) && i.user_id@ == user_id@
            && i.display_name@ == names@[0]@ && i.contact_info@ == contacts@[0]@),
        !(bound && names.len() > 0 && contacts.len() > 0) ==> r is None,
{
    if bound && names.len() > 0 && contacts.len() > 0 {
        Some(Identity { user_id: user_id.clone(), display_name: names[0].clone(), contact_info: contacts[0].clone() })
    } else {
        None
    }
}

/// Whether a header value starts with `bearer` or `Bearer`.
pub open spec fn has_bearer_prefix(s: Seq<char>) -> bool {
    &&& s.len() >= 6
    &&& s[0] == 'b' || s[0] == 'B'
    &&& s.subrange(1, 6) == seq!['e', 'a', 'r', 'e', 'r']
}

/// Whether `c` has the Unicode White_Space property, the white space that
/// `str::trim` removes.
pub open spec fn is_white_space(c: char) -> bool {
    let u = c as int;
    ||| 0x09 <= u <= 0x0D
    ||| u == 0x20
    ||| u == 0x85
    ||| u == 0xA0
    ||| u == 0x1680
    ||| 0x2000 <= u <= 0x200A
    ||| u == 0x2028
    ||| u == 0x2029
    ||| u == 0x202F
    ||| u == 0x205F
    ||| u == 0x3000
}

/// Whether `[a, b)` is what is left of `s` without its leading and trailing white space.
pub open spec fn trim_bounds(s: Seq<char>, a: int, b: int) -> bool {
    &&& 0 <= a <= b <= s.len()
    &&& forall|i: int| 0 <= i < a ==> is_white_space(#[trigger] s[i])
    &&& forall|i: int| b <= i < s.len() ==> is_white_space(#[trigger] s[i])
    &&& a < b ==> !is_white_space(s[a]) && !is_white_space(s[b - 1])
}

/// Whether `t` is `s` without its leading and trailing white space.
pub open spec fn is_trim_of(t: Seq<char>, s: Seq<char>) -> bool {
    exists|a: int, b: int| trim_bounds(s, a, b) && t == s.subrange(a, b)
}

fn is_white_space_exec(c: char) -> (r: bool)
    ensures
        r == is_white_space(c),
{
    let u = c as u32;
    (0x09 <= u && u <= 0x0D) || u == 0x20 || u == 0x85 || u == 0xA0 || u == 0x1680 || (0x2000 <= u && u <= 0x200A)
        || u == 0x2028 || u == 0x2029 || u == 0x202F || u == 0x205F || u == 0x3000
}

/// `s` without its leading and trailing white space, as `str::trim` gives it.
fn trim_whitespace(s: &str) -> (r: String)
    ensures
        is_trim_of(r@, s@),
{
    let n = s.unicode_len();
    let mut a: usize = 0;
    while a < n && is_white_space_exec(s.get_char(a))
        invariant
            a <= n,
            n == s@.len(),
            forall|i: int| 0 <= i < a ==> is_white_space(#[trigger] s@[i]),
        decreases n - a,
    {
        a = a + 1;
    }
    let ghost first_kept = a < n ==> !is_white_space(s@[a as int]);
    assert(first_kept);
    let mut b: usize = n;
    while b > a && is_white_space_exec(s.get_char(b - 1))
        invariant
            a <= b <= n,
            n == s@.len(),
            forall|i: int| b <= i < n ==> is_white_space(#[trigger] s@[i]),
        decreases b - a,
    {
        b = b - 1;
    }
    let r = s.substring_char(a, b).to_owned();
    assert(trim_bounds(s@, a as int, b as int));
    r
}

/// The token of an `Authorization` header value: what follows a `bearer` or
/// `Bearer` prefix, trimmed; nothing without such a prefix.
pub fn bearer_token(header: &str) -> (r: Option<String>)
    ensures
        has_bearer_prefix(header@) ==> (r matches Some(t) && is_trim_of(t@, header@.subrange(6, header@.len() as int))),
        !has_bearer_prefix(header@) ==> r is None,
{
    let n = header.unicode_len();
    if n < 6 {
        return None;
    }
    let c0 = header.get_char(0);
    if !(c0 == 'b' || c0 == 'B') || header.get_char(1) != 'e' || header.get_char(2) != 'a' || header.get_char(3) != 'r'
        || header.get_char(4) != 'e' || header.get_char(5) != 'r' {
        proof {
            if has_bearer_prefix(header@) {
                assert(header@.subrange(1, 6)[0] == header@[1]);
                assert(header@.subrange(1, 6)[1] == header@[2]);
                assert(header@.subrange(1, 6)[2] == header@[3]);
                assert(header@.subrange(1, 6)[3] == header@[4]);
                assert(header@.subrange(1, 6)[4] == header@[5]);
            }
        }
        return None;
    }
    assert(header@.subrange(1, 6) =~= seq!['e', 'a', 'r', 'e', 'r']);
    let rest = header.substring_char(6, n);
    Some(trim_whitespace(rest))
}

} // verus!
