use vstd::prelude::*;

verus! {

/// The request carried no token, or one that names no user.
#[derive(Debug, Clone, Copy, PartialEq, Eq, Structural)]
pub struct AuthError;

/// `s` begins with `prefix`.
pub open spec fn starts_with_spec(s: Seq<char>, prefix: Seq<char>) -> bool {
    prefix.len() <= s.len() && s.subrange(0, prefix.len() as int) == prefix
}

/// What `str::replace` gives for `s`, `from` and `to`.
pub uninterp spec fn replaced_of(s: Seq<char>, from: Seq<char>, to: Seq<char>) -> Seq<char>;

/// Relies on str::starts_with: whether `s` begins with `prefix`.
#[verifier::external_body]
fn has_prefix(s: &str, prefix: &str) -> (r: bool)
    ensures
        r == starts_with_spec(s@, prefix@),
{
    s.starts_with(prefix)
}

/// Relies on str::replace: every match of `from` in `s`, taken left to
/// right, replaced by `to`; the result depends on the three strings alone.
#[verifier::external_body]
fn replace_all(s: &str, from: &str, to: &str) -> (r: String)
    ensures
        r@ == replaced_of(s@, from@, to@),
{
    s.replace(from, to)
}

/// The user named by an auth token of the form `user_<id>`: the token with
/// every `user_` taken out. Any other token, or none, is refused.
pub fn extract_user_id(auth_token: Option<String>) -> (r: Result<String, AuthError>)
    ensures
        r is Ok <==> (auth_token matches Some(t) && starts_with_spec(t@, "user_"@)),
        r matches Ok(u) ==> (auth_token matches Some(t) && u@ == replaced_of(t@, "user_"@, ""@)),
{
    match auth_token {
        Some(token) => {
            if has_prefix(token.as_str(), "user_") {
                Ok(replace_all(token.as_str(), "user_", ""))
            } else {
                Err(AuthError)
            }
        },
        None => Err(AuthError),
    }
}

} // verus!
