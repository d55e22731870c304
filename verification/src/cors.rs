//! Cross-origin policy.
use crate::headers;
use crate::text;
use vstd::prelude::*;
use vstd::string::*;

verus! {

/// The request methods that a cross-origin request may use.
#[derive(Clone, Copy, Debug, PartialEq, Eq, Structural)]
pub enum AllowedMethod {
    Get,
    Post,
    Options,
}

/// The origins that may send cross-origin requests.
pub enum AllowedOrigin {
    /// Any origin.
    Any,
    /// This origin alone.
    Exact(String),
}

/// What cross-origin requests are allowed.
pub struct CorsPolicy {
    pub origin: AllowedOrigin,
    pub methods: Vec<AllowedMethod>,
    pub headers: Vec<&'static str>,
}

/// The configured origin names one origin: it is not the wildcard, and it can
/// be sent in a header.
pub open spec fn names_one_origin(origin: Seq<char>) -> bool {
    origin != "*"@ && headers::is_value_text(origin)
}

/// The policy for a configured origin: that origin, or any origin where it is
/// the wildcard or cannot be sent in a header.
pub fn build_cors(origin: &str) -> (policy: CorsPolicy)
    ensures
        policy.origin is Exact <==> names_one_origin(origin@),
        policy.origin matches AllowedOrigin::Exact(o) ==> o@ == origin@,
        policy.methods@ == seq![AllowedMethod::Get, AllowedMethod::Post, AllowedMethod::Options],
        policy.headers@ == seq!["content-type"],
{
    let allowed = if text::same_text(origin, "*") {
        AllowedOrigin::Any
    } else if headers::is_header_value(origin) {
        AllowedOrigin::Exact(origin.to_owned())
    } else {
        AllowedOrigin::Any
    };
    let methods = vec![AllowedMethod::Get, AllowedMethod::Post, AllowedMethod::Options];
    let allowed_headers = vec!["content-type"];
    assert(methods@ =~= seq![AllowedMethod::Get, AllowedMethod::Post, AllowedMethod::Options]);
    assert(allowed_headers@ =~= seq!["content-type"]);
    CorsPolicy { origin: allowed, methods, headers: allowed_headers }
}

/// A configured origin is the only one allowed, exactly as it is written,
/// unless it is the wildcard or holds a control character other than a tab;
/// then any origin is. The methods and headers are always the same.
pub proof fn lemma_build_cors_result(origin: &str, policy: CorsPolicy)
    requires
        call_ensures(build_cors, (origin,), policy),
    ensures
        policy.origin is Any <==> origin@ == "*"@ || (exists|i: int|
            0 <= i < origin@.len() && (#[trigger] origin@[i] == '\u{7f}' || origin@[i] < ' '
                && origin@[i] != '\t')),
        policy.origin matches AllowedOrigin::Exact(allowed) ==> allowed@ == origin@,
        policy.methods@.len() == 3,
        policy.methods@.contains(AllowedMethod::Get),
        policy.methods@.contains(AllowedMethod::Post),
        policy.methods@.contains(AllowedMethod::Options),
        policy.headers@.len() == 1,
        policy.headers@[0]@ == "content-type"@,
{
    assert(policy.methods@[0] == AllowedMethod::Get);
    assert(policy.methods@[1] == AllowedMethod::Post);
    assert(policy.methods@[2] == AllowedMethod::Options);
    if !headers::is_value_text(origin@) {
        let i = choose|i: int|
            0 <= i < origin@.len() && !headers::is_value_char(#[trigger] origin@[i]);
        assert(origin@[i] == '\u{7f}' || origin@[i] < ' ' && origin@[i] != '\t');
    }
}

} // verus!
