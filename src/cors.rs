use vstd::prelude::*;
use vstd::string::StringExecFns;

verus! {

/// Methods allowed to cross-origin callers.
pub const ALLOWED_METHODS: &'static str = "DELETE, GET, PATCH, POST, PUT, QUERY";

/// How long, in seconds, a browser may cache a preflight answer.
pub const MAX_AGE: &'static str = "86400";

/// Answers every preflight request; the headers come from `CorsHeaders`.
pub fn snatcher() {
}

/// Whether `origin` is one of `allowed_hosts`.
pub open spec fn origin_allowed(origin: Seq<char>, allowed_hosts: Seq<String>) -> bool {
    exists|i: int| 0 <= i < allowed_hosts.len() && (#[trigger] allowed_hosts[i])@ == origin
}

/// The headers that grant an allowed origin cross-origin access.
pub open spec fn cors_headers(origin: Seq<char>) -> Seq<(Seq<char>, Seq<char>)> {
    seq![
        ("Access-Control-Allow-Origin"@, origin),
        ("Access-Control-Allow-Methods"@, ALLOWED_METHODS@),
        ("Access-Control-Max-Age"@, MAX_AGE@),
        ("Access-Control-Allow-Credentials"@, "true"@),
    ]
}

/// Adds cross-origin headers to responses for configured origins.
pub struct CorsHeaders;

impl CorsHeaders {
    /// The headers to add to a response to a request from `origin`: none
    /// when the request names no origin or one that is not configured.
    pub fn headers_for(origin: Option<&str>, allowed_hosts: &Vec<String>) -> (r: Vec<(String, String)>)
        ensures
            ({
                let shown = Seq::new(r@.len(), |i: int| (r@[i].0@, r@[i].1@));
                &&& (origin is None ==> shown.len() == 0)
                &&& (origin matches Some(o) ==> if origin_allowed(o@, allowed_hosts@) {
                    shown == cors_headers(o@)
                } else {
                    shown.len() == 0
                })
            }),
    {
        let mut headers: Vec<(String, String)> = Vec::new();
        let o = match origin {
            Some(o) => o,
            None => {
                assert(Seq::new(headers@.len(), |i: int| (headers@[i].0@, headers@[i].1@)) =~= Seq::<(Seq<char>, Seq<char>)>::empty());
                return headers;
            },
        };
        let wanted = String::from_str(o);
        let mut found = false;
        let mut i: usize = 0;
        while i < allowed_hosts.len()
            invariant
                wanted@ == o@,
                i <= allowed_hosts@.len(),
                found == exists|k: int| 0 <= k < i && (#[trigger] allowed_hosts@[k])@ == o@,
            decreases allowed_hosts@.len() - i,
        {
            if allowed_hosts[i] == wanted {
                found = true;
            }
            i = i + 1;
        }
        if found {
            headers.push((String::from_str("Access-Control-Allow-Origin"), String::from_str(o)));
            headers.push((String::from_str("Access-Control-Allow-Methods"), String::from_str(ALLOWED_METHODS)));
            headers.push((String::from_str("Access-Control-Max-Age"), String::from_str(MAX_AGE)));
            headers.push((String::from_str("Access-Control-Allow-Credentials"), String::from_str("true")));
        }
        assert(Seq::new(headers@.len(), |i: int| (headers@[i].0@, headers@[i].1@)) =~= if found { cors_headers(o@) } else { Seq::empty() });
        headers
    }
}

} // verus!
