//! The two request gates.
//!
//! Tenant content routes pass through the access-control check: resolve
//! the tenant named in the path, compare the `x-api-key` header with
//! the tenant's stored key, and ask whether any role of the tenant
//! grants the permission matching the HTTP verb. Admin routes pass
//! through the session check: an opaque cookie token must name a live
//! session. Both are pure decisions over the outcomes of the store
//! lookups, and both fail closed: a failed lookup never grants access.

use vstd::prelude::*;

verus! {

use vstd::string::StringExecFns;

/// The five verb-aligned capabilities a role can grant.
#[derive(Clone, Copy, Debug, PartialEq, Eq, Structural)]
pub enum Permission {
    Post,
    Get,
    Put,
    Patch,
    Delete,
}

impl Permission {
    /// The name each permission is stored and sent under.
    pub open spec fn name_spec(self) -> Seq<char> {
        match self {
            Permission::Post => "Post"@,
            Permission::Get => "Get"@,
            Permission::Put => "Put"@,
            Permission::Patch => "Patch"@,
            Permission::Delete => "Delete"@,
        }
    }

    /// The storage name of this permission.
    pub fn as_str(&self) -> (r: &'static str)
        ensures
            r@ == self.name_spec(),
    {
        proof {
            reveal_strlit("Post");
            reveal_strlit("Get");
            reveal_strlit("Put");
            reveal_strlit("Patch");
            reveal_strlit("Delete");
        }
        match self {
            Permission::Post => "Post",
            Permission::Get => "Get",
            Permission::Put => "Put",
            Permission::Patch => "Patch",
            Permission::Delete => "Delete",
        }
    }
}

/// The permission an HTTP method calls for: POST creates, GET reads,
/// PUT updates, PATCH replaces, DELETE deletes. Any other method maps
/// to no permission at all.
pub open spec fn verb_permission(m: Seq<char>) -> Option<Permission> {
    if m == "POST"@ {
        Some(Permission::Post)
    } else if m == "GET"@ {
        Some(Permission::Get)
    } else if m == "PUT"@ {
        Some(Permission::Put)
    } else if m == "PATCH"@ {
        Some(Permission::Patch)
    } else if m == "DELETE"@ {
        Some(Permission::Delete)
    } else {
        None
    }
}

impl Permission {
    /// The permission an HTTP method calls for, if any.
    pub fn from_method(m: &String) -> (r: Option<Permission>)
        ensures
            r == verb_permission(m@),
    {
        proof {
            reveal_strlit("POST");
            reveal_strlit("GET");
            reveal_strlit("PUT");
            reveal_strlit("PATCH");
            reveal_strlit("DELETE");
        }
        if *m == String::from_str("POST") {
            Some(Permission::Post)
        } else if *m == String::from_str("GET") {
            Some(Permission::Get)
        } else if *m == String::from_str("PUT") {
            Some(Permission::Put)
        } else if *m == String::from_str("PATCH") {
            Some(Permission::Patch)
        } else if *m == String::from_str("DELETE") {
            Some(Permission::Delete)
        } else {
            None
        }
    }
}

/// What a store lookup came back with: a value, a definite miss, or a
/// failure of the lookup itself.
pub enum Lookup<T> {
    Found(T),
    Absent,
    Error,
}

/// The view of a lookup for an owned string.
pub open spec fn lookup_key_view(l: Lookup<String>) -> Lookup<Seq<char>> {
    match l {
        Lookup::Found(s) => Lookup::Found(s@),
        Lookup::Absent => Lookup::Absent,
        Lookup::Error => Lookup::Error,
    }
}

/// The view of an optional borrowed header value.
pub open spec fn header_view(h: Option<&String>) -> Option<Seq<char>> {
    match h {
        Some(s) => Some(s@),
        None => None,
    }
}

/// Where the access-control check ends for one request.
pub enum AccessDecision {
    /// The API key header is absent or blank.
    Unauthenticated,
    /// The tenant named in the path could not be resolved.
    BadRequest,
    /// The key does not match, the verb maps to no permission, no role
    /// of the tenant grants it, or the permission lookup failed.
    Forbidden,
    /// Authenticated and authorized: hand the request to the handler.
    Forward,
}

impl AccessDecision {
    /// The HTTP status each terminal state surfaces as; a forwarded
    /// request reports the handler's own success family.
    pub open spec fn status_spec(self) -> int {
        match self {
            AccessDecision::Unauthenticated => 403,
            AccessDecision::BadRequest => 400,
            AccessDecision::Forbidden => 403,
            AccessDecision::Forward => 200,
        }
    }

    /// The HTTP status of this decision.
    pub fn status_code(&self) -> (r: u16)
        ensures
            r as int == self.status_spec(),
    {
        match self {
            AccessDecision::Unauthenticated => 403,
            AccessDecision::BadRequest => 400,
            AccessDecision::Forbidden => 403,
            AccessDecision::Forward => 200,
        }
    }
}

/// The access-control state machine, over the request's header and
/// verb and the outcomes of the two store lookups: absent or blank key
/// — Unauthenticated; tenant unresolved — BadRequest; key mismatch —
/// Forbidden; then Forward exactly when the verb's permission is
/// granted, and Forbidden otherwise, a failed permission lookup
/// included.
pub open spec fn access_decision_spec(
    header: Option<Seq<char>>,
    stored_key: Lookup<Seq<char>>,
    method: Seq<char>,
    granted: Lookup<bool>,
) -> AccessDecision {
    match header {
        None => AccessDecision::Unauthenticated,
        Some(h) => if h.len() == 0 {
            AccessDecision::Unauthenticated
        } else {
            match stored_key {
                Lookup::Found(k) => if h != k {
                    AccessDecision::Forbidden
                } else {
                    match verb_permission(method) {
                        Some(_) => match granted {
                            Lookup::Found(g) => if g {
                                AccessDecision::Forward
                            } else {
                                AccessDecision::Forbidden
                            },
                            _ => AccessDecision::Forbidden,
                        },
                        None => AccessDecision::Forbidden,
                    }
                },
                _ => AccessDecision::BadRequest,
            }
        },
    }
}

/// Decide one tenant-route request from the lookup outcomes.
pub fn decide_access(
    header: Option<&String>,
    stored_key: &Lookup<String>,
    method: &String,
    granted: &Lookup<bool>,
) -> (d: AccessDecision)
    ensures
        d == access_decision_spec(header_view(header), lookup_key_view(*stored_key), method@, *granted),
{
    match header {
        None => AccessDecision::Unauthenticated,
        Some(h) => {
            if h.as_str().is_empty() {
                AccessDecision::Unauthenticated
            } else {
                match stored_key {
                    Lookup::Found(k) => {
                        if *h != *k {
                            AccessDecision::Forbidden
                        } else {
                            match Permission::from_method(method) {
                                Some(_) => match granted {
                                    Lookup::Found(g) => {
                                        if *g {
                                            AccessDecision::Forward
                                        } else {
                                            AccessDecision::Forbidden
                                        }
                                    },
                                    _ => AccessDecision::Forbidden,
                                },
                                None => AccessDecision::Forbidden,
                            }
                        }
                    },
                    Lookup::Absent => AccessDecision::BadRequest,
                    Lookup::Error => AccessDecision::BadRequest,
                }
            }
        },
    }
}

/// A missing, blank, or mismatched API key is refused with 403,
/// regardless of the HTTP verb and of whatever the permission lookup
/// would have said.
pub proof fn lemma_bad_key_forbidden(
    header: Option<Seq<char>>,
    k: Seq<char>,
    method: Seq<char>,
    granted: Lookup<bool>,
)
    requires
        header is None || header->0.len() == 0 || header->0 != k,
    ensures
        access_decision_spec(header, Lookup::Found(k), method, granted).status_spec() == 403,
        access_decision_spec(header, Lookup::Found(k), method, granted) !is Forward,
{
}

/// With the correct key, the request is forwarded exactly when the verb
/// maps to a permission, the permission lookup succeeded, and it
/// granted; in every other case the decision surfaces as 403 — a failed
/// lookup never grants access.
pub proof fn lemma_permission_gate(h: Seq<char>, method: Seq<char>, granted: Lookup<bool>)
    requires
        h.len() > 0,
    ensures
        access_decision_spec(Some(h), Lookup::Found(h), method, granted)
            == AccessDecision::Forward <==> (verb_permission(method) is Some && granted
            == Lookup::Found(true)),
        access_decision_spec(Some(h), Lookup::Found(h), method, granted) !is Forward
            ==> access_decision_spec(Some(h), Lookup::Found(h), method, granted).status_spec()
            == 403,
{
}

/// Where the session check ends for one admin request.
pub enum SessionDecision {
    /// No cookie, no live session for its token, or the lookup failed.
    Forbidden,
    /// The session's user: authenticated identity flows to the handler
    /// as an explicit value.
    Forward(u64),
}

/// The session state machine: a request without a cookie is Forbidden;
/// with one, its token must name a live session, a failed lookup
/// included with the misses.
pub open spec fn session_decision_spec(
    cookie: Option<Seq<char>>,
    session: Lookup<u64>,
) -> SessionDecision {
    match cookie {
        None => SessionDecision::Forbidden,
        Some(_) => match session {
            Lookup::Found(u) => SessionDecision::Forward(u),
            _ => SessionDecision::Forbidden,
        },
    }
}

/// Decide one admin-route request from the session lookup's outcome.
pub fn decide_session(cookie: Option<&String>, session: &Lookup<u64>) -> (d: SessionDecision)
    ensures
        d == session_decision_spec(header_view(cookie), *session),
{
    match cookie {
        None => SessionDecision::Forbidden,
        Some(_) => match session {
            Lookup::Found(u) => SessionDecision::Forward(*u),
            Lookup::Absent => SessionDecision::Forbidden,
            Lookup::Error => SessionDecision::Forbidden,
        },
    }
}

} // verus!
