//! Authentication and role-based access for the HTTP API.
use crate::api::error::{http_code, http_display, HttpError};
use crate::text::{
    byte_len, byte_len_exceeds, chars_of, copy_str, eq_ignore_case, find_char,
    index_of, lemma_byte_len_prefix, lemma_byte_len_push, push_str,
    str_eq, str_eq_ignore_case, string_from_range, strings_view, trim, trim_bounds,
    char_byte_width, whitespace_tokens, ws_tokens,
};
use vstd::prelude::*;

verus! {

/// Maximum byte length of an `X-Request-Id` value recorded in audit logs.
pub const MAX_REQUEST_ID_BYTES: usize = 128;

/// Maximum byte length of an `X-Correlation-Id` value recorded in audit logs.
pub const MAX_CORRELATION_ID_BYTES: usize = 128;

/// Maximum byte length of a JWT `sub` claim stored as the principal id.
pub const MAX_JWT_SUB_BYTES: usize = 256;

/// Maximum number of scopes/roles extracted from a JWT claim.
pub const MAX_JWT_SCOPES: usize = 64;

/// Maximum byte length of an individual JWT scope/role string.
pub const MAX_JWT_SCOPE_BYTES: usize = 64;

/// Maximum byte length of a bearer token handed to JWT validation.
pub const MAX_JWT_TOKEN_BYTES: usize = 8_192;

/// Maximum byte length of an `Authorization` header value.
pub const MAX_AUTHORIZATION_BYTES: usize = 16_384;

/// Maximum byte length of an `X-Api-Key` header value.
pub const MAX_API_KEY_BYTES: usize = 4_096;

/// Kind of an authenticated actor.
#[derive(Clone, Copy, Debug, PartialEq, Eq, Structural)]
pub enum PrincipalKind {
    /// A person.
    User,
    /// A service.
    Service,
}

/// An authenticated actor.
#[derive(Clone, Debug)]
pub struct Principal {
    /// Identifier.
    pub id: String,
    /// Kind.
    pub kind: PrincipalKind,
    /// Granted scopes.
    pub scopes: Vec<String>,
}

/// Authenticated actor and optional tenant claim.
#[derive(Clone, Debug)]
pub struct AuthContext {
    /// Authenticated principal.
    pub principal: Principal,
    /// Tenant identifier (UUID value) if asserted by the token.
    pub tenant_id: Option<u128>,
}

/// The scopes grant `scope`: they hold it, or `system_admin`.
pub open spec fn grants(scopes: Seq<Seq<char>>, scope: Seq<char>) -> bool {
    exists|i: int| 0 <= i < scopes.len() && (scopes[i] == "system_admin"@ || scopes[i] == scope)
}

impl AuthContext {
    /// Checks that the principal holds the scope, or `system_admin`.
    pub fn require_scope(&self, scope: &str) -> (r: Result<(), HttpError>)
        ensures
            r is Ok <==> grants(strings_view(self.principal.scopes@), scope@),
            r matches Err(e) ==> (e matches HttpError::PermissionDenied(m) && m@ == "missing "@
                + scope@ + " scope"@),
    {
        let v = &self.principal.scopes;
        let ghost sv = strings_view(v@);
        let mut i: usize = 0;
        while i < v.len()
            invariant
                i <= v@.len(),
                sv == strings_view(v@),
                v@ == self.principal.scopes@,
                forall|j: int| 0 <= j < i ==> !(sv[j] == "system_admin"@ || sv[j] == scope@),
            decreases v.len() - i,
        {
            if str_eq(v[i].as_str(), "system_admin") || str_eq(v[i].as_str(), scope) {
                assert(sv[i as int] == v@[i as int]@);
                assert(sv.len() == v@.len());
                assert(sv[i as int] == "system_admin"@ || sv[i as int] == scope@);
                assert(grants(sv, scope@));
                assert(grants(strings_view(self.principal.scopes@), scope@));
                return Ok(());
            }
            assert(sv[i as int] == v@[i as int]@);
            i = i + 1;
        }
        let mut m = copy_str("missing ");
        push_str(&mut m, scope);
        push_str(&mut m, " scope");
        Err(HttpError::PermissionDenied(m))
    }
}

/// The scheme and the token of an `Authorization` value: the text before the
/// first space, and the trimmed text after it (empty when there is none).
pub open spec fn auth_parts(h: Seq<char>) -> (Seq<char>, Seq<char>) {
    let i = index_of(h, ' ');
    if i >= h.len() {
        (h, Seq::empty())
    } else {
        (h.take(i), trim(h.skip(i + 1)))
    }
}

/// Splits an `Authorization` header value into scheme and token.
pub fn split_auth_header(header: &str) -> (r: (String, String))
    ensures
        (r.0@, r.1@) == auth_parts(header@),
{
    let v = chars_of(header);
    let i = find_char(&v, 0, v.len(), ' ');
    assert(v@.subrange(0, v@.len() as int) =~= v@);
    if i == v.len() {
        return (copy_str(header), String::new());
    }
    let scheme = string_from_range(&v, 0, i);
    assert(v@.subrange(0, i as int) =~= v@.take(i as int));
    let (a, b) = trim_bounds(&v, i + 1, v.len());
    assert(v@.subrange(i + 1, v@.len() as int) =~= v@.skip(i + 1));
    let token = string_from_range(&v, a, b);
    (scheme, token)
}

/// The longest prefix of `s` (whole characters) that fits in `max` bytes.
pub open spec fn clamp_len(s: Seq<char>, max: nat) -> int {
    choose|k: int|
        0 <= k <= s.len() && #[trigger] byte_len(s.take(k)) <= max && (k == s.len() || byte_len(
            s.take(k + 1),
        ) > max)
}

/// Truncates `s` at a character boundary so that it is at most `max` bytes.
pub fn clamp_id_string(s: &str, max: usize) -> (r: String)
    ensures
        r@ == s@.take(clamp_len(s@, max as nat)),
        byte_len(r@) <= max,
{
    let v = chars_of(s);
    let mut k: usize = 0;
    let mut n: usize = 0;
    while k < v.len() && char_byte_width(v[k]) <= max - n
        invariant
            k <= v@.len(),
            v@ == s@,
            n == byte_len(v@.take(k as int)),
            n <= max,
        decreases v.len() - k,
    {
        proof {
            assert(v@.take(k + 1) =~= v@.take(k as int).push(v@[k as int]));
            lemma_byte_len_push(v@.take(k as int), v@[k as int]);
        }
        n = n + char_byte_width(v[k]);
        k = k + 1;
    }
    proof {
        if k < v.len() {
            assert(v@.take(k + 1) =~= v@.take(k as int).push(v@[k as int]));
            lemma_byte_len_push(v@.take(k as int), v@[k as int]);
        }
        let c = clamp_len(s@, max as nat);
        assert(0 <= k <= s@.len() && byte_len(s@.take(k as int)) <= max && (k == s@.len()
            || byte_len(s@.take(k + 1)) > max));
        if c != k {
            if c < k {
                lemma_byte_len_prefix(v@.take(k as int), c + 1);
                assert(v@.take(k as int).take(c + 1) =~= v@.take(c + 1));
            } else {
                lemma_byte_len_prefix(v@.take(c), k + 1);
                assert(v@.take(c).take(k + 1) =~= v@.take(k + 1));
            }
        }
    }
    assert(v@.subrange(0, k as int) =~= v@.take(k as int));
    string_from_range(&v, 0, k)
}

/// Calls `subtle::ConstantTimeEq::ct_eq` on two byte slices and unwraps the
/// choice: 1 exactly when the slices are equal (lengths are compared first,
/// then every byte, in constant time).
#[verifier::external_body]
fn ct_eq_bytes(a: &[u8], b: &[u8]) -> (eq: bool)
    ensures
        eq == (a@ == b@),
{
    subtle::ConstantTimeEq::ct_eq(a, b).unwrap_u8() == 1
}

/// The principal of the static API key: a service with every role.
pub open spec fn static_key_principal(p: Principal) -> bool {
    &&& p.id@ == "static-api-key"@
    &&& p.kind == PrincipalKind::Service
    &&& strings_view(p.scopes@) == seq!["viewer"@, "operator"@, "tenant_admin"@, "system_admin"@]
}

/// Authenticates a static API key, comparing it in constant time with the
/// configured one.
pub fn authenticate_static_key(expected: &str, provided: &str) -> (r: Result<AuthContext, HttpError>)
    ensures
        expected@.len() == 0 ==> (r matches Err(HttpError::Unauthenticated(m)) && m@
            == "static API key not configured"@),
        expected@.len() > 0 && provided@ != expected@ ==> (r matches Err(HttpError::Unauthenticated(m))
            && m@ == "invalid API key"@),
        expected@.len() > 0 && provided@ == expected@ ==> (r matches Ok(c) && static_key_principal(
            c.principal,
        ) && c.tenant_id is None),
{
    if expected.is_empty() {
        return Err(HttpError::Unauthenticated(copy_str("static API key not configured")));
    }
    if !ct_eq_bytes(provided.as_bytes(), expected.as_bytes()) {
        proof {
            if provided@ == expected@ {
                assert(vstd::utf8::encode_utf8(provided@) == vstd::utf8::encode_utf8(expected@));
            }
        }
        return Err(HttpError::Unauthenticated(copy_str("invalid API key")));
    }
    proof {
        vstd::utf8::encode_utf8_decode_utf8(provided@);
        vstd::utf8::encode_utf8_decode_utf8(expected@);
    }
    let mut scopes: Vec<String> = Vec::new();
    scopes.push(copy_str("viewer"));
    scopes.push(copy_str("operator"));
    scopes.push(copy_str("tenant_admin"));
    scopes.push(copy_str("system_admin"));
    assert(strings_view(scopes@) =~= seq!["viewer"@, "operator"@, "tenant_admin"@, "system_admin"@]);
    Ok(
        AuthContext {
            principal: Principal {
                id: copy_str("static-api-key"),
                kind: PrincipalKind::Service,
                scopes,
            },
            tenant_id: None,
        },
    )
}

/// Claims read from a validated JWT.
#[derive(Clone, Debug, Default)]
pub struct JwtClaims {
    /// Subject.
    pub sub: String,
    /// Tenant the token is bound to, if any.
    pub tenant_id: Option<String>,
    /// Space-separated scopes.
    pub scope: String,
    /// Scopes as a list.
    pub scopes: Vec<String>,
    /// Roles.
    pub roles: Vec<String>,
}

/// Some entry is longer than a scope may be.
pub open spec fn has_long_entry(v: Seq<Seq<char>>) -> bool {
    exists|i: int| 0 <= i < v.len() && byte_len(#[trigger] v[i]) > MAX_JWT_SCOPE_BYTES
}

/// Why the claims do not yield a principal, if they do not: the first
/// failing check, in order.
pub open spec fn claims_error(c: JwtClaims) -> Option<Seq<char>> {
    let words = ws_tokens(c.scope@);
    let scopes = strings_view(c.scopes@);
    let roles = strings_view(c.roles@);
    if c.sub@.len() == 0 {
        Some("JWT sub claim must not be empty"@)
    } else if byte_len(c.sub@) > MAX_JWT_SUB_BYTES {
        Some("JWT sub claim exceeds maximum length"@)
    } else if words.len() > MAX_JWT_SCOPES {
        Some("JWT scope claim contains too many entries"@)
    } else if has_long_entry(words) {
        Some("JWT scope entry exceeds maximum length"@)
    } else if scopes.len() > MAX_JWT_SCOPES {
        Some("JWT scopes claim contains too many entries"@)
    } else if has_long_entry(scopes) {
        Some("JWT scopes entry exceeds maximum length"@)
    } else if roles.len() > MAX_JWT_SCOPES {
        Some("JWT roles claim contains too many entries"@)
    } else if has_long_entry(roles) {
        Some("JWT roles entry exceeds maximum length"@)
    } else {
        None
    }
}

fn append_checked(out: &mut Vec<String>, v: &Vec<String>) -> (ok: bool)
    ensures
        ok == !has_long_entry(strings_view(v@)),
        ok ==> strings_view(final(out)@) == strings_view(old(out)@) + strings_view(v@),
{
    let ghost o0 = strings_view(out@);
    let mut i: usize = 0;
    while i < v.len()
        invariant
            i <= v@.len(),
            strings_view(out@) == o0 + strings_view(v@).take(i as int),
            forall|k: int| 0 <= k < i ==> byte_len(#[trigger] strings_view(v@)[k]) <= MAX_JWT_SCOPE_BYTES,
        decreases v.len() - i,
    {
        assert(strings_view(v@)[i as int] == v@[i as int]@);
        if byte_len_exceeds(v[i].as_str(), MAX_JWT_SCOPE_BYTES) {
            return false;
        }
        let ghost b = out@;
        out.push(copy_str(v[i].as_str()));
        assert(strings_view(out@) =~= strings_view(b).push(v@[i as int]@));
        assert(strings_view(v@).take(i + 1) =~= strings_view(v@).take(i as int).push(v@[i as int]@));
        i = i + 1;
    }
    assert(strings_view(v@).take(i as int) =~= strings_view(v@));
    true
}

fn unauthenticated(message: &str) -> (e: HttpError)
    ensures
        e matches HttpError::Unauthenticated(m) && m@ == message@,
{
    HttpError::Unauthenticated(copy_str(message))
}

/// Builds the principal of validated JWT claims: a user named by `sub`
/// holding the words of `scope`, then `scopes`, then `roles`.
pub fn principal_from_jwt_claims(claims: JwtClaims) -> (r: Result<Principal, HttpError>)
    ensures
        match claims_error(claims) {
            Some(m) => r matches Err(HttpError::Unauthenticated(x)) && x@ == m,
            None => r matches Ok(p) && p.id@ == claims.sub@ && p.kind == PrincipalKind::User
                && strings_view(p.scopes@) == ws_tokens(claims.scope@) + strings_view(
                claims.scopes@,
            ) + strings_view(claims.roles@),
        },
{
    if claims.sub.as_str().is_empty() {
        return Err(unauthenticated("JWT sub claim must not be empty"));
    }
    if byte_len_exceeds(claims.sub.as_str(), MAX_JWT_SUB_BYTES) {
        return Err(unauthenticated("JWT sub claim exceeds maximum length"));
    }
    let words = whitespace_tokens(claims.scope.as_str());
    let mut scopes: Vec<String> = Vec::new();
    assert(strings_view(words@).len() == words@.len());
    if words.len() > MAX_JWT_SCOPES {
        return Err(unauthenticated("JWT scope claim contains too many entries"));
    }
    if !append_checked(&mut scopes, &words) {
        return Err(unauthenticated("JWT scope entry exceeds maximum length"));
    }
    assert(strings_view(claims.scopes@).len() == claims.scopes@.len());
    if claims.scopes.len() > MAX_JWT_SCOPES {
        return Err(unauthenticated("JWT scopes claim contains too many entries"));
    }
    if !append_checked(&mut scopes, &claims.scopes) {
        return Err(unauthenticated("JWT scopes entry exceeds maximum length"));
    }
    assert(strings_view(claims.roles@).len() == claims.roles@.len());
    if claims.roles.len() > MAX_JWT_SCOPES {
        return Err(unauthenticated("JWT roles claim contains too many entries"));
    }
    if !append_checked(&mut scopes, &claims.roles) {
        return Err(unauthenticated("JWT roles entry exceeds maximum length"));
    }
    assert(strings_view(scopes@) =~= ws_tokens(claims.scope@) + strings_view(claims.scopes@)
        + strings_view(claims.roles@));
    Ok(Principal { id: claims.sub, kind: PrincipalKind::User, scopes })
}

/// Checks made on a bearer token before it is validated: JWT validation
/// must be configured (a public key given) and the token at most
/// [`MAX_JWT_TOKEN_BYTES`] long.
pub fn check_bearer_token(public_key_pem: &str, token: &str) -> (r: Result<(), HttpError>)
    ensures
        public_key_pem@.len() == 0 ==> (r matches Err(HttpError::Unauthenticated(m)) && m@
            == "JWT authentication not configured"@),
        public_key_pem@.len() > 0 && byte_len(token@) > MAX_JWT_TOKEN_BYTES ==> (r matches Err(
            HttpError::Unauthenticated(m),
        ) && m@ == "JWT token exceeds maximum length"@),
        public_key_pem@.len() > 0 && byte_len(token@) <= MAX_JWT_TOKEN_BYTES ==> r is Ok,
{
    if public_key_pem.is_empty() {
        return Err(unauthenticated("JWT authentication not configured"));
    }
    if byte_len_exceeds(token, MAX_JWT_TOKEN_BYTES) {
        return Err(unauthenticated("JWT token exceeds maximum length"));
    }
    Ok(())
}

/// The next step of authenticating a request.
#[derive(Debug)]
pub enum AuthStep {
    /// Validate this bearer token as a JWT.
    Bearer(String),
    /// Authentication is settled.
    Done(Result<AuthContext, HttpError>),
}

/// Decides how a request authenticates from its `Authorization` and
/// `X-Api-Key` headers: a `Bearer` authorization is validated as a JWT;
/// other authorization schemes are ignored in favour of the API key.
pub fn plan_authentication(
    authorization: Option<Option<&str>>,
    api_key: Option<Option<&str>>,
    static_api_key: &str,
) -> (step: AuthStep)
    ensures
        match authorization {
            Some(None) => step matches AuthStep::Done(Err(HttpError::Unauthenticated(m))) && m@
                == "authorization header is not valid UTF-8"@,
            Some(Some(h)) if byte_len(h@) > MAX_AUTHORIZATION_BYTES => step matches AuthStep::Done(
                Err(HttpError::Unauthenticated(m)),
            ) && m@ == "authorization header exceeds maximum length"@,
            Some(Some(h)) if eq_ignore_case(auth_parts(h@).0, "bearer"@) => step matches AuthStep::Bearer(t)
                && t@ == auth_parts(h@).1,
            _ => match api_key {
                None => step matches AuthStep::Done(Err(HttpError::Unauthenticated(m))) && m@
                    == "missing Authorization or X-Api-Key header"@,
                Some(None) => step matches AuthStep::Done(Err(HttpError::Unauthenticated(m))) && m@
                    == "x-api-key header is not valid UTF-8"@,
                Some(Some(k)) => if byte_len(k@) > MAX_API_KEY_BYTES {
                    step matches AuthStep::Done(Err(HttpError::Unauthenticated(m))) && m@
                        == "x-api-key header exceeds maximum length"@
                } else if static_api_key@.len() == 0 {
                    step matches AuthStep::Done(Err(HttpError::Unauthenticated(m))) && m@
                        == "static API key not configured"@
                } else if k@ != static_api_key@ {
                    step matches AuthStep::Done(Err(HttpError::Unauthenticated(m))) && m@
                        == "invalid API key"@
                } else {
                    step matches AuthStep::Done(Ok(c)) && static_key_principal(c.principal)
                        && c.tenant_id is None
                },
            },
        },
{
    match authorization {
        Some(None) => {
            return AuthStep::Done(Err(unauthenticated("authorization header is not valid UTF-8")));
        },
        Some(Some(h)) => {
            if byte_len_exceeds(h, MAX_AUTHORIZATION_BYTES) {
                return AuthStep::Done(
                    Err(unauthenticated("authorization header exceeds maximum length")),
                );
            }
            let (scheme, token) = split_auth_header(h);
            if str_eq_ignore_case(scheme.as_str(), "bearer") {
                return AuthStep::Bearer(token);
            }
        },
        None => {},
    }
    match api_key {
        None => AuthStep::Done(Err(unauthenticated("missing Authorization or X-Api-Key header"))),
        Some(None) => AuthStep::Done(Err(unauthenticated("x-api-key header is not valid UTF-8"))),
        Some(Some(k)) => {
            if byte_len_exceeds(k, MAX_API_KEY_BYTES) {
                AuthStep::Done(Err(unauthenticated("x-api-key header exceeds maximum length")))
            } else {
                AuthStep::Done(authenticate_static_key(static_api_key, k))
            }
        },
    }
}

/// What an authentication attempt records in the audit log.
#[derive(Clone, Debug)]
pub struct AuthAudit {
    /// The principal, or `anonymous`.
    pub actor: String,
    /// Tenant asserted by the credentials.
    pub tenant_id: Option<u128>,
    /// Error code of a failure.
    pub failure_reason: Option<String>,
    /// Rendering of a failure.
    pub details: Option<String>,
}

/// Summarises an authentication result for the audit log.
pub fn auth_audit(result: &Result<AuthContext, HttpError>) -> (a: AuthAudit)
    ensures
        match result {
            Ok(c) => a.actor@ == c.principal.id@ && a.tenant_id == c.tenant_id && a.failure_reason is None
                && a.details is None,
            Err(e) => a.actor@ == "anonymous"@ && a.tenant_id is None && (a.failure_reason matches Some(
                r,
            ) && r@ == http_code(*e)) && (a.details matches Some(d) && d@ == http_display(*e)),
        },
{
    match result {
        Ok(c) => AuthAudit {
            actor: copy_str(c.principal.id.as_str()),
            tenant_id: c.tenant_id,
            failure_reason: None,
            details: None,
        },
        Err(e) => AuthAudit {
            actor: copy_str("anonymous"),
            tenant_id: None,
            failure_reason: Some(copy_str(e.code())),
            details: Some(e.message()),
        },
    }
}

/// A principal holding `system_admin` is granted every scope.
pub proof fn law_system_admin_grants_every_scope(scopes: Seq<Seq<char>>, scope: Seq<char>)
    requires
        scopes.contains("system_admin"@),
    ensures
        grants(scopes, scope),
{
    let i = choose|i: int| 0 <= i < scopes.len() && scopes[i] == "system_admin"@;
    assert(scopes[i] == "system_admin"@);
}

} // verus!
