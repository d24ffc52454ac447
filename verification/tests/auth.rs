use cheetah_signaling::api::auth::{
    auth_audit, authenticate_static_key, check_bearer_token, clamp_id_string, plan_authentication,
    principal_from_jwt_claims, split_auth_header, AuthContext, AuthStep, JwtClaims, Principal,
    PrincipalKind, MAX_API_KEY_BYTES, MAX_AUTHORIZATION_BYTES, MAX_JWT_SCOPES, MAX_JWT_SCOPE_BYTES,
    MAX_JWT_SUB_BYTES, MAX_JWT_TOKEN_BYTES,
};
use cheetah_signaling::api::error::HttpError;

fn valid_claims() -> JwtClaims {
    JwtClaims {
        sub: "user-123".to_string(),
        tenant_id: None,
        scope: "viewer operator".to_string(),
        scopes: vec!["tenant_admin".to_string()],
        roles: vec!["system_admin".to_string()],
    }
}

fn unauthenticated_message<T: std::fmt::Debug>(r: Result<T, HttpError>) -> String {
    match r {
        Err(HttpError::Unauthenticated(m)) => m,
        other => panic!("expected an authentication failure, got {other:?}"),
    }
}

#[test]
fn principal_from_valid_jwt_claims() {
    let principal = match principal_from_jwt_claims(valid_claims()) {
        Ok(p) => p,
        Err(_) => panic!("expected valid principal"),
    };
    assert_eq!(principal.id, "user-123");
    assert!(principal.scopes.contains(&"viewer".to_string()));
    assert!(principal.scopes.contains(&"operator".to_string()));
    assert!(principal.scopes.contains(&"tenant_admin".to_string()));
    assert!(principal.scopes.contains(&"system_admin".to_string()));
}

#[test]
fn rejects_empty_sub_claim() {
    let mut claims = valid_claims();
    claims.sub = String::new();
    assert!(principal_from_jwt_claims(claims).is_err());
}

#[test]
fn rejects_oversized_sub_claim() {
    let mut claims = valid_claims();
    claims.sub = "x".repeat(MAX_JWT_SUB_BYTES + 1);
    assert!(principal_from_jwt_claims(claims).is_err());
}

#[test]
fn rejects_too_many_scope_entries() {
    let mut claims = valid_claims();
    claims.scope = (0..=MAX_JWT_SCOPES).map(|i| format!("scope-{i}")).collect::<Vec<_>>().join(" ");
    assert!(principal_from_jwt_claims(claims).is_err());
}

#[test]
fn rejects_oversized_scope_entry() {
    let mut claims = valid_claims();
    claims.scope = "x".repeat(MAX_JWT_SCOPE_BYTES + 1);
    assert!(principal_from_jwt_claims(claims).is_err());
}

#[test]
fn rejects_too_many_scopes_claim_entries() {
    let mut claims = valid_claims();
    claims.scopes = (0..=MAX_JWT_SCOPES).map(|i| format!("scope-{i}")).collect();
    claims.scope.clear();
    assert!(principal_from_jwt_claims(claims).is_err());
}

#[test]
fn rejects_too_many_roles_claim_entries() {
    let mut claims = valid_claims();
    claims.roles = (0..=MAX_JWT_SCOPES).map(|i| format!("role-{i}")).collect();
    claims.scope.clear();
    assert!(principal_from_jwt_claims(claims).is_err());
}

#[test]
fn rejects_oversized_role_entry() {
    let mut claims = valid_claims();
    claims.roles = vec!["x".repeat(MAX_JWT_SCOPE_BYTES + 1)];
    claims.scope.clear();
    assert!(principal_from_jwt_claims(claims).is_err());
}

#[test]
fn authenticate_bearer_rejects_oversized_token() {
    let token = "x".repeat(MAX_JWT_TOKEN_BYTES + 1);
    let result = check_bearer_token("not-a-key", &token);
    assert!(
        matches!(result, Err(HttpError::Unauthenticated(ref msg)) if msg == "JWT token exceeds maximum length"),
        "expected token length rejection, got {result:?}"
    );
}

#[test]
fn bearer_token_at_limit_passes_the_length_check() {
    let token = "x".repeat(MAX_JWT_TOKEN_BYTES);
    assert!(check_bearer_token("not-a-key", &token).is_ok());
}

#[test]
fn bearer_token_without_configured_key_is_refused() {
    assert_eq!(unauthenticated_message(check_bearer_token("", "abc")), "JWT authentication not configured");
}

#[test]
fn principal_scopes_keep_claim_order() {
    let p = principal_from_jwt_claims(valid_claims()).unwrap();
    assert_eq!(p.kind, PrincipalKind::User);
    assert_eq!(p.scopes, vec!["viewer", "operator", "tenant_admin", "system_admin"]);
}

#[test]
fn claim_errors_are_reported_in_check_order() {
    let mut claims = valid_claims();
    claims.sub = String::new();
    claims.scope = "x".repeat(MAX_JWT_SCOPE_BYTES + 1);
    assert_eq!(unauthenticated_message(principal_from_jwt_claims(claims)), "JWT sub claim must not be empty");
    let mut claims = valid_claims();
    claims.roles = vec!["x".repeat(MAX_JWT_SCOPE_BYTES + 1)];
    assert_eq!(unauthenticated_message(principal_from_jwt_claims(claims)), "JWT roles entry exceeds maximum length");
    let mut claims = valid_claims();
    claims.scopes = vec!["y".repeat(MAX_JWT_SCOPE_BYTES + 1)];
    assert_eq!(unauthenticated_message(principal_from_jwt_claims(claims)), "JWT scopes entry exceeds maximum length");
}

#[test]
fn scope_words_split_on_any_whitespace() {
    let mut claims = valid_claims();
    claims.scope = "  a\tb\n c  ".to_string();
    claims.scopes.clear();
    claims.roles.clear();
    let p = principal_from_jwt_claims(claims).unwrap();
    assert_eq!(p.scopes, vec!["a", "b", "c"]);
}

#[test]
fn static_key_matches_in_full() {
    let ctx = authenticate_static_key("s3cret", "s3cret").unwrap();
    assert_eq!(ctx.principal.id, "static-api-key");
    assert_eq!(ctx.principal.kind, PrincipalKind::Service);
    assert_eq!(ctx.principal.scopes, vec!["viewer", "operator", "tenant_admin", "system_admin"]);
    assert!(ctx.tenant_id.is_none());
    assert_eq!(unauthenticated_message(authenticate_static_key("s3cret", "s3cre")), "invalid API key");
    assert_eq!(unauthenticated_message(authenticate_static_key("", "")), "static API key not configured");
}

#[test]
fn authorization_header_splits_scheme_and_token() {
    assert_eq!(split_auth_header("Bearer  abc.def "), ("Bearer".to_string(), "abc.def".to_string()));
    assert_eq!(split_auth_header("Basic"), ("Basic".to_string(), String::new()));
}

#[test]
fn bearer_scheme_is_case_insensitive() {
    match plan_authentication(Some(Some("bEaReR tok")), None, "") {
        AuthStep::Bearer(t) => assert_eq!(t, "tok"),
        other => panic!("expected a bearer step, got {other:?}"),
    }
}

#[test]
fn other_schemes_fall_back_to_the_api_key() {
    match plan_authentication(Some(Some("Basic dXNlcg==")), Some(Some("k")), "k") {
        AuthStep::Done(Ok(ctx)) => assert_eq!(ctx.principal.id, "static-api-key"),
        other => panic!("expected the static key principal, got {other:?}"),
    }
}

fn done_message(step: AuthStep) -> String {
    match step {
        AuthStep::Done(r) => unauthenticated_message(r),
        other => panic!("expected a settled step, got {other:?}"),
    }
}

#[test]
fn authentication_refusals() {
    assert_eq!(done_message(plan_authentication(None, None, "k")), "missing Authorization or X-Api-Key header");
    assert_eq!(done_message(plan_authentication(Some(None), None, "k")), "authorization header is not valid UTF-8");
    assert_eq!(done_message(plan_authentication(None, Some(None), "k")), "x-api-key header is not valid UTF-8");
    let long_auth = format!("Bearer {}", "x".repeat(MAX_AUTHORIZATION_BYTES));
    assert_eq!(
        done_message(plan_authentication(Some(Some(&long_auth)), None, "k")),
        "authorization header exceeds maximum length"
    );
    let long_key = "k".repeat(MAX_API_KEY_BYTES + 1);
    assert_eq!(
        done_message(plan_authentication(None, Some(Some(&long_key)), "k")),
        "x-api-key header exceeds maximum length"
    );
    assert_eq!(done_message(plan_authentication(None, Some(Some("k")), "")), "static API key not configured");
    assert_eq!(done_message(plan_authentication(None, Some(Some("bad")), "k")), "invalid API key");
}

#[test]
fn scope_check_accepts_held_scope_and_system_admin() {
    let ctx = AuthContext {
        principal: Principal { id: "u".to_string(), kind: PrincipalKind::User, scopes: vec!["viewer".to_string()] },
        tenant_id: None,
    };
    assert!(ctx.require_scope("viewer").is_ok());
    match ctx.require_scope("operator") {
        Err(HttpError::PermissionDenied(m)) => assert_eq!(m, "missing operator scope"),
        other => panic!("expected permission denied, got {other:?}"),
    }
    let admin = AuthContext {
        principal: Principal { id: "a".to_string(), kind: PrincipalKind::User, scopes: vec!["system_admin".to_string()] },
        tenant_id: None,
    };
    assert!(admin.require_scope("operator").is_ok());
}

#[test]
fn identifiers_are_clamped_on_character_boundaries() {
    assert_eq!(clamp_id_string("abcdef", 4), "abcd");
    assert_eq!(clamp_id_string("ééé", 5), "éé");
    assert_eq!(clamp_id_string("ab", 8), "ab");
}

#[test]
fn audit_records_principal_or_failure() {
    let ok: Result<AuthContext, HttpError> = authenticate_static_key("k", "k");
    let a = auth_audit(&ok);
    assert_eq!(a.actor, "static-api-key");
    assert!(a.failure_reason.is_none());
    let err: Result<AuthContext, HttpError> = authenticate_static_key("k", "x");
    let a = auth_audit(&err);
    assert_eq!(a.actor, "anonymous");
    assert_eq!(a.failure_reason.as_deref(), Some("UNAUTHENTICATED"));
    assert_eq!(a.details.as_deref(), Some("unauthenticated: invalid API key"));
}
