use mercado::email::is_valid_email;
use mercado::errors::{ApiError, StoreError};
use mercado::gate::{authorize, extract_cookie, is_public_path, GateDecision};
use mercado::sessions::SessionStore;
use mercado::strings::{str_eq, str_starts_with, trim_str};

#[test]
fn public_paths_pass_without_a_session() {
    let store = SessionStore::new();
    for path in ["/health", "/api/login", "/api/register", "/login"] {
        assert!(is_public_path(path));
        assert_eq!(authorize(&store, path, "", 0), GateDecision::Forward(None));
    }
    assert!(!is_public_path("/api/users"));
    assert!(!is_public_path("/"));
}

#[test]
fn unauthenticated_requests_split_by_namespace() {
    let store = SessionStore::new();
    assert_eq!(authorize(&store, "/api/pedidos", "", 0), GateDecision::Unauthorized);
    assert_eq!(authorize(&store, "/index.html", "", 0), GateDecision::RedirectToLogin);
    // a cookie naming an unknown session is unauthenticated, never authenticated
    assert_eq!(
        authorize(&store, "/api/pedidos", "session_id=deadbeef", 0),
        GateDecision::Unauthorized
    );
}

#[test]
fn extract_cookie_finds_the_named_pair() {
    assert_eq!(extract_cookie("session_id=abc", "session_id").as_deref(), Some("abc"));
    assert_eq!(
        extract_cookie("theme=dark; session_id=abc; lang=pt", "session_id").as_deref(),
        Some("abc")
    );
    assert_eq!(extract_cookie("  session_id=a=b ", "session_id").as_deref(), Some("a=b"));
    assert_eq!(extract_cookie("session_idx=abc", "session_id"), None);
    assert_eq!(extract_cookie("", "session_id"), None);
    assert_eq!(extract_cookie("session_id", "session_id"), None);
    assert_eq!(extract_cookie("a=1; session_id=", "session_id").as_deref(), Some(""));
    assert_eq!(extract_cookie("session_id =abc", "session_id"), None);
}

#[test]
fn email_shapes() {
    assert!(is_valid_email("user@example.com"));
    assert!(is_valid_email("a@b.c"));
    assert!(is_valid_email("user.name@sub.domain.org"));
    assert!(!is_valid_email("userexample.com"));
    assert!(!is_valid_email("user@example"));
    assert!(!is_valid_email("@example.com"));
    assert!(!is_valid_email("user@.x"));
    assert!(!is_valid_email("user@x."));
    assert!(!is_valid_email("us er@example.com"));
    assert!(!is_valid_email("user@@example.com"));
    assert!(!is_valid_email(""));
}

#[test]
fn string_helpers() {
    assert_eq!(trim_str("  abc  "), "abc");
    assert_eq!(trim_str("\t\n x \u{00A0}"), "x");
    assert_eq!(trim_str("   "), "");
    assert!(str_eq("abc", "abc"));
    assert!(!str_eq("abc", "abd"));
    assert!(!str_eq("abc", "ab"));
    assert!(str_starts_with("/api/users", "/api/"));
    assert!(!str_starts_with("/apix", "/api/"));
    assert!(!str_starts_with("/ap", "/api/"));
}

#[test]
fn api_error_constructors() {
    let e = ApiError::new(418, "Teapot", "short and stout");
    assert_eq!(e.code, 418);
    assert_eq!(e.error, "Teapot");
    assert_eq!(e.message, "short and stout");
    assert!(e.field.is_none());

    let e = ApiError::bad_request("Estoque insuficiente");
    assert_eq!((e.code, e.error.as_str()), (400, "Bad Request"));
    let e = ApiError::not_found("Produto não encontrado");
    assert_eq!((e.code, e.error.as_str()), (404, "Not Found"));
    let e = ApiError::internal_server_error("Erro interno");
    assert_eq!((e.code, e.error.as_str()), (500, "Internal Server Error"));
    let e = ApiError::validation_error("email", "Formato de e-mail inválido");
    assert_eq!(e.code, 422);
    assert_eq!(e.error, "Unprocessable Entity");
    assert_eq!(e.field.as_deref(), Some("email"));
}

#[test]
fn error_kinds_carry_their_status() {
    assert_eq!(StoreError::InvalidInput.http_status(), 400);
    assert_eq!(StoreError::DuplicateEmail.http_status(), 400);
    assert_eq!(StoreError::NotFound.http_status(), 404);
    assert_eq!(StoreError::InvalidCredentials.http_status(), 401);
    assert_eq!(StoreError::Unauthenticated.http_status(), 401);
    assert_eq!(StoreError::EmptyCart.http_status(), 400);
    assert_eq!(StoreError::InvalidEmail.http_status(), 422);
    assert_eq!(StoreError::InvalidInstallments.http_status(), 422);
    assert_eq!(StoreError::InsufficientStock.http_status(), 400);
    assert_eq!(StoreError::InternalError.http_status(), 500);
}
