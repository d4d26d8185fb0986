use mercado::errors::StoreError;
use mercado::gate::{authorize, GateDecision};
use mercado::sessions::{LoginInput, RegisterInput, SessionStore};

const NOW: u64 = 1_700_000_000;

fn store_with_admin() -> SessionStore {
    let mut store = SessionStore::new();
    store
        .register(
            &RegisterInput {
                nome: "Admin".to_string(),
                email: "admin@teste.com".to_string(),
                senha: "123456".to_string(),
            },
        )
        .unwrap();
    store
}

#[test]
fn auth_register() {
    let mut store = SessionStore::new();
    let r = store.register(&RegisterInput {
        nome: "Usuário Teste".to_string(),
        email: "user1@teste.com".to_string(),
        senha: "123456".to_string(),
    });
    assert!(r.is_ok(), "a fresh registration succeeds");
    let users = store.list_users();
    assert_eq!(users.len(), 1);
    assert_eq!(users[0].email, "user1@teste.com");
    assert_eq!(users[0].nome, "Usuário Teste");
    assert_eq!(users[0].id, 1);
}

#[test]
fn register_rejects_bad_input() {
    let mut store = store_with_admin();
    let empty = store.register(&RegisterInput {
        nome: "   ".to_string(),
        email: "x@y.z".to_string(),
        senha: "pw".to_string(),
    });
    assert_eq!(empty, Err(StoreError::InvalidInput));
    let dup = store.register(&RegisterInput {
        nome: "Other".to_string(),
        email: "  admin@teste.com  ".to_string(),
        senha: "pw".to_string(),
    });
    assert_eq!(dup, Err(StoreError::DuplicateEmail));
    assert_eq!(store.list_users().len(), 1);
}

#[test]
fn auth_login() {
    let mut store = store_with_admin();
    let ok = store.login(
        &LoginInput { email: "admin@teste.com".to_string(), senha: "123456".to_string() },
        NOW,
    );
    let (session, usuario) = ok.expect("correct admin credentials authenticate");
    assert_eq!(usuario.email, "admin@teste.com");
    assert_eq!(session.user_id, usuario.id);
    assert_eq!(session.expires_at, Some(NOW + 86400));

    let missing = store.login(
        &LoginInput { email: "naoexiste@teste.com".to_string(), senha: "abc".to_string() },
        NOW,
    );
    assert!(matches!(missing, Err(StoreError::NotFound)));

    let wrong = store.login(
        &LoginInput { email: "admin@teste.com".to_string(), senha: "errada".to_string() },
        NOW,
    );
    assert!(matches!(wrong, Err(StoreError::InvalidCredentials)));
}

#[test]
fn auth_session_flow() {
    let mut store = store_with_admin();
    let (session, usuario) = store
        .login(
            &LoginInput { email: "admin@teste.com".to_string(), senha: "123456".to_string() },
            NOW,
        )
        .unwrap();
    // valid immediately after login
    assert_eq!(store.validate(&session.id, NOW), Some(usuario.id));
    let me = store.current_user(&session.id, NOW).expect("a live session resolves its user");
    assert_eq!(me.email, "admin@teste.com");
    // invalid after logout, and logout is idempotent
    store.logout(&session.id);
    assert_eq!(store.validate(&session.id, NOW), None);
    assert!(store.current_user(&session.id, NOW).is_none());
    store.logout(&session.id);
    assert_eq!(store.validate(&session.id, NOW), None);
}

#[test]
fn expired_sessions_never_validate() {
    let mut store = store_with_admin();
    let (session, _) = store
        .login(
            &LoginInput { email: "admin@teste.com".to_string(), senha: "123456".to_string() },
            NOW,
        )
        .unwrap();
    // not yet swept, but past its expiry: never valid
    assert_eq!(store.validate(&session.id, NOW + 86400), None);
    assert_eq!(store.validate(&session.id, NOW + 86399), Some(session.user_id));
    // the next login sweeps the expired row
    let (second, _) = store
        .login(
            &LoginInput { email: "admin@teste.com".to_string(), senha: "123456".to_string() },
            NOW + 86400,
        )
        .unwrap();
    assert_eq!(store.validate(&session.id, NOW + 86400), None);
    assert_eq!(store.validate(&second.id, NOW + 86400), Some(second.user_id));
}

#[test]
fn concurrent_sessions_are_allowed() {
    let mut store = store_with_admin();
    let creds = LoginInput { email: "admin@teste.com".to_string(), senha: "123456".to_string() };
    let (s1, _) = store.login(&creds, NOW).unwrap();
    let (s2, _) = store.login(&creds, NOW).unwrap();
    assert!(s1.id != s2.id);
    assert!(store.validate(&s1.id, NOW).is_some());
    assert!(store.validate(&s2.id, NOW).is_some());
    store.logout(&s1.id);
    assert!(store.validate(&s1.id, NOW).is_none());
    assert!(store.validate(&s2.id, NOW).is_some(), "logout removes only its own session");
}

#[test]
fn users_requires_auth() {
    let mut store = store_with_admin();
    let denied = authorize(&store, "/api/users", "", NOW);
    assert_eq!(denied, GateDecision::Unauthorized, "no login means 401 on /api/users");
    let (session, usuario) = store
        .login(
            &LoginInput { email: "admin@teste.com".to_string(), senha: "123456".to_string() },
            NOW,
        )
        .unwrap();
    let cookie = format!("session_id={}", session.id);
    let allowed = authorize(&store, "/api/users", &cookie, NOW);
    assert_eq!(allowed, GateDecision::Forward(Some(usuario.id)), "a live session is forwarded");
    assert_eq!(store.list_users().len(), 1);
}

#[test]
fn login_trims_its_fields() {
    let mut store = SessionStore::new();
    store
        .register(&RegisterInput {
            nome: "  Maria  ".to_string(),
            email: "  maria@x.dev ".to_string(),
            senha: " senha9 ".to_string(),
        })
        .unwrap();
    let users = store.list_users();
    assert_eq!(users[0].nome, "Maria");
    assert_eq!(users[0].email, "maria@x.dev");
    let ok = store.login(
        &LoginInput { email: "maria@x.dev".to_string(), senha: "senha9".to_string() },
        NOW,
    );
    assert!(ok.is_ok(), "trimmed credentials round-trip through register and login");
}
