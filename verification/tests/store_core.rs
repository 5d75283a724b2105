use saoirse::error::Error;
use saoirse::json::JsonValue;
use saoirse::store::{App, Context};

fn store_with_admin(admin: &str) -> Context {
    Context::new(vec![admin.to_string()])
}

fn obj(pairs: Vec<(&str, JsonValue)>) -> JsonValue {
    JsonValue::Obj(pairs.into_iter().map(|(k, v)| (k.to_string(), v)).collect())
}

fn make_app(ctx: &mut Context, name: &str, admin: &str) -> App {
    ctx.create_app(name.to_string(), admin).expect("app creation should succeed")
}

#[test]
fn create_app_returns_validating_credential() {
    let mut ctx = store_with_admin("root-secret");
    let app = make_app(&mut ctx, "alpha", "root-secret");
    assert_eq!(app.name, "alpha");
    assert!(ctx.validate_app(&app.id, &app.credential).is_ok());
}

#[test]
fn create_app_rejects_bad_admin_and_persists_nothing() {
    let mut ctx = store_with_admin("root-secret");
    let r = ctx.create_app("alpha".to_string(), "not-the-admin");
    assert_eq!(r.unwrap_err(), Error::BadAdminCredential);
    assert_eq!(ctx.apps.len(), 0);
}

#[test]
fn session_round_trip() {
    let mut ctx = store_with_admin("root-secret");
    let app = make_app(&mut ctx, "alpha", "root-secret");
    let created = ctx
        .new_session(&app.id, &app.credential, obj(vec![("x", JsonValue::Int(1))]))
        .expect("session creation should succeed");
    assert_eq!(created.app_id, app.id);
    let found = ctx
        .get_session(&app.id, &app.credential, &created.id)
        .expect("credential is valid")
        .expect("session must be found");
    assert_eq!(found.id, created.id);
    assert_eq!(found.app_id, app.id);
    assert_eq!(found.data, obj(vec![("x", JsonValue::Int(1))]));
}

#[test]
fn tenant_isolation() {
    let mut ctx = store_with_admin("root-secret");
    let a = make_app(&mut ctx, "alpha", "root-secret");
    let b = make_app(&mut ctx, "beta", "root-secret");
    let created = ctx
        .new_session(&a.id, &a.credential, obj(vec![("x", JsonValue::Int(1))]))
        .unwrap();
    // Even with B's valid credential, A's session is invisible under B.
    let r = ctx.get_session(&b.id, &b.credential, &created.id).unwrap();
    assert!(r.is_none());
    let f = ctx.get_session_field(&b.id, &b.credential, &created.id, "x");
    assert_eq!(f.unwrap_err(), Error::AttributeNotPresent);
}

#[test]
fn replace_overwrites_wholly() {
    let mut ctx = store_with_admin("root-secret");
    let app = make_app(&mut ctx, "alpha", "root-secret");
    let created = ctx
        .new_session(
            &app.id,
            &app.credential,
            obj(vec![("x", JsonValue::Int(1)), ("y", JsonValue::Int(2))]),
        )
        .unwrap();
    let replaced = ctx
        .replace_session(&app.id, &app.credential, &created.id, obj(vec![("y", JsonValue::Int(3))]))
        .expect("replace of an existing session succeeds");
    assert_eq!(replaced.id, created.id);
    assert_eq!(replaced.data, obj(vec![("y", JsonValue::Int(3))]));
    let gone = ctx.get_session_field(&app.id, &app.credential, &created.id, "x");
    assert_eq!(gone.unwrap_err(), Error::AttributeNotPresent);
    let kept = ctx.get_session_field(&app.id, &app.credential, &created.id, "y");
    assert_eq!(kept.unwrap(), JsonValue::Int(3));
}

#[test]
fn field_lookup_exact_value_and_absence() {
    let mut ctx = store_with_admin("root-secret");
    let app = make_app(&mut ctx, "alpha", "root-secret");
    let data = obj(vec![
        ("s", JsonValue::Str("hello".to_string())),
        ("n", JsonValue::Null),
        ("b", JsonValue::Bool(true)),
    ]);
    let created = ctx.new_session(&app.id, &app.credential, data).unwrap();
    let s = ctx.get_session_field(&app.id, &app.credential, &created.id, "s");
    assert_eq!(s.unwrap(), JsonValue::Str("hello".to_string()));
    // Absent field and nonexistent session collapse to the same failure.
    let absent = ctx.get_session_field(&app.id, &app.credential, &created.id, "zz");
    assert_eq!(absent.unwrap_err(), Error::AttributeNotPresent);
    let no_session = ctx.get_session_field(&app.id, &app.credential, "no-such-id", "s");
    assert_eq!(no_session.unwrap_err(), Error::AttributeNotPresent);
}

#[test]
fn credential_never_validates_for_other_app() {
    let mut ctx = store_with_admin("root-secret");
    let a = make_app(&mut ctx, "alpha", "root-secret");
    let b = make_app(&mut ctx, "beta", "root-secret");
    assert_ne!(a.id, b.id);
    assert_ne!(a.credential, b.credential);
    let r = ctx.validate_app(&b.id, &a.credential);
    assert_eq!(r.unwrap_err(), Error::BadAppCredential);
    let r = ctx.validate_app(&a.id, &b.credential);
    assert_eq!(r.unwrap_err(), Error::BadAppCredential);
}

#[test]
fn bad_app_credential_blocks_every_operation() {
    let mut ctx = store_with_admin("root-secret");
    let app = make_app(&mut ctx, "alpha", "root-secret");
    let created = ctx
        .new_session(&app.id, &app.credential, obj(vec![("x", JsonValue::Int(1))]))
        .unwrap();
    let wrong = "wrong-credential";
    assert_eq!(
        ctx.new_session(&app.id, wrong, JsonValue::Null).unwrap_err(),
        Error::BadAppCredential
    );
    assert_eq!(
        ctx.get_session(&app.id, wrong, &created.id).unwrap_err(),
        Error::BadAppCredential
    );
    assert_eq!(
        ctx.get_session_field(&app.id, wrong, &created.id, "x").unwrap_err(),
        Error::BadAppCredential
    );
    assert_eq!(
        ctx.replace_session(&app.id, wrong, &created.id, JsonValue::Null).unwrap_err(),
        Error::BadAppCredential
    );
    // Nothing was stored or changed along the way.
    assert_eq!(ctx.sessions.len(), 1);
    let kept = ctx.get_session_field(&app.id, &app.credential, &created.id, "x");
    assert_eq!(kept.unwrap(), JsonValue::Int(1));
}

#[test]
fn replace_of_missing_session_is_a_storage_failure() {
    let mut ctx = store_with_admin("root-secret");
    let app = make_app(&mut ctx, "alpha", "root-secret");
    let r = ctx.replace_session(&app.id, &app.credential, "no-such-id", JsonValue::Null);
    assert_eq!(r.unwrap_err(), Error::StorageFailure);
}

#[test]
fn get_of_missing_session_is_plain_absence() {
    let mut ctx = store_with_admin("root-secret");
    let app = make_app(&mut ctx, "alpha", "root-secret");
    let r = ctx.get_session(&app.id, &app.credential, "no-such-id").unwrap();
    assert!(r.is_none());
}

#[test]
fn apps_may_share_a_name() {
    let mut ctx = store_with_admin("root-secret");
    let a = make_app(&mut ctx, "same", "root-secret");
    let b = make_app(&mut ctx, "same", "root-secret");
    assert_eq!(a.name, b.name);
    assert_ne!(a.id, b.id);
    assert_ne!(a.credential, b.credential);
}

#[test]
fn session_data_may_be_any_json_value() {
    let mut ctx = store_with_admin("root-secret");
    let app = make_app(&mut ctx, "alpha", "root-secret");
    let arr = JsonValue::Arr(vec![JsonValue::Int(1), JsonValue::Str("two".to_string())]);
    let created = ctx.new_session(&app.id, &app.credential, arr).unwrap();
    let found = ctx.get_session(&app.id, &app.credential, &created.id).unwrap().unwrap();
    assert_eq!(
        found.data,
        JsonValue::Arr(vec![JsonValue::Int(1), JsonValue::Str("two".to_string())])
    );
    // A non-object document has no fields at all.
    let f = ctx.get_session_field(&app.id, &app.credential, &created.id, "0");
    assert_eq!(f.unwrap_err(), Error::AttributeNotPresent);
}

#[test]
fn empty_document_round_trip() {
    let mut ctx = store_with_admin("root-secret");
    let app = make_app(&mut ctx, "alpha", "root-secret");
    let created = ctx.new_session(&app.id, &app.credential, obj(vec![])).unwrap();
    let found = ctx.get_session(&app.id, &app.credential, &created.id).unwrap().unwrap();
    assert_eq!(found.data, obj(vec![]));
    let f = ctx.get_session_field(&app.id, &app.credential, &created.id, "x");
    assert_eq!(f.unwrap_err(), Error::AttributeNotPresent);
}

#[test]
fn multiple_admin_credentials_each_validate() {
    let mut ctx = Context::new(vec!["first".to_string(), "second".to_string()]);
    assert!(ctx.validate_admin("first").is_ok());
    assert!(ctx.validate_admin("second").is_ok());
    assert_eq!(ctx.validate_admin("third").unwrap_err(), Error::BadAdminCredential);
    let app = ctx.create_app("alpha".to_string(), "second").unwrap();
    assert!(ctx.validate_app(&app.id, &app.credential).is_ok());
}
