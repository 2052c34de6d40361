use zest_auth::catalog::find_product;
use zest_auth::catalog::Product;
use zest_auth::hashing::hash_password;
use zest_auth::hashing::verify_password;
use zest_auth::store::AuthStore;
use zest_auth::AuthError;

#[test]
fn hash_then_verify_accepts_the_original_plaintext() {
    let plain = "s3cret pa55word".to_string();
    let hash = hash_password(&plain).expect("hashing");
    assert!(verify_password(&plain, &hash));
}

#[test]
fn verify_rejects_any_other_plaintext() {
    let plain = "s3cret pa55word".to_string();
    let hash = hash_password(&plain).expect("hashing");
    assert!(!verify_password(&"s3cret pa55word!".to_string(), &hash));
    assert!(!verify_password(&"".to_string(), &hash));
}

#[test]
fn verify_rejects_a_corrupted_hash_instead_of_crashing() {
    let plain = "s3cret".to_string();
    assert!(!verify_password(&plain, &"not a bcrypt hash".to_string()));
    assert!(!verify_password(&plain, &"".to_string()));

    // corrupt a genuine hash by flipping its version prefix
    let mut hash = hash_password(&plain).expect("hashing");
    hash.replace_range(0..4, "$9z$");
    assert!(!verify_password(&plain, &hash));
}

#[test]
fn a_stored_hash_is_not_the_plaintext() {
    let plain = "s3cret".to_string();
    let hash = hash_password(&plain).expect("hashing");
    assert_ne!(hash, plain);
    assert_eq!(hash.len(), 60);
    // treating the plaintext itself as the stored hash must deny
    assert!(!verify_password(&plain, &plain));
}

#[test]
fn create_user_allocates_sequential_ids() {
    let mut store = AuthStore::new();
    let a = store.create_user(
        &"alice".to_string(),
        &"a@x.com".to_string(),
        &"h1".to_string(),
    );
    let b = store.create_user(&"bob".to_string(), &"b@x.com".to_string(), &"h2".to_string());
    assert_eq!(a, Ok(1));
    assert_eq!(b, Ok(2));

    let dup = store.create_user(&"alice".to_string(), &"c@x.com".to_string(), &"h3".to_string());
    assert_eq!(dup, Err(AuthError::DuplicateRegistration));
}

#[test]
fn find_user_by_username_returns_the_matching_row() {
    let mut store = AuthStore::new();
    store
        .create_user(&"alice".to_string(), &"a@x.com".to_string(), &"h1".to_string())
        .expect("create");

    let found = store.find_user_by_username(&"alice".to_string()).expect("lookup");
    assert_eq!(found.id, 1);
    assert_eq!(found.email, "a@x.com");
    assert_eq!(found.password_hash, "h1");
    assert!(store.find_user_by_username(&"bob".to_string()).is_none());
}

#[test]
fn upsert_session_replaces_a_users_previous_token() {
    let mut store = AuthStore::new();
    assert_eq!(store.upsert_session(1, 10), Ok(()));
    assert_eq!(store.upsert_session(1, 20), Ok(()));

    assert_eq!(store.find_session_by_token(10), None);
    assert_eq!(store.find_session_by_token(20), Some(1));
}

#[test]
fn upsert_session_refuses_a_token_owned_by_someone_else() {
    let mut store = AuthStore::new();
    assert_eq!(store.upsert_session(1, 10), Ok(()));
    assert_eq!(store.upsert_session(2, 10), Err(AuthError::StoreUnavailable));
    // re-binding a user's own token is no conflict
    assert_eq!(store.upsert_session(1, 10), Ok(()));
    assert_eq!(store.find_session_by_token(10), Some(1));
}

#[test]
fn delete_session_removes_one_token_and_tolerates_absence() {
    let mut store = AuthStore::new();
    assert_eq!(store.upsert_session(1, 10), Ok(()));
    assert_eq!(store.upsert_session(2, 20), Ok(()));

    store.delete_session(10);
    store.delete_session(10);
    store.delete_session(999);
    assert_eq!(store.find_session_by_token(10), None);
    assert_eq!(store.find_session_by_token(20), Some(2));
}

#[test]
fn update_password_hash_touches_every_row_with_the_email() {
    let mut store = AuthStore::new();
    store
        .create_user(&"alice".to_string(), &"shared@x.com".to_string(), &"h1".to_string())
        .expect("create");
    store
        .create_user(&"bob".to_string(), &"shared@x.com".to_string(), &"h2".to_string())
        .expect("create");
    store
        .create_user(&"carol".to_string(), &"c@x.com".to_string(), &"h3".to_string())
        .expect("create");

    let rows = store.update_password_hash(&"shared@x.com".to_string(), &"h9".to_string());
    assert_eq!(rows, 2);

    assert_eq!(store.find_user_by_username(&"alice".to_string()).expect("row").password_hash, "h9");
    assert_eq!(store.find_user_by_username(&"bob".to_string()).expect("row").password_hash, "h9");
    assert_eq!(store.find_user_by_username(&"carol".to_string()).expect("row").password_hash, "h3");

    let none = store.update_password_hash(&"missing@x.com".to_string(), &"hx".to_string());
    assert_eq!(none, 0);
}

fn product(id: i32, name: &str) -> Product {
    Product {
        id,
        name: name.to_string(),
        brand: "Zest".to_string(),
        category: "shirts".to_string(),
        price: "10.00".to_string(),
    }
}

#[test]
fn find_product_selects_by_id() {
    let products = vec![product(1, "T-Shirt"), product(2, "Hoodie")];
    let hit = find_product(&products, 2).expect("lookup");
    assert_eq!(hit.name, "Hoodie");
    assert!(find_product(&products, 3).is_none());
    assert!(find_product(&Vec::new(), 1).is_none());
}
