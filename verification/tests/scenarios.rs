use user_api::middleware::layer::process;
use user_api::middleware::manager::CacheManager;
use user_api::routes::get_user;
use user_api::service::Service;
use user_api::warehouse::UserRepository;

#[test]
fn keyed_create_then_replay_keeps_id_and_body() {
    let mut service = Service::new(UserRepository::new());
    let mut manager = CacheManager::new();
    let body = "{\"email\":\"a@b.com\"}";
    let key = Some("k1".to_string());

    let first = process(&mut manager, &mut service, key.clone(), body);
    assert_eq!(200, first.status);
    assert_eq!("{\"id\":1,\"email\":\"a@b.com\"}", first.body);

    let second = process(&mut manager, &mut service, key, body);
    assert_eq!(201, second.status);
    assert_eq!("{\"id\":1,\"email\":\"a@b.com\"}", second.body);
}

#[test]
fn replay_ignores_second_payload() {
    let mut service = Service::new(UserRepository::new());
    let mut manager = CacheManager::new();
    let key = Some("k1".to_string());

    let first = process(&mut manager, &mut service, key.clone(), "{\"email\":\"a@b.com\"}");
    let second = process(&mut manager, &mut service, key, "{\"email\":\"other@b.com\"}");

    assert_eq!(200, first.status);
    assert_eq!(201, second.status);
    assert_eq!(first.body, second.body);
}

#[test]
fn get_nonexistent_user_is_404_with_error_body() {
    let service = Service::new(UserRepository::new());

    let response = get_user(&service, "9");

    assert_eq!(404, response.status);
    assert_eq!("{\"error\":\"User 9 Not Found\"}", response.body);
}

#[test]
fn get_with_malformed_id_is_400_with_error_body() {
    let service = Service::new(UserRepository::new());

    let response = get_user(&service, "nine");

    assert_eq!(400, response.status);
    assert_eq!("{\"error\":\"Invalid User ID\"}", response.body);
}

#[test]
fn invalid_email_is_400_and_not_cached() {
    let mut service = Service::new(UserRepository::new());
    let mut manager = CacheManager::new();
    let key = Some("k1".to_string());

    // The handler rejects the e-mail, so the error passes through
    // uncached and the retry runs the handler again.
    let first = process(&mut manager, &mut service, key.clone(), "{\"email\":\"a@b\"}");
    assert_eq!(400, first.status);
    assert_eq!("{\"error\":\"Validation error while processing data\"}", first.body);

    // The same key now succeeds with a corrected payload: nothing was
    // recorded for it by the failed attempt.
    let second = process(&mut manager, &mut service, key, "{\"email\":\"a@b.com\"}");
    assert_eq!(200, second.status);
    assert_eq!("{\"id\":1,\"email\":\"a@b.com\"}", second.body);
}

#[test]
fn unparseable_body_is_422_and_not_cached() {
    let mut service = Service::new(UserRepository::new());
    let mut manager = CacheManager::new();
    let key = Some("k1".to_string());

    let first = process(&mut manager, &mut service, key.clone(), "not json at all");
    assert_eq!(422, first.status);
    assert_eq!("{\"error\":\"Failed to deserialize the request body\"}", first.body);

    let second = process(&mut manager, &mut service, key, "{\"email\":\"a@b.com\"}");
    assert_eq!(200, second.status);
}

#[test]
fn invalid_key_disables_caching() {
    let mut service = Service::new(UserRepository::new());
    let mut manager = CacheManager::new();

    // An empty header value is an invalid key: the request goes straight
    // to the handler, so the duplicate hits the uniqueness rule.
    let empty_key = Some(String::new());
    let first = process(&mut manager, &mut service, empty_key.clone(), "{\"email\":\"a@b.com\"}");
    let second = process(&mut manager, &mut service, empty_key, "{\"email\":\"a@b.com\"}");

    assert_eq!(200, first.status);
    assert_eq!(409, second.status);
}
