use user_api::middleware::layer::process;
use user_api::middleware::manager::CacheManager;
use user_api::routes::get_users;
use user_api::service::Service;
use user_api::user::NewUser;
use user_api::warehouse::UserRepository;

fn fresh_service() -> Service {
    Service::new(UserRepository::new())
}

/// A repository with five users, as the listing scenarios expect.
fn init_repo_data() -> UserRepository {
    let emails = ["first@email", "second@email", "third@email", "fourth@email", "fifth@email"];
    let mut repo = UserRepository::new();
    for email in emails {
        repo.create(&NewUser::new(email.to_string())).unwrap();
    }
    repo
}

fn post_user_body(email: &str) -> String {
    format!("{{\"email\":\"{}\"}}", email)
}

#[test]
fn new_user() {
    let mut service = fresh_service();
    let mut manager = CacheManager::new();

    let response = process(&mut manager, &mut service, None, &post_user_body("first@email"));

    assert_eq!(200, response.status);
    assert_eq!("{\"id\":1,\"email\":\"first@email\"}", response.body);
}

#[test]
fn duplicate_request_without_key_is_409() {
    let mut service = fresh_service();
    let mut manager = CacheManager::new();
    let body = post_user_body("first@email");

    let original = process(&mut manager, &mut service, None, &body);
    let duplicate = process(&mut manager, &mut service, None, &body);

    assert_eq!(200, original.status);
    assert_eq!(409, duplicate.status);
    assert_eq!("{\"id\":1,\"email\":\"first@email\"}", original.body);
    assert_eq!("{\"error\":\"Email Already In Use\"}", duplicate.body);
    assert_ne!(original, duplicate);
}

#[test]
fn duplicate_request_with_key_is_201() {
    let mut service = fresh_service();
    let mut manager = CacheManager::new();
    let body = post_user_body("first@email");
    let key = Some("1".to_string());

    let original = process(&mut manager, &mut service, key.clone(), &body);
    let duplicate = process(&mut manager, &mut service, key, &body);

    assert_eq!(200, original.status);
    assert_eq!(201, duplicate.status);
    assert_eq!(original.body, duplicate.body);
    assert_eq!("{\"id\":1,\"email\":\"first@email\"}", duplicate.body);
}

#[test]
fn without_any_users() {
    let service = fresh_service();

    let response = get_users(&service);

    assert_eq!(200, response.status);
    assert_eq!("[]", response.body);
}

#[test]
fn with_some_users() {
    let service = Service::new(init_repo_data());

    let response = get_users(&service);

    assert_eq!(200, response.status);
    assert_eq!(
        "[{\"id\":1,\"email\":\"first@email\"},{\"id\":2,\"email\":\"second@email\"},\
         {\"id\":3,\"email\":\"third@email\"},{\"id\":4,\"email\":\"fourth@email\"},\
         {\"id\":5,\"email\":\"fifth@email\"}]",
        response.body
    );
}
