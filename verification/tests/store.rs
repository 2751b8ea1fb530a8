use user_api::error::get_error_cause;
use user_api::error::ErrorBody;
use user_api::ikey::IKey;
use user_api::ikey::KeyError;
use user_api::middleware::error::CacheLayerError;
use user_api::middleware::manager::CacheManager;
use user_api::middleware::msg::Msg;
use user_api::middleware::msg::Reply;
use user_api::service::Service;
use user_api::service::ServiceError;
use user_api::user::NewUser;
use user_api::user::User;
use user_api::warehouse::Cache;
use user_api::warehouse::CacheError;
use user_api::warehouse::CachedResponse;
use user_api::warehouse::UserRepository;

fn key(s: &str) -> IKey {
    IKey::try_from(s.to_string()).unwrap()
}

fn cached(status: u16, id: u64, email: &str) -> CachedResponse {
    CachedResponse::new(status, User::new(id, email.to_string()))
}

#[test]
fn cache_get_on_empty_is_a_miss() {
    let cache = Cache::new();
    match cache.get(&key("k1")) {
        Err(CacheError::CacheMiss(m)) => assert_eq!("k1", m),
        _ => panic!("expected a miss carrying the key"),
    }
}

#[test]
fn cache_set_then_get_returns_the_entry() {
    let mut cache = Cache::new();
    cache.set(&key("k1"), &cached(200, 1, "a@b.com")).unwrap();
    let hit = cache.get(&key("k1")).unwrap();
    assert_eq!(200, hit.status);
    assert_eq!(User::new(1, "a@b.com".to_string()), hit.user);
}

#[test]
fn cache_set_overwrites_last_write_wins() {
    let mut cache = Cache::new();
    cache.set(&key("k1"), &cached(200, 1, "a@b.com")).unwrap();
    cache.set(&key("k1"), &cached(201, 2, "c@d.com")).unwrap();
    let hit = cache.get(&key("k1")).unwrap();
    assert_eq!(201, hit.status);
    assert_eq!(2, hit.user.id);
}

#[test]
fn manager_drains_a_mailbox_in_order() {
    let mut manager = CacheManager::new();
    let mailbox = vec![
        Msg::Get { key: key("k1") },
        Msg::Put { key: key("k1"), val: cached(200, 1, "a@b.com") },
        Msg::Get { key: key("k1") },
        Msg::Put { key: key("k1"), val: cached(200, 2, "e@f.gh") },
        Msg::Get { key: key("k1") },
        Msg::Get { key: key("k2") },
    ];
    let replies = manager.run(&mailbox);
    assert_eq!(6, replies.len());
    assert!(matches!(&replies[0], Reply::Got(None)));
    assert!(matches!(&replies[1], Reply::Done(Ok(()))));
    assert!(matches!(&replies[2], Reply::Got(Some(c)) if c.user.id == 1));
    assert!(matches!(&replies[3], Reply::Done(Ok(()))));
    // the later write won, in send order
    assert!(matches!(&replies[4], Reply::Got(Some(c)) if c.user.id == 2));
    assert!(matches!(&replies[5], Reply::Got(None)));
}

#[test]
fn ikey_validation_bounds() {
    assert!(matches!(IKey::try_from(String::new()), Err(KeyError::EmptyKey)));
    assert!(matches!(IKey::try_from("x".repeat(255)), Err(KeyError::TooLong)));
    let longest = IKey::try_from("x".repeat(254)).unwrap();
    assert_eq!(254, longest.as_str().len());
    assert!(matches!(IKey::from_headers(None), Err(KeyError::MissingKey)));
    let ok = IKey::from_headers(Some("k1".to_string())).unwrap();
    assert_eq!("k1", ok.as_str());
}

#[test]
fn keys_are_not_normalized() {
    let a = key("Key");
    let b = key(" key ");
    assert_ne!(a.as_str(), b.as_str());
}

#[test]
fn repository_assigns_sequential_ids() {
    let mut repo = UserRepository::new();
    let first = repo.create(&NewUser::new("first@email".to_string())).unwrap();
    let second = repo.create(&NewUser::new("second@email".to_string())).unwrap();
    assert_eq!(1, first.id);
    assert_eq!(2, second.id);
    assert!(repo.create(&NewUser::new("first@email".to_string())).is_err());
    assert_eq!(2, repo.list().unwrap().len());
    assert_eq!(first, repo.get(1).unwrap());
    assert!(repo.get(3).is_err());
    assert!(repo.get(0).is_err());
}

#[test]
fn service_validates_emails_and_ids() {
    let mut service = Service::new(UserRepository::new());
    assert!(matches!(
        service.create(&NewUser::new("a@b".to_string())),
        Err(ServiceError::ValidationError(_))
    ));
    let user = service.create(&NewUser::new("a@b.com".to_string())).unwrap();
    assert_eq!(1, user.id);
    assert!(matches!(
        service.create(&NewUser::new("a@b.com".to_string())),
        Err(ServiceError::EmailTaken(_))
    ));
    assert_eq!(user, service.get("1").unwrap());
    assert!(matches!(service.get("one"), Err(ServiceError::ValidationError(_))));
    assert!(matches!(service.get("2"), Err(ServiceError::UserNotFound(_))));
}

#[test]
fn layer_failure_is_a_plain_500() {
    let response = CacheLayerError::new("Receiver Was Dropped".to_string()).to_response();
    assert_eq!(500, response.status);
    assert_eq!("Error While Processing Uncached Request: Receiver Was Dropped", response.body);
}

#[test]
fn error_body_renders_as_json() {
    let body = ErrorBody::new("boom".to_string());
    assert_eq!("{\"error\":\"boom\"}", body.to_json());
}

#[test]
fn error_chain_renders_each_cause() {
    let chain = vec!["top level".to_string(), "middle".to_string(), "root".to_string()];
    assert_eq!(
        "top level\n\nCaused by:\n\tmiddle\nCaused by:\n\troot\n",
        get_error_cause(&chain)
    );
    assert_eq!("", get_error_cause(&Vec::new()));
    assert_eq!("only\n\n", get_error_cause(&vec!["only".to_string()]));
}
