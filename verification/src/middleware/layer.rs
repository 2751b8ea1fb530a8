//! The idempotency middleware for the creation endpoint: decide per
//! request whether to answer from the cache, forward to the handler, or
//! pass an uncacheable response through untouched.

use crate::ikey::ikey_valid;
use crate::ikey::IKey;
use crate::json::encode_user;
use crate::json::encode_user_spec;
use crate::json::lemma_error_body_no_user;
use crate::json::lemma_parse_user_spec_of;
use crate::json::parse_new_user_spec;
use crate::json::parse_user;
use crate::json::parse_user_spec;
use crate::middleware::manager::CacheManager;
use crate::middleware::msg::Msg;
use crate::middleware::msg::Reply;
use crate::response::RespV;
use crate::response::Response;
use crate::routes::create::bad_body_message;
use crate::routes::create::create_user;
use crate::routes::create::create_user_spec;
use crate::service::valid_email;
use crate::service::Service;
use crate::user::UserV;
use crate::warehouse::cache::CachedV;
use crate::warehouse::db::email_taken;
use crate::warehouse::db::repo_wf;
use crate::warehouse::CachedResponse;
use vstd::prelude::*;

verus! {

/// The value of an optional header: the characters, when it was there.
pub open spec fn opt_str_view(h: Option<String>) -> Option<Seq<char>> {
    match h {
        None => None,
        Some(s) => Some(s@),
    }
}

/// What processing an uncached keyed request does: run the handler;
/// when its body reads back as a user, record (status, user) under the
/// key and answer unchanged; otherwise record nothing and answer
/// unchanged.
pub open spec fn process_uncached_spec(
    cache: Map<Seq<char>, CachedV>,
    repo: Seq<UserV>,
    key: Seq<char>,
    body: Seq<char>,
) -> (Map<Seq<char>, CachedV>, Seq<UserV>, RespV) {
    let (repo2, resp) = create_user_spec(repo, body);
    match parse_user_spec(resp.body) {
        Some(u) => (
            cache.insert(key, CachedV { status: resp.status, user: u }),
            repo2,
            resp,
        ),
        None => (cache, repo2, resp),
    }
}

/// What processing a keyed request does: on a hit, answer `201` with
/// the recorded user and touch nothing; on a miss, process uncached.
pub open spec fn process_with_key_spec(
    cache: Map<Seq<char>, CachedV>,
    repo: Seq<UserV>,
    key: Seq<char>,
    body: Seq<char>,
) -> (Map<Seq<char>, CachedV>, Seq<UserV>, RespV) {
    if cache.dom().contains(key) {
        (cache, repo, RespV { status: 201, body: encode_user_spec(cache[key].user) })
    } else {
        process_uncached_spec(cache, repo, key, body)
    }
}

/// What processing any creation request does: without a valid key, the
/// handler runs and the cache is neither read nor written; with one, the
/// keyed path runs.
pub open spec fn process_spec(
    cache: Map<Seq<char>, CachedV>,
    repo: Seq<UserV>,
    header: Option<Seq<char>>,
    body: Seq<char>,
) -> (Map<Seq<char>, CachedV>, Seq<UserV>, RespV) {
    match header {
        Some(h) => if ikey_valid(h) {
            process_with_key_spec(cache, repo, h, body)
        } else {
            let (repo2, resp) = create_user_spec(repo, body);
            (cache, repo2, resp)
        },
        None => {
            let (repo2, resp) = create_user_spec(repo, body);
            (cache, repo2, resp)
        },
    }
}

/// The replay answer for a cache hit: `201 Created` with the recorded
/// user — deliberately not the original status, to signal that the
/// result already existed.
pub fn replay_response(cached: &CachedResponse) -> (r: Response)
    ensures
        r@ == (RespV { status: 201, body: encode_user_spec(cached@.user) }),
{
    let body = encode_user(&cached.user);
    Response::new(201, body)
}

/// Processes an uncached request that carries a key: runs the handler,
/// then records the response under the key exactly when its body reads
/// back as a user.
pub fn process_uncached(
    manager: &mut CacheManager,
    service: &mut Service,
    key: &IKey,
    body: &str,
) -> (r: Response)
    requires
        repo_wf(old(service)@),
        old(service)@.len() < u64::MAX,
    ensures
        repo_wf(final(service)@),
        final(manager)@ == process_uncached_spec(old(manager)@, old(service)@, key@, body@).0,
        final(service)@ == process_uncached_spec(old(manager)@, old(service)@, key@, body@).1,
        r@ == process_uncached_spec(old(manager)@, old(service)@, key@, body@).2,
{
    let resp = create_user(service, body);
    match parse_user(resp.body.as_str()) {
        Some(user) => {
            proof {
                lemma_parse_user_spec_of(resp@.body, user@);
            }
            let val = CachedResponse::new(resp.status, user);
            let msg = Msg::Put { key: key.duplicate(), val };
            let reply = manager.handle(&msg);
            match reply {
                Reply::Done(Ok(())) => resp,
                _ => vstd::pervasive::unreached(),
            }
        },
        None => resp,
    }
}

/// Processes a request that carries a key: asks the manager for the
/// key's record and either replays it or goes the uncached way.
pub fn process_with_key(
    manager: &mut CacheManager,
    service: &mut Service,
    key: &IKey,
    body: &str,
) -> (r: Response)
    requires
        repo_wf(old(service)@),
        old(service)@.len() < u64::MAX,
    ensures
        repo_wf(final(service)@),
        final(manager)@ == process_with_key_spec(old(manager)@, old(service)@, key@, body@).0,
        final(service)@ == process_with_key_spec(old(manager)@, old(service)@, key@, body@).1,
        r@ == process_with_key_spec(old(manager)@, old(service)@, key@, body@).2,
{
    let msg = Msg::Get { key: key.duplicate() };
    let reply = manager.handle(&msg);
    match reply {
        Reply::Got(Some(cached)) => replay_response(&cached),
        Reply::Got(None) => process_uncached(manager, service, key, body),
        Reply::Done(_) => vstd::pervasive::unreached(),
    }
}

/// The middleware for the creation endpoint. A request without an
/// `Idempotency-Key` header, or with an invalid one, goes straight to
/// the handler and the cache is not involved at all; a keyed request is
/// answered from the cache when possible and recorded when cacheable.
pub fn process(
    manager: &mut CacheManager,
    service: &mut Service,
    header: Option<String>,
    body: &str,
) -> (r: Response)
    requires
        repo_wf(old(service)@),
        old(service)@.len() < u64::MAX,
    ensures
        repo_wf(final(service)@),
        final(manager)@ == process_spec(
            old(manager)@,
            old(service)@,
            opt_str_view(header),
            body@,
        ).0,
        final(service)@ == process_spec(
            old(manager)@,
            old(service)@,
            opt_str_view(header),
            body@,
        ).1,
        r@ == process_spec(old(manager)@, old(service)@, opt_str_view(header), body@).2,
{
    match IKey::from_headers(header) {
        Err(_) => create_user(service, body),
        Ok(key) => process_with_key(manager, service, &key, body),
    }
}

/// Idempotent replay: once a keyed creation request has been answered
/// with a cacheable body, any later request with the same key — whatever
/// its payload — is answered `201` with that same body, and neither the
/// cache nor the store changes.
pub proof fn lemma_idempotent_replay(
    cache: Map<Seq<char>, CachedV>,
    repo: Seq<UserV>,
    key: Seq<char>,
    body1: Seq<char>,
    body2: Seq<char>,
)
    requires
        ikey_valid(key),
        parse_user_spec(process_spec(cache, repo, Some(key), body1).2.body) is Some,
    ensures
        ({
            let (c1, r1, resp1) = process_spec(cache, repo, Some(key), body1);
            let (c2, r2, resp2) = process_spec(c1, r1, Some(key), body2);
            &&& resp2.status == 201
            &&& resp2.body == resp1.body
            &&& c2 == c1
            &&& r2 == r1
        }),
{
    let (c1, r1, resp1) = process_spec(cache, repo, Some(key), body1);
    if cache.dom().contains(key) {
        assert(resp1.body == encode_user_spec(cache[key].user));
    } else {
        let u = parse_user_spec(resp1.body)->Some_0;
        assert(resp1.body == encode_user_spec(u));
        assert(c1 == cache.insert(key, CachedV { status: resp1.status, user: u }));
        assert(c1.dom().contains(key) && c1[key].user == u);
    }
}

/// No key means no deduplication: without an idempotency key the cache
/// is neither read nor written and the handler always runs, so when a
/// keyless creation succeeded, repeating it verbatim ends in the store's
/// own uniqueness conflict, not in a replay.
pub proof fn lemma_no_key_no_dedup(
    cache: Map<Seq<char>, CachedV>,
    repo: Seq<UserV>,
    body: Seq<char>,
)
    requires
        process_spec(cache, repo, None, body).2.status == 200,
    ensures
        ({
            let (c1, r1, resp1) = process_spec(cache, repo, None, body);
            let (c2, r2, resp2) = process_spec(c1, r1, None, body);
            &&& c1 == cache
            &&& c2 == cache
            &&& resp2.status == 409
            &&& r2 == r1
        }),
{
    let (c1, r1, resp1) = process_spec(cache, repo, None, body);
    let nu = parse_new_user_spec(body)->Some_0;
    assert(r1[repo.len() as int].email == nu.email);
    assert(email_taken(r1, nu.email));
}

/// Only successful payloads are cached: when the handler's response does
/// not read back as a user, it is passed through untouched, nothing is
/// recorded, and a later request with the same key still misses.
/// A failed creation is never cached: the handler's error responses do
/// not read back as users, so a keyed request whose creation did not
/// succeed leaves the cache without the key, and a retry re-runs the
/// handler.
pub proof fn lemma_failed_create_not_cached(
    cache: Map<Seq<char>, CachedV>,
    repo: Seq<UserV>,
    key: Seq<char>,
    body: Seq<char>,
)
    requires
        ikey_valid(key),
        !cache.dom().contains(key),
        create_user_spec(repo, body).1.status != 200,
    ensures
        ({
            let (c1, r1, resp1) = process_spec(cache, repo, Some(key), body);
            &&& c1 == cache
            &&& r1 == create_user_spec(repo, body).0
            &&& resp1 == create_user_spec(repo, body).1
            &&& !c1.dom().contains(key)
        }),
{
    let resp = create_user_spec(repo, body).1;
    match parse_new_user_spec(body) {
        None => {
            lemma_error_body_no_user(bad_body_message());
        },
        Some(nu) => {
            if !valid_email(nu.email) {
                lemma_error_body_no_user("Validation error while processing data"@);
            } else {
                lemma_error_body_no_user("Email Already In Use"@);
            }
        },
    }
    assert(parse_user_spec(resp.body) is None);
    lemma_uncacheable_response_not_cached(cache, repo, key, body);
}

pub proof fn lemma_uncacheable_response_not_cached(
    cache: Map<Seq<char>, CachedV>,
    repo: Seq<UserV>,
    key: Seq<char>,
    body: Seq<char>,
)
    requires
        ikey_valid(key),
        !cache.dom().contains(key),
        parse_user_spec(create_user_spec(repo, body).1.body) is None,
    ensures
        ({
            let (c1, r1, resp1) = process_spec(cache, repo, Some(key), body);
            &&& c1 == cache
            &&& r1 == create_user_spec(repo, body).0
            &&& resp1 == create_user_spec(repo, body).1
            &&& !c1.dom().contains(key)
        }),
{
}

} // verus!

