//! The response cache: a mapping from idempotency key to the response
//! recorded for it.

use crate::ikey::IKey;
use crate::user::User;
use crate::user::UserV;
use vstd::prelude::*;

verus! {

/// What the cache records for a key: the status code of the first
/// successful creation and the user it produced. Never changed in place;
/// a later `set` for the same key replaces the whole entry.
#[derive(Debug, Clone)]
pub struct CachedResponse {
    pub status: u16,
    pub user: User,
}

/// Mathematical value of a [`CachedResponse`].
pub ghost struct CachedV {
    pub status: u16,
    pub user: UserV,
}

impl View for CachedResponse {
    type V = CachedV;

    open spec fn view(&self) -> CachedV {
        CachedV { status: self.status, user: self.user@ }
    }
}

impl CachedResponse {
    pub fn new(status: u16, user: User) -> (r: Self)
        ensures
            r@ == (CachedV { status, user: user@ }),
    {
        Self { status, user }
    }

    /// A copy whose mathematical value is the same as `self`'s.
    pub fn duplicate(&self) -> (r: Self)
        ensures
            r@ == self@,
    {
        CachedResponse { status: self.status, user: self.user.duplicate() }
    }
}

/// Why a cache call failed.
#[derive(Debug, Clone, PartialEq, Eq)]
pub enum CacheError {
    /// Nothing is recorded for this key; carries the key's value.
    CacheMiss(String),
    /// The cache could not be reached at all: the manager is gone. The
    /// store itself never fails; only the surroundings produce this.
    Unexpected(String),
}

/// The mapping the cache stands for.
pub open spec fn entries_map(s: Seq<(IKey, CachedResponse)>) -> Map<Seq<char>, CachedV>
    decreases s.len(),
{
    if s.len() == 0 {
        Map::empty()
    } else {
        entries_map(s.drop_last()).insert(s.last().0@, s.last().1@)
    }
}

/// A response cache, mapping each [`IKey`] to a [`CachedResponse`]. Keys
/// are unique in the mapping; no ordering or eviction semantics exist,
/// and entries live as long as the cache does.
#[derive(Debug)]
pub struct Cache {
    entries: Vec<(IKey, CachedResponse)>,
}

impl View for Cache {
    type V = Map<Seq<char>, CachedV>;

    closed spec fn view(&self) -> Map<Seq<char>, CachedV> {
        entries_map(self.entries@)
    }
}

impl Default for Cache {
    fn default() -> (r: Self)
        ensures
            r@ == Map::<Seq<char>, CachedV>::empty(),
    {
        Self::new()
    }
}

impl Cache {
    pub fn new() -> (r: Self)
        ensures
            r@ == Map::<Seq<char>, CachedV>::empty(),
    {
        let r = Self { entries: Vec::new() };
        proof {
            assert(r.entries@ =~= Seq::<(IKey, CachedResponse)>::empty());
        }
        r
    }

    /// Records `res` for `key`: an unconditional upsert that replaces any
    /// earlier entry for the key. Never fails.
    pub fn set(&mut self, key: &IKey, res: &CachedResponse) -> (r: Result<(), CacheError>)
        ensures
            r is Ok,
            final(self)@ == old(self)@.insert(key@, res@),
    {
        let k = key.duplicate();
        let v = res.duplicate();
        self.entries.push((k, v));
        proof {
            assert(self.entries@.drop_last() =~= old(self).entries@);
            assert(self.entries@.last().0@ == key@);
            assert(self.entries@.last().1@ == res@);
        }
        Ok(())
    }

    /// The response recorded for `key`, or `CacheMiss` when there is
    /// none. A pure lookup without side effects.
    pub fn get(&self, key: &IKey) -> (r: Result<CachedResponse, CacheError>)
        ensures
            match r {
                Ok(c) => self@.dom().contains(key@) && c@ == self@[key@],
                Err(e) => !self@.dom().contains(key@) && (e matches CacheError::CacheMiss(m)
                    && m@ == key@),
            },
    {
        let mut i = self.entries.len();
        proof {
            assert(self.entries@.subrange(0, self.entries@.len() as int) =~= self.entries@);
        }
        while i > 0
            invariant
                i <= self.entries@.len(),
                self@.dom().contains(key@) == entries_map(
                    self.entries@.subrange(0, i as int),
                ).dom().contains(key@),
                self@.dom().contains(key@) ==> self@[key@] == entries_map(
                    self.entries@.subrange(0, i as int),
                )[key@],
            decreases i,
        {
            let ghost pre = self.entries@.subrange(0, i as int);
            proof {
                assert(pre.drop_last() =~= self.entries@.subrange(0, i - 1));
                assert(pre.last() == self.entries@[i - 1]);
            }
            if self.entries[i - 1].0.0 == key.0 {
                let c = self.entries[i - 1].1.duplicate();
                return Ok(c);
            }
            i -= 1;
        }
        proof {
            assert(self.entries@.subrange(0, 0) =~= Seq::<(IKey, CachedResponse)>::empty());
        }
        Err(CacheError::CacheMiss(key.0.clone()))
    }
}

} // verus!
