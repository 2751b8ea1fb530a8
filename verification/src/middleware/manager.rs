//! The cache manager: the one owner of the response cache. It mutates
//! the store only by processing messages, one at a time, so the store's
//! history is exactly the message order.

use crate::middleware::msg::Msg;
use crate::middleware::msg::MsgV;
use crate::middleware::msg::Reply;
use crate::middleware::msg::ReplyV;
use crate::warehouse::cache::CachedV;
use crate::warehouse::Cache;
use vstd::prelude::*;

verus! {

/// One message's effect on the store: a lookup changes nothing, a store
/// upserts its entry.
pub open spec fn apply_msg(st: Map<Seq<char>, CachedV>, m: MsgV) -> Map<Seq<char>, CachedV> {
    match m {
        MsgV::Get { key } => st,
        MsgV::Put { key, val } => st.insert(key, val),
    }
}

/// The reply one message gets at a given store state.
pub open spec fn reply_for(st: Map<Seq<char>, CachedV>, m: MsgV) -> ReplyV {
    match m {
        MsgV::Get { key } => ReplyV::Got(
            if st.dom().contains(key) {
                Some(st[key])
            } else {
                None
            },
        ),
        MsgV::Put { .. } => ReplyV::Done(true),
    }
}

/// A message sequence's effect: the messages applied one at a time, in
/// order.
pub open spec fn apply_all(st: Map<Seq<char>, CachedV>, msgs: Seq<MsgV>) -> Map<
    Seq<char>,
    CachedV,
>
    decreases msgs.len(),
{
    if msgs.len() == 0 {
        st
    } else {
        apply_all(apply_msg(st, msgs[0]), msgs.drop_first())
    }
}

/// The mathematical values of a sequence of messages.
pub open spec fn msgs_views(s: Seq<Msg>) -> Seq<MsgV> {
    s.map_values(|m: Msg| m@)
}

/// Applying one more message continues from the state the earlier ones
/// produced.
pub proof fn lemma_apply_all_snoc(st: Map<Seq<char>, CachedV>, msgs: Seq<MsgV>, m: MsgV)
    ensures
        apply_all(st, msgs.push(m)) == apply_msg(apply_all(st, msgs), m),
    decreases msgs.len(),
{
    let mp = msgs.push(m);
    if msgs.len() == 0 {
        assert(mp[0] == m);
        assert(mp.drop_first() =~= Seq::<MsgV>::empty());
        assert(apply_all(apply_msg(st, m), Seq::<MsgV>::empty()) == apply_msg(st, m));
        assert(apply_all(st, msgs) == st);
    } else {
        assert(mp[0] == msgs[0]);
        assert(mp.drop_first() =~= msgs.drop_first().push(m));
        lemma_apply_all_snoc(apply_msg(st, msgs[0]), msgs.drop_first(), m);
    }
}

/// Processes messages against the cache it exclusively owns. No other
/// component reads or writes the store.
#[derive(Debug)]
pub struct CacheManager {
    cache: Cache,
}

impl View for CacheManager {
    type V = Map<Seq<char>, CachedV>;

    closed spec fn view(&self) -> Map<Seq<char>, CachedV> {
        self.cache@
    }
}

impl CacheManager {
    pub fn new() -> (r: Self)
        ensures
            r@ == Map::<Seq<char>, CachedV>::empty(),
    {
        Self { cache: Cache::new() }
    }

    /// Processes one message: a `Get` answers from the store and leaves
    /// it unchanged; a `Put` upserts the entry and reports success.
    pub fn handle(&mut self, msg: &Msg) -> (r: Reply)
        ensures
            final(self)@ == apply_msg(old(self)@, msg@),
            r@ == reply_for(old(self)@, msg@),
    {
        match msg {
            Msg::Get { key } => match self.cache.get(key) {
                Ok(c) => Reply::Got(Some(c)),
                Err(_) => Reply::Got(None),
            },
            Msg::Put { key, val } => {
                let res = self.cache.set(key, val);
                Reply::Done(res)
            },
        }
    }

    /// Drains a whole mailbox: processes every message in order and
    /// collects the replies in the same order. The store ends exactly as
    /// if the messages were applied sequentially — none is lost,
    /// duplicated or reordered — and each reply reflects the store as
    /// the earlier messages left it.
    pub fn run(&mut self, mailbox: &Vec<Msg>) -> (r: Vec<Reply>)
        ensures
            final(self)@ == apply_all(old(self)@, msgs_views(mailbox@)),
            r@.len() == mailbox@.len(),
            forall|i: int|
                0 <= i < mailbox@.len() ==> (#[trigger] r@[i])@ == reply_for(
                    apply_all(old(self)@, msgs_views(mailbox@).take(i)),
                    msgs_views(mailbox@)[i],
                ),
    {
        let mut replies: Vec<Reply> = Vec::new();
        let mut i: usize = 0;
        proof {
            assert(msgs_views(mailbox@).take(0) =~= Seq::<MsgV>::empty());
        }
        while i < mailbox.len()
            invariant
                i <= mailbox@.len(),
                self@ == apply_all(old(self)@, msgs_views(mailbox@).take(i as int)),
                replies@.len() == i,
                forall|k: int|
                    0 <= k < i ==> (#[trigger] replies@[k])@ == reply_for(
                        apply_all(old(self)@, msgs_views(mailbox@).take(k)),
                        msgs_views(mailbox@)[k],
                    ),
            decreases mailbox@.len() - i,
        {
            let reply = self.handle(&mailbox[i]);
            replies.push(reply);
            proof {
                let views = msgs_views(mailbox@);
                assert(views[i as int] == mailbox@[i as int]@);
                assert(views.take(i + 1) =~= views.take(i as int).push(views[i as int]));
                lemma_apply_all_snoc(old(self)@, views.take(i as int), views[i as int]);
            }
            i += 1;
        }
        proof {
            assert(msgs_views(mailbox@).take(mailbox@.len() as int) =~= msgs_views(mailbox@));
        }
        replies
    }
}

} // verus!
