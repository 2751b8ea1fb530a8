//! The message protocol between the cache handle and the cache manager.

use crate::ikey::IKey;
use crate::warehouse::cache::CachedV;
use crate::warehouse::CacheError;
use crate::warehouse::CachedResponse;
use vstd::prelude::*;

verus! {

/// One command for the cache manager: look a key up, or record a
/// response under a key. Created per call, consumed exactly once.
#[derive(Debug)]
pub enum Msg {
    Get { key: IKey },
    Put { key: IKey, val: CachedResponse },
}

/// Mathematical value of a [`Msg`].
pub ghost enum MsgV {
    Get { key: Seq<char> },
    Put { key: Seq<char>, val: CachedV },
}

impl View for Msg {
    type V = MsgV;

    open spec fn view(&self) -> MsgV {
        match self {
            Msg::Get { key } => MsgV::Get { key: key@ },
            Msg::Put { key, val } => MsgV::Put { key: key@, val: val@ },
        }
    }
}

/// What the manager sends back for one message: the lookup's result for
/// a `Get`, the store's verdict for a `Put`.
#[derive(Debug)]
pub enum Reply {
    Got(Option<CachedResponse>),
    Done(Result<(), CacheError>),
}

/// Mathematical value of a [`Reply`]: what a lookup found, or whether a
/// store succeeded.
pub ghost enum ReplyV {
    Got(Option<CachedV>),
    Done(bool),
}

impl View for Reply {
    type V = ReplyV;

    open spec fn view(&self) -> ReplyV {
        match self {
            Reply::Got(c) => ReplyV::Got(
                match c {
                    Some(v) => Some(v@),
                    None => None,
                },
            ),
            Reply::Done(r) => ReplyV::Done(r is Ok),
        }
    }
}

} // verus!
