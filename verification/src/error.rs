//! The body sent with error responses, and the rendering of an error
//! chain as text.

use vstd::prelude::*;

verus! {

/// The body an error response carries: one message under the `error` key.
#[derive(Debug, Clone, PartialEq, Eq)]
pub struct ErrorBody {
    pub error: String,
}

impl View for ErrorBody {
    type V = Seq<char>;

    open spec fn view(&self) -> Seq<char> {
        self.error@
    }
}

impl ErrorBody {
    pub fn new(error: String) -> (r: Self)
        ensures
            r@ == error@,
    {
        Self { error }
    }

    /// This body on the wire: `{"error":"<message>"}`.
    pub fn to_json(&self) -> (r: String)
        ensures
            r@ == crate::json::encode_error_spec(self@),
    {
        crate::json::encode_error_body(self.error.as_str())
    }
}

/// The label put before each cause: `Caused by:`, a line break and a tab.
pub open spec fn caused_by_label() -> Seq<char> {
    seq!['C', 'a', 'u', 's', 'e', 'd', ' ', 'b', 'y', ':', '\n', '\t']
}

/// Every message after the first, each on its own labelled line.
pub open spec fn error_causes(rest: Seq<Seq<char>>) -> Seq<char>
    decreases rest.len(),
{
    if rest.len() == 0 {
        Seq::empty()
    } else {
        caused_by_label() + rest[0] + seq!['\n'] + error_causes(rest.drop_first())
    }
}

/// A whole error chain as text: the first message, a blank line, then
/// each cause on its own labelled line.
pub open spec fn error_chain(msgs: Seq<Seq<char>>) -> Seq<char> {
    if msgs.len() == 0 {
        Seq::empty()
    } else {
        msgs[0] + seq!['\n', '\n'] + error_causes(msgs.drop_first())
    }
}

proof fn lemma_error_causes_snoc(l: Seq<Seq<char>>, m: Seq<char>)
    ensures
        error_causes(l.push(m)) == error_causes(l) + caused_by_label() + m + seq!['\n'],
    decreases l.len(),
{
    let lp = l.push(m);
    if l.len() == 0 {
        assert(lp[0] == m);
        assert(lp.drop_first() =~= Seq::<Seq<char>>::empty());
        assert(error_causes(Seq::<Seq<char>>::empty()) =~= Seq::<char>::empty());
        assert(error_causes(l) =~= Seq::<char>::empty());
        assert(error_causes(lp) =~= error_causes(l) + caused_by_label() + m + seq!['\n']);
    } else {
        assert(lp[0] == l[0]);
        assert(lp.drop_first() =~= l.drop_first().push(m));
        lemma_error_causes_snoc(l.drop_first(), m);
        assert(error_causes(lp) =~= error_causes(l) + caused_by_label() + m + seq!['\n']);
    }
}

fn caused_by_token() -> (r: Vec<char>)
    ensures
        r@ == caused_by_label(),
{
    let v = vec!['C', 'a', 'u', 's', 'e', 'd', ' ', 'b', 'y', ':', '\n', '\t'];
    proof {
        assert(v@ =~= caused_by_label());
    }
    v
}

fn append_token(out: &mut String, tok: &Vec<char>)
    ensures
        final(out)@ == old(out)@ + tok@,
{
    let mut i: usize = 0;
    while i < tok.len()
        invariant
            i <= tok@.len(),
            out@ == old(out)@ + tok@.subrange(0, i as int),
        decreases tok@.len() - i,
    {
        out.push(tok[i]);
        proof {
            assert((old(out)@ + tok@.subrange(0, i as int)).push(tok@[i as int]) =~= old(out)@
                + tok@.subrange(0, i + 1 as int));
        }
        i += 1;
    }
    proof {
        assert(tok@.subrange(0, tok@.len() as int) =~= tok@);
        assert(out@ =~= old(out)@ + tok@);
    }
}

/// The views of a sequence of messages.
pub open spec fn msg_views(msgs: Seq<String>) -> Seq<Seq<char>> {
    msgs.map_values(|m: String| m@)
}

/// Renders an error chain: the first message whole, then every further
/// message as a labelled cause line.
pub fn get_error_cause(messages: &Vec<String>) -> (r: String)
    ensures
        r@ == error_chain(msg_views(messages@)),
{
    let mut out = String::new();
    if messages.len() == 0 {
        proof {
            assert(out@ =~= error_chain(msg_views(messages@)));
        }
        return out;
    }
    out.append(messages[0].as_str());
    out.push('\n');
    out.push('\n');
    let label = caused_by_token();
    let mut i: usize = 1;
    proof {
        let views = msg_views(messages@);
        assert(views.drop_first().subrange(0, 0) =~= Seq::<Seq<char>>::empty());
        assert(out@ =~= views[0] + seq!['\n', '\n'] + error_causes(
            views.drop_first().subrange(0, 0),
        ));
    }
    while i < messages.len()
        invariant
            1 <= i <= messages@.len(),
            label@ == caused_by_label(),
            out@ == msg_views(messages@)[0] + seq!['\n', '\n'] + error_causes(
                msg_views(messages@).drop_first().subrange(0, i - 1),
            ),
        decreases messages@.len() - i,
    {
        let ghost views = msg_views(messages@);
        let ghost done = views.drop_first().subrange(0, i - 1);
        append_token(&mut out, &label);
        out.append(messages[i].as_str());
        out.push('\n');
        proof {
            assert(views[i as int] == messages@[i as int]@);
            lemma_error_causes_snoc(done, views[i as int]);
            assert(views.drop_first().subrange(0, i as int) =~= done.push(views[i as int]));
            assert(out@ =~= views[0] + seq!['\n', '\n'] + error_causes(
                views.drop_first().subrange(0, i as int),
            ));
        }
        i += 1;
    }
    proof {
        let views = msg_views(messages@);
        assert(views.drop_first().subrange(0, views.drop_first().len() as int) =~= views.drop_first());
        assert(out@ =~= error_chain(views));
    }
    out
}

} // verus!
