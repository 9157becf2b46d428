//! The loopback callback endpoint: it reads a credential out of one redirect
//! and hands it to a single-use delivery slot.
use vstd::prelude::*;
use vstd::string::*;

use crate::text::{find_char_from, first_index_from, opt_view, same_text};

verus! {

#[verifier::external_type_specification]
#[verifier::external_body]
#[verifier::reject_recursive_types(T)]
pub struct ExOneshotSender<T>(tokio::sync::oneshot::Sender<T>);

/// Relies on tokio's `oneshot::Sender::send`: it consumes the sender, and when
/// the value cannot be sent (the receiver is gone) it hands that same value back.
pub assume_specification<T>[ tokio::sync::oneshot::Sender::<T>::send ](
    s: tokio::sync::oneshot::Sender<T>,
    t: T,
) -> (r: Result<(), T>)
    ensures
        r is Err ==> r->Err_0 == t,
;

/// What `urlencoding::decode` makes of a text: the percent-decoded text, or
/// `None` where the decoded bytes are not UTF-8.
pub uninterp spec fn percent_decoded(s: Seq<char>) -> Option<Seq<char>>;

/// Relies on `urlencoding::decode`: the result is a function of the input, and
/// a text without `%` comes back unchanged.
#[verifier::external_body]
fn decode_component(s: &str) -> (r: Option<String>)
    ensures
        match r {
            Some(d) => percent_decoded(s@) == Some(d@),
            None => percent_decoded(s@) is None,
        },
        (forall|i: int| 0 <= i < s@.len() ==> s@[i] != '%') ==> (r is Some && r->0@ == s@),
{
    match urlencoding::decode(s) {
        Ok(d) => Some(d.into_owned()),
        Err(_) => None,
    }
}

/// The path of the callback route.
pub open spec fn callback_path() -> Seq<char> {
    seq!['/', 'c', 'a', 'l', 'l', 'b', 'a', 'c', 'k']
}

/// The name of the query parameter that carries the credential.
pub open spec fn token_key() -> Seq<char> {
    seq!['t', 'o', 'k', 'e', 'n']
}

/// The value of a `key=value` pair whose key is the credential's, if it is one.
pub open spec fn token_in_pair(p: Seq<char>) -> Option<Seq<char>> {
    let eq = first_index_from(p, 0, '=');
    if eq < p.len() && p.subrange(0, eq) == token_key() {
        Some(p.skip(eq + 1))
    } else {
        None
    }
}

/// The raw credential of a query: the value of the first `&`-separated pair
/// from index `start` on whose key is the credential's.
pub open spec fn token_in_query_from(q: Seq<char>, start: int) -> Option<Seq<char>>
    decreases q.len() - start,
    when 0 <= start <= q.len()
{
    let end = first_index_from(q, start, '&');
    let found = token_in_pair(q.subrange(start, end));
    if found is Some {
        found
    } else if start < end + 1 <= q.len() {
        token_in_query_from(q, end + 1)
    } else {
        None
    }
}

pub open spec fn token_in_query(q: Seq<char>) -> Option<Seq<char>> {
    token_in_query_from(q, 0)
}

/// The credential that a callback request delivers: a request to the callback
/// path whose query holds the credential's parameter, with a value that
/// percent-decodes to text. Every other request is malformed and delivers
/// nothing.
pub open spec fn callback_credential(path: Seq<char>, query: Option<Seq<char>>) -> Option<Seq<char>> {
    if path == callback_path() && query is Some && token_in_query(query->0) is Some {
        percent_decoded(token_in_query(query->0)->0)
    } else {
        None
    }
}

/// What a slot holds after a request that carried `delivered`: the first
/// credential ever offered stays, later ones are dropped.
pub open spec fn slot_after(slot: Option<Seq<char>>, delivered: Option<Seq<char>>) -> Option<Seq<char>> {
    if slot is None {
        delivered
    } else {
        slot
    }
}

/// What a slot holds after a sequence of requests, in the order in which they
/// reached it.
pub open spec fn slot_after_all(slot: Option<Seq<char>>, delivered: Seq<Option<Seq<char>>>) -> Option<Seq<char>>
    decreases delivered.len(),
{
    if delivered.len() == 0 {
        slot
    } else {
        slot_after(slot_after_all(slot, delivered.drop_last()), delivered.last())
    }
}

/// The first credential among a sequence of requests, if any carried one.
pub open spec fn first_delivered(delivered: Seq<Option<Seq<char>>>) -> Option<Seq<char>>
    decreases delivered.len(),
{
    if delivered.len() == 0 {
        None
    } else if delivered[0] is Some {
        delivered[0]
    } else {
        first_delivered(delivered.skip(1))
    }
}

/// The single-use handoff between the callback endpoint and the waiting
/// login: the first credential offered is sent on, every later one is dropped.
pub struct DeliverySlot {
    sender: Option<tokio::sync::oneshot::Sender<String>>,
    handed_over: Ghost<Option<Seq<char>>>,
}

impl View for DeliverySlot {
    type V = Option<Seq<char>>;

    /// The credential that the slot has passed on, or `None` while it is open.
    closed spec fn view(&self) -> Option<Seq<char>> {
        self.handed_over@
    }
}

impl DeliverySlot {
    /// The slot is open exactly while it still holds the sender.
    pub closed spec fn wf(&self) -> bool {
        self.sender is Some <==> self.handed_over@ is None
    }

    /// An open slot in front of the sending half of a one-shot channel.
    pub fn new(sender: tokio::sync::oneshot::Sender<String>) -> (r: DeliverySlot)
        ensures
            r@ is None,
            r.wf(),
    {
        DeliverySlot { sender: Some(sender), handed_over: Ghost(None) }
    }

    /// Whether no credential has been passed on yet.
    pub fn is_open(&self) -> (r: bool)
        requires
            self.wf(),
        ensures
            r == (self@ is None),
    {
        self.sender.is_some()
    }

    /// Offers a credential: the first offer is sent on and closes the slot;
    /// any later one is dropped. Returns whether this offer was taken.
    pub fn offer(&mut self, credential: String) -> (taken: bool)
        requires
            old(self).wf(),
        ensures
            final(self).wf(),
            taken == (old(self)@ is None),
            final(self)@ == slot_after(old(self)@, Some(credential@)),
    {
        let sender = self.sender.take();
        match sender {
            Some(s) => {
                let ghost c = credential@;
                self.handed_over = Ghost(Some(c));
                let _ = s.send(credential);
                true
            },
            None => false,
        }
    }
}

/// The value of a pair whose key is the credential's.
fn pair_token(p: &str) -> (r: Option<&str>)
    ensures
        match r {
            Some(v) => token_in_pair(p@) == Some(v@),
            None => token_in_pair(p@) is None,
        },
{
    let n = p.unicode_len();
    let eq = find_char_from(p, 0, '=');
    if eq >= n {
        return None;
    }
    let key = p.substring_char(0, eq);
    let expected = "token";
    proof {
        reveal_strlit("token");
    }
    assert(expected@ =~= token_key());
    if same_text(key, expected) {
        let v = p.substring_char(eq + 1, n);
        assert(v@ =~= p@.skip(eq + 1));
        Some(v)
    } else {
        None
    }
}

/// The raw value of the credential's parameter in a query.
fn query_token(q: &str) -> (r: Option<&str>)
    ensures
        match r {
            Some(v) => token_in_query(q@) == Some(v@),
            None => token_in_query(q@) is None,
        },
{
    let n = q.unicode_len();
    let mut start: usize = 0;
    loop
        invariant
            start <= n,
            n == q@.len(),
            token_in_query(q@) == token_in_query_from(q@, start as int),
        decreases n - start,
    {
        let end = find_char_from(q, start, '&');
        let pair = q.substring_char(start, end);
        match pair_token(pair) {
            Some(v) => {
                return Some(v);
            },
            None => {},
        }
        if end < n {
            start = end + 1;
        } else {
            return None;
        }
    }
}

/// Answers one request on the loopback endpoint. A request to the callback
/// path whose credential parameter percent-decodes to text is accepted and
/// offers that credential to the slot (only the first offer ever reaches it;
/// later ones are still accepted). Anything else, a value that does not
/// decode included, is rejected and leaves the slot as it was.
pub fn handle_callback(path: &str, query: Option<&str>, slot: &mut DeliverySlot) -> (r: CallbackReply)
    requires
        old(slot).wf(),
    ensures
        final(slot).wf(),
        r == (if callback_credential(path@, opt_view(query)) is Some {
            CallbackReply::Accepted
        } else {
            CallbackReply::Rejected
        }),
        final(slot)@ == slot_after(old(slot)@, callback_credential(path@, opt_view(query))),
        callback_credential(path@, opt_view(query)) is None ==> final(slot)@ == old(slot)@,
{
    let expected = "/callback";
    proof {
        reveal_strlit("/callback");
    }
    assert(expected@ =~= callback_path());
    if !same_text(path, expected) {
        return CallbackReply::Rejected;
    }
    let q = match query {
        Some(q) => q,
        None => {
            return CallbackReply::Rejected;
        },
    };
    let raw = match query_token(q) {
        Some(v) => v,
        None => {
            return CallbackReply::Rejected;
        },
    };
    let credential = match decode_component(raw) {
        Some(d) => d,
        None => {
            return CallbackReply::Rejected;
        },
    };
    let _ = slot.offer(credential);
    CallbackReply::Accepted
}

proof fn lemma_first_delivered_push(d: Seq<Option<Seq<char>>>, x: Option<Seq<char>>)
    ensures
        first_delivered(d.push(x)) == slot_after(first_delivered(d), x),
    decreases d.len(),
{
    if d.len() == 0 {
        assert(d.push(x).skip(1) =~= Seq::<Option<Seq<char>>>::empty());
        assert(first_delivered(d.push(x).skip(1)) is None);
        assert(d.push(x)[0] == x);
    } else if d[0] is Some {
        assert(d.push(x)[0] == d[0]);
    } else {
        assert(d.push(x)[0] == d[0]);
        lemma_first_delivered_push(d.skip(1), x);
        assert(d.push(x).skip(1) =~= d.skip(1).push(x));
    }
}

/// The slot is single-use: whatever requests reach it, in whatever order, it
/// ends up holding the credential of the first request that carried one, and
/// once it holds a credential no later request changes it. In particular,
/// when at least one request reaches an open slot and each carries a
/// credential, exactly the first one is passed on. Each call of
/// `handle_callback` is one step of this run (`slot_after`), so this holds of
/// any number of calls on one slot, in the order the lock admits them.
pub proof fn lemma_slot_keeps_first(slot: Option<Seq<char>>, delivered: Seq<Option<Seq<char>>>)
    ensures
        slot is Some ==> slot_after_all(slot, delivered) == slot,
        slot is None ==> slot_after_all(slot, delivered) == first_delivered(delivered),
        slot is None && delivered.len() >= 1 && delivered[0] is Some ==> slot_after_all(slot, delivered)
            == delivered[0],
    decreases delivered.len(),
{
    if delivered.len() > 0 {
        let init = delivered.drop_last();
        lemma_slot_keeps_first(slot, init);
        lemma_first_delivered_push(init, delivered.last());
        assert(init.push(delivered.last()) =~= delivered);
    }
}

/// The page shown in the browser once the credential has arrived.
pub const CONFIRMATION_PAGE: &'static str = r#"<!DOCTYPE html>
<html>
<head>
    <title>Authentication Successful</title>
    <style>
        body {
            font-family: -apple-system, BlinkMacSystemFont, 'Segoe UI', Roboto, sans-serif;
            display: flex;
            justify-content: center;
            align-items: center;
            height: 100vh;
            margin: 0;
            background: linear-gradient(135deg, #667eea 0%, #764ba2 100%);
            color: white;
        }
        .container {
            text-align: center;
            padding: 2rem;
            background: rgba(255,255,255,0.1);
            border-radius: 1rem;
            backdrop-filter: blur(10px);
        }
        h1 { margin-bottom: 0.5rem; }
        p { opacity: 0.9; }
    </style>
</head>
<body>
    <div class="container">
        <h1>Authentication Successful!</h1>
        <p>You can close this window and return to your terminal.</p>
    </div>
</body>
</html>
"#;

/// The confirmation page's text.
pub open spec fn confirmation_page() -> Seq<char> {
    CONFIRMATION_PAGE@
}

/// `<!DOCTYPE html>`
pub open spec fn html_doctype() -> Seq<char> {
    seq!['<', '!', 'D', 'O', 'C', 'T', 'Y', 'P', 'E', ' ', 'h', 't', 'm', 'l', '>']
}

proof fn lemma_slot_after_all_concat(
    slot: Option<Seq<char>>,
    a: Seq<Option<Seq<char>>>,
    b: Seq<Option<Seq<char>>>,
)
    ensures
        slot_after_all(slot, a + b) == slot_after_all(slot_after_all(slot, a), b),
    decreases b.len(),
{
    if b.len() > 0 {
        lemma_slot_after_all_concat(slot, a, b.drop_last());
        assert((a + b).drop_last() =~= a + b.drop_last());
        assert((a + b).last() == b.last());
    } else {
        assert(a + b =~= a);
    }
}

proof fn lemma_nothing_delivered(slot: Option<Seq<char>>, m: Seq<Option<Seq<char>>>)
    requires
        forall|i: int| 0 <= i < m.len() ==> (#[trigger] m[i]) is None,
    ensures
        slot_after_all(slot, m) == slot,
    decreases m.len(),
{
    if m.len() > 0 {
        lemma_nothing_delivered(slot, m.drop_last());
        assert(m[m.len() - 1] is None);
    }
}

/// Malformed requests change nothing in a run: requests that deliver no
/// credential (another path, no credential parameter, a value that does not
/// decode), wherever they fall among the others, leave the slot, and so the
/// handshake's outcome, exactly as the run without them would.
pub proof fn lemma_malformed_requests_change_nothing(
    slot: Option<Seq<char>>,
    before: Seq<Option<Seq<char>>>,
    malformed: Seq<Option<Seq<char>>>,
    after: Seq<Option<Seq<char>>>,
)
    requires
        forall|i: int| 0 <= i < malformed.len() ==> (#[trigger] malformed[i]) is None,
    ensures
        slot_after_all(slot, before + malformed + after) == slot_after_all(slot, before + after),
{
    lemma_slot_after_all_concat(slot, before + malformed, after);
    lemma_slot_after_all_concat(slot, before, malformed);
    lemma_nothing_delivered(slot_after_all(slot, before), malformed);
    lemma_slot_after_all_concat(slot, before, after);
}

/// `text/html`
pub open spec fn html_type() -> Seq<char> {
    seq!['t', 'e', 'x', 't', '/', 'h', 't', 'm', 'l']
}

/// `text/plain`
pub open spec fn plain_type() -> Seq<char> {
    seq!['t', 'e', 'x', 't', '/', 'p', 'l', 'a', 'i', 'n']
}

/// `Invalid request`
pub open spec fn rejection_text() -> Seq<char> {
    seq!['I', 'n', 'v', 'a', 'l', 'i', 'd', ' ', 'r', 'e', 'q', 'u', 'e', 's', 't']
}

/// The answer to a request on the callback endpoint.
#[derive(PartialEq, Eq, Structural, Clone, Copy, Debug)]
pub enum CallbackReply {
    /// A well-formed callback: a confirmation page.
    Accepted,
    /// Any other request.
    Rejected,
}

impl CallbackReply {
    /// The HTTP status of the reply.
    pub fn status(&self) -> (r: u16)
        ensures
            r == (if *self == CallbackReply::Accepted { 200u16 } else { 400u16 }),
    {
        match self {
            CallbackReply::Accepted => 200,
            CallbackReply::Rejected => 400,
        }
    }

    /// The content type of the reply's body: HTML for the confirmation page,
    /// plain text otherwise.
    pub fn content_type(&self) -> (r: &'static str)
        ensures
            r@ == (if *self == CallbackReply::Accepted {
                html_type()
            } else {
                plain_type()
            }),
    {
        proof {
            reveal_strlit("text/html");
            reveal_strlit("text/plain");
        }
        let r = match self {
            CallbackReply::Accepted => "text/html",
            CallbackReply::Rejected => "text/plain",
        };
        assert(r@ =~= (if *self == CallbackReply::Accepted {
            html_type()
        } else {
            plain_type()
        }));
        r
    }

    /// The reply's body: an HTML page telling the user to return to the
    /// terminal, or a short plain-text refusal.
    pub fn body(&self) -> (r: &'static str)
        ensures
            *self == CallbackReply::Accepted ==> r@ == confirmation_page(),
            *self == CallbackReply::Accepted ==> r@.len() > 15 && r@.subrange(0, 15) == html_doctype(),
            *self == CallbackReply::Rejected ==> r@ == rejection_text(),
    {
        proof {
            reveal_strlit("Invalid request");
            reveal_strlit(r#"<!DOCTYPE html>
<html>
<head>
    <title>Authentication Successful</title>
    <style>
        body {
            font-family: -apple-system, BlinkMacSystemFont, 'Segoe UI', Roboto, sans-serif;
            display: flex;
            justify-content: center;
            align-items: center;
            height: 100vh;
            margin: 0;
            background: linear-gradient(135deg, #667eea 0%, #764ba2 100%);
            color: white;
        }
        .container {
            text-align: center;
            padding: 2rem;
            background: rgba(255,255,255,0.1);
            border-radius: 1rem;
            backdrop-filter: blur(10px);
        }
        h1 { margin-bottom: 0.5rem; }
        p { opacity: 0.9; }
    </style>
</head>
<body>
    <div class="container">
        <h1>Authentication Successful!</h1>
        <p>You can close this window and return to your terminal.</p>
    </div>
</body>
</html>
"#);
        }
        let r = match self {
            CallbackReply::Accepted => CONFIRMATION_PAGE,
            CallbackReply::Rejected => "Invalid request",
        };
        assert(*self == CallbackReply::Rejected ==> r@ =~= rejection_text());
        assert(*self == CallbackReply::Accepted ==> r@.subrange(0, 15) =~= html_doctype());
        r
    }
}

} // verus!
