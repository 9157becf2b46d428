//! The browser login handshake as a state machine. The caller performs the
//! outside work (binding the loopback listener, opening the browser, waiting
//! on the delivery slot against the deadline) and feeds back what happened.
use vstd::prelude::*;
use vstd::string::*;

verus! {

/// How long the handshake waits for the browser, in seconds.
pub const LOGIN_DEADLINE_SECS: u64 = 300;

/// Why a handshake ended without a credential.
#[derive(PartialEq, Eq, Structural, Clone, Copy, Debug)]
pub enum HandshakeError {
    /// No credential arrived before the deadline.
    Timeout,
    /// The loopback listener could not be bound.
    BindFailure,
    /// The delivery channel closed before a credential arrived.
    DeliveryClosed,
}

/// What ended the wait for the browser.
#[derive(Debug)]
pub enum HandshakeEvent {
    /// The delivery slot passed on this credential.
    Delivered(String),
    /// The deadline elapsed first.
    DeadlineElapsed,
    /// The delivery channel closed first.
    DeliveryClosed,
}

/// The phases of one login attempt.
#[derive(Debug)]
pub enum HandshakePhase {
    Idle,
    AwaitingBrowser,
    Delivered(String),
    TimedOut,
    Failed(HandshakeError),
    Closed,
}

impl HandshakePhase {
    /// A phase in which the attempt has its outcome.
    pub open spec fn is_terminal(&self) -> bool {
        self is Delivered || self is TimedOut || self is Failed
    }
}

/// The phase after an event. Only a handshake that awaits the browser
/// reacts; whichever event comes first decides, and later ones change nothing.
pub open spec fn step(phase: HandshakePhase, event: HandshakeEvent) -> HandshakePhase {
    if phase is AwaitingBrowser {
        match event {
            HandshakeEvent::Delivered(c) => HandshakePhase::Delivered(c),
            HandshakeEvent::DeadlineElapsed => HandshakePhase::TimedOut,
            HandshakeEvent::DeliveryClosed => HandshakePhase::Failed(HandshakeError::DeliveryClosed),
        }
    } else {
        phase
    }
}

/// The phase after a sequence of events, in the order in which they came.
pub open spec fn run(phase: HandshakePhase, events: Seq<HandshakeEvent>) -> HandshakePhase
    decreases events.len(),
{
    if events.len() == 0 {
        phase
    } else {
        step(run(phase, events.drop_last()), events.last())
    }
}

/// The outcome that a terminal phase reports.
pub open spec fn outcome(phase: HandshakePhase) -> Result<String, HandshakeError> {
    match phase {
        HandshakePhase::Delivered(c) => Ok(c),
        HandshakePhase::Failed(e) => Err(e),
        _ => Err(HandshakeError::Timeout),
    }
}

/// What `urlencoding::encode` makes of a text.
pub uninterp spec fn percent_encoded(s: Seq<char>) -> Seq<char>;

/// An ASCII character.
pub open spec fn is_ascii_char(c: char) -> bool {
    (c as u32) < 0x80
}

pub open spec fn all_ascii(s: Seq<char>) -> bool {
    forall|i: int| 0 <= i < s.len() ==> is_ascii_char(#[trigger] s[i])
}

/// A character that percent-encoding keeps: a letter, a digit, `-`, `.`,
/// `_` or `~`.
pub open spec fn is_unreserved(c: char) -> bool {
    ('0' as u32 <= c as u32 && c as u32 <= '9' as u32) || ('A' as u32 <= c as u32 && c as u32
        <= 'Z' as u32) || ('a' as u32 <= c as u32 && c as u32 <= 'z' as u32) || c == '-' || c == '.'
        || c == '_' || c == '~'
}

/// An upper-case hexadecimal digit.
pub open spec fn hex_digit(d: int) -> char {
    seq!['0', '1', '2', '3', '4', '5', '6', '7', '8', '9', 'A', 'B', 'C', 'D', 'E', 'F'][d]
}

/// The encoding of one ASCII character: itself if it is kept, else `%`
/// and its two hexadecimal digits.
pub open spec fn ascii_char_encoded(c: char) -> Seq<char> {
    if is_unreserved(c) {
        seq![c]
    } else {
        seq!['%', hex_digit((c as u32 / 16) as int), hex_digit((c as u32 % 16) as int)]
    }
}

/// The percent-encoding of an ASCII text, character by character.
pub open spec fn ascii_percent_encoded(s: Seq<char>) -> Seq<char>
    decreases s.len(),
{
    if s.len() == 0 {
        Seq::<char>::empty()
    } else {
        ascii_percent_encoded(s.drop_last()) + ascii_char_encoded(s.last())
    }
}

/// Relies on `urlencoding::encode`: the percent-encoding of the text, a
/// function of the text alone. It keeps ASCII letters, digits and `-._~`
/// and writes every other byte as `%` and two upper-case hexadecimal
/// digits, so for an ASCII text it is `ascii_percent_encoded`.
#[verifier::external_body]
fn encode_component(s: &str) -> (r: String)
    ensures
        r@ == percent_encoded(s@),
        all_ascii(s@) ==> r@ == ascii_percent_encoded(s@),
{
    urlencoding::encode(s).into_owned()
}

pub open spec fn digit_char(d: nat) -> char {
    if d == 0 {
        '0'
    } else if d == 1 {
        '1'
    } else if d == 2 {
        '2'
    } else if d == 3 {
        '3'
    } else if d == 4 {
        '4'
    } else if d == 5 {
        '5'
    } else if d == 6 {
        '6'
    } else if d == 7 {
        '7'
    } else if d == 8 {
        '8'
    } else {
        '9'
    }
}

/// The decimal text of a number, without leading zeros.
pub open spec fn decimal_text(n: nat) -> Seq<char>
    decreases n,
{
    if n < 10 {
        seq![digit_char(n)]
    } else {
        decimal_text(n / 10).push(digit_char(n % 10))
    }
}

fn digit_str(d: u16) -> (r: &'static str)
    requires
        d < 10,
    ensures
        r@ == seq![digit_char(d as nat)],
{
    proof {
        reveal_strlit("0");
        reveal_strlit("1");
        reveal_strlit("2");
        reveal_strlit("3");
        reveal_strlit("4");
        reveal_strlit("5");
        reveal_strlit("6");
        reveal_strlit("7");
        reveal_strlit("8");
        reveal_strlit("9");
    }
    let r = if d == 0 {
        "0"
    } else if d == 1 {
        "1"
    } else if d == 2 {
        "2"
    } else if d == 3 {
        "3"
    } else if d == 4 {
        "4"
    } else if d == 5 {
        "5"
    } else if d == 6 {
        "6"
    } else if d == 7 {
        "7"
    } else if d == 8 {
        "8"
    } else {
        "9"
    };
    assert(r@ =~= seq![digit_char(d as nat)]);
    r
}

/// Appends the decimal text of `n`.
fn push_decimal(s: &mut String, n: u16)
    ensures
        final(s)@ == old(s)@ + decimal_text(n as nat),
    decreases n,
{
    if n < 10 {
        s.append(digit_str(n));
    } else {
        push_decimal(s, n / 10);
        s.append(digit_str(n % 10));
        assert(old(s)@ + decimal_text(n as nat) =~= old(s)@ + decimal_text((n / 10) as nat) + seq![
            digit_char((n % 10) as nat),
        ]);
    }
}

/// `http://127.0.0.1:`
pub open spec fn loopback_origin() -> Seq<char> {
    seq!['h', 't', 't', 'p', ':', '/', '/', '1', '2', '7', '.', '0', '.', '0', '.', '1', ':']
}

/// `/callback`
pub open spec fn callback_suffix() -> Seq<char> {
    seq!['/', 'c', 'a', 'l', 'l', 'b', 'a', 'c', 'k']
}

/// `/cli-auth?callback=`
pub open spec fn login_path() -> Seq<char> {
    seq![
        '/', 'c', 'l', 'i', '-', 'a', 'u', 't', 'h', '?', 'c', 'a', 'l', 'l', 'b', 'a', 'c', 'k', '=',
    ]
}

/// The callback URL of a listener bound on the loopback address at `port`.
pub open spec fn callback_url_text(port: u16) -> Seq<char> {
    loopback_origin() + decimal_text(port as nat) + callback_suffix()
}

/// The login URL that the browser opens: the server's login page, told where
/// to send the credential.
pub open spec fn login_url_text(api_url: Seq<char>, callback: Seq<char>) -> Seq<char> {
    api_url + login_path() + percent_encoded(callback)
}

proof fn lemma_decimal_text_ascii(n: nat)
    ensures
        all_ascii(decimal_text(n)),
    decreases n,
{
    if n >= 10 {
        lemma_decimal_text_ascii(n / 10);
        let t = decimal_text(n / 10);
        assert forall|i: int| 0 <= i < decimal_text(n).len() implies is_ascii_char(
            #[trigger] decimal_text(n)[i],
        ) by {
            if i < t.len() {
                assert(decimal_text(n)[i] == t[i]);
            }
        }
    }
}

/// A callback URL is ASCII.
proof fn lemma_callback_url_ascii(port: u16)
    ensures
        all_ascii(callback_url_text(port)),
{
    lemma_decimal_text_ascii(port as nat);
    let d = decimal_text(port as nat);
    let u = callback_url_text(port);
    assert forall|i: int| 0 <= i < u.len() implies is_ascii_char(#[trigger] u[i]) by {
        if i < 17 {
            assert(u[i] == loopback_origin()[i]);
        } else if i < 17 + d.len() {
            assert(u[i] == d[i - 17]);
        } else {
            assert(u[i] == callback_suffix()[i - 17 - d.len()]);
        }
    }
}

/// The callback URL for a listener on `port`.
pub fn callback_url(port: u16) -> (r: String)
    ensures
        r@ == callback_url_text(port),
{
    let origin = "http://127.0.0.1:";
    let suffix = "/callback";
    proof {
        reveal_strlit("http://127.0.0.1:");
        reveal_strlit("/callback");
    }
    assert(origin@ =~= loopback_origin());
    assert(suffix@ =~= callback_suffix());
    let mut url = String::from_str(origin);
    push_decimal(&mut url, port);
    url.append(suffix);
    url
}

/// The login URL for the server at `api_url` and the given callback URL.
pub fn login_url(api_url: &str, callback: &str) -> (r: String)
    ensures
        r@ == login_url_text(api_url@, callback@),
        all_ascii(callback@) ==> r@ == api_url@ + login_path() + ascii_percent_encoded(callback@),
{
    let path = "/cli-auth?callback=";
    proof {
        reveal_strlit("/cli-auth?callback=");
    }
    assert(path@ =~= login_path());
    let mut url = String::from_str(api_url);
    url.append(path);
    let encoded = encode_component(callback);
    url.append(encoded.as_str());
    url
}

/// One login attempt.
#[derive(Debug)]
pub struct Handshake {
    pub phase: HandshakePhase,
}

impl Handshake {
    /// A handshake that has not started.
    pub fn new() -> (r: Handshake)
        ensures
            r.phase is Idle,
    {
        Handshake { phase: HandshakePhase::Idle }
    }

    /// Starts the wait once the listener is bound on `port`, and gives the
    /// login URL to open; with no port (the bind failed) the attempt fails.
    pub fn listener_bound(&mut self, api_url: &str, port: Option<u16>) -> (r: Option<String>)
        requires
            old(self).phase is Idle,
        ensures
            match port {
                Some(p) => final(self).phase is AwaitingBrowser && r is Some && r->0@ == login_url_text(
                    api_url@,
                    callback_url_text(p),
                ) && r->0@ == api_url@ + login_path() + ascii_percent_encoded(callback_url_text(p)),
                None => final(self).phase == HandshakePhase::Failed(HandshakeError::BindFailure)
                    && r is None,
            },
    {
        match port {
            Some(p) => {
                let callback = callback_url(p);
                proof {
                    lemma_callback_url_ascii(p);
                }
                self.phase = HandshakePhase::AwaitingBrowser;
                Some(login_url(api_url, callback.as_str()))
            },
            None => {
                self.phase = HandshakePhase::Failed(HandshakeError::BindFailure);
                None
            },
        }
    }

    /// Takes in what ended the wait.
    pub fn on_event(&mut self, event: HandshakeEvent)
        ensures
            final(self).phase == step(old(self).phase, event),
    {
        if let HandshakePhase::AwaitingBrowser = self.phase {
            self.phase = match event {
                HandshakeEvent::Delivered(c) => HandshakePhase::Delivered(c),
                HandshakeEvent::DeadlineElapsed => HandshakePhase::TimedOut,
                HandshakeEvent::DeliveryClosed => HandshakePhase::Failed(
                    HandshakeError::DeliveryClosed,
                ),
            };
        }
    }

    /// Ends a finished attempt (the listener is to be stopped) and reports its
    /// outcome: the delivered credential, or why there is none.
    pub fn close(&mut self) -> (r: Result<String, HandshakeError>)
        requires
            old(self).phase.is_terminal(),
        ensures
            final(self).phase is Closed,
            r == outcome(old(self).phase),
    {
        let mut phase = HandshakePhase::Closed;
        core::mem::swap(&mut self.phase, &mut phase);
        match phase {
            HandshakePhase::Delivered(c) => Ok(c),
            HandshakePhase::Failed(e) => Err(e),
            _ => Err(HandshakeError::Timeout),
        }
    }
}

/// The first event to reach a waiting handshake decides it: a credential
/// that arrives first is the outcome, exactly as delivered; a deadline that
/// elapses first ends it as timed out, whatever is delivered afterwards.
pub proof fn lemma_first_event_decides(events: Seq<HandshakeEvent>)
    requires
        events.len() >= 1,
    ensures
        run(HandshakePhase::AwaitingBrowser, events) == step(HandshakePhase::AwaitingBrowser, events[0]),
        run(HandshakePhase::AwaitingBrowser, events).is_terminal(),
        events[0] matches HandshakeEvent::Delivered(c) ==> outcome(
            run(HandshakePhase::AwaitingBrowser, events),
        ) == Ok::<String, HandshakeError>(c),
        events[0] is DeadlineElapsed ==> outcome(run(HandshakePhase::AwaitingBrowser, events)) == Err::<
            String,
            HandshakeError,
        >(HandshakeError::Timeout),
    decreases events.len(),
{
    if events.len() > 1 {
        lemma_first_event_decides(events.drop_last());
        assert(events.drop_last()[0] == events[0]);
        let prev = run(HandshakePhase::AwaitingBrowser, events.drop_last());
        assert(!(prev is AwaitingBrowser));
        assert(run(HandshakePhase::AwaitingBrowser, events) == prev);
    } else {
        assert(events.drop_last().len() == 0);
        assert(run(HandshakePhase::AwaitingBrowser, events.drop_last()) == HandshakePhase::AwaitingBrowser);
        assert(events.last() == events[0]);
    }
}

} // verus!
