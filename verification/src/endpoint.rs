//! Endpoint identities, the messages a client sends to an endpoint, and the
//! transports that carry them.
use vstd::prelude::*;

use crate::receipt::TransmitReceipt;

verus! {

/// The value of a lowercase hexadecimal digit, or `None`.
pub open spec fn hex_digit_value(c: char) -> Option<nat> {
    if '0' <= c && c <= '9' {
        Some((c as nat - '0' as nat) as nat)
    } else if 'a' <= c && c <= 'f' {
        Some((c as nat - 'a' as nat + 10) as nat)
    } else {
        None
    }
}

/// Whether every character of `s` is a lowercase hexadecimal digit.
pub open spec fn all_hex_digits(s: Seq<char>) -> bool {
    forall|i: int| 0 <= i < s.len() ==> hex_digit_value(#[trigger] s[i]) is Some
}

/// The number that the lowercase hexadecimal digits `s` spell, most significant
/// digit first.
pub open spec fn hex_value(s: Seq<char>) -> nat
    decreases s.len(),
{
    if s.len() == 0 {
        0
    } else {
        hex_value(s.drop_last()) * 16 + match hex_digit_value(s.last()) {
            Some(d) => d,
            None => 0,
        }
    }
}

/// `16` to the power `k`.
pub open spec fn pow16(k: nat) -> nat
    decreases k,
{
    if k == 0 { 1 } else { 16 * pow16((k - 1) as nat) }
}

/// The number of hexadecimal digits in a profile id.
pub const PROFILE_ID_DIGITS: usize = 32;

/// What [`ProfileId::parse`] gives for the text `s`: exactly 32 lowercase
/// hexadecimal digits name a profile, anything else names none.
pub open spec fn parse_profile_id(s: Seq<char>) -> Option<u128> {
    if s.len() == PROFILE_ID_DIGITS && all_hex_digits(s) {
        Some(hex_value(s) as u128)
    } else {
        None
    }
}

proof fn lemma_hex_value_bound(s: Seq<char>)
    requires
        all_hex_digits(s),
    ensures
        hex_value(s) < pow16(s.len()),
    decreases s.len(),
{
    if s.len() > 0 {
        let p = s.drop_last();
        assert(all_hex_digits(p)) by {
            assert forall|i: int| 0 <= i < p.len() implies hex_digit_value(#[trigger] p[i]) is Some by {
                assert(p[i] == s[i]);
            }
        }
        lemma_hex_value_bound(p);
        let d: nat = match hex_digit_value(s.last()) { Some(d) => d, None => 0 };
        assert(hex_digit_value(s[s.len() - 1]) is Some);
        assert(d < 16);
        let v = hex_value(p);
        let q = pow16(p.len());
        assert(v * 16 + d < q * 16) by (nonlinear_arith)
            requires v < q, d < 16;
    }
}

proof fn lemma_pow16_32()
    ensures
        pow16(32) == 0x1_0000_0000_0000_0000_0000_0000_0000_0000,
{
    reveal_with_fuel(pow16, 33);
}

/// A saved SSH endpoint profile, named by 128 bits written as 32 lowercase
/// hexadecimal digits.
#[derive(Clone, Copy, Debug, PartialEq, Eq, Hash, Structural)]
pub struct ProfileId {
    pub value: u128,
}

impl ProfileId {
    /// Reads a profile id from its 32-digit lowercase hexadecimal form.
    pub fn parse(text: &str) -> (r: Option<ProfileId>)
        ensures
            r == (match parse_profile_id(text@) {
                Some(v) => Some(ProfileId { value: v }),
                None => None,
            }),
    {
        let n = text.unicode_len();
        if n != PROFILE_ID_DIGITS {
            return None;
        }
        let mut value: u128 = 0;
        let mut i: usize = 0;
        while i < n
            invariant
                n == text@.len(),
                n == PROFILE_ID_DIGITS,
                i <= n,
                all_hex_digits(text@.subrange(0, i as int)),
                value == hex_value(text@.subrange(0, i as int)),
            decreases n - i,
        {
            let c = text.get_char(i);
            let digit: u128 = if '0' <= c && c <= '9' {
                (c as u32 - '0' as u32) as u128
            } else if 'a' <= c && c <= 'f' {
                (c as u32 - 'a' as u32 + 10) as u128
            } else {
                proof {
                    assert(!all_hex_digits(text@)) by {
                        assert(hex_digit_value(text@[i as int]) is None);
                    }
                }
                return None;
            };
            let ghost prefix = text@.subrange(0, i as int);
            let ghost next = text@.subrange(0, i + 1);
            proof {
                assert(next.drop_last() =~= prefix);
                assert(next.last() == c);
                assert(all_hex_digits(next)) by {
                    assert forall|k: int| 0 <= k < next.len() implies hex_digit_value(#[trigger] next[k]) is Some by {
                        if k < i {
                            assert(next[k] == prefix[k]);
                        }
                    }
                }
                lemma_hex_value_bound(next);
                lemma_pow16_32();
                assert(pow16(next.len()) <= pow16(32)) by {
                    lemma_pow16_monotone(next.len(), 32);
                }
            }
            value = value * 16 + digit;
            i = i + 1;
        }
        proof {
            assert(text@.subrange(0, n as int) =~= text@);
        }
        Some(ProfileId { value })
    }
}

proof fn lemma_pow16_monotone(a: nat, b: nat)
    requires
        a <= b,
    ensures
        pow16(a) <= pow16(b),
    decreases b,
{
    if a < b {
        lemma_pow16_monotone(a, (b - 1) as nat);
    }
}

/// Which endpoint a connection talks to.
#[derive(Clone, Copy, Debug, PartialEq, Eq, Hash, Structural)]
pub enum ClientEndpointId {
    /// The server on this machine.
    Local,
    /// A server reached through a saved SSH profile.
    Ssh(ProfileId),
}

impl ClientEndpointId {
    /// Whether this is the local endpoint.
    pub fn is_local(&self) -> (r: bool)
        ensures
            r == (*self == ClientEndpointId::Local),
    {
        match self {
            ClientEndpointId::Local => true,
            ClientEndpointId::Ssh(_) => false,
        }
    }
}

/// The kind of a transport failure.
#[derive(Clone, Copy, Debug, PartialEq, Eq, Structural)]
pub enum TransportErrorKind {
    NotConnected,
    BrokenPipe,
    ConnectionReset,
    ConnectionAborted,
    UnexpectedEof,
    TimedOut,
    Interrupted,
    Other,
}

/// Why a transport call failed.
#[derive(Clone, Debug)]
pub struct TransportError {
    pub kind: TransportErrorKind,
    pub message: String,
}

/// One input event for a pane or a popup terminal.
#[derive(Clone, Debug, PartialEq, Eq)]
pub enum ClientPaneInputEvent {
    /// A key, by its code point and modifier bits.
    Key { code: u32, modifiers: u8 },
    /// Typed text.
    Text { text: String },
    /// A bracketed paste.
    Paste { text: String },
    /// A mouse event at a cell.
    Mouse { kind: u8, column: u16, row: u16, modifiers: u8, lines: u16 },
}

/// A message a client sends to an endpoint.
#[derive(Clone, Debug, PartialEq, Eq)]
pub enum ClientMessage {
    /// Control traffic of the endpoint protocol, such as a health probe.
    EndpointControl { kind: String, data: String },
    /// The client leaves the session.
    Detach,
    /// Raw input for the focused terminal.
    Input { data: Vec<u8> },
    /// The client window gained or lost focus.
    ClientShellFocus { focused: bool },
    /// Input events for one pane.
    ClientShellPaneInput { pane_id: String, events: Vec<ClientPaneInputEvent> },
    /// Input events for one popup terminal.
    ClientShellPopupInput { terminal_id: String, events: Vec<ClientPaneInputEvent> },
}

/// A connection to one endpoint. Implementations decide what reaching the peer
/// means; the registry only reacts to what they report.
pub trait EndpointTransport {
    /// Sends `message`.
    fn send(&mut self, message: &ClientMessage) -> Result<(), TransportError>;

    /// Sends `message` and reports when its last byte reaches the peer. A transport
    /// that writes inline is done when it returns, so it reports the caller's clock
    /// `sent_at`; a queued writer completes the receipt later.
    fn send_tracked(&mut self, message: &ClientMessage, sent_at: u64) -> (r: Result<
        TransmitReceipt,
        TransportError,
    >)
        default_ensures
            r matches Ok(receipt) ==> receipt.known_at() == Some(sent_at),
    {
        match self.send(message) {
            Ok(()) => Ok(TransmitReceipt::transmitted(sent_at)),
            Err(error) => Err(error),
        }
    }

    /// Closes the connection.
    fn disconnect(&mut self) {
    }

    /// Waits, until `deadline` at the latest, for queued frames to leave.
    fn flush(&mut self, deadline: u64) -> (r: Result<(), TransportError>)
        default_ensures
            r is Ok,
    {
        Ok(())
    }

    /// A failure the transport met on its own, such as a writer that stalled.
    fn take_error(&mut self) -> (r: Option<TransportError>)
        default_ensures
            r is None,
    {
        None
    }
}

impl EndpointTransport for Box<dyn EndpointTransport> {
    fn send(&mut self, message: &ClientMessage) -> Result<(), TransportError> {
        (**self).send(message)
    }

    fn send_tracked(&mut self, message: &ClientMessage, sent_at: u64) -> Result<
        TransmitReceipt,
        TransportError,
    > {
        (**self).send_tracked(message, sent_at)
    }

    fn disconnect(&mut self) {
        (**self).disconnect()
    }

    fn flush(&mut self, deadline: u64) -> Result<(), TransportError> {
        (**self).flush(deadline)
    }

    fn take_error(&mut self) -> Option<TransportError> {
        (**self).take_error()
    }
}

} // verus!
