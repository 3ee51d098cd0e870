//! The Wi-Fi station: its shared state (MAC address, network name, current
//! IPv4 address) and the decisions of the loop that keeps it connected.
use vstd::prelude::*;

verus! {

/// The upper-case hexadecimal digit of `d` (below 16).
pub open spec fn hex_digit(d: u8) -> char {
    if d < 10 {
        (48 + d) as char
    } else {
        (55 + d) as char
    }
}

/// A byte as two upper-case hexadecimal digits.
pub open spec fn hex_pair(b: u8) -> Seq<char> {
    seq![hex_digit(b / 16), hex_digit(b % 16)]
}

/// Bytes as two-digit upper-case hexadecimal numbers joined by `:`.
pub open spec fn mac_text(mac: Seq<u8>) -> Seq<char>
    decreases mac.len(),
{
    if mac.len() == 0 {
        seq![]
    } else if mac.len() == 1 {
        hex_pair(mac[0])
    } else {
        mac_text(mac.drop_last()) + seq![':'] + hex_pair(mac.last())
    }
}

/// The value of an upper-case hexadecimal digit, or -1 for any other character.
pub open spec fn hex_value(c: char) -> int {
    if 48 <= c as int <= 57 {
        c as int - 48
    } else if 65 <= c as int <= 70 {
        c as int - 55
    } else {
        -1
    }
}

/// Every digit below 16 is shown as the upper-case hexadecimal digit that
/// reads back as it: `0`-`9`, then `A`-`F`.
pub proof fn lemma_hex_digit_reads_back(d: u8)
    requires
        d < 16,
    ensures
        hex_value(hex_digit(d)) == d as int,
        d < 10 ==> hex_digit(d) as int == 48 + d,
        d >= 10 ==> hex_digit(d) as int == 65 + (d - 10),
{
}

/// The text of `n` bytes has `3n - 1` characters: byte `i` is shown by the
/// two hexadecimal digits at `3i` and `3i + 1`, which read back as the byte,
/// high digit first, and consecutive bytes are separated by `:`.
pub proof fn lemma_mac_text_reads_back(mac: Seq<u8>)
    requires
        mac.len() >= 1,
    ensures
        mac_text(mac).len() == 3 * mac.len() - 1,
        forall|i: int|
            0 <= i < mac.len() ==> hex_value(#[trigger] mac_text(mac)[3 * i]) * 16 + hex_value(
                mac_text(mac)[3 * i + 1],
            ) == mac[i] as int && 0 <= hex_value(mac_text(mac)[3 * i]) < 16 && 0 <= hex_value(
                mac_text(mac)[3 * i + 1],
            ) < 16,
        forall|i: int| 0 <= i < mac.len() - 1 ==> #[trigger] mac_text(mac)[3 * i + 2] == ':',
    decreases mac.len(),
{
    let n = mac.len() as int;
    let b = mac[n - 1];
    lemma_hex_digit_reads_back(b / 16);
    lemma_hex_digit_reads_back(b % 16);
    if n == 1 {
        assert(mac_text(mac) == hex_pair(mac[0]));
    } else {
        let prev = mac.drop_last();
        lemma_mac_text_reads_back(prev);
        let t = mac_text(mac);
        assert(t == mac_text(prev) + seq![':'] + hex_pair(b));
        assert forall|i: int| 0 <= i < n implies hex_value(#[trigger] t[3 * i]) * 16 + hex_value(
            t[3 * i + 1],
        ) == mac[i] as int && 0 <= hex_value(t[3 * i]) < 16 && 0 <= hex_value(t[3 * i + 1]) < 16 by {
            if i < n - 1 {
                assert(t[3 * i] == mac_text(prev)[3 * i]);
                assert(t[3 * i + 1] == mac_text(prev)[3 * i + 1]);
                assert(prev[i] == mac[i]);
            } else {
                assert(t[3 * i] == hex_digit(b / 16));
                assert(t[3 * i + 1] == hex_digit(b % 16));
            }
        }
        assert forall|i: int| 0 <= i < n - 1 implies #[trigger] t[3 * i + 2] == ':' by {
            if i < n - 2 {
                assert(t[3 * i + 2] == mac_text(prev)[3 * i + 2]);
            }
        }
    }
}

/// Calls `String::push`, which appends one character at the end of the string.
#[verifier::external_body]
fn push_char(s: &mut String, c: char)
    ensures
        final(s)@ == old(s)@.push(c),
{
    s.push(c);
}

fn hex_digit_char(d: u8) -> (c: char)
    requires
        d < 16,
    ensures
        c == hex_digit(d),
{
    if d < 10 {
        (48 + d) as char
    } else {
        (55 + d) as char
    }
}

/// The MAC address as it is shown: six two-digit upper-case hexadecimal
/// numbers joined by colons, such as `A0:B1:C2:D3:E4:F5`.
pub fn mac_address_text(mac: &[u8; 6]) -> (s: String)
    ensures
        s@ == mac_text(mac@),
        s@.len() == 17,
        forall|i: int|
            0 <= i < 6 ==> hex_value(#[trigger] s@[3 * i]) * 16 + hex_value(s@[3 * i + 1])
                == mac[i] as int,
        forall|i: int| 0 <= i < 5 ==> #[trigger] s@[3 * i + 2] == ':',
{
    let mut s = String::new();
    let mut i: usize = 0;
    while i < 6
        invariant
            i <= 6,
            mac@.len() == 6,
            s@ == mac_text(mac@.take(i as int)),
        decreases 6 - i,
    {
        let b = mac[i];
        if i > 0 {
            push_char(&mut s, ':');
        }
        push_char(&mut s, hex_digit_char(b / 16));
        push_char(&mut s, hex_digit_char(b % 16));
        proof {
            let t = mac@.take(i + 1);
            assert(t.drop_last() =~= mac@.take(i as int));
            assert(t.last() == b);
            if i == 0 {
                assert(mac@.take(0) =~= Seq::<u8>::empty());
            }
        }
        i += 1;
    }
    assert(mac@.take(6) =~= mac@);
    proof {
        lemma_mac_text_reads_back(mac@);
    }
    s
}

/// The shared state of the Wi-Fi connection.
pub struct WifiState {
    mac_address: String,
    ssid: String,
    ip_address: Option<[u8; 4]>,
}

impl WifiState {
    /// The MAC address as shown.
    pub closed spec fn spec_mac_address(&self) -> Seq<char> {
        self.mac_address@
    }

    /// The name of the network.
    pub closed spec fn spec_ssid(&self) -> Seq<char> {
        self.ssid@
    }

    /// The IPv4 address that the station holds, if any.
    pub closed spec fn ip(&self) -> Option<[u8; 4]> {
        self.ip_address
    }

    /// The state of a station that has not been given an address yet.
    pub fn new(mac: [u8; 6], ssid: String) -> (r: WifiState)
        ensures
            r.spec_mac_address() == mac_text(mac@),
            r.spec_ssid() == ssid@,
            r.ip() == None::<[u8; 4]>,
    {
        WifiState { mac_address: mac_address_text(&mac), ssid, ip_address: None }
    }

    /// The MAC address as shown, such as `A0:B1:C2:D3:E4:F5`.
    pub fn mac_address(&self) -> (r: &String)
        ensures
            r@ == self.spec_mac_address(),
    {
        &self.mac_address
    }

    /// The name of the network.
    pub fn ssid(&self) -> (r: &String)
        ensures
            r@ == self.spec_ssid(),
    {
        &self.ssid
    }

    /// The IPv4 address that the station holds, if any.
    pub fn ip_address(&self) -> (r: Option<[u8; 4]>)
        ensures
            r == self.ip(),
    {
        self.ip_address
    }
}

/// Where the connection loop stands: which step it has handed out and awaits
/// the outcome of.
#[derive(Clone, Copy, Debug, PartialEq, Eq, Structural)]
pub enum Phase {
    /// Not started yet.
    Idle,
    /// Awaits the outcome of a connection attempt.
    Connecting,
    /// Awaits the outcome of a disconnection after a failed attempt.
    Disconnecting,
    /// Awaits the end of the pause before the next attempt.
    Pausing,
    /// Awaits an IPv4 address from DHCP.
    AcquiringIp,
    /// Connected; awaits the loss of the link.
    Connected,
    /// The loop has ended on an error.
    Stopped,
}

/// The outcome of the step that was handed out last.
pub enum Outcome {
    /// The step succeeded.
    Done,
    /// The step failed.
    Failed,
    /// The wait for an IPv4 address succeeded; the address that the network
    /// interface then reported, or `None` where it could not report one.
    IpAcquired(Option<[u8; 4]>),
}

/// The next step for the one who runs the loop.
#[derive(Clone, Copy, Debug, PartialEq, Eq, Structural)]
pub enum Action {
    /// Start a connection attempt.
    Connect,
    /// Disconnect.
    Disconnect,
    /// Wait this many seconds.
    Pause { seconds: u64 },
    /// Wait at most this many seconds for the interface to come up with an address.
    WaitForIp { timeout_seconds: u64 },
    /// Wait, without limit, until the link goes down.
    WaitForLinkDown,
    /// End the loop with the error of the last step.
    Stop,
}

/// Whether an outcome reports success.
pub open spec fn succeeded(outcome: Outcome) -> bool {
    !(outcome is Failed)
}

/// The address that an outcome reports, if any.
pub open spec fn reported_ip(outcome: Outcome) -> Option<[u8; 4]> {
    match outcome {
        Outcome::IpAcquired(ip) => ip,
        _ => None,
    }
}

/// One step of the connection loop: the phase it moves to and the step it
/// hands out, given the phase and the outcome of the last step.
pub open spec fn spec_step(phase: Phase, outcome: Outcome) -> (Phase, Action) {
    let ok = succeeded(outcome);
    match phase {
        Phase::Idle => (Phase::Connecting, Action::Connect),
        Phase::Connecting => if ok {
            (Phase::AcquiringIp, Action::WaitForIp { timeout_seconds: 10 })
        } else {
            (Phase::Disconnecting, Action::Disconnect)
        },
        Phase::Disconnecting => if ok {
            (Phase::Pausing, Action::Pause { seconds: 1 })
        } else {
            (Phase::Stopped, Action::Stop)
        },
        Phase::Pausing => (Phase::Connecting, Action::Connect),
        Phase::AcquiringIp => if ok {
            (Phase::Connected, Action::WaitForLinkDown)
        } else {
            (Phase::Disconnecting, Action::Disconnect)
        },
        Phase::Connected => if ok {
            (Phase::Connecting, Action::Connect)
        } else {
            (Phase::Stopped, Action::Stop)
        },
        Phase::Stopped => (Phase::Stopped, Action::Stop),
    }
}

/// The decisions of the loop that connects the station and keeps it
/// connected: the one who runs the loop performs each step it hands out and
/// reports the outcome back.
pub struct Connector {
    state: WifiState,
    phase: Phase,
}

impl Connector {
    /// The shared state of the connection.
    pub closed spec fn spec_state(&self) -> WifiState {
        self.state
    }

    /// The shared state of the connection.
    pub fn state(&self) -> (r: &WifiState)
        ensures
            *r == self.spec_state(),
    {
        &self.state
    }

    /// The phase of the loop.
    pub closed spec fn spec_phase(&self) -> Phase {
        self.phase
    }

    /// A connector for a station that is not connected yet.
    pub fn new(mac: [u8; 6], ssid: String) -> (r: Connector)
        ensures
            r.spec_state().spec_mac_address() == mac_text(mac@),
            r.spec_state().spec_ssid() == ssid@,
            r.spec_state().ip() == None::<[u8; 4]>,
            r.spec_phase() == Phase::Idle,
    {
        Connector { state: WifiState::new(mac, ssid), phase: Phase::Idle }
    }

    /// The phase of the loop.
    pub fn phase(&self) -> (p: Phase)
        ensures
            p == self.spec_phase(),
    {
        self.phase
    }

    /// Starts the loop, or starts it again: the first step is a connection attempt.
    pub fn connect(&mut self) -> (a: Action)
        ensures
            a == Action::Connect,
            final(self).spec_phase() == Phase::Connecting,
            final(self).spec_state() == old(self).spec_state(),
    {
        self.phase = Phase::Connecting;
        Action::Connect
    }

    /// Takes the outcome of the last step and hands out the next one. A
    /// successful wait for an address records the address reported with it.
    pub fn advance(&mut self, outcome: Outcome) -> (a: Action)
        ensures
            (final(self).spec_phase(), a) == spec_step(old(self).spec_phase(), outcome),
            final(self).spec_state().spec_mac_address() == old(self).spec_state().spec_mac_address(),
            final(self).spec_state().spec_ssid() == old(self).spec_state().spec_ssid(),
            final(self).spec_state().ip() == if old(self).spec_phase() == Phase::AcquiringIp && succeeded(
                outcome,
            ) {
                reported_ip(outcome)
            } else {
                old(self).spec_state().ip()
            },
            old(self).spec_phase() == Phase::AcquiringIp ==> match outcome {
                Outcome::IpAcquired(ip) => final(self).spec_state().ip() == ip
                    && final(self).spec_phase() == Phase::Connected && a == Action::WaitForLinkDown,
                Outcome::Done => final(self).spec_state().ip() == None::<[u8; 4]>
                    && final(self).spec_phase() == Phase::Connected && a == Action::WaitForLinkDown,
                Outcome::Failed => final(self).spec_state().ip() == old(self).spec_state().ip()
                    && final(self).spec_phase() == Phase::Disconnecting && a == Action::Disconnect,
            },
            old(self).spec_phase() != Phase::AcquiringIp ==> final(self).spec_state().ip() == old(
                self,
            ).spec_state().ip(),
    {
        let ok = match outcome {
            Outcome::Failed => false,
            _ => true,
        };
        let (phase, action) = match self.phase {
            Phase::Idle => (Phase::Connecting, Action::Connect),
            Phase::Connecting => if ok {
                (Phase::AcquiringIp, Action::WaitForIp { timeout_seconds: 10 })
            } else {
                (Phase::Disconnecting, Action::Disconnect)
            },
            Phase::Disconnecting => if ok {
                (Phase::Pausing, Action::Pause { seconds: 1 })
            } else {
                (Phase::Stopped, Action::Stop)
            },
            Phase::Pausing => (Phase::Connecting, Action::Connect),
            Phase::AcquiringIp => if ok {
                let ip = match outcome {
                    Outcome::IpAcquired(ip) => ip,
                    _ => None,
                };
                self.state.ip_address = ip;
                (Phase::Connected, Action::WaitForLinkDown)
            } else {
                (Phase::Disconnecting, Action::Disconnect)
            },
            Phase::Connected => if ok {
                (Phase::Connecting, Action::Connect)
            } else {
                (Phase::Stopped, Action::Stop)
            },
            Phase::Stopped => (Phase::Stopped, Action::Stop),
        };
        self.phase = phase;
        action
    }
}

/// A failed connection attempt, or a failed wait for an address, is followed
/// by a disconnection, a pause of one second and a new attempt, whatever the
/// pause reports.
pub proof fn lemma_failure_is_retried(phase: Phase, pause_outcome: Outcome)
    requires
        phase == Phase::Connecting || phase == Phase::AcquiringIp,
    ensures
        spec_step(phase, Outcome::Failed) == (Phase::Disconnecting, Action::Disconnect),
        spec_step(Phase::Disconnecting, Outcome::Done) == (Phase::Pausing, Action::Pause { seconds: 1 }),
        spec_step(Phase::Pausing, pause_outcome) == (Phase::Connecting, Action::Connect),
{
}

/// The loop ends only where a disconnection or the wait for the loss of the
/// link fails, and once ended it stays ended.
pub proof fn lemma_stops_only_on_fatal_failure(phase: Phase, outcome: Outcome)
    ensures
        (spec_step(phase, outcome).1 == Action::Stop) <==> (phase == Phase::Stopped || (!succeeded(outcome)
            && (phase == Phase::Disconnecting || phase == Phase::Connected))),
        (spec_step(phase, outcome).0 == Phase::Stopped) <==> (spec_step(phase, outcome).1 == Action::Stop),
        phase == Phase::Stopped ==> spec_step(phase, outcome) == (Phase::Stopped, Action::Stop),
{
}

/// A lost link, once reported, leads straight to a new connection attempt;
/// a successful attempt leads to the wait for an address.
pub proof fn lemma_reconnects_after_link_loss(outcome: Outcome)
    requires
        succeeded(outcome),
    ensures
        spec_step(Phase::Connected, outcome) == (Phase::Connecting, Action::Connect),
        spec_step(Phase::Connecting, outcome) == (Phase::AcquiringIp, Action::WaitForIp { timeout_seconds: 10 }),
{
}

/// The whole behaviour of the loop, step by step: after a connection attempt
/// succeeds it waits at most ten seconds for an address; once it has one (or
/// the interface could not report it) it stays connected and waits for the
/// link to drop, whatever address was reported; a failed attempt or address
/// wait is followed by a disconnection; a successful disconnection by a pause
/// of one second and a new attempt; a lost link by a new attempt; a failed
/// disconnection or wait for the loss of the link ends the loop for good.
pub proof fn lemma_transitions(outcome: Outcome)
    ensures
        spec_step(Phase::Idle, outcome) == (Phase::Connecting, Action::Connect),
        !(outcome is Failed) ==> spec_step(Phase::Connecting, outcome) == (Phase::AcquiringIp, Action::WaitForIp { timeout_seconds: 10 }),
        outcome is Failed ==> spec_step(Phase::Connecting, outcome) == (Phase::Disconnecting, Action::Disconnect),
        !(outcome is Failed) ==> spec_step(Phase::Disconnecting, outcome) == (Phase::Pausing, Action::Pause { seconds: 1 }),
        outcome is Failed ==> spec_step(Phase::Disconnecting, outcome) == (Phase::Stopped, Action::Stop),
        spec_step(Phase::Pausing, outcome) == (Phase::Connecting, Action::Connect),
        !(outcome is Failed) ==> spec_step(Phase::AcquiringIp, outcome) == (Phase::Connected, Action::WaitForLinkDown),
        outcome is Failed ==> spec_step(Phase::AcquiringIp, outcome) == (Phase::Disconnecting, Action::Disconnect),
        !(outcome is Failed) ==> spec_step(Phase::Connected, outcome) == (Phase::Connecting, Action::Connect),
        outcome is Failed ==> spec_step(Phase::Connected, outcome) == (Phase::Stopped, Action::Stop),
        spec_step(Phase::Stopped, outcome) == (Phase::Stopped, Action::Stop),
{
}

/// A successful wait for an address records exactly the address reported
/// with it, none where the interface could not report one, and any address
/// keeps the station connected.
pub proof fn lemma_address_is_recorded_as_reported(ip: Option<[u8; 4]>)
    ensures
        succeeded(Outcome::IpAcquired(ip)),
        reported_ip(Outcome::IpAcquired(ip)) == ip,
        reported_ip(Outcome::Done) == None::<[u8; 4]>,
        !succeeded(Outcome::Failed),
        succeeded(Outcome::Done),
        spec_step(Phase::AcquiringIp, Outcome::IpAcquired(ip)) == (Phase::Connected, Action::WaitForLinkDown),
{
}

} // verus!
