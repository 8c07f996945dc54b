//! The listener's decisions: when to join the group, what to send, and what
//! to tell the window about registrations, disconnections and errors. The
//! sockets themselves are driven outside; they report back here.
use vstd::prelude::*;
use crate::app::Message;
use crate::text::{parse_decimal, parse_unsigned};
use vstd::utf8::encode_utf8;

verus! {

/// What the window asks of the listener: join a group (address, port,
/// TTL), send text to it (address, port, text), or stop.
#[derive(Debug, Clone, PartialEq, Eq)]
pub enum ListenerEvent {
    Register(String, String, String),
    SendData(String, String, String),
    Stop,
}

/// What the listener must do outside after an event.
#[derive(Debug)]
pub enum ListenerCommand {
    /// Nothing; wait for the next event.
    Wait,
    /// Join the group at this address, port and TTL on every local IPv4
    /// interface, and report the outcomes.
    Join { ip: String, port: String, ttl: String },
    /// Send these bytes to this `address:port` on every connection.
    Send { destination: String, payload: Vec<u8> },
    /// Pass this message to the window.
    Report(Message),
}

/// How joining the group went on one interface.
#[derive(Debug)]
pub struct InterfaceOutcome {
    /// The interface's name.
    pub interface: String,
    /// Why joining failed, if it did.
    pub error: Option<String>,
}

/// How many interfaces joined.
pub open spec fn joined_count(outcomes: Seq<InterfaceOutcome>) -> nat
    decreases outcomes.len(),
{
    if outcomes.len() == 0 {
        0
    } else {
        joined_count(outcomes.drop_last()) + if outcomes.last().error is None {
            1nat
        } else {
            0nat
        }
    }
}

/// One line per failed interface, in order: `<interface> -> <error>`.
pub open spec fn failure_report(outcomes: Seq<InterfaceOutcome>) -> Seq<char>
    decreases outcomes.len(),
{
    if outcomes.len() == 0 {
        Seq::empty()
    } else {
        let prev = failure_report(outcomes.drop_last());
        match outcomes.last().error {
            Some(e) => prev + outcomes.last().interface@ + " -> "@ + e@ + "\n"@,
            None => prev,
        }
    }
}

/// One address of a network interface.
#[derive(Debug, Clone, Copy, PartialEq, Eq, Structural)]
pub enum InterfaceAddress {
    /// An IPv4 address, by its four octets.
    V4(u8, u8, u8, u8),
    /// Any other address.
    Other,
}

/// The last IPv4 address in a list of interface addresses, if any.
pub open spec fn last_ipv4_of(addresses: Seq<InterfaceAddress>) -> Option<(u8, u8, u8, u8)>
    decreases addresses.len(),
{
    if addresses.len() == 0 {
        None
    } else {
        match addresses.last() {
            InterfaceAddress::V4(a, b, c, d) => Some((a, b, c, d)),
            InterfaceAddress::Other => last_ipv4_of(addresses.drop_last()),
        }
    }
}

/// The address the listener joins on for an interface: its last IPv4
/// address; none when it has no IPv4 address.
pub fn last_ipv4(addresses: &Vec<InterfaceAddress>) -> (r: Option<(u8, u8, u8, u8)>)
    ensures
        r == last_ipv4_of(addresses@),
{
    let mut k: usize = addresses.len();
    assert(addresses@.take(k as int) =~= addresses@);
    while k > 0
        invariant
            k <= addresses@.len(),
            last_ipv4_of(addresses@) == last_ipv4_of(addresses@.take(k as int)),
        decreases k,
    {
        assert(addresses@.take(k as int).drop_last() =~= addresses@.take(k - 1));
        match addresses[k - 1] {
            InterfaceAddress::V4(a, b, c, d) => {
                return Some((a, b, c, d));
            },
            InterfaceAddress::Other => {},
        }
        k = k - 1;
    }
    None
}

/// The port and time-to-live a registration uses.
#[derive(Debug, Clone, Copy, PartialEq, Eq, Structural)]
pub struct RegistrationSettings {
    pub port: u16,
    pub ttl: u32,
}

/// Reads the port and TTL of a registration: the port must be a number up
/// to 65535 and the TTL a number that fits 32 bits; the port is checked
/// first.
pub fn registration_settings(port: &str, ttl: &str) -> (r: Result<RegistrationSettings, String>)
    ensures
        match (parse_unsigned(port@, 65535), parse_unsigned(ttl@, 4294967295)) {
            (None, _) => r matches Err(e) && e@ == "Invalid port provided"@,
            (Some(_), None) => r matches Err(e) && e@ == "invalid TTL value provided"@,
            (Some(p), Some(t)) => r matches Ok(s) && s.port == p && s.ttl == t,
        },
{
    let p = match parse_decimal(port, 65535) {
        Some(p) => p,
        None => {
            return Err(String::from_str("Invalid port provided"));
        },
    };
    let t = match parse_decimal(ttl, 4294967295) {
        Some(t) => t,
        None => {
            return Err(String::from_str("invalid TTL value provided"));
        },
    };
    Ok(RegistrationSettings { port: p as u16, ttl: t as u32 })
}

/// The text reported for a send or receive error on one interface.
pub fn communication_error(interface: &str, address: &str, error: &str) -> (r: String)
    ensures
        r@ == "Interface: `"@ + interface@ + "`, Addr: `"@ + address@ + "` -> Error: `"@ + error@
            + "`"@,
{
    let mut r = String::from_str("Interface: `");
    r.append(interface);
    r.append("`, Addr: `");
    r.append(address);
    r.append("` -> Error: `");
    r.append(error);
    r.append("`");
    r
}

/// The listener: idle until a registration succeeds, then listening until
/// told to stop.
#[derive(Debug)]
pub struct Listener {
    pub listening: bool,
}

impl Listener {
    /// A listener that has not joined any group.
    pub fn new() -> (l: Listener)
        ensures
            !l.listening,
    {
        Listener { listening: false }
    }

    /// Reacts to an event from the window. While idle it only answers a
    /// registration, by joining; while listening it sends data, ignores a
    /// second registration, and on stop reports the disconnection and goes
    /// idle.
    pub fn handle_event(&mut self, event: ListenerEvent) -> (cmd: ListenerCommand)
        ensures
            match event {
                ListenerEvent::Register(ip, port, ttl) => if old(self).listening {
                    final(self).listening && cmd is Wait
                } else {
                    !final(self).listening && (cmd matches ListenerCommand::Join {
                        ip: i,
                        port: p,
                        ttl: t,
                    } && i@ == ip@ && p@ == port@ && t@ == ttl@)
                },
                ListenerEvent::SendData(ip, port, data) => final(self).listening == old(
                    self,
                ).listening && if old(self).listening {
                    cmd matches ListenerCommand::Send { destination, payload } && destination@
                        == ip@ + ":"@ + port@ && payload@ == encode_utf8(data@)
                } else {
                    cmd is Wait
                },
                ListenerEvent::Stop => !final(self).listening && if old(self).listening {
                    cmd matches ListenerCommand::Report(Message::Disconnected)
                } else {
                    cmd is Wait
                },
            },
    {
        match event {
            ListenerEvent::Register(ip, port, ttl) => {
                if self.listening {
                    ListenerCommand::Wait
                } else {
                    ListenerCommand::Join { ip, port, ttl }
                }
            },
            ListenerEvent::SendData(ip, port, data) => {
                if self.listening {
                    let mut destination = ip;
                    destination.append(":");
                    destination.append(port.as_str());
                    let payload = vstd::slice::slice_to_vec(data.as_str().as_bytes());
                    ListenerCommand::Send { destination, payload }
                } else {
                    ListenerCommand::Wait
                }
            },
            ListenerEvent::Stop => {
                if self.listening {
                    self.listening = false;
                    ListenerCommand::Report(Message::Disconnected)
                } else {
                    ListenerCommand::Wait
                }
            },
        }
    }

    /// Reports how joining went: with no interface joined, the failures
    /// (one line each) and the listener stays idle; else the number joined,
    /// and the listener listens.
    pub fn registration_finished(&mut self, outcomes: &Vec<InterfaceOutcome>) -> (m: Message)
        ensures
            final(self).listening == (joined_count(outcomes@) > 0),
            joined_count(outcomes@) == 0 ==> (m matches Message::RegisterFail(e) && e@
                == failure_report(outcomes@)),
            joined_count(outcomes@) > 0 ==> (m matches Message::RegisterSuccess(n) && n
                == joined_count(outcomes@)),
    {
        let mut report = String::new();
        let mut joined: usize = 0;
        let n = outcomes.len();
        for i in 0..n
            invariant
                n == outcomes@.len(),
                report@ == failure_report(outcomes@.take(i as int)),
                joined == joined_count(outcomes@.take(i as int)),
                joined <= i,
        {
            let o = &outcomes[i];
            assert(outcomes@.take(i + 1).drop_last() =~= outcomes@.take(i as int));
            assert(outcomes@.take(i + 1).last() == *o);
            match &o.error {
                Some(e) => {
                    report.append(o.interface.as_str());
                    report.append(" -> ");
                    report.append(e.as_str());
                    report.append("\n");
                },
                None => {
                    joined = joined + 1;
                },
            }
        }
        assert(outcomes@.take(n as int) =~= outcomes@);
        if joined == 0 {
            self.listening = false;
            Message::RegisterFail(report)
        } else {
            self.listening = true;
            Message::RegisterSuccess(joined)
        }
    }
}

/// The joined count is the number of interfaces that joined (whose outcome
/// has no error), wherever they stand in the list.
pub proof fn lemma_joined_count_counts_joins(outcomes: Seq<InterfaceOutcome>)
    ensures
        joined_count(outcomes) == outcomes.filter(|o: InterfaceOutcome| o.error is None).len(),
    decreases outcomes.len(),
{
    reveal_with_fuel(Seq::filter, 1);
    if outcomes.len() > 0 {
        lemma_joined_count_counts_joins(outcomes.drop_last());
    }
}

/// One interface that joined makes the registration succeed, wherever it
/// stands among the outcomes.
pub proof fn lemma_one_join_succeeds(outcomes: Seq<InterfaceOutcome>, i: int)
    requires
        0 <= i < outcomes.len(),
        outcomes[i].error is None,
    ensures
        joined_count(outcomes) > 0,
    decreases outcomes.len(),
{
    if i < outcomes.len() - 1 {
        assert(outcomes.drop_last()[i] == outcomes[i]);
        lemma_one_join_succeeds(outcomes.drop_last(), i);
    }
}

} // verus!
