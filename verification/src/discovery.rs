//! The presence beacon: the SSDP announcements of the server and when they
//! are sent.
//!
//! The beacon owns no socket and no timer. On every tick of the interval it
//! is asked for a burst, the datagrams to send in order, and after each send
//! it is told how the send went and says how to go on.

use vstd::prelude::*;
use vstd::string::{StrSliceExecFns, StringExecFns};
use vstd::utf8::encode_utf8;

verus! {

/// The multicast group and port that announcements are sent to.
pub const SSDP_GROUP: &'static str = "239.255.255.250:1900";

/// Seconds between two bursts.
pub const INTERVAL_SECS: u64 = 10;

/// Notification type of the root device.
pub const NT_ROOT: &'static str = "upnp:rootdevice";

/// Notification type of the media server device.
pub const NT_MEDIA_SERVER: &'static str = "urn:schemas-upnp-org:device:MediaServer:1";

/// Notification type of the content directory service.
pub const NT_CONTENT_DIRECTORY: &'static str = "urn:schemas-upnp-org:service:ContentDirectory:1";

/// Notification type of the connection manager service.
pub const NT_CONNECTION_MANAGER: &'static str =
    "urn:schemas-upnp-org:service:ConnectionManager:1";

/// An announcement up to the notification type.
pub const NOTIFY_HEAD: &'static str = "NOTIFY * HTTP/1.1\r\nHOST: 239.255.255.250:1900\r\nNT: ";

/// An announcement between the notification type and the address.
pub const NOTIFY_LOCATION: &'static str = "\r\nNTS: ssdp:alive\r\nLOCATION: http://";

/// An announcement between the address and the service name.
pub const NOTIFY_USN: &'static str = "/root.xml\r\nUSN: ";

/// An announcement from the service name on. Receivers may keep the
/// announcement for half an hour, many times the interval.
pub const NOTIFY_TAIL: &'static str =
    "\r\nCACHE-CONTROL: max-age=1800\r\nSERVER: somesystem, DLNADOC/1.50 UPnP/1.0, rustmedia/1.0\r\n\r\n";

/// The text of the announcement of `nt` under the service name `usn`, by a
/// server whose description is found at `addr`.
pub open spec fn notify_text(nt: Seq<char>, addr: Seq<char>, usn: Seq<char>) -> Seq<char> {
    NOTIFY_HEAD@ + nt + NOTIFY_LOCATION@ + addr + NOTIFY_USN@ + usn + NOTIFY_TAIL@
}

/// The service name of a notification type other than the device itself:
/// the device name, `::`, and the type.
pub open spec fn usn_of(udn: Seq<char>, nt: Seq<char>) -> Seq<char> {
    udn + "::"@ + nt
}

/// Writes one announcement.
pub fn notify_message(nt: &str, addr: &str, usn: &str) -> (text: String)
    ensures
        text@ == notify_text(nt@, addr@, usn@),
{
    let mut text = NOTIFY_HEAD.to_owned();
    text.append(nt);
    text.append(NOTIFY_LOCATION);
    text.append(addr);
    text.append(NOTIFY_USN);
    text.append(usn);
    text.append(NOTIFY_TAIL);
    text
}

/// What an announcement announces. A burst holds them in this order.
#[derive(Clone, Copy, Debug, PartialEq, Eq, Structural)]
pub enum Notice {
    Uuid,
    Root,
    MediaServer,
    ConnectionManager,
    ContentDirectory,
}

/// How many kinds of announcement there are.
pub const NOTICES: usize = 5;

impl Notice {
    /// The `k`-th kind of announcement of a burst.
    pub open spec fn nth(k: int) -> Notice {
        if k == 0 {
            Notice::Uuid
        } else if k == 1 {
            Notice::Root
        } else if k == 2 {
            Notice::MediaServer
        } else if k == 3 {
            Notice::ConnectionManager
        } else {
            Notice::ContentDirectory
        }
    }

    /// The notification type that is announced, for a device named `udn`.
    pub open spec fn nt(self, udn: Seq<char>) -> Seq<char> {
        match self {
            Notice::Uuid => udn,
            Notice::Root => NT_ROOT@,
            Notice::MediaServer => NT_MEDIA_SERVER@,
            Notice::ConnectionManager => NT_CONNECTION_MANAGER@,
            Notice::ContentDirectory => NT_CONTENT_DIRECTORY@,
        }
    }

    /// The text of this announcement, for a device named `udn` at `addr`.
    pub open spec fn text(self, udn: Seq<char>, addr: Seq<char>) -> Seq<char> {
        match self {
            Notice::Uuid => notify_text(udn, addr, udn),
            _ => notify_text(self.nt(udn), addr, usn_of(udn, self.nt(udn))),
        }
    }

    /// A short name for log lines.
    pub fn name(&self) -> (name: &'static str)
        ensures
            name@ == match self {
                Notice::Uuid => "uuid"@,
                Notice::Root => "root"@,
                Notice::MediaServer => "mediaserver"@,
                Notice::ConnectionManager => "connectionmanager"@,
                Notice::ContentDirectory => "contentdir"@,
            },
    {
        match self {
            Notice::Uuid => "uuid",
            Notice::Root => "root",
            Notice::MediaServer => "mediaserver",
            Notice::ConnectionManager => "connectionmanager",
            Notice::ContentDirectory => "contentdir",
        }
    }
}

/// One datagram of a burst.
#[derive(Debug)]
pub struct Announcement {
    pub notice: Notice,
    pub data: Vec<u8>,
}

/// What an [`Announcement`] holds.
pub ghost struct AnnouncementView {
    pub notice: Notice,
    pub data: Seq<u8>,
}

impl View for Announcement {
    type V = AnnouncementView;

    open spec fn view(&self) -> AnnouncementView {
        AnnouncementView { notice: self.notice, data: self.data@ }
    }
}

/// The datagram that announces `notice`: its text in UTF-8.
pub open spec fn announcement_of(notice: Notice, udn: Seq<char>, addr: Seq<char>) -> AnnouncementView {
    AnnouncementView { notice, data: encode_utf8(notice.text(udn, addr)) }
}

/// Writes the datagram that announces `notice`.
pub fn announce(notice: Notice, udn: &str, addr: &str) -> (announcement: Announcement)
    ensures
        announcement@ == announcement_of(notice, udn@, addr@),
{
    let text = match notice {
        Notice::Uuid => notify_message(udn, addr, udn),
        _ => {
            let nt = match notice {
                Notice::Root => NT_ROOT,
                Notice::MediaServer => NT_MEDIA_SERVER,
                Notice::ConnectionManager => NT_CONNECTION_MANAGER,
                _ => NT_CONTENT_DIRECTORY,
            };
            let mut usn = udn.to_owned();
            usn.append("::");
            usn.append(nt);
            notify_message(nt, addr, usn.as_str())
        },
    };
    Announcement { notice, data: text.as_str().as_bytes_vec() }
}

/// How a send went.
#[derive(Clone, Copy, Debug, PartialEq, Eq, Structural)]
pub enum Verdict {
    /// The whole datagram was handed to the transport.
    Delivered,
    /// The transport took only part of the datagram. Worth a warning, no
    /// more: delivery was never certain.
    Truncated,
    /// The transport refused the datagram. The burst is given up; the next
    /// tick tries again.
    Failed,
}

/// Judges a send of `len` bytes from what the transport reported: the
/// number of bytes it took, or `None` for an error.
pub fn judge_send(written: Option<usize>, len: usize) -> (verdict: Verdict)
    ensures
        verdict == match written {
            None => Verdict::Failed,
            Some(n) => if n == len {
                Verdict::Delivered
            } else {
                Verdict::Truncated
            },
        },
{
    match written {
        None => Verdict::Failed,
        Some(n) => if n == len {
            Verdict::Delivered
        } else {
            Verdict::Truncated
        },
    }
}

/// The beacon of one device: its five announcements and how many times
/// each burst repeats them.
#[derive(Debug)]
pub struct Beacon {
    messages: Vec<Announcement>,
    repeat: u8,
}

/// What a [`Beacon`] stands for.
pub ghost struct BeaconView {
    pub messages: Seq<AnnouncementView>,
    pub repeat: u8,
}

/// The five announcements of a device, in the order of a burst.
pub open spec fn announcements(udn: Seq<char>, addr: Seq<char>) -> Seq<AnnouncementView> {
    Seq::new(NOTICES as nat, |k: int| announcement_of(Notice::nth(k), udn, addr))
}

impl BeaconView {
    /// How many datagrams a burst holds.
    pub open spec fn burst_len(self) -> int {
        self.repeat * NOTICES
    }

    /// The datagrams of a burst: the announcements in order, as many times
    /// over as the beacon repeats them.
    pub open spec fn burst(self) -> Seq<AnnouncementView> {
        Seq::new(self.burst_len() as nat, |k: int| self.messages[k % (NOTICES as int)])
    }

    /// The position of the first datagram of a burst, if it has any.
    pub open spec fn first(self) -> Option<usize> {
        if self.repeat > 0 {
            Some(0usize)
        } else {
            None
        }
    }

    /// The position of the datagram to send after the one at `pos`, given
    /// how that send went: the next one, unless the burst is over or the
    /// send failed.
    pub open spec fn next(self, pos: usize, verdict: Verdict) -> Option<usize> {
        if verdict != Verdict::Failed && pos + 1 < self.burst_len() {
            Some((pos + 1) as usize)
        } else {
            None
        }
    }

    /// What is sent over `ticks` ticks of the interval if no send fails: one
    /// burst for each tick.
    pub open spec fn broadcasts(self, ticks: nat) -> Seq<Seq<AnnouncementView>> {
        Seq::new(ticks, |t: int| self.burst())
    }
}

impl View for Beacon {
    type V = BeaconView;

    closed spec fn view(&self) -> BeaconView {
        BeaconView {
            messages: Seq::new(self.messages@.len(), |k: int| self.messages@[k]@),
            repeat: self.repeat,
        }
    }
}

impl Beacon {
    /// Whether the beacon holds its five announcements.
    pub closed spec fn wf(&self) -> bool {
        self.messages@.len() == NOTICES
    }

    /// The beacon of the device named `udn` whose description is found at
    /// `addr`. Each burst repeats the announcements `repeat` times.
    pub fn new(udn: &str, addr: &str, repeat: u8) -> (beacon: Beacon)
        ensures
            beacon.wf(),
            beacon@ == (BeaconView { messages: announcements(udn@, addr@), repeat }),
    {
        let mut messages: Vec<Announcement> = Vec::new();
        messages.push(announce(Notice::Uuid, udn, addr));
        messages.push(announce(Notice::Root, udn, addr));
        messages.push(announce(Notice::MediaServer, udn, addr));
        messages.push(announce(Notice::ConnectionManager, udn, addr));
        messages.push(announce(Notice::ContentDirectory, udn, addr));
        let beacon = Beacon { messages, repeat };
        assert(beacon@.messages =~= announcements(udn@, addr@));
        beacon
    }

    /// How many datagrams a burst holds.
    pub fn burst_len(&self) -> (n: usize)
        ensures
            n == self@.burst_len(),
    {
        self.repeat as usize * NOTICES
    }

    /// The datagram at position `pos` of a burst, if the burst is that long.
    pub fn datagram(&self, pos: usize) -> (datagram: Option<&Announcement>)
        requires
            self.wf(),
        ensures
            match datagram {
                Some(d) => pos < self@.burst_len() && d@ == self@.burst()[pos as int],
                None => pos >= self@.burst_len(),
            },
    {
        if pos < self.burst_len() {
            Some(&self.messages[pos % NOTICES])
        } else {
            None
        }
    }

    /// Starts a burst, on a tick of the interval: the position of the first
    /// datagram to send.
    pub fn on_tick(&self) -> (first: Option<usize>)
        ensures
            first == self@.first(),
    {
        if self.repeat > 0 {
            Some(0)
        } else {
            None
        }
    }

    /// Goes on with a burst after the datagram at `pos` was sent: the
    /// position of the next datagram to send, or `None` where the beacon
    /// rests until the next tick.
    pub fn after_send(&self, pos: usize, verdict: Verdict) -> (next: Option<usize>)
        ensures
            next == self@.next(pos, verdict),
    {
        let len: usize = self.burst_len();
        match verdict {
            Verdict::Failed => None,
            _ => if len > 0 && pos < len - 1 {
                Some(pos + 1)
            } else {
                None
            },
        }
    }
}

/// Over any number of ticks the beacon sends that many bursts, and each
/// burst holds every one of the five announcements of the device, in order,
/// once for each repetition.
pub proof fn lemma_bursts(
    udn: Seq<char>,
    addr: Seq<char>,
    repeat: u8,
    ticks: nat,
    tick: int,
    round: int,
    k: int,
)
    requires
        0 <= tick < ticks,
        0 <= round < repeat,
        0 <= k < NOTICES,
    ensures
        ({
            let beacon = BeaconView { messages: announcements(udn, addr), repeat };
            let sent = beacon.broadcasts(ticks);
            &&& sent.len() == ticks
            &&& sent[tick].len() == repeat * NOTICES
            &&& sent[tick][round * NOTICES + k] == announcement_of(Notice::nth(k), udn, addr)
        }),
{
    let at = round * NOTICES + k;
    assert(0 <= at < repeat * NOTICES) by (nonlinear_arith)
        requires
            0 <= round < repeat,
            0 <= k < NOTICES,
            at == round * NOTICES + k,
    ;
    assert(at % (NOTICES as int) == k) by (nonlinear_arith)
        requires
            0 <= round,
            0 <= k < NOTICES,
            at == round * NOTICES + k,
    ;
}

/// A burst that meets no failure is sent from its first datagram to its
/// last, one after the other.
pub proof fn lemma_burst_runs(beacon: BeaconView, pos: usize, verdict: Verdict)
    requires
        verdict != Verdict::Failed,
        pos < beacon.burst_len(),
    ensures
        beacon.first() == Some(0usize),
        pos + 1 < beacon.burst_len() ==> beacon.next(pos, verdict) == Some((pos + 1) as usize),
        pos + 1 == beacon.burst_len() ==> beacon.next(pos, verdict) is None,
{
}

} // verus!
