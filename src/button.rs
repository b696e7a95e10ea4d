use vstd::prelude::*;

use crate::ethernet::{Frame, HEADER_LEN};
use crate::mac::{has_prefix, matches_prefix, Mac};
use crate::prefixes::{amazon_prefixes, AMAZON_PREFIXES};
use crate::time::TimeSpan;

verus! {

/// Capture filter for ARP traffic alone.
pub const FILTER_ARP: &'static str = "arp";

/// Capture filter for DHCP traffic alone.
pub const FILTER_UDP: &'static str = "udp and ( port 67 or port 68 )";

/// The capture filter a session attaches: ARP and DHCP traffic.
pub const FILTER_ALL: &'static str = "arp or ( udp and ( port 67 or port 68 ) )";

/// Snapshot length a session asks for: room for Ethernet, ARP and DHCP headers.
pub const SNAPLEN: i32 = 500;

/// Default debounce interval in milliseconds.
pub const DEFAULT_DEBOUNCE_MILLIS: u64 = 500;

/// A dash button to watch for: one address, or any address in the prefix table.
pub struct AmazonDashButton {
    /// The address to watch for; the wildcard means any address whose prefix is in the table.
    pub mac: Mac,
    /// The capture device by name; none means the system's default device.
    pub device: Option<String>,
    /// Matches this close to the last accepted one are dropped.
    pub debounce: TimeSpan,
    /// The manufacturer prefixes that the wildcard matches.
    pub prefixes: Vec<[u8; 3]>,
}

/// One press: the address that sent the packet and the packet's capture time.
#[derive(Debug, Clone, Copy)]
pub struct DashButtonEvent {
    pub mac: Mac,
    pub time: TimeSpan,
}

/// A captured packet: its capture time and its bytes.
pub struct CapturedPacket {
    pub time: TimeSpan,
    pub data: Vec<u8>,
}

/// The debounced stream of presses of one button; the capture session feeds it packets.
pub struct DashButtonEvents<'a> {
    button: &'a AmazonDashButton,
    last_time: TimeSpan,
}

/// A frame's source address is what the button watches for.
pub open spec fn source_matches(mac: Mac, prefixes: Seq<[u8; 3]>, source: Seq<u8>) -> bool {
    match mac {
        Mac::Specific(a) => source == a@,
        Mac::Any => exists|i: int| 0 <= i < prefixes.len() && has_prefix(source, #[trigger] prefixes[i]@),
    }
}

/// A packet counts as a press: a whole Ethernet header, more than the debounce interval
/// after the last accepted press, from a matching source.
pub open spec fn is_press(b: AmazonDashButton, last: TimeSpan, time: TimeSpan, data: Seq<u8>) -> bool {
    &&& data.len() >= HEADER_LEN
    &&& time.total() > last.total() + b.debounce.total()
    &&& source_matches(b.mac, b.prefixes@, data.subrange(6, 12))
}

/// The event reports the packet's source address and capture time.
pub open spec fn reports(ev: DashButtonEvent, time: TimeSpan, data: Seq<u8>) -> bool {
    &&& ev.time == time
    &&& match ev.mac {
        Mac::Specific(a) => a@ == data.subrange(6, 12),
        Mac::Any => false,
    }
}

/// The time of the last accepted press after a run of packets.
pub open spec fn last_after(b: AmazonDashButton, last: TimeSpan, ps: Seq<CapturedPacket>) -> TimeSpan
    decreases ps.len(),
{
    if ps.len() == 0 {
        last
    } else {
        let before = last_after(b, last, ps.drop_last());
        if is_press(b, before, ps.last().time, ps.last().data@) {
            ps.last().time
        } else {
            before
        }
    }
}

/// The presses that a run of packets gives, in order, as indices into the run.
pub open spec fn press_indices(b: AmazonDashButton, last: TimeSpan, ps: Seq<CapturedPacket>) -> Seq<int>
    decreases ps.len(),
{
    if ps.len() == 0 {
        Seq::empty()
    } else {
        let before = press_indices(b, last, ps.drop_last());
        if is_press(b, last_after(b, last, ps.drop_last()), ps.last().time, ps.last().data@) {
            before.push(ps.len() - 1)
        } else {
            before
        }
    }
}

/// Each event reports the packet at its index, and the indices lie below `bound`.
pub open spec fn reports_each(
    evs: Seq<DashButtonEvent>,
    idx: Seq<int>,
    ps: Seq<CapturedPacket>,
    bound: int,
) -> bool {
    &&& evs.len() == idx.len()
    &&& forall|k: int|
        0 <= k < evs.len() ==> 0 <= #[trigger] idx[k] < bound && reports(
            evs[k],
            ps[idx[k]].time,
            ps[idx[k]].data@,
        )
}

/// A packet exactly one debounce interval after the last accepted press is not a press:
/// a packet must come strictly later than that to count.
pub proof fn lemma_boundary_is_not_press(
    b: AmazonDashButton,
    last: TimeSpan,
    time: TimeSpan,
    data: Seq<u8>,
)
    requires
        time.total() == last.total() + b.debounce.total(),
    ensures
        !is_press(b, last, time, data),
{
}

/// Over any run of packets, the last accepted time never falls below where it started,
/// and every press lies at or before it.
proof fn lemma_presses_bounded(b: AmazonDashButton, start: TimeSpan, ps: Seq<CapturedPacket>)
    ensures
        last_after(b, start, ps).total() >= start.total(),
        forall|k: int|
            0 <= k < press_indices(b, start, ps).len() ==> {
                let i = #[trigger] press_indices(b, start, ps)[k];
                &&& 0 <= i < ps.len()
                &&& ps[i].time.total() <= last_after(b, start, ps).total()
            },
    decreases ps.len(),
{
    if ps.len() > 0 {
        let p = ps.drop_last();
        lemma_presses_bounded(b, start, p);
        let idx = press_indices(b, start, ps);
        assert forall|k: int| 0 <= k < idx.len() implies {
            let i = #[trigger] idx[k];
            &&& 0 <= i < ps.len()
            &&& ps[i].time.total() <= last_after(b, start, ps).total()
        } by {
            if k < press_indices(b, start, p).len() {
                let i = press_indices(b, start, p)[k];
                assert(idx[k] == i);
                assert(ps[i] == p[i]);
            }
        }
    }
}

/// Any two presses that a run of packets gives lie more than the debounce interval apart,
/// the later press coming second.
pub proof fn lemma_presses_spaced(b: AmazonDashButton, start: TimeSpan, ps: Seq<CapturedPacket>)
    ensures
        forall|k1: int, k2: int|
            0 <= k1 < k2 < press_indices(b, start, ps).len() ==> {
                let i1 = #[trigger] press_indices(b, start, ps)[k1];
                let i2 = #[trigger] press_indices(b, start, ps)[k2];
                &&& 0 <= i1 < i2 < ps.len()
                &&& ps[i2].time.total() > ps[i1].time.total() + b.debounce.total()
            },
    decreases ps.len(),
{
    if ps.len() > 0 {
        let p = ps.drop_last();
        lemma_presses_spaced(b, start, p);
        lemma_presses_bounded(b, start, p);
        let idx = press_indices(b, start, ps);
        let prev = press_indices(b, start, p);
        assert forall|k1: int, k2: int| 0 <= k1 < k2 < idx.len() implies {
            let i1 = #[trigger] idx[k1];
            let i2 = #[trigger] idx[k2];
            &&& 0 <= i1 < i2 < ps.len()
            &&& ps[i2].time.total() > ps[i1].time.total() + b.debounce.total()
        } by {
            let i1 = prev[k1];
            assert(idx[k1] == i1);
            assert(ps[i1] == p[i1]);
            if k2 < prev.len() {
                let i2 = prev[k2];
                assert(idx[k2] == i2);
                assert(ps[i2] == p[i2]);
            }
        }
    }
}

fn any_prefix_matches(prefixes: &Vec<[u8; 3]>, source: &[u8]) -> (r: bool)
    ensures
        r == exists|i: int| 0 <= i < prefixes@.len() && has_prefix(source@, #[trigger] prefixes@[i]@),
{
    let mut i: usize = 0;
    while i < prefixes.len()
        invariant
            i <= prefixes@.len(),
            forall|k: int| 0 <= k < i ==> !has_prefix(source@, #[trigger] prefixes@[k]@),
        decreases prefixes@.len() - i,
    {
        if matches_prefix(source, &prefixes[i]) {
            return true;
        }
        i = i + 1;
    }
    false
}

impl AmazonDashButton {
    /// Watches for `mac`, or with the wildcard for any address in the built-in table, on
    /// the default device with the default debounce interval.
    pub fn from_mac(mac: Mac) -> (r: AmazonDashButton)
        ensures
            r.mac == mac,
            r.device is None,
            r.debounce.total() == DEFAULT_DEBOUNCE_MILLIS as int * 1_000_000,
            r.prefixes@ == AMAZON_PREFIXES@,
    {
        AmazonDashButton {
            mac,
            device: None,
            debounce: TimeSpan::from_millis(DEFAULT_DEBOUNCE_MILLIS),
            prefixes: amazon_prefixes(),
        }
    }

    /// The same button, captured on the named device.
    pub fn listen_on(self, device: String) -> (r: AmazonDashButton)
        ensures
            r.device == Some(device),
            r.mac == self.mac,
            r.debounce == self.debounce,
            r.prefixes@ == self.prefixes@,
    {
        AmazonDashButton { device: Some(device), ..self }
    }

    /// The same button, with another debounce interval.
    pub fn debounce(self, interval: TimeSpan) -> (r: AmazonDashButton)
        ensures
            r.debounce == interval,
            r.mac == self.mac,
            r.device == self.device,
            r.prefixes@ == self.prefixes@,
    {
        AmazonDashButton { debounce: interval, ..self }
    }

    /// The same button, with another prefix table for the wildcard.
    pub fn with_prefixes(self, prefixes: Vec<[u8; 3]>) -> (r: AmazonDashButton)
        ensures
            r.prefixes@ == prefixes@,
            r.mac == self.mac,
            r.device == self.device,
            r.debounce == self.debounce,
    {
        AmazonDashButton { prefixes, ..self }
    }

    /// A fresh stream of presses, with no press accepted yet.
    pub fn events(&self) -> (r: DashButtonEvents<'_>)
        ensures
            r.button() == *self,
            r.last_accepted() == (TimeSpan { secs: 0, nanos: 0 }),
    {
        DashButtonEvents { button: self, last_time: TimeSpan::new(0, 0) }
    }
}

impl<'a> DashButtonEvents<'a> {
    /// The button this stream watches for.
    pub closed spec fn button(&self) -> AmazonDashButton {
        *self.button
    }

    /// The capture time of the last accepted press; zero before the first.
    pub closed spec fn last_accepted(&self) -> TimeSpan {
        self.last_time
    }

    /// Takes the next captured packet: a press if it is one, and then it becomes the last
    /// accepted press; otherwise nothing, and the state stays.
    pub fn feed(&mut self, time: TimeSpan, data: &[u8]) -> (r: Option<DashButtonEvent>)
        ensures
            final(self).button() == old(self).button(),
            match r {
                Some(ev) => is_press(old(self).button(), old(self).last_accepted(), time, data@)
                    && reports(ev, time, data@) && final(self).last_accepted() == time,
                None => !is_press(old(self).button(), old(self).last_accepted(), time, data@)
                    && final(self).last_accepted() == old(self).last_accepted(),
            },
    {
        let frame = match Frame::new(data) {
            Ok(f) => f,
            Err(_) => return None,
        };
        let now = time.as_nanos();
        let last = self.last_time.as_nanos();
        let gap = self.button.debounce.as_nanos();
        if now < gap || now - gap <= last {
            return None;
        }
        let source = frame.source();
        let matched = match self.button.mac {
            Mac::Specific(_) => self.button.mac.matches_exact(source),
            Mac::Any => any_prefix_matches(&self.button.prefixes, source),
        };
        if !matched {
            return None;
        }
        match Mac::from_bytes(source) {
            Ok(mac) => {
                self.last_time = time;
                Some(DashButtonEvent { mac, time })
            },
            Err(_) => None,
        }
    }

    /// Takes a run of captured packets in order and returns the presses among them.
    pub fn feed_all(&mut self, packets: &Vec<CapturedPacket>) -> (r: Vec<DashButtonEvent>)
        ensures
            final(self).button() == old(self).button(),
            final(self).last_accepted() == last_after(
                old(self).button(),
                old(self).last_accepted(),
                packets@,
            ),
            reports_each(
                r@,
                press_indices(old(self).button(), old(self).last_accepted(), packets@),
                packets@,
                packets@.len() as int,
            ),
    {
        let ghost b = self.button();
        let ghost start = self.last_accepted();
        let mut out: Vec<DashButtonEvent> = Vec::new();
        let mut i: usize = 0;
        while i < packets.len()
            invariant
                i <= packets@.len(),
                self.button() == b,
                self.last_accepted() == last_after(b, start, packets@.take(i as int)),
                reports_each(out@, press_indices(b, start, packets@.take(i as int)), packets@, i as int),
            decreases packets@.len() - i,
        {
            let p = &packets[i];
            assert(packets@.take(i as int + 1).drop_last() =~= packets@.take(i as int));
            let ghost before = out@;
            let r = self.feed(p.time, p.data.as_slice());
            match r {
                Some(ev) => {
                    out.push(ev);
                },
                None => {},
            }
            proof {
                let ps = packets@.take(i as int + 1);
                let prev = press_indices(b, start, packets@.take(i as int));
                assert(ps.last() == packets@[i as int]);
                let idx = press_indices(b, start, ps);
                assert forall|k: int| 0 <= k < out@.len() implies 0 <= #[trigger] idx[k] < i + 1
                    && reports(out@[k], packets@[idx[k]].time, packets@[idx[k]].data@) by {
                    if k < before.len() {
                        assert(out@[k] == before[k]);
                        assert(idx[k] == prev[k]);
                    }
                }
                assert(out@.len() == press_indices(b, start, ps).len());
            }
            i = i + 1;
        }
        assert(packets@.take(packets@.len() as int) =~= packets@);
        out
    }
}

} // verus!
