//! The state of the network, as NetworkManager tells it over D-Bus.
//!
//! Which question comes next depends on the answers before it, so the inquiry is
//! a `Scan`: it says what to ask, takes in the answer, and ends in a `NetInfo`.

use crate::text::{from_utf8_lossy, owned, same_text, strip_char, stripped, utf8_lossy, view_opt, views};
use vstd::prelude::*;
use vstd::utf8::{decode_utf8, valid_utf8};

verus! {

pub const NM: &'static str = "org.freedesktop.NetworkManager";

pub const NM_PATH: &'static str = "/org/freedesktop/NetworkManager";

pub const NM_IF: &'static str = "org.freedesktop.NetworkManager";

pub const DEV_IF: &'static str = "org.freedesktop.NetworkManager.Device";

pub const WIFI_IF: &'static str = "org.freedesktop.NetworkManager.Device.Wireless";

pub const AP_IF: &'static str = "org.freedesktop.NetworkManager.AccessPoint";

/// What the bar shows of the network.
pub struct NetInfo {
    pub connected: bool,
    pub ssid: Option<String>,
    pub signal_strength: Option<u8>,
}

/// The state of the network by its characters.
pub struct NetView {
    pub connected: bool,
    pub ssid: Option<Seq<char>>,
    pub signal_strength: Option<u8>,
}

impl View for NetInfo {
    type V = NetView;

    open spec fn view(&self) -> NetView {
        NetView {
            connected: self.connected,
            ssid: view_opt(self.ssid),
            signal_strength: self.signal_strength,
        }
    }
}

// ---------------------------------------------------------------------------
// Questions and answers
// ---------------------------------------------------------------------------

/// The value of a property, as far as the inquiry looks into it.
pub enum Property {
    Byte(u8),
    Word(u32),
    Path(String),
    /// The elements of an array: the bytes among them, and gaps for the others.
    Array(Vec<Option<u8>>),
    Variant(Box<Property>),
    Other,
}

/// The value of a property by its characters.
pub enum PropertyView {
    Byte(u8),
    Word(u32),
    Path(Seq<char>),
    Array(Seq<Option<u8>>),
    Variant(Box<PropertyView>),
    Other,
}

impl View for Property {
    type V = PropertyView;

    open spec fn view(&self) -> PropertyView
        decreases self,
    {
        match *self {
            Property::Byte(b) => PropertyView::Byte(b),
            Property::Word(w) => PropertyView::Word(w),
            Property::Path(s) => PropertyView::Path(s@),
            Property::Array(v) => PropertyView::Array(v@),
            Property::Variant(p) => PropertyView::Variant(Box::new((*p).view())),
            Property::Other => PropertyView::Other,
        }
    }
}

/// What is inside a variant; anything else as it is.
pub open spec fn content(p: PropertyView) -> PropertyView {
    match p {
        PropertyView::Variant(inner) => *inner,
        _ => p,
    }
}

/// The number in a property, 0 where it holds none.
pub open spec fn word(p: PropertyView) -> u32 {
    match content(p) {
        PropertyView::Word(w) => w,
        _ => 0,
    }
}

/// A question to NetworkManager.
pub enum Query {
    /// The property `prop` of the interface `iface` of the object `path`.
    Get { path: String, iface: String, prop: String },
    /// The objects of all devices.
    Devices,
}

/// A question by its characters.
pub enum QueryView {
    Get { path: Seq<char>, iface: Seq<char>, prop: Seq<char> },
    Devices,
}

impl View for Query {
    type V = QueryView;

    open spec fn view(&self) -> QueryView {
        match *self {
            Query::Get { path, iface, prop } => QueryView::Get {
                path: path@,
                iface: iface@,
                prop: prop@,
            },
            Query::Devices => QueryView::Devices,
        }
    }
}

/// An answer of NetworkManager.
pub enum Answer {
    Property(Property),
    Devices(Vec<String>),
    Failed,
}

/// An answer by its characters.
pub enum AnswerView {
    Property(PropertyView),
    Devices(Seq<Seq<char>>),
    Failed,
}

impl View for Answer {
    type V = AnswerView;

    open spec fn view(&self) -> AnswerView {
        match *self {
            Answer::Property(p) => AnswerView::Property(p@),
            Answer::Devices(v) => AnswerView::Devices(views(v@)),
            Answer::Failed => AnswerView::Failed,
        }
    }
}

/// The question for a property.
pub open spec fn get(path: Seq<char>, iface: Seq<char>, prop: Seq<char>) -> QueryView {
    QueryView::Get { path, iface, prop }
}

// ---------------------------------------------------------------------------
// What an answer says
// ---------------------------------------------------------------------------

/// Whether a state of NetworkManager counts as connected.
pub open spec fn is_connected(state: u32) -> bool {
    state == 50 || state == 60 || state == 70
}

/// The bytes among the elements of an array.
pub open spec fn bytes_of(items: Seq<Option<u8>>) -> Seq<u8>
    decreases items.len(),
{
    if items.len() == 0 {
        Seq::empty()
    } else {
        match items.last() {
            Some(b) => bytes_of(items.drop_last()).push(b),
            None => bytes_of(items.drop_last()),
        }
    }
}

/// The name of a network in the array that holds it: its bytes as text, without
/// the zero characters around it.
pub open spec fn network_name(items: Seq<Option<u8>>) -> Seq<char> {
    stripped(utf8_lossy(bytes_of(items)), '\0')
}

/// The access point that an answer names, where it names one.
pub open spec fn access_point(a: AnswerView) -> Option<Seq<char>> {
    match a {
        AnswerView::Property(p) => match content(p) {
            PropertyView::Path(s) => if s.len() > 0 && s != "/"@ {
                Some(s)
            } else {
                None
            },
            _ => None,
        },
        _ => None,
    }
}

/// The name of a network that an answer gives, where it gives one.
pub open spec fn answered_name(a: AnswerView) -> Option<Seq<char>> {
    match a {
        AnswerView::Property(p) => match content(p) {
            PropertyView::Array(items) => Some(network_name(items)),
            _ => None,
        },
        _ => None,
    }
}

/// The strength of a signal that an answer gives, where it gives one.
pub open spec fn answered_strength(a: AnswerView) -> Option<u8> {
    match a {
        AnswerView::Property(p) => match content(p) {
            PropertyView::Byte(b) => Some(b),
            _ => None,
        },
        _ => None,
    }
}

/// The number that an answer gives, 0 where it gives none.
pub open spec fn answered_word(a: AnswerView) -> u32 {
    match a {
        AnswerView::Property(p) => word(p),
        _ => 0,
    }
}

// ---------------------------------------------------------------------------
// The inquiry
// ---------------------------------------------------------------------------

/// Where an inquiry stands: what it has to ask next, or how it ended.
#[derive(Clone, Copy, PartialEq, Eq, Structural, Debug)]
pub enum Stage {
    State,
    Devices,
    DeviceType,
    AccessPoint,
    Ssid,
    Strength,
    WiredState,
    Done,
    Failed,
}

/// An inquiry in progress.
pub struct Scan {
    stage: Stage,
    connected: bool,
    devices: Vec<String>,
    at: usize,
    access_point: String,
    ssid: Option<String>,
    strength: Option<u8>,
    wired: bool,
}

/// An inquiry by its characters.
pub struct ScanView {
    pub stage: Stage,
    pub connected: bool,
    pub devices: Seq<Seq<char>>,
    pub at: int,
    pub access_point: Seq<char>,
    pub ssid: Option<Seq<char>>,
    pub strength: Option<u8>,
    pub wired: bool,
}

impl View for Scan {
    type V = ScanView;

    closed spec fn view(&self) -> ScanView {
        ScanView {
            stage: self.stage,
            connected: self.connected,
            devices: views(self.devices@),
            at: self.at as int,
            access_point: self.access_point@,
            ssid: view_opt(self.ssid),
            strength: self.strength,
            wired: self.wired,
        }
    }
}

/// Whether a stage concerns a device.
pub open spec fn about_device(stage: Stage) -> bool {
    match stage {
        Stage::DeviceType | Stage::AccessPoint | Stage::Ssid | Stage::Strength
        | Stage::WiredState => true,
        _ => false,
    }
}

impl ScanView {
    /// A stage that concerns a device has one.
    pub open spec fn well_formed(self) -> bool {
        about_device(self.stage) ==> 0 <= self.at < self.devices.len()
    }

    /// An inquiry of which nothing has been asked yet.
    pub open spec fn start() -> ScanView {
        ScanView {
            stage: Stage::State,
            connected: false,
            devices: Seq::empty(),
            at: 0,
            access_point: Seq::empty(),
            ssid: None,
            strength: None,
            wired: false,
        }
    }

    /// The question that comes next, where there is one.
    pub open spec fn query(self) -> Option<QueryView> {
        let device = self.devices[self.at];
        match self.stage {
            Stage::State => Some(get(NM_PATH@, NM_IF@, "State"@)),
            Stage::Devices => Some(QueryView::Devices),
            Stage::DeviceType => Some(get(device, DEV_IF@, "DeviceType"@)),
            Stage::AccessPoint => Some(get(device, WIFI_IF@, "ActiveAccessPoint"@)),
            Stage::Ssid => Some(get(self.access_point, AP_IF@, "Ssid"@)),
            Stage::Strength => Some(get(self.access_point, AP_IF@, "Strength"@)),
            Stage::WiredState => Some(get(device, DEV_IF@, "State"@)),
            Stage::Done | Stage::Failed => None,
        }
    }

    /// The inquiry at the device after the one it is at.
    pub open spec fn next_device(self) -> ScanView {
        ScanView {
            at: self.at + 1,
            stage: if self.at + 1 < self.devices.len() {
                Stage::DeviceType
            } else {
                Stage::Done
            },
            ..self
        }
    }

    /// The inquiry after an answer.
    pub open spec fn advance(self, answer: AnswerView) -> ScanView {
        match self.stage {
            Stage::State => match answer {
                AnswerView::Property(p) => ScanView {
                    connected: is_connected(word(p)),
                    stage: Stage::Devices,
                    ..self
                },
                _ => ScanView { stage: Stage::Failed, ..self },
            },
            Stage::Devices => match answer {
                AnswerView::Devices(devices) => (ScanView { devices, at: -1, ..self }).next_device(),
                _ => ScanView { stage: Stage::Failed, ..self },
            },
            Stage::DeviceType => if answered_word(answer) == 2 {
                ScanView { stage: Stage::AccessPoint, ..self }
            } else if answered_word(answer) == 1 {
                ScanView { stage: Stage::WiredState, ..self }
            } else {
                self.next_device()
            },
            Stage::AccessPoint => match access_point(answer) {
                Some(s) => ScanView { access_point: s, stage: Stage::Ssid, ..self },
                None => self.next_device(),
            },
            Stage::Ssid => ScanView {
                ssid: match answered_name(answer) {
                    Some(s) => Some(s),
                    None => self.ssid,
                },
                stage: Stage::Strength,
                ..self
            },
            Stage::Strength => (ScanView {
                strength: match answered_strength(answer) {
                    Some(b) => Some(b),
                    None => self.strength,
                },
                ..self
            }).next_device(),
            Stage::WiredState => (ScanView {
                wired: self.wired || answered_word(answer) >= 100,
                ..self
            }).next_device(),
            Stage::Done | Stage::Failed => self,
        }
    }

    /// What an inquiry found that has come to its end.
    pub open spec fn found(self) -> Option<NetView> {
        if self.stage == Stage::Done {
            Some(
                NetView {
                    connected: self.connected,
                    ssid: match self.ssid {
                        Some(s) => Some(s),
                        None => if self.wired {
                            Some("wired"@)
                        } else {
                            None
                        },
                    },
                    signal_strength: self.strength,
                },
            )
        } else {
            None
        }
    }
}

/// What is inside a variant; anything else as it is.
pub fn unwrapped(p: Property) -> (r: Property)
    ensures
        r@ == content(p@),
{
    match p {
        Property::Variant(inner) => *inner,
        other => other,
    }
}

/// The number in a property, 0 where it holds none.
fn word_in(p: &Property) -> (w: u32)
    ensures
        w == (match p@ {
            PropertyView::Word(w) => w,
            _ => 0u32,
        }),
{
    match p {
        Property::Word(w) => *w,
        _ => 0,
    }
}

/// The bytes among the elements of an array.
fn bytes_among(items: &Vec<Option<u8>>) -> (out: Vec<u8>)
    ensures
        out@ == bytes_of(items@),
{
    let mut out: Vec<u8> = Vec::new();
    let mut i: usize = 0;
    assert(items@.take(0) =~= Seq::<Option<u8>>::empty());
    while i < items.len()
        invariant
            i <= items@.len(),
            out@ == bytes_of(items@.take(i as int)),
        decreases items@.len() - i,
    {
        assert(items@.take(i + 1).drop_last() =~= items@.take(i as int));
        if let Some(b) = items[i] {
            out.push(b);
        }
        i += 1;
    }
    assert(items@.take(items@.len() as int) =~= items@);
    out
}

/// The name of a network in the array that holds it.
pub fn ssid_text(items: &Vec<Option<u8>>) -> (r: String)
    ensures
        r@ == network_name(items@),
        valid_utf8(bytes_of(items@)) && !decode_utf8(bytes_of(items@)).contains('\0') ==> r@ == decode_utf8(
            bytes_of(items@),
        ),
{
    let bytes = bytes_among(items);
    let text = from_utf8_lossy(bytes.as_slice());
    proof {
        let (none, t) = (Seq::<char>::empty(), text@);
        if !t.contains('\0') {
            if t.len() > 0 {
                assert(t.contains(t[0]) && t.contains(t[t.len() - 1]));
            }
            crate::text::stripping_takes_off_the_ends(none, t, none, '\0');
            assert(none + t + none =~= t);
        }
    }
    strip_char(text.as_str(), '\0')
}

fn get_query(path: &str, iface: &str, prop: &str) -> (q: Query)
    ensures
        q@ == get(path@, iface@, prop@),
{
    Query::Get { path: owned(path), iface: owned(iface), prop: owned(prop) }
}

/// A question that may be absent, by its characters.
pub open spec fn query_opt(q: Option<Query>) -> Option<QueryView> {
    match q {
        Some(q) => Some(q@),
        None => None,
    }
}

/// What was found, where anything was, by its characters.
pub open spec fn net_opt(n: Option<NetInfo>) -> Option<NetView> {
    match n {
        Some(n) => Some(n@),
        None => None,
    }
}

impl Scan {
    /// An inquiry of which nothing has been asked yet.
    pub fn start() -> (s: Scan)
        ensures
            s@ == ScanView::start(),
            s@.well_formed(),
    {
        let s = Scan {
            stage: Stage::State,
            connected: false,
            devices: Vec::new(),
            at: 0,
            access_point: String::new(),
            ssid: None,
            strength: None,
            wired: false,
        };
        assert(views(s.devices@) =~= Seq::<Seq<char>>::empty());
        s
    }

    /// The question that comes next; none where the inquiry has ended.
    pub fn query(&self) -> (q: Option<Query>)
        requires
            self@.well_formed(),
        ensures
            query_opt(q) == self@.query(),
    {
        match self.stage {
            Stage::State => Some(get_query(NM_PATH, NM_IF, "State")),
            Stage::Devices => Some(Query::Devices),
            Stage::DeviceType => Some(
                get_query(self.devices[self.at].as_str(), DEV_IF, "DeviceType"),
            ),
            Stage::AccessPoint => Some(
                get_query(self.devices[self.at].as_str(), WIFI_IF, "ActiveAccessPoint"),
            ),
            Stage::Ssid => Some(get_query(self.access_point.as_str(), AP_IF, "Ssid")),
            Stage::Strength => Some(get_query(self.access_point.as_str(), AP_IF, "Strength")),
            Stage::WiredState => Some(get_query(self.devices[self.at].as_str(), DEV_IF, "State")),
            Stage::Done => None,
            Stage::Failed => None,
        }
    }

    fn go_to_next_device(&mut self)
        requires
            old(self)@.at < old(self)@.devices.len(),
        ensures
            final(self)@ == old(self)@.next_device(),
    {
        let count: usize = self.devices.len();
        self.at = self.at + 1;
        if self.at < count {
            self.stage = Stage::DeviceType;
        } else {
            self.stage = Stage::Done;
        }
    }

    /// Takes in the answer to the question that came next.
    pub fn answer(&mut self, answer: Answer)
        requires
            old(self)@.well_formed(),
        ensures
            final(self)@ == old(self)@.advance(answer@),
            final(self)@.well_formed(),
    {
        let property = match answer {
            Answer::Property(p) => Some(unwrapped(p)),
            Answer::Devices(devices) => {
                if self.stage == Stage::Devices {
                    self.at = 0;
                    if devices.len() > 0 {
                        self.stage = Stage::DeviceType;
                    } else {
                        self.stage = Stage::Done;
                    }
                    self.devices = devices;
                    return ;
                }
                None
            },
            Answer::Failed => None,
        };
        match self.stage {
            Stage::State => match property {
                Some(p) => {
                    let state: u32 = word_in(&p);
                    self.connected = state == 50 || state == 60 || state == 70;
                    self.stage = Stage::Devices;
                },
                None => {
                    self.stage = Stage::Failed;
                },
            },
            Stage::Devices => {
                self.stage = Stage::Failed;
            },
            Stage::DeviceType => {
                let kind: u32 = match property {
                    Some(p) => word_in(&p),
                    None => 0,
                };
                if kind == 2 {
                    self.stage = Stage::AccessPoint;
                } else if kind == 1 {
                    self.stage = Stage::WiredState;
                } else {
                    self.go_to_next_device();
                }
            },
            Stage::AccessPoint => {
                if let Some(Property::Path(path)) = property {
                    if !path.as_str().is_empty() && !same_text(path.as_str(), "/") {
                        self.access_point = path;
                        self.stage = Stage::Ssid;
                        return ;
                    }
                }
                self.go_to_next_device();
            },
            Stage::Ssid => {
                if let Some(Property::Array(items)) = property {
                    self.ssid = Some(ssid_text(&items));
                }
                self.stage = Stage::Strength;
            },
            Stage::Strength => {
                if let Some(Property::Byte(b)) = property {
                    self.strength = Some(b);
                }
                self.go_to_next_device();
            },
            Stage::WiredState => {
                let state: u32 = match property {
                    Some(p) => word_in(&p),
                    None => 0,
                };
                if state >= 100 {
                    self.wired = true;
                }
                self.go_to_next_device();
            },
            Stage::Done => {},
            Stage::Failed => {},
        }
    }
}

/// The state of the network that an inquiry found: something where it came to its
/// end, nothing where it failed or goes on.
pub fn status(scan: &Scan) -> (r: Option<NetInfo>)
    ensures
        net_opt(r) == scan@.found(),
{
    if scan.stage != Stage::Done {
        return None;
    }
    let ssid = match &scan.ssid {
        Some(s) => Some(s.clone()),
        None => if scan.wired {
            Some(owned("wired"))
        } else {
            None
        },
    };
    Some(NetInfo { connected: scan.connected, ssid, signal_strength: scan.strength })
}

// ---------------------------------------------------------------------------
// A whole inquiry
// ---------------------------------------------------------------------------

/// The inquiry after at most `steps` questions that `bus` answers.
pub open spec fn run(scan: ScanView, bus: spec_fn(QueryView) -> AnswerView, steps: nat) -> ScanView
    decreases steps,
{
    match scan.query() {
        Some(q) => if steps == 0 {
            scan
        } else {
            run(scan.advance(bus(q)), bus, (steps - 1) as nat)
        },
        None => scan,
    }
}

/// What kind of device `device` is, 0 where that cannot be read.
pub open spec fn device_kind(bus: spec_fn(QueryView) -> AnswerView, device: Seq<char>) -> u32 {
    answered_word(bus(get(device, DEV_IF@, "DeviceType"@)))
}

/// The access point of `device`, where it is a wireless device that has one.
pub open spec fn device_access_point(
    bus: spec_fn(QueryView) -> AnswerView,
    device: Seq<char>,
) -> Option<Seq<char>> {
    if device_kind(bus, device) == 2 {
        access_point(bus(get(device, WIFI_IF@, "ActiveAccessPoint"@)))
    } else {
        None
    }
}

/// The name of the network that `device` is in, where it can be read.
pub open spec fn device_ssid(bus: spec_fn(QueryView) -> AnswerView, device: Seq<char>) -> Option<
    Seq<char>,
> {
    match device_access_point(bus, device) {
        Some(ap) => answered_name(bus(get(ap, AP_IF@, "Ssid"@))),
        None => None,
    }
}

/// The strength of the signal that `device` has, where it can be read.
pub open spec fn device_strength(bus: spec_fn(QueryView) -> AnswerView, device: Seq<char>) -> Option<
    u8,
> {
    match device_access_point(bus, device) {
        Some(ap) => answered_strength(bus(get(ap, AP_IF@, "Strength"@))),
        None => None,
    }
}

/// Whether `device` is a wired device that is in use.
pub open spec fn device_wired(bus: spec_fn(QueryView) -> AnswerView, device: Seq<char>) -> bool {
    device_kind(bus, device) == 1 && answered_word(bus(get(device, DEV_IF@, "State"@))) >= 100
}

/// The name of the network of the last of `devices` that has one.
pub open spec fn last_ssid(
    bus: spec_fn(QueryView) -> AnswerView,
    devices: Seq<Seq<char>>,
) -> Option<Seq<char>>
    decreases devices.len(),
{
    if devices.len() == 0 {
        None
    } else {
        match device_ssid(bus, devices.last()) {
            Some(s) => Some(s),
            None => last_ssid(bus, devices.drop_last()),
        }
    }
}

/// The strength of the signal of the last of `devices` that has one.
pub open spec fn last_strength(
    bus: spec_fn(QueryView) -> AnswerView,
    devices: Seq<Seq<char>>,
) -> Option<u8>
    decreases devices.len(),
{
    if devices.len() == 0 {
        None
    } else {
        match device_strength(bus, devices.last()) {
            Some(s) => Some(s),
            None => last_strength(bus, devices.drop_last()),
        }
    }
}

/// Whether one of `devices` is a wired device that is in use.
pub open spec fn some_wired(
    bus: spec_fn(QueryView) -> AnswerView,
    devices: Seq<Seq<char>>,
) -> bool {
    exists|i: int| 0 <= i < devices.len() && device_wired(bus, #[trigger] devices[i])
}

/// The state of the network that `bus` describes: nothing where it does not tell
/// its own state or its devices; else whether it is connected, and name and signal
/// of the last wireless device, or `wired` where a wired device is in use and no
/// wireless one gives a name.
pub open spec fn network_status(bus: spec_fn(QueryView) -> AnswerView) -> Option<NetView> {
    match (bus(get(NM_PATH@, NM_IF@, "State"@)), bus(QueryView::Devices)) {
        (AnswerView::Property(p), AnswerView::Devices(devices)) => Some(
            NetView {
                connected: is_connected(word(p)),
                ssid: match last_ssid(bus, devices) {
                    Some(s) => Some(s),
                    None => if some_wired(bus, devices) {
                        Some("wired"@)
                    } else {
                        None
                    },
                },
                signal_strength: last_strength(bus, devices),
            },
        ),
        _ => None,
    }
}

/// What is known once the devices before `at` have been asked.
spec fn knows(scan: ScanView, bus: spec_fn(QueryView) -> AnswerView, at: int) -> bool {
    let seen = scan.devices.take(at);
    &&& 0 <= at <= scan.devices.len()
    &&& scan.at == at
    &&& scan.stage == if at < scan.devices.len() {
        Stage::DeviceType
    } else {
        Stage::Done
    }
    &&& scan.ssid == last_ssid(bus, seen)
    &&& scan.strength == last_strength(bus, seen)
    &&& scan.wired == some_wired(bus, seen)
}

/// One question and its answer.
proof fn one_step(scan: ScanView, bus: spec_fn(QueryView) -> AnswerView, steps: nat)
    requires
        scan.query() is Some,
        steps > 0,
    ensures
        run(scan, bus, steps) == run(
            scan.advance(bus(scan.query()->0)),
            bus,
            (steps - 1) as nat,
        ),
{
}

proof fn one_more_seen(devices: Seq<Seq<char>>, bus: spec_fn(QueryView) -> AnswerView, at: int)
    requires
        0 <= at < devices.len(),
    ensures
        ({
            let seen = devices.take(at);
            let now = devices.take(at + 1);
            let device = devices[at];
            &&& last_ssid(bus, now) == match device_ssid(bus, device) {
                Some(s) => Some(s),
                None => last_ssid(bus, seen),
            }
            &&& last_strength(bus, now) == match device_strength(bus, device) {
                Some(s) => Some(s),
                None => last_strength(bus, seen),
            }
            &&& some_wired(bus, now) == (some_wired(bus, seen) || device_wired(bus, device))
        }),
{
    let seen = devices.take(at);
    let now = devices.take(at + 1);
    assert(now.drop_last() =~= seen);
    assert(now.last() == devices[at]);
    if some_wired(bus, seen) {
        let i = choose|i: int| 0 <= i < seen.len() && device_wired(bus, #[trigger] seen[i]);
        assert(device_wired(bus, now[i]));
    }
    if device_wired(bus, devices[at]) {
        assert(device_wired(bus, now[at]));
    }
    if some_wired(bus, now) {
        let i = choose|i: int| 0 <= i < now.len() && device_wired(bus, #[trigger] now[i]);
        if i < at {
            assert(device_wired(bus, seen[i]));
        }
    }
}

/// The inquiry once the device it is at has been asked, and how many questions
/// that took.
spec fn after_device(scan: ScanView, bus: spec_fn(QueryView) -> AnswerView) -> (ScanView, nat) {
    let device = scan.devices[scan.at];
    let s1 = scan.advance(bus(get(device, DEV_IF@, "DeviceType"@)));
    if device_kind(bus, device) == 2 {
        let s2 = s1.advance(bus(get(device, WIFI_IF@, "ActiveAccessPoint"@)));
        match device_access_point(bus, device) {
            Some(ap) => {
                let s3 = s2.advance(bus(get(ap, AP_IF@, "Ssid"@)));
                (s3.advance(bus(get(ap, AP_IF@, "Strength"@))), 4)
            },
            None => (s2, 2),
        }
    } else if device_kind(bus, device) == 1 {
        (s1.advance(bus(get(device, DEV_IF@, "State"@))), 2)
    } else {
        (s1, 1)
    }
}

proof fn one_device(scan: ScanView, bus: spec_fn(QueryView) -> AnswerView, at: int, steps: nat)
    requires
        knows(scan, bus, at),
        at < scan.devices.len(),
        steps >= 4,
    ensures
        ({
            let (next, took) = after_device(scan, bus);
            &&& knows(next, bus, at + 1)
            &&& next.devices == scan.devices
            &&& next.connected == scan.connected
            &&& took <= 4
            &&& run(scan, bus, steps) == run(next, bus, (steps - took) as nat)
        }),
{
    one_more_seen(scan.devices, bus, at);
    let device = scan.devices[at];
    one_step(scan, bus, steps);
    let s1 = scan.advance(bus(get(device, DEV_IF@, "DeviceType"@)));
    if device_kind(bus, device) == 2 {
        one_step(s1, bus, (steps - 1) as nat);
        let s2 = s1.advance(bus(get(device, WIFI_IF@, "ActiveAccessPoint"@)));
        if let Some(ap) = device_access_point(bus, device) {
            one_step(s2, bus, (steps - 2) as nat);
            let s3 = s2.advance(bus(get(ap, AP_IF@, "Ssid"@)));
            one_step(s3, bus, (steps - 3) as nat);
        }
    } else if device_kind(bus, device) == 1 {
        one_step(s1, bus, (steps - 1) as nat);
    }
}

proof fn remaining_devices(
    scan: ScanView,
    bus: spec_fn(QueryView) -> AnswerView,
    at: int,
    steps: nat,
)
    requires
        knows(scan, bus, at),
        steps >= 4 * (scan.devices.len() - at),
    ensures
        knows(run(scan, bus, steps), bus, scan.devices.len() as int),
        run(scan, bus, steps).devices == scan.devices,
        run(scan, bus, steps).connected == scan.connected,
    decreases scan.devices.len() - at,
{
    if at < scan.devices.len() {
        one_device(scan, bus, at, steps);
        let (next, took) = after_device(scan, bus);
        remaining_devices(next, bus, at + 1, (steps - took) as nat);
    }
}

/// An inquiry that is answered by `bus` throughout comes to its end, after at most
/// two questions and four for every device, and finds just the state of the network
/// that `bus` describes.
pub proof fn a_scan_finds_the_status(bus: spec_fn(QueryView) -> AnswerView, steps: nat)
    requires
        bus(QueryView::Devices) matches AnswerView::Devices(devices) ==> steps >= 2 + 4
            * devices.len(),
        steps >= 2,
    ensures
        ({
            let end = run(ScanView::start(), bus, steps);
            &&& end.query() is None
            &&& end.found() == network_status(bus)
        }),
{
    reveal_with_fuel(run, 3);
    let s0 = ScanView::start();
    let a0 = bus(get(NM_PATH@, NM_IF@, "State"@));
    let s1 = s0.advance(a0);
    let s2 = s1.advance(bus(QueryView::Devices));
    match (a0, bus(QueryView::Devices)) {
        (AnswerView::Property(p), AnswerView::Devices(devices)) => {
            assert(run(s0, bus, steps) == run(s2, bus, (steps - 2) as nat));
            assert(devices.take(0) =~= Seq::<Seq<char>>::empty());
            assert(knows(s2, bus, 0));
            remaining_devices(s2, bus, 0, (steps - 2) as nat);
            assert(devices.take(devices.len() as int) =~= devices);
        },
        _ => {},
    }
}

// ---------------------------------------------------------------------------
// Laws
// ---------------------------------------------------------------------------

/// Whether an answer gives a property of this value, in a variant or not.
pub open spec fn says(a: AnswerView, p: PropertyView) -> bool {
    !(p is Variant) && (a == AnswerView::Property(p) || a == AnswerView::Property(
        PropertyView::Variant(Box::new(p)),
    ))
}

/// The bytes of an array that holds nothing else are all of its elements, in order.
pub proof fn bytes_are_all_taken(items: Seq<Option<u8>>, bytes: Seq<u8>)
    requires
        items.len() == bytes.len(),
        forall|i: int| 0 <= i < items.len() ==> #[trigger] items[i] == Some(bytes[i]),
    ensures
        bytes_of(items) == bytes,
    decreases items.len(),
{
    if items.len() > 0 {
        bytes_are_all_taken(items.drop_last(), bytes.drop_last());
        assert(bytes.drop_last().push(bytes.last()) =~= bytes);
    } else {
        assert(bytes =~= Seq::<u8>::empty());
    }
}

/// The name of a network is the text of all its bytes, with nothing taken off but the
/// zero characters at its two ends.
pub proof fn a_network_keeps_its_name(
    items: Seq<Option<u8>>,
    bytes: Seq<u8>,
    a: Seq<char>,
    name: Seq<char>,
    b: Seq<char>,
)
    requires
        items.len() == bytes.len(),
        forall|i: int| 0 <= i < items.len() ==> #[trigger] items[i] == Some(bytes[i]),
        utf8_lossy(bytes) == a + name + b,
        forall|i: int| 0 <= i < a.len() ==> a[i] == '\0',
        forall|i: int| 0 <= i < b.len() ==> b[i] == '\0',
        name.len() > 0 ==> name.first() != '\0' && name.last() != '\0',
    ensures
        network_name(items) == name,
{
    bytes_are_all_taken(items, bytes);
    crate::text::stripping_takes_off_the_ends(a, name, b, '\0');
}

proof fn devices_without_signal(bus: spec_fn(QueryView) -> AnswerView, devices: Seq<Seq<char>>, k: int)
    requires
        0 <= k <= devices.len(),
        forall|j: int|
            k <= j < devices.len() ==> !says(
                bus(get(#[trigger] devices[j], DEV_IF@, "DeviceType"@)),
                PropertyView::Word(2),
            ),
    ensures
        last_ssid(bus, devices) == last_ssid(bus, devices.take(k)),
        last_strength(bus, devices) == last_strength(bus, devices.take(k)),
    decreases devices.len(),
{
    if k < devices.len() {
        let d = devices.last();
        assert(d == devices[devices.len() - 1]);
        let a = bus(get(d, DEV_IF@, "DeviceType"@));
        if device_kind(bus, d) == 2 {
            assert(content(a->Property_0) == PropertyView::Word(2));
            assert(says(a, PropertyView::Word(2)));
        }
        assert forall|j: int| k <= j < devices.drop_last().len() implies !says(
            bus(get(#[trigger] devices.drop_last()[j], DEV_IF@, "DeviceType"@)),
            PropertyView::Word(2),
        ) by {
            assert(devices[j] == devices.drop_last()[j]);
        }
        devices_without_signal(bus, devices.drop_last(), k);
        assert(devices.drop_last().take(k) =~= devices.take(k));
    } else {
        assert(devices.take(k) =~= devices);
    }
}

/// Where a wireless device is in a network, and no later device is wireless, the status
/// is that of this network: its name in full and its signal as it was answered.
pub proof fn a_wireless_network_is_found(
    bus: spec_fn(QueryView) -> AnswerView,
    state: u32,
    devices: Seq<Seq<char>>,
    k: int,
    ap: Seq<char>,
    items: Seq<Option<u8>>,
    bytes: Seq<u8>,
    strength: u8,
)
    requires
        says(bus(get(NM_PATH@, NM_IF@, "State"@)), PropertyView::Word(state)),
        bus(QueryView::Devices) == AnswerView::Devices(devices),
        0 <= k < devices.len(),
        forall|j: int|
            k < j < devices.len() ==> !says(
                bus(get(#[trigger] devices[j], DEV_IF@, "DeviceType"@)),
                PropertyView::Word(2),
            ),
        says(bus(get(devices[k], DEV_IF@, "DeviceType"@)), PropertyView::Word(2)),
        says(bus(get(devices[k], WIFI_IF@, "ActiveAccessPoint"@)), PropertyView::Path(ap)),
        ap.len() > 0,
        ap != "/"@,
        says(bus(get(ap, AP_IF@, "Ssid"@)), PropertyView::Array(items)),
        items.len() == bytes.len(),
        forall|i: int| 0 <= i < items.len() ==> #[trigger] items[i] == Some(bytes[i]),
        !utf8_lossy(bytes).contains('\0'),
        says(bus(get(ap, AP_IF@, "Strength"@)), PropertyView::Byte(strength)),
    ensures
        network_status(bus) == Some(
            NetView {
                connected: state == 50 || state == 60 || state == 70,
                ssid: Some(utf8_lossy(bytes)),
                signal_strength: Some(strength),
            },
        ),
{
    let (none, name) = (Seq::<char>::empty(), utf8_lossy(bytes));
    assert(none + name + none =~= name);
    if name.len() > 0 {
        assert(name.contains(name[0]) && name.contains(name[name.len() - 1]));
    }
    a_network_keeps_its_name(items, bytes, none, name, none);
    devices_without_signal(bus, devices, k + 1);
    assert(devices.take(k + 1).last() == devices[k]);
}

/// Where no device is wireless, the status names the cable exactly where a wired device
/// is activated, and knows of no signal.
pub proof fn a_cable_is_found(bus: spec_fn(QueryView) -> AnswerView, state: u32, devices: Seq<Seq<char>>)
    requires
        says(bus(get(NM_PATH@, NM_IF@, "State"@)), PropertyView::Word(state)),
        bus(QueryView::Devices) == AnswerView::Devices(devices),
        forall|j: int|
            0 <= j < devices.len() ==> !says(
                bus(get(#[trigger] devices[j], DEV_IF@, "DeviceType"@)),
                PropertyView::Word(2),
            ),
    ensures
        ({
            let wired = exists|i: int, w: u32|
                0 <= i < devices.len() && w >= 100 && says(
                    bus(get(#[trigger] devices[i], DEV_IF@, "DeviceType"@)),
                    PropertyView::Word(1),
                ) && #[trigger] says(
                    bus(get(devices[i], DEV_IF@, "State"@)),
                    PropertyView::Word(w),
                );
            network_status(bus) == Some(
                NetView {
                    connected: state == 50 || state == 60 || state == 70,
                    ssid: if wired {
                        Some("wired"@)
                    } else {
                        None
                    },
                    signal_strength: None,
                },
            )
        }),
{
    devices_without_signal(bus, devices, 0);
    assert(devices.take(0) =~= Seq::<Seq<char>>::empty());
    if some_wired(bus, devices) {
        let i = choose|i: int| 0 <= i < devices.len() && device_wired(bus, #[trigger] devices[i]);
        let kind = bus(get(devices[i], DEV_IF@, "DeviceType"@));
        let used = bus(get(devices[i], DEV_IF@, "State"@));
        let w = answered_word(used);
        assert(says(kind, PropertyView::Word(1)));
        assert(says(used, PropertyView::Word(w)));
    }
    if exists|i: int, w: u32|
        0 <= i < devices.len() && w >= 100 && says(
            bus(get(#[trigger] devices[i], DEV_IF@, "DeviceType"@)),
            PropertyView::Word(1),
        ) && #[trigger] says(bus(get(devices[i], DEV_IF@, "State"@)), PropertyView::Word(w)) {
        let (i, w) = choose|i: int, w: u32|
            0 <= i < devices.len() && w >= 100 && says(
                bus(get(#[trigger] devices[i], DEV_IF@, "DeviceType"@)),
                PropertyView::Word(1),
            ) && #[trigger] says(bus(get(devices[i], DEV_IF@, "State"@)), PropertyView::Word(w));
        assert(device_wired(bus, devices[i]));
    }
}

/// Without an answer about the state or the devices there is no status.
pub proof fn no_answer_no_status(bus: spec_fn(QueryView) -> AnswerView)
    ensures
        network_status(bus) is Some <==> bus(get(NM_PATH@, NM_IF@, "State"@)) is Property && bus(
            QueryView::Devices,
        ) is Devices,
{
}

/// Every byte of an array counts, in its place, and nothing else does.
pub proof fn every_byte_counts(items: Seq<Option<u8>>, b: u8)
    ensures
        bytes_of(items.push(Some(b))) == bytes_of(items).push(b),
        bytes_of(items.push(None)) == bytes_of(items),
        bytes_of(Seq::<Option<u8>>::empty()) == Seq::<u8>::empty(),
{
    assert(items.push(Some(b)).drop_last() =~= items);
    assert(items.push(None).drop_last() =~= items);
}

/// Whether `device` is wireless and in the network of the access point `ap`.
pub open spec fn in_network(bus: spec_fn(QueryView) -> AnswerView, device: Seq<char>, ap: Seq<char>) -> bool {
    &&& says(bus(get(device, DEV_IF@, "DeviceType"@)), PropertyView::Word(2))
    &&& says(bus(get(device, WIFI_IF@, "ActiveAccessPoint"@)), PropertyView::Path(ap))
    &&& ap.len() > 0
    &&& ap != "/"@
}

/// Whether `device` is in a network that gives a name.
pub open spec fn gives_name(bus: spec_fn(QueryView) -> AnswerView, device: Seq<char>) -> bool {
    exists|ap: Seq<char>, items: Seq<Option<u8>>|
        #[trigger] in_network(bus, device, ap) && #[trigger] says(
            bus(get(ap, AP_IF@, "Ssid"@)),
            PropertyView::Array(items),
        )
}

/// Whether `device` is in a network that gives the strength of its signal.
pub open spec fn gives_strength(bus: spec_fn(QueryView) -> AnswerView, device: Seq<char>) -> bool {
    exists|ap: Seq<char>, b: u8|
        #[trigger] in_network(bus, device, ap) && #[trigger] says(
            bus(get(ap, AP_IF@, "Strength"@)),
            PropertyView::Byte(b),
        )
}

proof fn a_device_in_a_network(bus: spec_fn(QueryView) -> AnswerView, device: Seq<char>, ap: Seq<char>)
    ensures
        in_network(bus, device, ap) <==> device_access_point(bus, device) == Some(ap),
{
}

proof fn what_a_device_gives(bus: spec_fn(QueryView) -> AnswerView, device: Seq<char>)
    ensures
        device_ssid(bus, device) is Some <==> gives_name(bus, device),
        device_strength(bus, device) is Some <==> gives_strength(bus, device),
{
    if let Some(ap) = device_access_point(bus, device) {
        a_device_in_a_network(bus, device, ap);
        if let Some(name) = device_ssid(bus, device) {
            let p = bus(get(ap, AP_IF@, "Ssid"@))->Property_0;
            let items = content(p)->Array_0;
            assert(says(bus(get(ap, AP_IF@, "Ssid"@)), PropertyView::Array(items)));
        }
        if let Some(b) = device_strength(bus, device) {
            assert(says(bus(get(ap, AP_IF@, "Strength"@)), PropertyView::Byte(b)));
        }
    }
    if gives_name(bus, device) {
        let (ap, items) = choose|ap: Seq<char>, items: Seq<Option<u8>>|
            #[trigger] in_network(bus, device, ap) && #[trigger] says(
                bus(get(ap, AP_IF@, "Ssid"@)),
                PropertyView::Array(items),
            );
        a_device_in_a_network(bus, device, ap);
    }
    if gives_strength(bus, device) {
        let (ap, b) = choose|ap: Seq<char>, b: u8|
            #[trigger] in_network(bus, device, ap) && #[trigger] says(
                bus(get(ap, AP_IF@, "Strength"@)),
                PropertyView::Byte(b),
            );
        a_device_in_a_network(bus, device, ap);
    }
}

proof fn the_last_ssid(bus: spec_fn(QueryView) -> AnswerView, devices: Seq<Seq<char>>, k: int)
    requires
        -1 <= k < devices.len(),
        k >= 0 ==> gives_name(bus, devices[k]),
        forall|j: int| k < j < devices.len() ==> !gives_name(bus, #[trigger] devices[j]),
    ensures
        last_ssid(bus, devices) == if k >= 0 {
            device_ssid(bus, devices[k])
        } else {
            None
        },
    decreases devices.len(),
{
    if devices.len() > 0 {
        what_a_device_gives(bus, devices.last());
        if k < devices.len() - 1 {
            assert(!gives_name(bus, devices[devices.len() - 1]));
            the_last_ssid(bus, devices.drop_last(), k);
        }
    }
}

proof fn the_last_strength(bus: spec_fn(QueryView) -> AnswerView, devices: Seq<Seq<char>>, k: int)
    requires
        -1 <= k < devices.len(),
        k >= 0 ==> gives_strength(bus, devices[k]),
        forall|j: int| k < j < devices.len() ==> !gives_strength(bus, #[trigger] devices[j]),
    ensures
        last_strength(bus, devices) == if k >= 0 {
            device_strength(bus, devices[k])
        } else {
            None
        },
    decreases devices.len(),
{
    if devices.len() > 0 {
        what_a_device_gives(bus, devices.last());
        if k < devices.len() - 1 {
            assert(!gives_strength(bus, devices[devices.len() - 1]));
            the_last_strength(bus, devices.drop_last(), k);
        }
    }
}

/// The name in the status is that of the last device whose network gives one.
pub proof fn the_last_name_counts(
    bus: spec_fn(QueryView) -> AnswerView,
    devices: Seq<Seq<char>>,
    k: int,
    ap: Seq<char>,
    items: Seq<Option<u8>>,
)
    requires
        bus(get(NM_PATH@, NM_IF@, "State"@)) is Property,
        bus(QueryView::Devices) == AnswerView::Devices(devices),
        0 <= k < devices.len(),
        in_network(bus, devices[k], ap),
        says(bus(get(ap, AP_IF@, "Ssid"@)), PropertyView::Array(items)),
        forall|j: int| k < j < devices.len() ==> !gives_name(bus, #[trigger] devices[j]),
    ensures
        network_status(bus) matches Some(status) && status.ssid == Some(network_name(items)),
{
    a_device_in_a_network(bus, devices[k], ap);
    assert(gives_name(bus, devices[k]));
    the_last_ssid(bus, devices, k);
}

/// The strength in the status is that of the last device whose network gives one; without
/// such a device there is none.
pub proof fn the_last_signal_counts(
    bus: spec_fn(QueryView) -> AnswerView,
    devices: Seq<Seq<char>>,
    k: int,
    ap: Seq<char>,
    b: u8,
)
    requires
        bus(get(NM_PATH@, NM_IF@, "State"@)) is Property,
        bus(QueryView::Devices) == AnswerView::Devices(devices),
        -1 <= k < devices.len(),
        k >= 0 ==> in_network(bus, devices[k], ap) && says(
            bus(get(ap, AP_IF@, "Strength"@)),
            PropertyView::Byte(b),
        ),
        forall|j: int| k < j < devices.len() ==> !gives_strength(bus, #[trigger] devices[j]),
    ensures
        network_status(bus) matches Some(status) && status.signal_strength == if k >= 0 {
            Some(b)
        } else {
            None
        },
{
    if k >= 0 {
        a_device_in_a_network(bus, devices[k], ap);
        assert(gives_strength(bus, devices[k]));
    }
    the_last_strength(bus, devices, k);
}

/// Where no network gives a name, the status names the cable exactly where a wired device
/// is activated.
pub proof fn a_cable_stands_in_for_a_name(bus: spec_fn(QueryView) -> AnswerView, devices: Seq<Seq<char>>)
    requires
        bus(get(NM_PATH@, NM_IF@, "State"@)) is Property,
        bus(QueryView::Devices) == AnswerView::Devices(devices),
        forall|j: int| 0 <= j < devices.len() ==> !gives_name(bus, #[trigger] devices[j]),
    ensures
        ({
            let wired = exists|i: int, w: u32|
                0 <= i < devices.len() && w >= 100 && says(
                    bus(get(#[trigger] devices[i], DEV_IF@, "DeviceType"@)),
                    PropertyView::Word(1),
                ) && #[trigger] says(
                    bus(get(devices[i], DEV_IF@, "State"@)),
                    PropertyView::Word(w),
                );
            network_status(bus) matches Some(status) && status.ssid == if wired {
                Some("wired"@)
            } else {
                None
            }
        }),
{
    the_last_ssid(bus, devices, -1);
    let wired = exists|i: int, w: u32|
        0 <= i < devices.len() && w >= 100 && says(
            bus(get(#[trigger] devices[i], DEV_IF@, "DeviceType"@)),
            PropertyView::Word(1),
        ) && #[trigger] says(bus(get(devices[i], DEV_IF@, "State"@)), PropertyView::Word(w));
    if some_wired(bus, devices) {
        let i = choose|i: int| 0 <= i < devices.len() && device_wired(bus, #[trigger] devices[i]);
        let w = answered_word(bus(get(devices[i], DEV_IF@, "State"@)));
        assert(says(bus(get(devices[i], DEV_IF@, "DeviceType"@)), PropertyView::Word(1)));
        assert(says(bus(get(devices[i], DEV_IF@, "State"@)), PropertyView::Word(w)));
    }
    if wired {
        let (i, w) = choose|i: int, w: u32|
            0 <= i < devices.len() && w >= 100 && says(
                bus(get(#[trigger] devices[i], DEV_IF@, "DeviceType"@)),
                PropertyView::Word(1),
            ) && #[trigger] says(bus(get(devices[i], DEV_IF@, "State"@)), PropertyView::Word(w));
        assert(device_wired(bus, devices[i]));
    }
}

/// The status is connected exactly where the state is one of the three that mean so.
pub proof fn the_state_tells_the_connection(
    bus: spec_fn(QueryView) -> AnswerView,
    devices: Seq<Seq<char>>,
    state: u32,
)
    requires
        bus(QueryView::Devices) == AnswerView::Devices(devices),
        says(bus(get(NM_PATH@, NM_IF@, "State"@)), PropertyView::Word(state)),
    ensures
        network_status(bus) matches Some(status) && (status.connected <==> state == 50 || state == 60 || state == 70),
{
}

} // verus!
