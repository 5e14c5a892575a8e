//! Wireless ADB pairing: the credentials shown in the pairing QR code, the
//! decisions taken on what mDNS service discovery reports, and the `adb
//! pair` / `adb connect` steps.
use vstd::prelude::*;
use crate::text::{
    all_ascii_digits, chars_of, concat_str, contains_chars, decimal, digit_char, has_infix, owned,
    push_decimal, string_of_all, trim, trimmed, views,
};

verus! {

broadcast use vstd::string::group_string_axioms;

// ---------------------------------------------------------------------------
// Addresses
// ---------------------------------------------------------------------------
/// An IPv4 address, by its four octets.
#[derive(Clone, Copy, Debug, PartialEq, Eq, Structural)]
pub struct Ipv4Address(pub u8, pub u8, pub u8, pub u8);

/// `Ipv4Addr::is_private`: 10.0.0.0/8, 172.16.0.0/12 and 192.168.0.0/16.
pub open spec fn is_private_spec(a: Ipv4Address) -> bool {
    ||| a.0 == 10
    ||| a.0 == 172 && 16 <= a.1 <= 31
    ||| a.0 == 192 && a.1 == 168
}

/// The dotted decimal notation of an address.
pub open spec fn ipv4_text(a: Ipv4Address) -> Seq<char> {
    decimal(a.0 as nat) + "."@ + decimal(a.1 as nat) + "."@ + decimal(a.2 as nat) + "."@ + decimal(
        a.3 as nat,
    )
}

impl Ipv4Address {
    /// Whether the address belongs to a private network.
    pub fn is_private(&self) -> (b: bool)
        ensures
            b == is_private_spec(*self),
    {
        self.0 == 10 || (self.0 == 172 && 16 <= self.1 && self.1 <= 31) || (self.0 == 192 && self.1
            == 168)
    }

    /// The dotted decimal notation, as `Ipv4Addr` displays it.
    pub fn to_text(&self) -> (s: String)
        ensures
            s@ == ipv4_text(*self),
    {
        let mut v: Vec<char> = Vec::new();
        push_decimal(&mut v, self.0 as u64);
        v.push('.');
        push_decimal(&mut v, self.1 as u64);
        v.push('.');
        push_decimal(&mut v, self.2 as u64);
        v.push('.');
        push_decimal(&mut v, self.3 as u64);
        proof {
            reveal_strlit(".");
        }
        assert(v@ =~= ipv4_text(*self));
        string_of_all(&v)
    }
}

/// Where a phone that is being paired can be reached.
#[derive(Clone, Copy, Debug, PartialEq, Eq, Structural)]
pub struct DeviceInfo {
    pub address: Ipv4Address,
    pub pairing_port: u16,
    pub debugging_port: u16,
}

/// `"<address>:<port>"`.
pub open spec fn socket_text(a: Ipv4Address, port: u16) -> Seq<char> {
    ipv4_text(a) + ":"@ + decimal(port as nat)
}

/// Formats `"<address>:<port>"`.
pub fn socket_address(a: Ipv4Address, port: u16) -> (s: String)
    ensures
        s@ == socket_text(a, port),
{
    let t = a.to_text();
    let mut v = chars_of(t.as_str());
    v.push(':');
    push_decimal(&mut v, port as u64);
    proof {
        reveal_strlit(":");
    }
    assert(v@ =~= socket_text(a, port));
    string_of_all(&v)
}

/// The first private address of `addrs`.
pub open spec fn first_private(addrs: Seq<Ipv4Address>) -> Option<Ipv4Address>
    decreases addrs.len(),
{
    if addrs.len() == 0 {
        None
    } else if is_private_spec(addrs[0]) {
        Some(addrs[0])
    } else {
        first_private(addrs.drop_first())
    }
}

/// Finds the first private address of `addrs`.
pub fn find_private(addrs: &Vec<Ipv4Address>) -> (r: Option<Ipv4Address>)
    ensures
        r == first_private(addrs@),
{
    let mut i: usize = 0;
    assert(addrs@.skip(0) == addrs@);
    while i < addrs.len()
        invariant
            i <= addrs.len(),
            first_private(addrs@.skip(i as int)) == first_private(addrs@),
        decreases addrs.len() - i,
    {
        assert(addrs@.skip(i as int)[0] == addrs@[i as int]);
        assert(addrs@.skip(i as int).drop_first() == addrs@.skip(i + 1));
        if addrs[i].is_private() {
            return Some(addrs[i]);
        }
        i = i + 1;
    }
    assert(addrs@.skip(i as int).len() == 0);
    None
}

/// Whether `addrs` holds `a`.
pub fn contains_address(addrs: &Vec<Ipv4Address>, a: Ipv4Address) -> (b: bool)
    ensures
        b == addrs@.contains(a),
{
    let mut i: usize = 0;
    while i < addrs.len()
        invariant
            i <= addrs.len(),
            forall|k: int| 0 <= k < i ==> addrs@[k] != a,
        decreases addrs.len() - i,
    {
        if addrs[i] == a {
            return true;
        }
        i = i + 1;
    }
    false
}

// ---------------------------------------------------------------------------
// Credentials
// ---------------------------------------------------------------------------
/// `rand::rngs::ThreadRng`, the random generator of the calling thread: an
/// opaque value that is only handed from `rand::rng` to `random_range`.
#[verifier::external_type_specification]
#[verifier::external_body]
pub struct ExThreadRng(rand::rngs::ThreadRng);

/// `rand::rng`: the random generator of the calling thread.  Nothing is
/// claimed about the numbers it yields.
#[verifier::external_body]
fn thread_rng() -> rand::rngs::ThreadRng {
    rand::rng()
}

/// `Rng::random_range(0..10)` on the thread generator: a random number that,
/// as the range promises, is below 10.
#[verifier::external_body]
fn random_below_ten(rng: &mut rand::rngs::ThreadRng) -> (d: u32)
    ensures
        d < 10,
{
    rand::Rng::random_range(rng, 0..10u32)
}

/// The decimal digits that a sequence of draws below 10 stands for.
pub open spec fn digits_text(draws: Seq<u32>) -> Seq<char> {
    Seq::new(draws.len(), |i: int| digit_char(draws[i] as nat))
}

/// Writes each draw below 10 as its decimal digit.
pub fn digits_of_draws(draws: &Vec<u32>) -> (s: String)
    requires
        forall|i: int| 0 <= i < draws@.len() ==> #[trigger] draws@[i] < 10,
    ensures
        s@ == digits_text(draws@),
        all_ascii_digits(s@),
{
    let mut v: Vec<char> = Vec::new();
    let mut i: usize = 0;
    while i < draws.len()
        invariant
            i <= draws.len(),
            forall|j: int| 0 <= j < draws@.len() ==> #[trigger] draws@[j] < 10,
            v@ == digits_text(draws@.take(i as int)),
        decreases draws.len() - i,
    {
        let d = draws[i];
        let c = ((d as u8) + 48u8) as char;
        assert(c == digit_char(d as nat));
        v.push(c);
        assert(digits_text(draws@.take(i + 1)) =~= digits_text(draws@.take(i as int)).push(c));
        i = i + 1;
    }
    assert(draws@.take(draws.len() as int) == draws@);
    string_of_all(&v)
}

/// A random string of `length` decimal digits: one draw of
/// `random_range(0..10)` per digit.
pub fn random_number_string(length: usize) -> (s: String)
    ensures
        s@.len() == length,
        all_ascii_digits(s@),
        exists|draws: Seq<u32>| s@ == digits_text(draws),
{
    let mut rng = thread_rng();
    let mut draws: Vec<u32> = Vec::new();
    let mut i: usize = 0;
    while i < length
        invariant
            i <= length,
            draws@.len() == i,
            forall|j: int| 0 <= j < draws@.len() ==> #[trigger] draws@[j] < 10,
        decreases length - i,
    {
        draws.push(random_below_ten(&mut rng));
        i = i + 1;
    }
    digits_of_draws(&draws)
}

/// Whether `name` is a pairing service name: `adb-wireless-` and six
/// digits.
pub open spec fn is_pairing_service_name(name: Seq<char>) -> bool {
    exists|d: Seq<char>| name == "adb-wireless-"@ + d && d.len() == 6 && #[trigger] all_ascii_digits(d)
}

/// The pairing payload that the Android QR scanner reads.
pub open spec fn qr_text_spec(service_name: Seq<char>, password: Seq<char>) -> Seq<char> {
    "WIFI:T:ADB;S:"@ + service_name + ";P:"@ + password + ";;"@
}

/// The credentials of one wireless pairing: the mDNS service name under
/// which this computer announces itself, and the password the phone must
/// present.
pub struct PairService {
    pub service_name: String,
    pub password: String,
}

impl PairService {
    /// Fresh random credentials: `adb-wireless-` and six digits, and an
    /// eight-digit password.
    pub fn new() -> (s: PairService)
        ensures
            is_pairing_service_name(s.service_name@),
            s.password@.len() == 8,
            all_ascii_digits(s.password@),
    {
        let digits = random_number_string(6);
        let name = concat_str("adb-wireless-", digits.as_str());
        assert(name@ == "adb-wireless-"@ + digits@ && digits@.len() == 6 && all_ascii_digits(
            digits@,
        ));
        let password = random_number_string(8);
        PairService { service_name: name, password }
    }

    /// The WiFi pairing QR code payload.
    pub fn qr_text(&self) -> (s: String)
        ensures
            s@ == qr_text_spec(self.service_name@, self.password@),
    {
        let a = concat_str("WIFI:T:ADB;S:", self.service_name.as_str());
        let b = concat_str(a.as_str(), ";P:");
        let c = concat_str(b.as_str(), self.password.as_str());
        concat_str(c.as_str(), ";;")
    }

    /// The host name under which the pairing service is announced.
    pub fn host_name(&self) -> (s: String)
        ensures
            s@ == self.service_name@ + ".local."@,
    {
        concat_str(self.service_name.as_str(), ".local.")
    }
}

/// The mDNS service type that phones announce while waiting to be paired.
pub const SERVICE_TYPE_PAIRING: &'static str = "_adb-tls-pairing._tcp.local.";

/// The mDNS service type that paired phones announce for debugging.
pub const SERVICE_TYPE_CONNECT: &'static str = "_adb-tls-connect._tcp.local.";

// ---------------------------------------------------------------------------
// Service discovery
// ---------------------------------------------------------------------------
/// A resolved mDNS service: its full name, IPv4 addresses and port.
pub struct ResolvedService {
    pub fullname: String,
    pub addresses: Vec<Ipv4Address>,
    pub port: u16,
}

/// What one wait on an mDNS browse produced.
pub enum BrowseEvent {
    /// A service was resolved.
    Resolved(ResolvedService),
    /// Some other discovery event.
    Other,
    /// Nothing arrived in the wait.
    TimedOut,
    /// The time allowed for the search has run out.
    Expired,
    /// The browse failed; the text says why.
    Failed(String),
}

pub enum BrowseEventView {
    Resolved { fullname: Seq<char>, addresses: Seq<Ipv4Address>, port: u16 },
    Other,
    TimedOut,
    Expired,
    Failed(Seq<char>),
}

impl View for BrowseEvent {
    type V = BrowseEventView;

    open spec fn view(&self) -> BrowseEventView {
        match self {
            BrowseEvent::Resolved(s) => BrowseEventView::Resolved {
                fullname: s.fullname@,
                addresses: s.addresses@,
                port: s.port,
            },
            BrowseEvent::Other => BrowseEventView::Other,
            BrowseEvent::TimedOut => BrowseEventView::TimedOut,
            BrowseEvent::Expired => BrowseEventView::Expired,
            BrowseEvent::Failed(e) => BrowseEventView::Failed(e@),
        }
    }
}

/// Where the wait for a phone to pair stands.
#[derive(Clone, Copy, Debug, PartialEq, Eq, Structural)]
pub enum WatchPhase {
    /// Waiting for the phone to resolve our pairing service.
    Pairing,
    /// The phone was found at `address`; waiting for its debugging port.
    Connect { address: Ipv4Address, pairing_port: u16 },
    /// The wait is over.
    Finished,
}

/// What to do after an event of the pairing wait.
pub enum WatchAction {
    /// Wait for the next event, after a short pause when `pause` holds.
    Wait { pause: bool },
    /// Stop browsing for the pairing service and browse for the debugging
    /// service instead.
    SwitchToConnectBrowse,
    /// The wait is over: its result, and whether to stop the current browse.
    Finish { result: Result<DeviceInfo, String>, stop_browse: bool },
}

pub enum WatchActionView {
    Wait { pause: bool },
    SwitchToConnectBrowse,
    Finish { result: Result<DeviceInfo, Seq<char>>, stop_browse: bool },
}

impl View for WatchAction {
    type V = WatchActionView;

    open spec fn view(&self) -> WatchActionView {
        match self {
            WatchAction::Wait { pause } => WatchActionView::Wait { pause: *pause },
            WatchAction::SwitchToConnectBrowse => WatchActionView::SwitchToConnectBrowse,
            WatchAction::Finish { result, stop_browse } => WatchActionView::Finish {
                result: match result {
                    Ok(d) => Ok(*d),
                    Err(e) => Err(e@),
                },
                stop_browse: *stop_browse,
            },
        }
    }
}

/// The next phase and action of the pairing wait, after `event`.
///
/// While pairing: a resolved service whose full name contains our service
/// name gives the phone's first private address (none is an error); a
/// failed browse is an error.  While waiting for the debugging port: the
/// first resolved service at the phone's address gives the port; running
/// out of time or a failed browse is an error.  Other events are waited
/// through.
pub open spec fn watch_step(
    service_name: Seq<char>,
    phase: WatchPhase,
    event: BrowseEventView,
) -> (WatchPhase, WatchActionView) {
    match phase {
        WatchPhase::Pairing => match event {
            BrowseEventView::Resolved { fullname, addresses, port } => if has_infix(
                fullname,
                service_name,
            ) {
                match first_private(addresses) {
                    Some(a) => (
                        WatchPhase::Connect { address: a, pairing_port: port },
                        WatchActionView::SwitchToConnectBrowse,
                    ),
                    None => (
                        WatchPhase::Finished,
                        WatchActionView::Finish {
                            result: Err("No private client address found"@),
                            stop_browse: true,
                        },
                    ),
                }
            } else {
                (phase, WatchActionView::Wait { pause: false })
            },
            BrowseEventView::Failed(e) => (
                WatchPhase::Finished,
                WatchActionView::Finish { result: Err("mDNS browse error: "@ + e), stop_browse: true },
            ),
            BrowseEventView::Other => (phase, WatchActionView::Wait { pause: true }),
            _ => (phase, WatchActionView::Wait { pause: false }),
        },
        WatchPhase::Connect { address, pairing_port } => match event {
            BrowseEventView::Expired => (
                WatchPhase::Finished,
                WatchActionView::Finish {
                    result: Err("Timeout waiting for debugging port"@),
                    stop_browse: false,
                },
            ),
            BrowseEventView::Resolved { fullname, addresses, port } => if addresses.contains(
                address,
            ) {
                (
                    WatchPhase::Finished,
                    WatchActionView::Finish {
                        result: Ok(DeviceInfo { address, pairing_port, debugging_port: port }),
                        stop_browse: true,
                    },
                )
            } else {
                (phase, WatchActionView::Wait { pause: true })
            },
            BrowseEventView::Failed(e) => (
                WatchPhase::Finished,
                WatchActionView::Finish { result: Err("mDNS connect error: "@ + e), stop_browse: true },
            ),
            BrowseEventView::Other => (phase, WatchActionView::Wait { pause: true }),
            _ => (phase, WatchActionView::Wait { pause: false }),
        },
        WatchPhase::Finished => (phase, WatchActionView::Wait { pause: false }),
    }
}

/// The wait for a phone to scan the pairing code and announce itself.
pub struct PairingWatch {
    service_name: String,
    phase: WatchPhase,
}

impl PairingWatch {
    /// Starts waiting for the phone that resolves `service_name`.
    pub fn new(service_name: &str) -> (w: PairingWatch)
        ensures
            w.service_name() == service_name@,
            w.phase() == WatchPhase::Pairing,
    {
        PairingWatch { service_name: owned(service_name), phase: WatchPhase::Pairing }
    }

    pub closed spec fn service_name(&self) -> Seq<char> {
        self.service_name@
    }

    pub closed spec fn phase(&self) -> WatchPhase {
        self.phase
    }

    /// The current phase.
    pub fn current_phase(&self) -> (p: WatchPhase)
        ensures
            p == self.phase(),
    {
        self.phase
    }

    /// Takes one browse event into account.
    pub fn step(&mut self, event: BrowseEvent) -> (action: WatchAction)
        ensures
            final(self).service_name() == old(self).service_name(),
            (final(self).phase(), action@) == watch_step(
                old(self).service_name(),
                old(self).phase(),
                event@,
            ),
    {
        match self.phase {
            WatchPhase::Pairing => match event {
                BrowseEvent::Resolved(info) => {
                    let full = chars_of(info.fullname.as_str());
                    let name = chars_of(self.service_name.as_str());
                    if contains_chars(&full, &name) {
                        match find_private(&info.addresses) {
                            Some(a) => {
                                self.phase = WatchPhase::Connect { address: a, pairing_port: info.port };
                                WatchAction::SwitchToConnectBrowse
                            },
                            None => {
                                self.phase = WatchPhase::Finished;
                                WatchAction::Finish {
                                    result: Err(owned("No private client address found")),
                                    stop_browse: true,
                                }
                            },
                        }
                    } else {
                        WatchAction::Wait { pause: false }
                    }
                },
                BrowseEvent::Failed(e) => {
                    self.phase = WatchPhase::Finished;
                    WatchAction::Finish {
                        result: Err(concat_str("mDNS browse error: ", e.as_str())),
                        stop_browse: true,
                    }
                },
                BrowseEvent::Other => WatchAction::Wait { pause: true },
                _ => WatchAction::Wait { pause: false },
            },
            WatchPhase::Connect { address, pairing_port } => match event {
                BrowseEvent::Expired => {
                    self.phase = WatchPhase::Finished;
                    WatchAction::Finish {
                        result: Err(owned("Timeout waiting for debugging port")),
                        stop_browse: false,
                    }
                },
                BrowseEvent::Resolved(info) => {
                    if contains_address(&info.addresses, address) {
                        self.phase = WatchPhase::Finished;
                        WatchAction::Finish {
                            result: Ok(DeviceInfo { address, pairing_port, debugging_port: info.port }),
                            stop_browse: true,
                        }
                    } else {
                        WatchAction::Wait { pause: true }
                    }
                },
                BrowseEvent::Failed(e) => {
                    self.phase = WatchPhase::Finished;
                    WatchAction::Finish {
                        result: Err(concat_str("mDNS connect error: ", e.as_str())),
                        stop_browse: true,
                    }
                },
                BrowseEvent::Other => WatchAction::Wait { pause: true },
                _ => WatchAction::Wait { pause: false },
            },
            WatchPhase::Finished => WatchAction::Wait { pause: false },
        }
    }
}

/// Once the pairing wait has finished, it stays finished and asks for
/// nothing more.
pub proof fn lemma_watch_finished_is_final(service_name: Seq<char>, event: BrowseEventView)
    ensures
        watch_step(service_name, WatchPhase::Finished, event) == (
            WatchPhase::Finished,
            WatchActionView::Wait { pause: false },
        ),
{
}

/// The pairing wait reports a phone only at the address that resolved the
/// pairing service, with that service's port as pairing port, and only
/// from the debugging phase.
pub proof fn lemma_watch_success_comes_from_connect_phase(
    service_name: Seq<char>,
    phase: WatchPhase,
    event: BrowseEventView,
    info: DeviceInfo,
    stop: bool,
)
    requires
        watch_step(service_name, phase, event).1 == (WatchActionView::Finish {
            result: Ok(info),
            stop_browse: stop,
        }),
    ensures
        phase matches WatchPhase::Connect { address, pairing_port } && info.address == address
            && info.pairing_port == pairing_port,
        event matches BrowseEventView::Resolved { addresses, port, .. } && addresses.contains(
            info.address,
        ) && info.debugging_port == port,
{
}

/// What to do after an event of the search for a phone's debugging
/// service.
pub enum DiscoveryAction {
    /// Wait for the next event.
    Wait,
    /// The browse was cut off: pause, browse again and wait.
    Rebrowse,
    /// A phone was found.
    Found(DeviceInfo),
    /// The search failed; the text says why.
    GiveUp(String),
}

/// The decision on one event of the search for a debugging service: the
/// first resolved service with a private address is the phone (no pairing
/// port); running out of time ends the search.
pub fn discovery_step(event: &BrowseEvent) -> (a: DiscoveryAction)
    ensures
        match event@ {
            BrowseEventView::Resolved { addresses, port, .. } => match first_private(addresses) {
                Some(addr) => a == DiscoveryAction::Found(
                    DeviceInfo { address: addr, pairing_port: 0, debugging_port: port },
                ),
                None => a is Wait,
            },
            BrowseEventView::Expired => (a matches DiscoveryAction::GiveUp(m) && m@
                == "No connect service discovered (timeout)"@),
            BrowseEventView::Failed(_) => a is Rebrowse,
            _ => a is Wait,
        },
{
    match event {
        BrowseEvent::Resolved(info) => match find_private(&info.addresses) {
            Some(addr) => DiscoveryAction::Found(
                DeviceInfo { address: addr, pairing_port: 0, debugging_port: info.port },
            ),
            None => DiscoveryAction::Wait,
        },
        BrowseEvent::Expired => DiscoveryAction::GiveUp(
            owned("No connect service discovered (timeout)"),
        ),
        BrowseEvent::Failed(_) => DiscoveryAction::Rebrowse,
        _ => DiscoveryAction::Wait,
    }
}

// ---------------------------------------------------------------------------
// adb pair / adb connect
// ---------------------------------------------------------------------------
/// `adb pair <address>:<pairing port> <password>`.
pub open spec fn pair_args_spec(device: DeviceInfo, password: Seq<char>) -> Seq<Seq<char>> {
    seq!["pair"@, socket_text(device.address, device.pairing_port), password]
}

/// `adb connect <address>:<debugging port>`.
pub open spec fn connect_args_spec(device: DeviceInfo) -> Seq<Seq<char>> {
    seq!["connect"@, socket_text(device.address, device.debugging_port)]
}

/// The arguments of `adb pair` for a discovered phone.
pub fn pair_command_args(device: DeviceInfo, password: &str) -> (args: Vec<String>)
    ensures
        views(args@) == pair_args_spec(device, password@),
{
    let mut args: Vec<String> = Vec::new();
    args.push(owned("pair"));
    args.push(socket_address(device.address, device.pairing_port));
    args.push(owned(password));
    assert(views(args@) =~= pair_args_spec(device, password@));
    args
}

/// The arguments of `adb connect` for a paired phone.
pub fn connect_command_args(device: DeviceInfo) -> (args: Vec<String>)
    ensures
        views(args@) == connect_args_spec(device),
{
    let mut args: Vec<String> = Vec::new();
    args.push(owned("connect"));
    args.push(socket_address(device.address, device.debugging_port));
    assert(views(args@) =~= connect_args_spec(device));
    args
}

/// How one `adb` command ended.
pub enum AdbOutcome {
    /// The command could not be run; the text says why.
    SpawnFailed(String),
    /// The command ran; whether it succeeded, and what it wrote to stderr.
    Exited { success: bool, stderr: String },
}

pub enum AdbOutcomeView {
    SpawnFailed(Seq<char>),
    Exited { success: bool, stderr: Seq<char> },
}

impl View for AdbOutcome {
    type V = AdbOutcomeView;

    open spec fn view(&self) -> AdbOutcomeView {
        match self {
            AdbOutcome::SpawnFailed(e) => AdbOutcomeView::SpawnFailed(e@),
            AdbOutcome::Exited { success, stderr } => AdbOutcomeView::Exited {
                success: *success,
                stderr: stderr@,
            },
        }
    }
}

/// The error that a failed `adb` step reports: `<step> failed: ` and the
/// reason, or the trimmed stderr of the command.
pub open spec fn failure_text(step: Seq<char>, outcome: AdbOutcomeView) -> Seq<char> {
    match outcome {
        AdbOutcomeView::SpawnFailed(e) => step + " failed: "@ + e,
        AdbOutcomeView::Exited { stderr, .. } => step + " failed: "@ + trim(stderr),
    }
}

/// Whether an `adb` step succeeded.
pub open spec fn outcome_ok(outcome: AdbOutcomeView) -> bool {
    outcome matches AdbOutcomeView::Exited { success, .. } && success
}

fn failure_message(step: &str, outcome: &AdbOutcome) -> (s: String)
    ensures
        s@ == failure_text(step@, outcome@),
{
    let head = concat_str(step, " failed: ");
    match outcome {
        AdbOutcome::SpawnFailed(e) => concat_str(head.as_str(), e.as_str()),
        AdbOutcome::Exited { stderr, .. } => {
            let t = trimmed(stderr.as_str());
            concat_str(head.as_str(), t.as_str())
        },
    }
}

/// Where an `adb` pairing stands.
#[derive(Clone, Copy, Debug, PartialEq, Eq, Structural)]
pub enum AdbPairingPhase {
    Pairing,
    Connecting,
    Done,
}

/// What to do next in an `adb` pairing.
pub enum AdbPairingAction {
    /// Run `adb` with these arguments and report how it ended.
    Run(Vec<String>),
    /// The pairing is over.
    Done(Result<DeviceInfo, String>),
}

pub enum AdbPairingActionView {
    Run(Seq<Seq<char>>),
    Done(Result<DeviceInfo, Seq<char>>),
}

impl View for AdbPairingAction {
    type V = AdbPairingActionView;

    open spec fn view(&self) -> AdbPairingActionView {
        match self {
            AdbPairingAction::Run(args) => AdbPairingActionView::Run(views(args@)),
            AdbPairingAction::Done(r) => AdbPairingActionView::Done(
                match r {
                    Ok(d) => Ok(*d),
                    Err(e) => Err(e@),
                },
            ),
        }
    }
}

/// `adb pair` with the phone's pairing port and password, then, when
/// `connect_after` holds, `adb connect` to its debugging port; the first
/// step that fails ends the pairing with its error.
pub struct AdbPairing {
    device: DeviceInfo,
    password: String,
    connect_after: bool,
    phase: AdbPairingPhase,
}

/// The next phase and action of an `adb` pairing after a step ended.
pub open spec fn adb_pairing_step(
    device: DeviceInfo,
    connect_after: bool,
    phase: AdbPairingPhase,
    outcome: AdbOutcomeView,
) -> (AdbPairingPhase, AdbPairingActionView) {
    if phase == AdbPairingPhase::Pairing {
        if !outcome_ok(outcome) {
            (AdbPairingPhase::Done, AdbPairingActionView::Done(Err(failure_text("adb pair"@, outcome))))
        } else if connect_after {
            (AdbPairingPhase::Connecting, AdbPairingActionView::Run(connect_args_spec(device)))
        } else {
            (AdbPairingPhase::Done, AdbPairingActionView::Done(Ok(device)))
        }
    } else {
        if !outcome_ok(outcome) {
            (
                AdbPairingPhase::Done,
                AdbPairingActionView::Done(Err(failure_text("adb connect"@, outcome))),
            )
        } else {
            (AdbPairingPhase::Done, AdbPairingActionView::Done(Ok(device)))
        }
    }
}

impl AdbPairing {
    pub closed spec fn device(&self) -> DeviceInfo {
        self.device
    }

    pub closed spec fn password(&self) -> Seq<char> {
        self.password@
    }

    pub closed spec fn connect_after(&self) -> bool {
        self.connect_after
    }

    pub closed spec fn phase(&self) -> AdbPairingPhase {
        self.phase
    }

    /// Starts pairing `device` with `password`; the first action runs
    /// `adb pair`.
    pub fn start(device: DeviceInfo, password: &str, connect_after: bool) -> (r: (
        AdbPairing,
        AdbPairingAction,
    ))
        ensures
            r.0.device() == device,
            r.0.password() == password@,
            r.0.connect_after() == connect_after,
            r.0.phase() == AdbPairingPhase::Pairing,
            r.1@ == AdbPairingActionView::Run(pair_args_spec(device, password@)),
    {
        let args = pair_command_args(device, password);
        (
            AdbPairing {
                device,
                password: owned(password),
                connect_after,
                phase: AdbPairingPhase::Pairing,
            },
            AdbPairingAction::Run(args),
        )
    }

    /// Whether the pairing is over.
    pub fn is_done(&self) -> (b: bool)
        ensures
            b == (self.phase() == AdbPairingPhase::Done),
    {
        self.phase == AdbPairingPhase::Done
    }

    /// Takes the outcome of the last `adb` command into account.
    pub fn step(&mut self, outcome: AdbOutcome) -> (action: AdbPairingAction)
        requires
            old(self).phase() != AdbPairingPhase::Done,
        ensures
            final(self).device() == old(self).device(),
            final(self).password() == old(self).password(),
            final(self).connect_after() == old(self).connect_after(),
            (final(self).phase(), action@) == adb_pairing_step(
                old(self).device(),
                old(self).connect_after(),
                old(self).phase(),
                outcome@,
            ),
    {
        let ok = match &outcome {
            AdbOutcome::Exited { success, .. } => *success,
            _ => false,
        };
        if self.phase == AdbPairingPhase::Pairing {
            if !ok {
                self.phase = AdbPairingPhase::Done;
                AdbPairingAction::Done(Err(failure_message("adb pair", &outcome)))
            } else if self.connect_after {
                self.phase = AdbPairingPhase::Connecting;
                AdbPairingAction::Run(connect_command_args(self.device))
            } else {
                self.phase = AdbPairingPhase::Done;
                AdbPairingAction::Done(Ok(self.device))
            }
        } else {
            self.phase = AdbPairingPhase::Done;
            if !ok {
                AdbPairingAction::Done(Err(failure_message("adb connect", &outcome)))
            } else {
                AdbPairingAction::Done(Ok(self.device))
            }
        }
    }
}

/// Each `adb` step that does not exit successfully ends the pairing with
/// `adb pair failed: ` (or `adb connect failed: `) and its reason: the
/// spawn error, or the trimmed stderr.  A successful `adb pair` leads to
/// `adb connect` at the debugging port when that was asked for, and
/// otherwise to the phone; a successful `adb connect` leads to the phone.
/// So `adb connect` runs only after a successful `adb pair`.
pub proof fn lemma_adb_pairing_stops_at_failure(
    device: DeviceInfo,
    connect_after: bool,
    phase: AdbPairingPhase,
    outcome: AdbOutcomeView,
)
    requires
        phase != AdbPairingPhase::Done,
    ensures
        ({
            let r = adb_pairing_step(device, connect_after, phase, outcome);
            let step = if phase == AdbPairingPhase::Pairing {
                "adb pair"@
            } else {
                "adb connect"@
            };
            match outcome {
                AdbOutcomeView::SpawnFailed(e) => r == (
                    AdbPairingPhase::Done,
                    AdbPairingActionView::Done(Err(step + " failed: "@ + e)),
                ),
                AdbOutcomeView::Exited { success, stderr } => if !success {
                    r == (
                        AdbPairingPhase::Done,
                        AdbPairingActionView::Done(Err(step + " failed: "@ + trim(stderr))),
                    )
                } else if phase == AdbPairingPhase::Pairing && connect_after {
                    r == (
                        AdbPairingPhase::Connecting,
                        AdbPairingActionView::Run(
                            seq!["connect"@, socket_text(device.address, device.debugging_port)],
                        ),
                    )
                } else {
                    r == (AdbPairingPhase::Done, AdbPairingActionView::Done(Ok(device)))
                },
            }
        }),
        adb_pairing_step(device, connect_after, phase, outcome).1 is Run ==> {
            &&& phase == AdbPairingPhase::Pairing
            &&& connect_after
            &&& outcome matches AdbOutcomeView::Exited { success, .. } && success
        },
{
}

/// A pairing succeeds only when every `adb` step it ran succeeded: from
/// the pairing step, only a successful `adb pair` leads on, and only
/// without a connect step does it finish with the phone.
pub proof fn lemma_adb_pairing_success_needs_success(
    device: DeviceInfo,
    connect_after: bool,
    phase: AdbPairingPhase,
    outcome: AdbOutcomeView,
    d: DeviceInfo,
)
    requires
        phase != AdbPairingPhase::Done,
        adb_pairing_step(device, connect_after, phase, outcome).1 == AdbPairingActionView::Done(
            Ok(d),
        ),
    ensures
        outcome_ok(outcome),
        d == device,
        phase == AdbPairingPhase::Pairing ==> !connect_after,
{
}

// ---------------------------------------------------------------------------
// Pairing events
// ---------------------------------------------------------------------------
/// How a phone is paired.
#[derive(Debug, Clone)]
pub enum PairMethod {
    /// The phone scans a QR code; it is found through mDNS.
    QrCode,
    /// The user types the phone's address, pairing port and code.
    Manual { ip: String, port: String, code: String },
}

/// What the pairing reports to the dialog.
#[derive(Debug)]
pub enum PairEvent {
    /// The QR code payload to show.
    DecodedString(String),
    /// The phone was paired; its address and debugging port.
    PairSuccess(String, u16),
    /// Pairing failed; the text says why.
    PairFailed(String),
}

} // verus!
