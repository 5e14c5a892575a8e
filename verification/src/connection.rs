//! Connecting and disconnecting a saved device: the decisions between the
//! `adb` commands, the mDNS search and the saves that the caller performs.
use vstd::prelude::*;
use crate::devices::{
    adb_lists, adb_lists_spec, device_endpoint, find_device, has_id, index_of_id,
    set_connected_spec, set_endpoint_spec, update_camera_selection, DeviceStore, DeviceView,
};
use crate::pipelines::PipelineStore;
use crate::pairing::{ipv4_text, socket_address, socket_text, DeviceInfo};
use crate::text::{concat_str, has_infix, has_prefix, lines, owned};
use crate::video::{camera_id_for_selection, camera_id_spec};

verus! {

broadcast use vstd::string::group_string_axioms;

/// Where a connection attempt stands.
#[derive(Clone, Copy, Debug, PartialEq, Eq, Structural)]
pub enum ConnectPhase {
    /// `adb connect` to the saved address is running.
    ConnectingSaved,
    /// `adb devices` is checking the saved address.
    VerifyingSaved,
    /// mDNS is searching for the phone's debugging service.
    Discovering,
    /// `adb connect` to the discovered address is running.
    ConnectingDiscovered,
    /// `adb devices` is checking the discovered address.
    VerifyingDiscovered,
    /// The discovered address was stored and is being saved.
    SavingEndpoint,
    /// The device was marked connected and is being saved.
    SavingConnected,
    /// The video pipeline is being started.
    Spawning,
    /// The attempt is over.
    Finished,
}

/// What the caller reports back after an action.
pub enum ConnectEvent {
    /// `adb connect` has ended (its output does not matter).
    AdbConnectFinished,
    /// What `adb devices` printed, or `None` when it could not run.
    AdbDevicesListed(Option<String>),
    /// What the mDNS search found, if anything.
    DeviceDiscovered(Option<DeviceInfo>),
    /// The devices were saved.
    Saved,
    /// The pipeline was started (or was running already).
    PipelineSpawned,
}

pub enum ConnectEventView {
    AdbConnectFinished,
    AdbDevicesListed(Option<Seq<char>>),
    DeviceDiscovered(Option<DeviceInfo>),
    Saved,
    PipelineSpawned,
}

impl View for ConnectEvent {
    type V = ConnectEventView;

    open spec fn view(&self) -> ConnectEventView {
        match self {
            ConnectEvent::AdbConnectFinished => ConnectEventView::AdbConnectFinished,
            ConnectEvent::AdbDevicesListed(o) => ConnectEventView::AdbDevicesListed(
                match o {
                    Some(s) => Some(s@),
                    None => None,
                },
            ),
            ConnectEvent::DeviceDiscovered(d) => ConnectEventView::DeviceDiscovered(*d),
            ConnectEvent::Saved => ConnectEventView::Saved,
            ConnectEvent::PipelineSpawned => ConnectEventView::PipelineSpawned,
        }
    }
}

/// What the caller must do next.
pub enum ConnectAction {
    /// Run `adb connect <endpoint>`, then report `AdbConnectFinished`.
    AdbConnect(String),
    /// Run `adb devices`, then report `AdbDevicesListed`.
    ListAdbDevices,
    /// Search mDNS for a debugging service, then report `DeviceDiscovered`.
    DiscoverDevice,
    /// Save the devices, then report `Saved`.
    SaveDevices,
    /// Start the pipeline of the device with this camera id (unless one is
    /// running), then report `PipelineSpawned`.
    SpawnPipeline(u32),
    /// The attempt is over: whether the device is connected, and its name.
    Finish { connected: bool, name: String },
}

pub enum ConnectActionView {
    AdbConnect(Seq<char>),
    ListAdbDevices,
    DiscoverDevice,
    SaveDevices,
    SpawnPipeline(u32),
    Finish { connected: bool, name: Seq<char> },
}

impl View for ConnectAction {
    type V = ConnectActionView;

    open spec fn view(&self) -> ConnectActionView {
        match self {
            ConnectAction::AdbConnect(e) => ConnectActionView::AdbConnect(e@),
            ConnectAction::ListAdbDevices => ConnectActionView::ListAdbDevices,
            ConnectAction::DiscoverDevice => ConnectActionView::DiscoverDevice,
            ConnectAction::SaveDevices => ConnectActionView::SaveDevices,
            ConnectAction::SpawnPipeline(c) => ConnectActionView::SpawnPipeline(*c),
            ConnectAction::Finish { connected, name } => ConnectActionView::Finish {
                connected: *connected,
                name: name@,
            },
        }
    }
}

/// The state of a connection attempt.
pub struct ConnectView {
    pub device_id: u32,
    pub name: Seq<char>,
    pub saved: Seq<char>,
    pub discovered: Option<DeviceInfo>,
    pub phase: ConnectPhase,
}

/// Whether `stdout` is there and lists `endpoint` as attached.
pub open spec fn listed_in(stdout: Option<Seq<char>>, endpoint: Seq<char>) -> bool {
    match stdout {
        Some(out) => adb_lists_spec(out, endpoint),
        None => false,
    }
}

/// The camera id of a device in the store, 0 when it is gone.
pub open spec fn store_camera_id(s: Seq<DeviceView>, id: u32) -> u32 {
    match find_device(s, id) {
        Some(d) => camera_id_spec(d.camera_selection),
        None => 0,
    }
}

/// The state, store and action at the start of an attempt to connect device
/// `id`: a missing device fails with no name, a device without address
/// fails with its name, any other is first tried at its saved address.
pub open spec fn connect_start(s: Seq<DeviceView>, id: u32) -> (ConnectView, ConnectActionView) {
    match find_device(s, id) {
        None => (
            ConnectView {
                device_id: id,
                name: seq![],
                saved: seq![],
                discovered: None,
                phase: ConnectPhase::Finished,
            },
            ConnectActionView::Finish { connected: false, name: seq![] },
        ),
        Some(d) => if d.address.len() == 0 {
            (
                ConnectView {
                    device_id: id,
                    name: d.name,
                    saved: device_endpoint(d),
                    discovered: None,
                    phase: ConnectPhase::Finished,
                },
                ConnectActionView::Finish { connected: false, name: d.name },
            )
        } else {
            (
                ConnectView {
                    device_id: id,
                    name: d.name,
                    saved: device_endpoint(d),
                    discovered: None,
                    phase: ConnectPhase::ConnectingSaved,
                },
                ConnectActionView::AdbConnect(device_endpoint(d)),
            )
        },
    }
}

/// One step of a connection attempt.
///
/// The saved address is tried first; when `adb devices` does not list it,
/// mDNS is searched for the phone, which is then tried at the address and
/// debugging port found, and on success stored with them.  A connected
/// device is marked connected and saved, and its pipeline is started with
/// its camera.  An event that does not answer the last action ends the
/// attempt as a failure.
pub open spec fn connect_step(f: ConnectView, s: Seq<DeviceView>, e: ConnectEventView) -> (
    ConnectView,
    Seq<DeviceView>,
    ConnectActionView,
) {
    let fail = (
        ConnectView { phase: ConnectPhase::Finished, ..f },
        s,
        ConnectActionView::Finish { connected: false, name: f.name },
    );
    match (f.phase, e) {
        (ConnectPhase::ConnectingSaved, ConnectEventView::AdbConnectFinished) => (
            ConnectView { phase: ConnectPhase::VerifyingSaved, ..f },
            s,
            ConnectActionView::ListAdbDevices,
        ),
        (ConnectPhase::VerifyingSaved, ConnectEventView::AdbDevicesListed(out)) => if listed_in(
            out,
            f.saved,
        ) {
            (
                ConnectView { phase: ConnectPhase::SavingConnected, ..f },
                set_connected_spec(s, f.device_id, true),
                ConnectActionView::SaveDevices,
            )
        } else {
            (
                ConnectView { phase: ConnectPhase::Discovering, ..f },
                s,
                ConnectActionView::DiscoverDevice,
            )
        },
        (ConnectPhase::Discovering, ConnectEventView::DeviceDiscovered(found)) => match found {
            None => fail,
            Some(info) => (
                ConnectView {
                    phase: ConnectPhase::ConnectingDiscovered,
                    discovered: Some(info),
                    ..f
                },
                s,
                ConnectActionView::AdbConnect(socket_text(info.address, info.debugging_port)),
            ),
        },
        (ConnectPhase::ConnectingDiscovered, ConnectEventView::AdbConnectFinished) => (
            ConnectView { phase: ConnectPhase::VerifyingDiscovered, ..f },
            s,
            ConnectActionView::ListAdbDevices,
        ),
        (ConnectPhase::VerifyingDiscovered, ConnectEventView::AdbDevicesListed(out)) => match f.discovered {
            Some(info) => if listed_in(out, socket_text(info.address, info.debugging_port)) {
                (
                    ConnectView { phase: ConnectPhase::SavingEndpoint, ..f },
                    set_endpoint_spec(
                        s,
                        f.device_id,
                        ipv4_text(info.address),
                        info.debugging_port,
                    ),
                    ConnectActionView::SaveDevices,
                )
            } else {
                fail
            },
            None => fail,
        },
        (ConnectPhase::SavingEndpoint, ConnectEventView::Saved) => (
            ConnectView { phase: ConnectPhase::SavingConnected, ..f },
            set_connected_spec(s, f.device_id, true),
            ConnectActionView::SaveDevices,
        ),
        (ConnectPhase::SavingConnected, ConnectEventView::Saved) => (
            ConnectView { phase: ConnectPhase::Spawning, ..f },
            s,
            ConnectActionView::SpawnPipeline(store_camera_id(s, f.device_id)),
        ),
        (ConnectPhase::Spawning, ConnectEventView::PipelineSpawned) => (
            ConnectView { phase: ConnectPhase::Finished, ..f },
            s,
            ConnectActionView::Finish { connected: true, name: f.name },
        ),
        _ => fail,
    }
}

/// An attempt to connect one saved device.
pub struct ConnectFlow {
    device_id: u32,
    name: String,
    saved: String,
    discovered: Option<DeviceInfo>,
    phase: ConnectPhase,
}

impl View for ConnectFlow {
    type V = ConnectView;

    closed spec fn view(&self) -> ConnectView {
        ConnectView {
            device_id: self.device_id,
            name: self.name@,
            saved: self.saved@,
            discovered: self.discovered,
            phase: self.phase,
        }
    }
}

impl ConnectFlow {
    /// Starts an attempt to connect device `id`.
    pub fn start(store: &DeviceStore, id: u32) -> (r: (ConnectFlow, ConnectAction))
        ensures
            (r.0@, r.1@) == connect_start(store@.devices, id),
    {
        match store.find(id) {
            None => {
                let flow = ConnectFlow {
                    device_id: id,
                    name: String::new(),
                    saved: String::new(),
                    discovered: None,
                    phase: ConnectPhase::Finished,
                };
                (flow, ConnectAction::Finish { connected: false, name: String::new() })
            },
            Some(d) => {
                let saved = d.endpoint();
                if d.address.as_str().is_empty() {
                    let flow = ConnectFlow {
                        device_id: id,
                        name: d.name.clone(),
                        saved,
                        discovered: None,
                        phase: ConnectPhase::Finished,
                    };
                    (flow, ConnectAction::Finish { connected: false, name: d.name.clone() })
                } else {
                    let action = ConnectAction::AdbConnect(saved.clone());
                    let flow = ConnectFlow {
                        device_id: id,
                        name: d.name.clone(),
                        saved,
                        discovered: None,
                        phase: ConnectPhase::ConnectingSaved,
                    };
                    (flow, action)
                }
            },
        }
    }

    /// The current phase.
    pub fn phase(&self) -> (p: ConnectPhase)
        ensures
            p == self@.phase,
    {
        self.phase
    }

    fn fail(&mut self) -> (a: ConnectAction)
        ensures
            final(self)@ == (ConnectView { phase: ConnectPhase::Finished, ..old(self)@ }),
            a@ == (ConnectActionView::Finish { connected: false, name: old(self)@.name }),
    {
        self.phase = ConnectPhase::Finished;
        ConnectAction::Finish { connected: false, name: self.name.clone() }
    }

    /// Takes the caller's report into account and says what to do next.
    pub fn step(&mut self, store: &mut DeviceStore, event: ConnectEvent) -> (a: ConnectAction)
        ensures
            final(store)@.next_id == old(store)@.next_id,
            (final(self)@, final(store)@.devices, a@) == connect_step(
                old(self)@,
                old(store)@.devices,
                event@,
            ),
    {
        match (self.phase, event) {
            (ConnectPhase::ConnectingSaved, ConnectEvent::AdbConnectFinished) => {
                self.phase = ConnectPhase::VerifyingSaved;
                ConnectAction::ListAdbDevices
            },
            (ConnectPhase::VerifyingSaved, ConnectEvent::AdbDevicesListed(out)) => {
                let listed = match &out {
                    Some(o) => adb_lists(o.as_str(), self.saved.as_str()),
                    None => false,
                };
                if listed {
                    store.set_connected(self.device_id, true);
                    self.phase = ConnectPhase::SavingConnected;
                    ConnectAction::SaveDevices
                } else {
                    self.phase = ConnectPhase::Discovering;
                    ConnectAction::DiscoverDevice
                }
            },
            (ConnectPhase::Discovering, ConnectEvent::DeviceDiscovered(found)) => match found {
                None => self.fail(),
                Some(info) => {
                    self.discovered = Some(info);
                    self.phase = ConnectPhase::ConnectingDiscovered;
                    ConnectAction::AdbConnect(socket_address(info.address, info.debugging_port))
                },
            },
            (ConnectPhase::ConnectingDiscovered, ConnectEvent::AdbConnectFinished) => {
                self.phase = ConnectPhase::VerifyingDiscovered;
                ConnectAction::ListAdbDevices
            },
            (ConnectPhase::VerifyingDiscovered, ConnectEvent::AdbDevicesListed(out)) => {
                match self.discovered {
                    Some(info) => {
                        let endpoint = socket_address(info.address, info.debugging_port);
                        let listed = match &out {
                            Some(o) => adb_lists(o.as_str(), endpoint.as_str()),
                            None => false,
                        };
                        if listed {
                            store.set_endpoint(
                                self.device_id,
                                info.address.to_text(),
                                info.debugging_port,
                            );
                            self.phase = ConnectPhase::SavingEndpoint;
                            ConnectAction::SaveDevices
                        } else {
                            self.fail()
                        }
                    },
                    None => self.fail(),
                }
            },
            (ConnectPhase::SavingEndpoint, ConnectEvent::Saved) => {
                store.set_connected(self.device_id, true);
                self.phase = ConnectPhase::SavingConnected;
                ConnectAction::SaveDevices
            },
            (ConnectPhase::SavingConnected, ConnectEvent::Saved) => {
                let cam = store.camera_id_of(self.device_id);
                self.phase = ConnectPhase::Spawning;
                ConnectAction::SpawnPipeline(cam)
            },
            (ConnectPhase::Spawning, ConnectEvent::PipelineSpawned) => {
                self.phase = ConnectPhase::Finished;
                ConnectAction::Finish { connected: true, name: self.name.clone() }
            },
            _ => self.fail(),
        }
    }
}

/// What an attempt keeps true between steps: while the device is being
/// saved as connected or its pipeline started, the store marks it
/// connected.
pub open spec fn connect_inv(f: ConnectView, s: Seq<DeviceView>) -> bool {
    (f.phase == ConnectPhase::SavingConnected || f.phase == ConnectPhase::Spawning) && has_id(
        s,
        f.device_id,
    ) ==> find_device(s, f.device_id).unwrap().connected
}

proof fn lemma_set_connected_found(s: Seq<DeviceView>, id: u32)
    requires
        has_id(s, id),
    ensures
        has_id(set_connected_spec(s, id, true), id),
        find_device(set_connected_spec(s, id, true), id).unwrap().connected,
{
    let i = crate::devices::index_of_id(s, id);
    crate::devices::lemma_has_id_first(s, id);
    let t = set_connected_spec(s, id, true);
    assert(crate::devices::first_with_id(t, id, i)) by {
        assert forall|j: int| 0 <= j < i implies (#[trigger] t[j]).id != id by {
            assert(t[j] == s[j]);
        }
    }
    crate::devices::lemma_first_with_id_unique(t, id, i);
}

/// Every attempt starts in a state that keeps the invariant, and every step
/// keeps it; an attempt that ends connected has left the device marked
/// connected in the store.
pub proof fn lemma_connect_marks_connected(f: ConnectView, s: Seq<DeviceView>, e: ConnectEventView)
    requires
        connect_inv(f, s),
    ensures
        connect_inv(connect_step(f, s, e).0, connect_step(f, s, e).1),
        connect_step(f, s, e).2 matches ConnectActionView::Finish { connected, .. } && connected
            ==> (has_id(connect_step(f, s, e).1, f.device_id) ==> find_device(
            connect_step(f, s, e).1,
            f.device_id,
        ).unwrap().connected),
{
    if has_id(s, f.device_id) {
        lemma_set_connected_found(s, f.device_id);
    }
    match (f.phase, e) {
        (ConnectPhase::VerifyingDiscovered, ConnectEventView::AdbDevicesListed(out)) => {},
        (ConnectPhase::SavingEndpoint, ConnectEventView::Saved) => {},
        _ => {},
    }
}

/// A new attempt satisfies the invariant.
pub proof fn lemma_connect_start_inv(s: Seq<DeviceView>, id: u32)
    ensures
        connect_inv(connect_start(s, id).0, s),
{
}

/// Whether `out` is there and has a line that starts with `endpoint` and
/// contains the word `device`, which is how `adb devices` shows an attached
/// phone.
pub open spec fn shows_attached(out: Option<Seq<char>>, endpoint: Seq<char>) -> bool {
    out matches Some(o) && exists|k: int|
        0 <= k < lines(o).len() && has_prefix(#[trigger] lines(o)[k], endpoint) && has_infix(
            lines(o)[k],
            "device"@,
        )
}

/// After `adb connect`, the attempt goes on toward being connected only
/// when `adb devices` shows the address just tried as attached.  At the
/// saved address it otherwise searches mDNS, changing nothing; at a
/// discovered address it otherwise fails, keeping the stored address and
/// connection flag.  Only a confirmed discovered address is stored.
pub proof fn lemma_connect_needs_attached_listing(
    f: ConnectView,
    s: Seq<DeviceView>,
    out: Option<Seq<char>>,
)
    ensures
        ({
            let r = connect_step(f, s, ConnectEventView::AdbDevicesListed(out));
            f.phase == ConnectPhase::VerifyingSaved ==> if shows_attached(out, f.saved) {
                &&& r.0.phase == ConnectPhase::SavingConnected
                &&& r.2 == ConnectActionView::SaveDevices
            } else {
                &&& r.0.phase == ConnectPhase::Discovering
                &&& r.1 == s
                &&& r.2 == ConnectActionView::DiscoverDevice
            }
        }),
        ({
            let r = connect_step(f, s, ConnectEventView::AdbDevicesListed(out));
            f.phase == ConnectPhase::VerifyingDiscovered ==> match f.discovered {
                Some(info) => if shows_attached(
                    out,
                    socket_text(info.address, info.debugging_port),
                ) {
                    &&& r.0.phase == ConnectPhase::SavingEndpoint
                    &&& r.1 == set_endpoint_spec(
                        s,
                        f.device_id,
                        ipv4_text(info.address),
                        info.debugging_port,
                    )
                    &&& r.2 == ConnectActionView::SaveDevices
                } else {
                    &&& r.0.phase == ConnectPhase::Finished
                    &&& r.1 == s
                    &&& r.2 == ConnectActionView::Finish { connected: false, name: f.name }
                },
                None => r.0.phase == ConnectPhase::Finished && r.1 == s && r.2
                    == ConnectActionView::Finish { connected: false, name: f.name },
            }
        }),
{
    match out {
        Some(o) => {
            assert(listed_in(out, f.saved) == shows_attached(out, f.saved));
            match f.discovered {
                Some(info) => {
                    let e = socket_text(info.address, info.debugging_port);
                    assert(listed_in(out, e) == shows_attached(out, e));
                },
                None => {},
            }
        },
        None => {},
    }
}

/// What every step of an attempt keeps and allows: the device, its name
/// and its saved address are never changed in the attempt; the store
/// changes only when `adb devices` has just confirmed an address (the saved
/// one: marked connected; a discovered one: stored) or once the discovered
/// address is saved (marked connected); an attempt finishes connected only
/// once the pipeline was started; and the pipeline is started with the
/// camera that the device's stored choice opens.
pub proof fn lemma_connect_step_protocol(f: ConnectView, s: Seq<DeviceView>, e: ConnectEventView)
    ensures
        ({
            let r = connect_step(f, s, e);
            &&& r.0.device_id == f.device_id
            &&& r.0.name == f.name
            &&& r.0.saved == f.saved
            &&& (r.1 != s ==> {
                ||| f.phase == ConnectPhase::VerifyingSaved && e is AdbDevicesListed
                    && r.1 == set_connected_spec(s, f.device_id, true)
                ||| f.phase == ConnectPhase::VerifyingDiscovered && e is AdbDevicesListed
                ||| f.phase == ConnectPhase::SavingEndpoint && e is Saved && r.1
                    == set_connected_spec(s, f.device_id, true)
            })
            &&& (r.2 matches ConnectActionView::Finish { connected, .. } && connected ==> {
                &&& f.phase == ConnectPhase::Spawning
                &&& e is PipelineSpawned
                &&& r.1 == s
            })
            &&& (r.2 matches ConnectActionView::SpawnPipeline(cam) ==> {
                &&& f.phase == ConnectPhase::SavingConnected
                &&& e is Saved
                &&& cam == (match find_device(s, f.device_id) {
                    Some(d) => camera_id_spec(d.camera_selection),
                    None => 0,
                })
            })
            &&& (r.2 matches ConnectActionView::Finish { connected, name } ==> r.0.phase
                == ConnectPhase::Finished && name == f.name)
        }),
{
}

// ---------------------------------------------------------------------------
// Disconnecting
// ---------------------------------------------------------------------------
/// Whether a disconnection worked: `adb devices` no longer lists the
/// device (or could not run).
pub open spec fn disconnect_succeeded(listing: Option<Seq<char>>, endpoint: Seq<char>) -> bool {
    !listed_in(listing, endpoint)
}

/// Records the result of `adb disconnect <endpoint>` for device `id`:
/// when `adb devices` no longer lists it, the device is marked
/// disconnected.  Tells whether the disconnection worked.
pub fn finish_disconnect(
    store: &mut DeviceStore,
    id: u32,
    endpoint: &str,
    listing: Option<&str>,
) -> (ok: bool)
    ensures
        ok == disconnect_succeeded(
            match listing {
                Some(l) => Some(l@),
                None => None,
            },
            endpoint@,
        ),
        final(store)@.next_id == old(store)@.next_id,
        final(store)@.devices == (if ok {
            set_connected_spec(old(store)@.devices, id, false)
        } else {
            old(store)@.devices
        }),
{
    let still = match listing {
        Some(l) => adb_lists(l, endpoint),
        None => false,
    };
    if !still {
        store.set_connected(id, false);
    }
    !still
}

// ---------------------------------------------------------------------------
// Choosing a camera
// ---------------------------------------------------------------------------
/// Stores `selection` as the camera choice of device `id`, as
/// `update_camera_selection` does, and tells whether the choice changed and
/// which camera the device's running pipeline must switch to: the camera of
/// the new choice, when it changed and the device has a pipeline, else none.
pub fn select_camera<P>(
    store: &mut DeviceStore,
    pipelines: &PipelineStore<P>,
    id: u32,
    selection: &str,
) -> (r: (bool, Option<u32>))
    ensures
        final(store)@.next_id == old(store)@.next_id,
        r.0 == (match find_device(old(store)@.devices, id) {
            Some(d) => d.camera_selection != selection@,
            None => false,
        }),
        final(store)@.devices == (if r.0 {
            old(store)@.devices.update(
                index_of_id(old(store)@.devices, id),
                DeviceView {
                    camera_selection: selection@,
                    ..old(store)@.devices[index_of_id(old(store)@.devices, id)]
                },
            )
        } else {
            old(store)@.devices
        }),
        r.1 == (if r.0 && pipelines.map().contains_key(id) {
            Some(camera_id_spec(selection@))
        } else {
            None::<u32>
        }),
{
    let changed = update_camera_selection(store, id, selection);
    if changed && pipelines.contains(id) {
        (true, Some(camera_id_for_selection(selection)))
    } else {
        (changed, None)
    }
}

// ---------------------------------------------------------------------------
// Messages
// ---------------------------------------------------------------------------
/// The notice after the connect or disconnect button of a device.
pub open spec fn connection_toast_spec(was_connected: bool, success: bool, name: Seq<char>) -> Seq<
    char,
> {
    if success {
        if was_connected {
            "Disconnected from "@ + name
        } else {
            "Connected to "@ + name
        }
    } else {
        if was_connected {
            "Failed to disconnect from "@ + name
        } else {
            "Failed to connect to "@ + name
        }
    }
}

/// Words the notice after a connect or disconnect.
pub fn connection_toast(was_connected: bool, success: bool, name: &str) -> (m: String)
    ensures
        m@ == connection_toast_spec(was_connected, success, name@),
{
    if success {
        if was_connected {
            concat_str("Disconnected from ", name)
        } else {
            concat_str("Connected to ", name)
        }
    } else {
        if was_connected {
            concat_str("Failed to disconnect from ", name)
        } else {
            concat_str("Failed to connect to ", name)
        }
    }
}

/// Whether the selected device is shown as connected: when its record says
/// so, or when a pipeline runs for it.
pub fn effective_connected(recorded: bool, has_pipeline: bool) -> (b: bool)
    ensures
        b == (recorded || has_pipeline),
{
    recorded || has_pipeline
}

} // verus!
