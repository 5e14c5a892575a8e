//! The saved devices: their records, the store that holds them, and what
//! `adb` reports about them.
use vstd::prelude::*;
use crate::text::{
    chars_equal, chars_of, contains_chars, decimal, has_infix, has_prefix, lines, owned,
    push_decimal, split_lines, split_words, starts_with_chars, string_of_all, trim,
    trimmed_chars, views, words,
};
use crate::video::{camera_id_for_selection, camera_id_spec};

verus! {

broadcast use vstd::string::group_string_axioms;

/// A phone that the user has paired.
#[derive(Debug)]
pub struct Device {
    pub id: u32,
    pub name: String,
    pub address: String,
    pub port: u16,
    pub connected: bool,
    pub camera_selection: String,
}

/// The contents of a device record.
pub struct DeviceView {
    pub id: u32,
    pub name: Seq<char>,
    pub address: Seq<char>,
    pub port: u16,
    pub connected: bool,
    pub camera_selection: Seq<char>,
}

impl View for Device {
    type V = DeviceView;

    open spec fn view(&self) -> DeviceView {
        DeviceView {
            id: self.id,
            name: self.name@,
            address: self.address@,
            port: self.port,
            connected: self.connected,
            camera_selection: self.camera_selection@,
        }
    }
}

/// The views of a sequence of device records.
pub open spec fn device_views(v: Seq<Device>) -> Seq<DeviceView> {
    Seq::new(v.len(), |i: int| v[i]@)
}

/// The camera that a device without a stored choice uses.
pub fn default_camera_selection() -> (s: String)
    ensures
        s@ == "back"@,
{
    owned("back")
}

/// `"<address>:<port>"`, the name under which `adb` knows a device.
pub open spec fn endpoint_spec(address: Seq<char>, port: u16) -> Seq<char> {
    address + ":"@ + decimal(port as nat)
}

/// The `adb` name of a device record.
pub open spec fn device_endpoint(d: DeviceView) -> Seq<char> {
    endpoint_spec(d.address, d.port)
}

/// Formats `"<address>:<port>"`.
pub fn endpoint(address: &str, port: u16) -> (s: String)
    ensures
        s@ == endpoint_spec(address@, port),
{
    let mut v = chars_of(address);
    v.push(':');
    push_decimal(&mut v, port as u64);
    proof {
        reveal_strlit(":");
    }
    assert(v@ =~= address@ + ":"@ + decimal(port as nat));
    string_of_all(&v)
}

impl Device {
    /// A copy of this record.
    pub fn duplicate(&self) -> (d: Device)
        ensures
            d@ == self@,
    {
        Device {
            id: self.id,
            name: self.name.clone(),
            address: self.address.clone(),
            port: self.port,
            connected: self.connected,
            camera_selection: self.camera_selection.clone(),
        }
    }

    /// The name under which `adb` knows this device.
    pub fn endpoint(&self) -> (s: String)
        ensures
            s@ == device_endpoint(self@),
    {
        endpoint(self.address.as_str(), self.port)
    }
}

// ---------------------------------------------------------------------------
// The store
// ---------------------------------------------------------------------------
/// The saved devices, in their saved order, and the id that the next new
/// device receives.
pub struct DeviceStore {
    devices: Vec<Device>,
    next_id: u32,
}

pub struct DeviceStoreView {
    pub devices: Seq<DeviceView>,
    pub next_id: u32,
}

impl View for DeviceStore {
    type V = DeviceStoreView;

    closed spec fn view(&self) -> DeviceStoreView {
        DeviceStoreView { devices: device_views(self.devices@), next_id: self.next_id }
    }
}

/// The largest id among `s`, or 0 for no devices.
pub open spec fn max_id(s: Seq<DeviceView>) -> u32
    decreases s.len(),
{
    if s.len() == 0 {
        0
    } else if s.last().id > max_id(s.drop_last()) {
        s.last().id
    } else {
        max_id(s.drop_last())
    }
}

proof fn lemma_max_id(s: Seq<DeviceView>)
    ensures
        forall|i: int| 0 <= i < s.len() ==> (#[trigger] s[i]).id <= max_id(s),
        s.len() == 0 || exists|i: int| 0 <= i < s.len() && (#[trigger] s[i]).id == max_id(s),
    decreases s.len(),
{
    if s.len() > 0 {
        lemma_max_id(s.drop_last());
        assert forall|i: int| 0 <= i < s.len() implies (#[trigger] s[i]).id <= max_id(s) by {
            if i < s.len() - 1 {
                assert(s[i] == s.drop_last()[i]);
            }
        }
        if s.last().id > max_id(s.drop_last()) {
            assert(s[s.len() - 1].id == max_id(s));
        } else if s.len() > 1 {
            let j = choose|j: int| 0 <= j < s.len() - 1 && (#[trigger] s.drop_last()[j]).id == max_id(
                s.drop_last(),
            );
            assert(s[j] == s.drop_last()[j]);
        } else {
            assert(s[0].id == max_id(s)) by {
                assert(s.drop_last().len() == 0);
            }
        }
    }
}

/// Whether `i` is the first position of a device with id `id`.
pub open spec fn first_with_id(s: Seq<DeviceView>, id: u32, i: int) -> bool {
    &&& 0 <= i < s.len()
    &&& s[i].id == id
    &&& forall|j: int| 0 <= j < i ==> (#[trigger] s[j]).id != id
}

/// Whether some device has id `id`.
pub open spec fn has_id(s: Seq<DeviceView>, id: u32) -> bool {
    exists|i: int| 0 <= i < s.len() && (#[trigger] s[i]).id == id
}

/// The first position of a device with id `id`.
pub open spec fn index_of_id(s: Seq<DeviceView>, id: u32) -> int {
    choose|i: int| first_with_id(s, id, i)
}

/// The first device with id `id`, as the store's lookups find it.
pub open spec fn find_device(s: Seq<DeviceView>, id: u32) -> Option<DeviceView> {
    if has_id(s, id) {
        Some(s[index_of_id(s, id)])
    } else {
        None
    }
}

/// A new device as the add dialog creates it: not connected, back camera.
pub open spec fn new_device_view(id: u32, name: Seq<char>, address: Seq<char>, port: u16) -> DeviceView {
    DeviceView { id, name, address, port, connected: false, camera_selection: "back"@ }
}

/// Whether ids strictly increase along `s`.
pub open spec fn ids_increasing(s: Seq<DeviceView>) -> bool {
    forall|i: int, j: int| 0 <= i < j < s.len() ==> (#[trigger] s[i]).id < (#[trigger] s[j]).id
}

/// The largest id among `devices`, or 0 for none: the store made of them
/// hands out the next id after it, so it must be below `u32::MAX`.
pub fn max_device_id(devices: &Vec<Device>) -> (m: u32)
    ensures
        m == max_id(device_views(devices@)),
{
    let mut m: u32 = 0;
    let mut i: usize = 0;
    while i < devices.len()
        invariant
            i <= devices.len(),
            m == max_id(device_views(devices@).take(i as int)),
        decreases devices.len() - i,
    {
        let ghost s = device_views(devices@).take(i + 1);
        assert(s.drop_last() == device_views(devices@).take(i as int));
        assert(s.last() == devices@[i as int]@);
        if devices[i].id > m {
            m = devices[i].id;
        }
        i = i + 1;
    }
    assert(device_views(devices@).take(devices.len() as int) == device_views(devices@));
    m
}

/// The store of the devices that were loaded: the next id follows the
/// largest loaded id.
pub fn new_device_store(loaded: Vec<Device>) -> (store: DeviceStore)
    requires
        max_id(device_views(loaded@)) < u32::MAX,
    ensures
        store@.devices == device_views(loaded@),
        store@.next_id == max_id(device_views(loaded@)) + 1,
{
    let m = max_device_id(&loaded);
    DeviceStore { devices: loaded, next_id: m + 1 }
}

impl DeviceStore {
    /// The saved devices.
    pub fn devices(&self) -> (d: &Vec<Device>)
        ensures
            device_views(d@) == self@.devices,
    {
        &self.devices
    }

    /// The id that the next new device receives.
    pub fn peek_next_id(&self) -> (n: u32)
        ensures
            n == self@.next_id,
    {
        self.next_id
    }

    /// The position of the first device with id `id`.
    pub fn position(&self, id: u32) -> (r: Option<usize>)
        ensures
            r matches Some(i) ==> first_with_id(self@.devices, id, i as int),
            r is None ==> !has_id(self@.devices, id),
    {
        let mut i: usize = 0;
        while i < self.devices.len()
            invariant
                i <= self.devices.len(),
                forall|j: int| 0 <= j < i ==> (#[trigger] self.devices@[j]).id != id,
            decreases self.devices.len() - i,
        {
            if self.devices[i].id == id {
                return Some(i);
            }
            i = i + 1;
        }
        proof {
            assert forall|j: int| 0 <= j < self@.devices.len() implies (
            #[trigger] self@.devices[j]).id != id by {
                assert(self@.devices[j] == self.devices@[j]@);
            }
        }
        None
    }

    /// Adds a newly paired device under the next id, and returns that id.
    pub fn add_device(&mut self, name: String, address: String, port: u16) -> (id: u32)
        ensures
            id == old(self)@.next_id,
            final(self)@.devices == old(self)@.devices.push(
                new_device_view(id, name@, address@, port),
            ),
            final(self)@.next_id == (if old(self)@.next_id == u32::MAX {
                0
            } else {
                (old(self)@.next_id + 1) as u32
            }),
    {
        let id = next_device_id(self);
        let d = Device {
            id,
            name,
            address,
            port,
            connected: false,
            camera_selection: default_camera_selection(),
        };
        self.devices.push(d);
        assert(device_views(self.devices@) =~= device_views(old(self).devices@).push(
            new_device_view(id, name@, address@, port),
        ));
        id
    }
}

/// While the next id is above every stored id, a new device gets an id that
/// no stored device has, and the next id stays above every id.
pub proof fn lemma_new_ids_are_fresh(store: DeviceStoreView, added: DeviceStoreView, id: u32)
    requires
        forall|i: int| 0 <= i < store.devices.len() ==> (#[trigger] store.devices[i]).id
            < store.next_id,
        store.next_id < u32::MAX,
        id == store.next_id,
        added.devices.len() == store.devices.len() + 1,
        forall|i: int| 0 <= i < store.devices.len() ==> added.devices[i] == store.devices[i],
        added.devices.last().id == id,
        added.next_id == store.next_id + 1,
    ensures
        !has_id(store.devices, id),
        forall|i: int| 0 <= i < added.devices.len() ==> (#[trigger] added.devices[i]).id
            < added.next_id,
{
    assert forall|i: int| 0 <= i < added.devices.len() implies (
    #[trigger] added.devices[i]).id < added.next_id by {
        if i < store.devices.len() {
            assert(added.devices[i] == store.devices[i]);
        }
    }
}

/// A loaded store hands out ids above every loaded id.
pub proof fn lemma_loaded_store_ids_below_next(loaded: Seq<DeviceView>)
    ensures
        forall|i: int| 0 <= i < loaded.len() ==> (#[trigger] loaded[i]).id < max_id(loaded) + 1,
{
    lemma_max_id(loaded);
}

// ---------------------------------------------------------------------------
// What adb reports
// ---------------------------------------------------------------------------
/// The address that one line of `adb devices -l` lists as attached: the
/// first word, when the second word is `device`.
pub open spec fn listed_device(line: Seq<char>) -> Option<Seq<char>> {
    let w = words(line);
    if w.len() >= 2 && w[1] == "device"@ {
        Some(w[0])
    } else {
        None
    }
}

/// The addresses that a sequence of lines lists, in order.
pub open spec fn listed_devices(ls: Seq<Seq<char>>) -> Seq<Seq<char>>
    decreases ls.len(),
{
    if ls.len() == 0 {
        seq![]
    } else {
        match listed_device(ls[0]) {
            Some(a) => seq![a] + listed_devices(ls.drop_first()),
            None => listed_devices(ls.drop_first()),
        }
    }
}

/// The attached devices that the output of `adb devices -l` lists: every
/// line after the heading that `listed_device` accepts.
pub open spec fn adb_devices_spec(stdout: Seq<char>) -> Seq<Seq<char>> {
    let ls = lines(stdout);
    if ls.len() == 0 {
        seq![]
    } else {
        listed_devices(ls.drop_first())
    }
}

/// Reads the attached device addresses from the output of
/// `adb devices -l`.
pub fn get_connected_adb_devices(stdout: &str) -> (r: Vec<String>)
    ensures
        views(r@) == adb_devices_spec(stdout@),
{
    let text = chars_of(stdout);
    let ls = split_lines(&text);
    let ghost all = lines(stdout@);
    let mut r: Vec<String> = Vec::new();
    if ls.len() == 0 {
        assert(views(r@) =~= seq![]);
        return r;
    }
    let device = chars_of("device");
    let mut i: usize = 1;
    proof {
        assert(all.skip(1) == all.drop_first());
    }
    while i < ls.len()
        invariant
            1 <= i <= ls.len(),
            ls@.len() == all.len(),
            forall|k: int| 0 <= k < ls@.len() ==> #[trigger] ls@[k]@ == all[k],
            device@ == "device"@,
            views(r@) + listed_devices(all.skip(i as int)) == listed_devices(all.drop_first()),
        decreases ls.len() - i,
    {
        let w = split_words(&ls[i]);
        let ghost line = all[i as int];
        proof {
            assert(all.skip(i as int)[0] == line);
            assert(all.skip(i as int).drop_first() == all.skip(i + 1));
            assert(ls@[i as int]@ == line);
        }
        let ghost old_r = views(r@);
        if w.len() >= 2 && chars_equal(&w[1], &device) {
            let a = string_of_all(&w[0]);
            r.push(a);
            proof {
                assert(listed_device(line) == Some(words(line)[0]));
                assert(views(r@) =~= old_r.push(words(line)[0]));
                assert(old_r.push(words(line)[0]) + listed_devices(all.skip(i + 1)) =~= old_r + (
                seq![words(line)[0]] + listed_devices(all.skip(i + 1))));
            }
        } else {
            proof {
                if w.len() >= 2 {
                    assert(w@[1]@ == words(line)[1]);
                }
                assert(listed_device(line) is None);
            }
        }
        i = i + 1;
    }
    proof {
        assert(all.skip(i as int).len() == 0);
        assert(views(r@) + seq![] == views(r@));
    }
    r
}

/// Whether one line of `adb devices` names `endpoint`: it starts with it and
/// contains the word `device` somewhere.
pub open spec fn line_lists(line: Seq<char>, endpoint: Seq<char>) -> bool {
    has_prefix(line, endpoint) && has_infix(line, "device"@)
}

/// Whether the output of `adb devices` shows `endpoint` as attached.
pub open spec fn adb_lists_spec(stdout: Seq<char>, endpoint: Seq<char>) -> bool {
    exists|i: int| 0 <= i < lines(stdout).len() && line_lists(#[trigger] lines(stdout)[i], endpoint)
}

/// Whether the output of `adb devices` shows `endpoint` as attached.
pub fn adb_lists(stdout: &str, endpoint: &str) -> (b: bool)
    ensures
        b == adb_lists_spec(stdout@, endpoint@),
{
    let text = chars_of(stdout);
    let ls = split_lines(&text);
    let ep = chars_of(endpoint);
    let device = chars_of("device");
    let mut i: usize = 0;
    while i < ls.len()
        invariant
            i <= ls.len(),
            ls@.len() == lines(stdout@).len(),
            forall|k: int| 0 <= k < ls@.len() ==> #[trigger] ls@[k]@ == lines(stdout@)[k],
            ep@ == endpoint@,
            device@ == "device"@,
            forall|k: int| 0 <= k < i ==> !line_lists(#[trigger] lines(stdout@)[k], endpoint@),
        decreases ls.len() - i,
    {
        assert(ls@[i as int]@ == lines(stdout@)[i as int]);
        if starts_with_chars(&ls[i], &ep) && contains_chars(&ls[i], &device) {
            return true;
        }
        i = i + 1;
    }
    false
}

// ---------------------------------------------------------------------------
// Updating the store
// ---------------------------------------------------------------------------
/// `d` with its connection flag set to `connected`.
pub open spec fn with_connected(d: DeviceView, connected: bool) -> DeviceView {
    DeviceView { connected, ..d }
}

/// The store after a status refresh: each device is connected exactly when
/// its `adb` name is among `attached`.
pub open spec fn refreshed(s: Seq<DeviceView>, attached: Seq<Seq<char>>) -> Seq<DeviceView> {
    Seq::new(s.len(), |i: int| with_connected(s[i], attached.contains(device_endpoint(s[i]))))
}

/// Whether a refresh changes the flag of some device.
pub open spec fn refresh_changes(s: Seq<DeviceView>, attached: Seq<Seq<char>>) -> bool {
    exists|i: int|
        0 <= i < s.len() && (#[trigger] s[i]).connected != attached.contains(device_endpoint(s[i]))
}

/// Whether `attached` holds `item`.
pub fn contains_string(attached: &Vec<String>, item: &String) -> (b: bool)
    ensures
        b == views(attached@).contains(item@),
{
    let target = chars_of(item.as_str());
    let mut i: usize = 0;
    while i < attached.len()
        invariant
            i <= attached.len(),
            target@ == item@,
            forall|k: int| 0 <= k < i ==> attached@[k]@ != item@,
        decreases attached.len() - i,
    {
        let c = chars_of(attached[i].as_str());
        if chars_equal(&c, &target) {
            assert(views(attached@)[i as int] == item@);
            return true;
        }
        i = i + 1;
    }
    proof {
        if views(attached@).contains(item@) {
            let k = choose|k: int| 0 <= k < views(attached@).len() && views(attached@)[k] == item@;
            assert(attached@[k]@ == item@);
        }
    }
    false
}

impl DeviceStore {
    /// The camera id of the first device with id `id`, or 0 when there is
    /// none.
    pub fn camera_id_of(&self, id: u32) -> (c: u32)
        ensures
            c == (match find_device(self@.devices, id) {
                Some(d) => camera_id_spec(d.camera_selection),
                None => 0,
            }),
    {
        match self.position(id) {
            Some(i) => {
                proof {
                    lemma_first_with_id_unique(self@.devices, id, i as int);
                }
                camera_id_for_selection(self.devices[i].camera_selection.as_str())
            },
            None => 0,
        }
    }
}

/// Hands out the next device id; the counter wraps as an atomic counter
/// does.
pub fn next_device_id(store: &mut DeviceStore) -> (id: u32)
    ensures
        id == old(store)@.next_id,
        final(store)@.devices == old(store)@.devices,
        final(store)@.next_id == (if old(store)@.next_id == u32::MAX {
            0
        } else {
            (old(store)@.next_id + 1) as u32
        }),
{
    let id = store.next_id;
    store.next_id = store.next_id.wrapping_add(1);
    id
}

/// Marks each device connected exactly when `adb` lists it among
/// `attached`; tells whether any flag changed.
pub fn refresh_connected_status(store: &mut DeviceStore, attached: &Vec<String>) -> (changed: bool)
    ensures
        final(store)@.devices == refreshed(old(store)@.devices, views(attached@)),
        final(store)@.next_id == old(store)@.next_id,
        changed == refresh_changes(old(store)@.devices, views(attached@)),
{
    let ghost old_devs = old(store)@.devices;
    let ghost att = views(attached@);
    let mut changed = false;
    let mut i: usize = 0;
    while i < store.devices.len()
        invariant
            i <= store.devices.len(),
            store.devices@.len() == old_devs.len(),
            att == views(attached@),
            store.next_id == old(store).next_id,
            forall|k: int| 0 <= k < i ==> #[trigger] store.devices@[k]@ == refreshed(old_devs, att)[k],
            forall|k: int| i <= k < old_devs.len() ==> #[trigger] store.devices@[k]@ == old_devs[k],
            changed == exists|k: int|
                0 <= k < i && (#[trigger] old_devs[k]).connected != att.contains(
                    device_endpoint(old_devs[k]),
                ),
        decreases store.devices.len() - i,
    {
        let addr = store.devices[i].endpoint();
        let is_connected = contains_string(attached, &addr);
        assert(store.devices@[i as int]@ == old_devs[i as int]);
        if store.devices[i].connected != is_connected {
            let mut d = store.devices.remove(i);
            d.connected = is_connected;
            store.devices.insert(i, d);
            changed = true;
        }
        assert(store.devices@[i as int]@ == refreshed(old_devs, att)[i as int]);
        i = i + 1;
    }
    assert(device_views(store.devices@) =~= refreshed(old_devs, att));
    changed
}

/// Stores `selection` as the camera choice of the first device with id
/// `id`; tells whether the stored choice changed.
pub fn update_camera_selection(store: &mut DeviceStore, id: u32, selection: &str) -> (changed: bool)
    ensures
        final(store)@.next_id == old(store)@.next_id,
        changed == (match find_device(old(store)@.devices, id) {
            Some(d) => d.camera_selection != selection@,
            None => false,
        }),
        final(store)@.devices == (if changed {
            old(store)@.devices.update(
                index_of_id(old(store)@.devices, id),
                DeviceView {
                    camera_selection: selection@,
                    ..old(store)@.devices[index_of_id(old(store)@.devices, id)]
                },
            )
        } else {
            old(store)@.devices
        }),
{
    match store.position(id) {
        Some(i) => {
            proof {
                lemma_first_with_id_unique(store@.devices, id, i as int);
            }
            let current = chars_of(store.devices[i].camera_selection.as_str());
            let wanted = chars_of(selection);
            if chars_equal(&current, &wanted) {
                false
            } else {
                let old_d = &store.devices[i];
                let d = Device {
                    id: old_d.id,
                    name: old_d.name.clone(),
                    address: old_d.address.clone(),
                    port: old_d.port,
                    connected: old_d.connected,
                    camera_selection: owned(selection),
                };
                store.replace_at(i, d);
                true
            }
        },
        None => false,
    }
}

/// There is at most one first position of an id.
pub proof fn lemma_first_with_id_unique(s: Seq<DeviceView>, id: u32, i: int)
    requires
        first_with_id(s, id, i),
    ensures
        has_id(s, id),
        index_of_id(s, id) == i,
        find_device(s, id) == Some(s[i]),
{
    let j = choose|j: int| first_with_id(s, id, j);
    assert(first_with_id(s, id, j));
    if j < i {
        assert(s[j].id != id);
    } else if j > i {
        assert(s[i].id != id);
    }
}

proof fn lemma_first_exists(s: Seq<DeviceView>, id: u32, i: int)
    requires
        0 <= i < s.len(),
        s[i].id == id,
    ensures
        exists|k: int| first_with_id(s, id, k),
    decreases i,
{
    if exists|j: int| 0 <= j < i && (#[trigger] s[j]).id == id {
        let j = choose|j: int| 0 <= j < i && (#[trigger] s[j]).id == id;
        lemma_first_exists(s, id, j);
    } else {
        assert(first_with_id(s, id, i));
    }
}

/// A device with id `id` is found at the first position of that id.
pub proof fn lemma_has_id_first(s: Seq<DeviceView>, id: u32)
    requires
        has_id(s, id),
    ensures
        first_with_id(s, id, index_of_id(s, id)),
{
    let i = choose|i: int| 0 <= i < s.len() && (#[trigger] s[i]).id == id;
    lemma_first_exists(s, id, i);
}

/// Refreshing twice against the same report changes nothing the second
/// time.
pub proof fn lemma_refresh_idempotent(s: Seq<DeviceView>, attached: Seq<Seq<char>>)
    ensures
        !refresh_changes(refreshed(s, attached), attached),
        refreshed(refreshed(s, attached), attached) == refreshed(s, attached),
{
    let r = refreshed(s, attached);
    assert(forall|i: int| 0 <= i < r.len() ==> device_endpoint(#[trigger] r[i]) == device_endpoint(
        s[i],
    ));
    assert(refreshed(r, attached) =~= r);
}

/// A refresh marks each device connected exactly when its `"address:port"`
/// is among the attached devices, changes nothing else, and reports a
/// change exactly when the store changed: when a device became connected
/// and when one became disconnected.
pub proof fn lemma_refresh_reports_every_change(s: Seq<DeviceView>, attached: Seq<Seq<char>>)
    ensures
        refreshed(s, attached).len() == s.len(),
        forall|i: int|
            0 <= i < s.len() ==> {
                let d = #[trigger] refreshed(s, attached)[i];
                &&& d.connected == attached.contains(
                    s[i].address + ":"@ + decimal(s[i].port as nat),
                )
                &&& d.id == s[i].id
                &&& d.name == s[i].name
                &&& d.address == s[i].address
                &&& d.port == s[i].port
                &&& d.camera_selection == s[i].camera_selection
            },
        refresh_changes(s, attached) <==> refreshed(s, attached) != s,
        refresh_changes(s, attached) <==> exists|i: int|
            0 <= i < s.len() && (#[trigger] s[i]).connected != attached.contains(
                s[i].address + ":"@ + decimal(s[i].port as nat),
            ),
{
    let r = refreshed(s, attached);
    if refresh_changes(s, attached) {
        let i = choose|i: int|
            0 <= i < s.len() && (#[trigger] s[i]).connected != attached.contains(
                device_endpoint(s[i]),
            );
        assert(r[i].connected != s[i].connected);
    } else {
        assert(r =~= s);
    }
}

/// The name that the add and rename dialogs accept from `text`: the text
/// trimmed, unless that is empty.
pub fn validate_device_name(text: &str) -> (r: Option<String>)
    ensures
        trim(text@).len() == 0 ==> r is None,
        trim(text@).len() > 0 ==> (r matches Some(n) && n@ == trim(text@)),
{
    let t = trimmed_chars(text);
    if t.len() == 0 {
        None
    } else {
        Some(string_of_all(&t))
    }
}

/// Why a new device name was refused.
#[derive(Clone, Copy, Debug, PartialEq, Eq)]
pub enum RenameError {
    /// The name is empty once white space is trimmed.
    EmptyName,
}

/// The store with the record at `i` replaced by `d`.
pub open spec fn replaced(s: Seq<DeviceView>, i: int, d: DeviceView) -> Seq<DeviceView> {
    s.update(i, d)
}

impl DeviceStore {
    fn replace_at(&mut self, i: usize, d: Device)
        requires
            i < old(self)@.devices.len(),
        ensures
            final(self)@.devices == old(self)@.devices.update(i as int, d@),
            final(self)@.next_id == old(self)@.next_id,
    {
        self.devices.remove(i);
        self.devices.insert(i, d);
        assert(device_views(self.devices@) =~= device_views(old(self).devices@).update(
            i as int,
            d@,
        ));
    }

    /// Renames the first device with id `id` to `text` trimmed, unless that
    /// is empty; returns the name given.
    pub fn rename_device(&mut self, id: u32, text: &str) -> (r: Result<String, RenameError>)
        ensures
            final(self)@.next_id == old(self)@.next_id,
            trim(text@).len() == 0 ==> r == Err::<String, RenameError>(RenameError::EmptyName)
                && final(self)@.devices == old(self)@.devices,
            trim(text@).len() > 0 ==> (r matches Ok(name) && name@ == trim(text@)),
            trim(text@).len() > 0 ==> final(self)@.devices == (if has_id(old(self)@.devices, id) {
                old(self)@.devices.update(
                    index_of_id(old(self)@.devices, id),
                    DeviceView { name: trim(text@), ..old(self)@.devices[index_of_id(old(self)@.devices, id)] },
                )
            } else {
                old(self)@.devices
            }),
    {
        let t = trimmed_chars(text);
        if t.len() == 0 {
            return Err(RenameError::EmptyName);
        }
        let new_name = string_of_all(&t);
        match self.position(id) {
            Some(i) => {
                proof {
                    lemma_first_with_id_unique(self@.devices, id, i as int);
                }
                let old_d = &self.devices[i];
                let d = Device {
                    id: old_d.id,
                    name: string_of_all(&t),
                    address: old_d.address.clone(),
                    port: old_d.port,
                    connected: old_d.connected,
                    camera_selection: old_d.camera_selection.clone(),
                };
                self.replace_at(i, d);
            },
            None => {},
        }
        Ok(new_name)
    }

    /// Takes the first device with id `id` out of the store.
    pub fn remove_device(&mut self, id: u32) -> (r: Option<Device>)
        ensures
            final(self)@.next_id == old(self)@.next_id,
            match find_device(old(self)@.devices, id) {
                Some(d) => (r matches Some(removed) && removed@ == d) && final(self)@.devices
                    == old(self)@.devices.remove(index_of_id(old(self)@.devices, id)),
                None => r is None && final(self)@.devices == old(self)@.devices,
            },
    {
        match self.position(id) {
            Some(i) => {
                proof {
                    lemma_first_with_id_unique(self@.devices, id, i as int);
                }
                let d = self.devices.remove(i);
                assert(device_views(self.devices@) =~= device_views(old(self).devices@).remove(
                    i as int,
                ));
                Some(d)
            },
            None => None,
        }
    }

    /// The `adb` names of all saved devices, in order.
    pub fn endpoints(&self) -> (r: Vec<String>)
        ensures
            views(r@) == Seq::new(self@.devices.len(), |i: int| device_endpoint(self@.devices[i])),
    {
        let mut r: Vec<String> = Vec::new();
        let mut i: usize = 0;
        while i < self.devices.len()
            invariant
                i <= self.devices.len(),
                views(r@) == Seq::new(i as nat, |k: int| device_endpoint(self@.devices[k])),
            decreases self.devices.len() - i,
        {
            let e = self.devices[i].endpoint();
            assert(self@.devices[i as int] == self.devices@[i as int]@);
            let ghost before = views(r@);
            r.push(e);
            assert(views(r@) =~= before.push(device_endpoint(self@.devices[i as int])));
            assert(views(r@) =~= Seq::new((i + 1) as nat, |k: int| device_endpoint(self@.devices[k])));
            i = i + 1;
        }
        r
    }

    /// The `adb` name of the first device with id `id`.
    pub fn endpoint_of(&self, id: u32) -> (r: Option<String>)
        ensures
            match find_device(self@.devices, id) {
                Some(d) => (r matches Some(e) && e@ == device_endpoint(d)),
                None => r is None,
            },
    {
        match self.position(id) {
            Some(i) => {
                proof {
                    lemma_first_with_id_unique(self@.devices, id, i as int);
                }
                Some(self.devices[i].endpoint())
            },
            None => None,
        }
    }
}

// ---------------------------------------------------------------------------
// Putting a removed device back
// ---------------------------------------------------------------------------
/// The number of devices in `s` whose id is at most `id`.
pub open spec fn count_id_le(s: Seq<DeviceView>, id: u32) -> nat
    decreases s.len(),
{
    if s.len() == 0 {
        0
    } else {
        count_id_le(s.drop_last(), id) + (if s.last().id <= id {
            1nat
        } else {
            0nat
        })
    }
}

/// `d` placed into `s` after every device whose id is at most its own.
pub open spec fn insert_by_id(s: Seq<DeviceView>, d: DeviceView) -> Seq<DeviceView> {
    let p = count_id_le(s, d.id) as int;
    s.take(p).push(d) + s.skip(p)
}

/// `s` sorted by id, devices with equal ids kept in their order: each
/// device in turn is placed after the ones already placed whose id is at
/// most its own (`slice::sort_by_key`, a stable sort).
pub open spec fn sort_by_id(s: Seq<DeviceView>) -> Seq<DeviceView>
    decreases s.len(),
{
    if s.len() == 0 {
        s
    } else {
        insert_by_id(sort_by_id(s.drop_last()), s.last())
    }
}

/// Whether ids never decrease along `s`.
pub open spec fn ids_nondecreasing(s: Seq<DeviceView>) -> bool {
    forall|i: int, j: int| 0 <= i <= j < s.len() ==> (#[trigger] s[i]).id <= (#[trigger] s[j]).id
}

proof fn lemma_count_id_le_bound(s: Seq<DeviceView>, id: u32)
    ensures
        count_id_le(s, id) <= s.len(),
    decreases s.len(),
{
    if s.len() > 0 {
        lemma_count_id_le_bound(s.drop_last(), id);
    }
}

/// In a sequence whose ids are below `id` up to position `k` and above it
/// from there on, exactly `k` ids are at most `id`.
proof fn lemma_count_id_le_split(s: Seq<DeviceView>, id: u32, k: int)
    requires
        0 <= k <= s.len(),
        forall|j: int| 0 <= j < k ==> (#[trigger] s[j]).id <= id,
        forall|j: int| k <= j < s.len() ==> (#[trigger] s[j]).id > id,
    ensures
        count_id_le(s, id) == k,
    decreases s.len(),
{
    if s.len() > 0 {
        if k == s.len() {
            lemma_count_id_le_split(s.drop_last(), id, k - 1);
            assert(s[s.len() - 1].id <= id);
        } else {
            lemma_count_id_le_split(s.drop_last(), id, k);
            assert(s[s.len() - 1].id > id);
        }
    }
}

/// Sorting keeps every device and puts ids in order.
pub proof fn lemma_sort_by_id_sorts(s: Seq<DeviceView>)
    ensures
        sort_by_id(s).len() == s.len(),
        sort_by_id(s).to_multiset() == s.to_multiset(),
        ids_nondecreasing(sort_by_id(s)),
    decreases s.len(),
{
    broadcast use vstd::seq_lib::group_to_multiset_ensures;
    if s.len() > 0 {
        let t = sort_by_id(s.drop_last());
        let d = s.last();
        lemma_sort_by_id_sorts(s.drop_last());
        let p = count_id_le(t, d.id) as int;
        lemma_count_id_le_bound(t, d.id);
        lemma_count_le_prefix(t, d.id);
        let r = t.take(p).push(d) + t.skip(p);
        assert(r == sort_by_id(s));
        assert(r.remove(p) =~= t);
        assert(r[p] == d);
        assert(r.to_multiset().remove(d) =~= t.to_multiset());
        assert(r.contains(d));
        assert(r.to_multiset() =~= t.to_multiset().insert(d)) by {
            broadcast use vstd::multiset::group_multiset_axioms;
        }
        assert(s =~= s.drop_last().push(d));
        assert(s.to_multiset() =~= s.drop_last().to_multiset().insert(d));
        assert forall|i: int, j: int| 0 <= i <= j < r.len() implies (#[trigger] r[i]).id <= (
        #[trigger] r[j]).id by {
            if i < p && j < p {
                assert(r[i] == t[i] && r[j] == t[j]);
            } else if i < p && j == p {
                assert(r[i] == t[i]);
            } else if i < p {
                assert(r[i] == t[i] && r[j] == t[j - 1]);
            } else if i == p && j > p {
                assert(r[j] == t[j - 1]);
            } else if i > p {
                assert(r[i] == t[i - 1] && r[j] == t[j - 1]);
            }
        }
    }
}

/// In a sequence with nondecreasing ids, the devices with id at most `id`
/// are a prefix.
proof fn lemma_count_le_prefix(t: Seq<DeviceView>, id: u32)
    requires
        ids_nondecreasing(t),
    ensures
        count_id_le(t, id) <= t.len(),
        forall|j: int| 0 <= j < count_id_le(t, id) ==> (#[trigger] t[j]).id <= id,
        forall|j: int| count_id_le(t, id) <= j < t.len() ==> (#[trigger] t[j]).id > id,
    decreases t.len(),
{
    lemma_count_id_le_bound(t, id);
    if t.len() > 0 {
        let u = t.drop_last();
        assert(ids_nondecreasing(u)) by {
            assert forall|i: int, j: int| 0 <= i <= j < u.len() implies (#[trigger] u[i]).id <= (
            #[trigger] u[j]).id by {
                assert(u[i] == t[i] && u[j] == t[j]);
            }
        }
        lemma_count_le_prefix(u, id);
        let c = count_id_le(u, id);
        if t.last().id <= id {
            assert forall|j: int| 0 <= j < c implies (#[trigger] u[j]).id <= id by {}
            if c < u.len() {
                assert(u[c as int].id > id);
                assert(t[c as int].id <= t[t.len() - 1].id);
            }
            assert forall|j: int| 0 <= j < count_id_le(t, id) implies (#[trigger] t[j]).id <= id by {
                if j < u.len() {
                    assert(t[j] == u[j]);
                }
            }
        } else {
            assert forall|j: int| 0 <= j < count_id_le(t, id) implies (#[trigger] t[j]).id <= id by {
                assert(t[j] == u[j]);
            }
            assert forall|j: int| count_id_le(t, id) <= j < t.len() implies (#[trigger] t[j]).id
                > id by {
                if j < u.len() {
                    assert(t[j] == u[j]);
                }
            }
        }
    }
}

/// Sorting a sequence that is already in id order leaves it as it is.
proof fn lemma_sort_by_id_sorted(s: Seq<DeviceView>)
    requires
        ids_nondecreasing(s),
    ensures
        sort_by_id(s) == s,
    decreases s.len(),
{
    if s.len() > 0 {
        let u = s.drop_last();
        assert(ids_nondecreasing(u)) by {
            assert forall|i: int, j: int| 0 <= i <= j < u.len() implies (#[trigger] u[i]).id <= (
            #[trigger] u[j]).id by {
                assert(u[i] == s[i] && u[j] == s[j]);
            }
        }
        lemma_sort_by_id_sorted(u);
        lemma_count_id_le_split(u, s.last().id, u.len() as int);
        assert(u.take(u.len() as int).push(s.last()) + u.skip(u.len() as int) =~= s);
    }
}

/// Deleting a device and then undoing the deletion gives back the store as
/// it was, when its ids are in strictly increasing order.
pub proof fn lemma_restore_undoes_remove(s: Seq<DeviceView>, id: u32)
    requires
        ids_increasing(s),
        has_id(s, id),
    ensures
        sort_by_id(s.remove(index_of_id(s, id)).push(s[index_of_id(s, id)])) == s,
{
    let i0 = choose|i: int| 0 <= i < s.len() && (#[trigger] s[i]).id == id;
    assert(first_with_id(s, id, i0)) by {
        assert forall|j: int| 0 <= j < i0 implies (#[trigger] s[j]).id != id by {
            assert(s[j].id < s[i0].id);
        }
    }
    lemma_first_with_id_unique(s, id, i0);
    let i = i0;
    let t = s.remove(i);
    let d = s[i];
    assert(ids_nondecreasing(t)) by {
        assert forall|a: int, b: int| 0 <= a <= b < t.len() implies (#[trigger] t[a]).id <= (
        #[trigger] t[b]).id by {
            let a2 = if a < i {
                a
            } else {
                a + 1
            };
            let b2 = if b < i {
                b
            } else {
                b + 1
            };
            assert(t[a] == s[a2] && t[b] == s[b2]);
            if a2 < b2 {
                assert(s[a2].id < s[b2].id);
            }
        }
    }
    lemma_sort_by_id_sorted(t);
    assert(t.push(d).drop_last() =~= t);
    assert(sort_by_id(t.push(d)) == insert_by_id(t, d));
    assert forall|j: int| 0 <= j < i implies (#[trigger] t[j]).id <= d.id by {
        assert(t[j] == s[j]);
    }
    assert forall|j: int| i <= j < t.len() implies (#[trigger] t[j]).id > d.id by {
        assert(t[j] == s[j + 1]);
    }
    lemma_count_id_le_split(t, d.id, i);
    assert(t.take(i).push(d) + t.skip(i) =~= s);
}

impl DeviceStore {
    /// The number of devices in `sorted` whose id is at most `id`.
    fn count_le(sorted: &Vec<Device>, id: u32) -> (n: usize)
        ensures
            n == count_id_le(device_views(sorted@), id),
    {
        let mut n: usize = 0;
        let mut i: usize = 0;
        while i < sorted.len()
            invariant
                i <= sorted.len(),
                n <= i,
                n == count_id_le(device_views(sorted@).take(i as int), id),
            decreases sorted.len() - i,
        {
            let ghost pre = device_views(sorted@).take(i + 1);
            assert(pre.drop_last() == device_views(sorted@).take(i as int));
            if sorted[i].id <= id {
                n = n + 1;
            }
            i = i + 1;
        }
        assert(device_views(sorted@).take(sorted.len() as int) == device_views(sorted@));
        n
    }

    /// Puts a removed device back, keeping the store sorted by id (the undo
    /// of a deletion).
    pub fn restore_device(&mut self, device: Device)
        ensures
            final(self)@.next_id == old(self)@.next_id,
            final(self)@.devices == sort_by_id(old(self)@.devices.push(device@)),
    {
        let ghost all = old(self)@.devices.push(device@);
        let mut rest: Vec<Device> = Vec::new();
        std::mem::swap(&mut rest, &mut self.devices);
        rest.push(device);
        assert(device_views(rest@) =~= all);
        let mut sorted: Vec<Device> = Vec::new();
        let ghost mut k: int = 0;
        assert(all.take(0) =~= seq![]);
        assert(device_views(sorted@) =~= seq![]);
        while rest.len() > 0
            invariant
                0 <= k <= all.len(),
                device_views(rest@) == all.skip(k),
                device_views(sorted@) == sort_by_id(all.take(k)),
            decreases rest.len(),
        {
            let ghost old_rest = device_views(rest@);
            assert(old_rest.len() == rest@.len());
            assert(k < all.len());
            assert(old_rest[0] == all[k]);
            let x = rest.remove(0);
            assert(x@ == old_rest[0]);
            assert(device_views(rest@) =~= old_rest.drop_first());
            assert(device_views(rest@) =~= all.skip(k + 1));
            let p = Self::count_le(&sorted, x.id);
            proof {
                lemma_count_id_le_bound(device_views(sorted@), x.id);
            }
            let ghost before = device_views(sorted@);
            sorted.insert(p, x);
            proof {
                assert(all.take(k + 1).drop_last() =~= all.take(k));
                assert(all.take(k + 1).last() == all[k]);
                assert(device_views(sorted@) =~= before.take(p as int).push(all[k]) + before.skip(
                    p as int,
                ));
                k = k + 1;
            }
        }
        assert(all.take(k) =~= all);
        self.devices = sorted;
    }
}

/// The store with the connection flag of the first device with id `id` set
/// to `connected`.
pub open spec fn set_connected_spec(s: Seq<DeviceView>, id: u32, connected: bool) -> Seq<DeviceView> {
    if has_id(s, id) {
        s.update(index_of_id(s, id), with_connected(s[index_of_id(s, id)], connected))
    } else {
        s
    }
}

/// The store with the address and port of the first device with id `id`
/// replaced.
pub open spec fn set_endpoint_spec(
    s: Seq<DeviceView>,
    id: u32,
    address: Seq<char>,
    port: u16,
) -> Seq<DeviceView> {
    if has_id(s, id) {
        s.update(
            index_of_id(s, id),
            DeviceView { address, port, ..s[index_of_id(s, id)] },
        )
    } else {
        s
    }
}

impl DeviceStore {
    /// Sets the connection flag of the first device with id `id`.
    pub fn set_connected(&mut self, id: u32, connected: bool)
        ensures
            final(self)@.next_id == old(self)@.next_id,
            final(self)@.devices == set_connected_spec(old(self)@.devices, id, connected),
    {
        match self.position(id) {
            Some(i) => {
                proof {
                    lemma_first_with_id_unique(self@.devices, id, i as int);
                }
                let mut d = self.devices[i].duplicate();
                d.connected = connected;
                self.replace_at(i, d);
            },
            None => {},
        }
    }

    /// Replaces the address and port of the first device with id `id`.
    pub fn set_endpoint(&mut self, id: u32, address: String, port: u16)
        ensures
            final(self)@.next_id == old(self)@.next_id,
            final(self)@.devices == set_endpoint_spec(old(self)@.devices, id, address@, port),
    {
        match self.position(id) {
            Some(i) => {
                proof {
                    lemma_first_with_id_unique(self@.devices, id, i as int);
                }
                let mut d = self.devices[i].duplicate();
                d.address = address;
                d.port = port;
                self.replace_at(i, d);
            },
            None => {},
        }
    }

    /// The name and `adb` name of the first device with id `id`.
    pub fn name_and_endpoint(&self, id: u32) -> (r: Option<(String, String)>)
        ensures
            match find_device(self@.devices, id) {
                Some(d) => (r matches Some((n, e)) && n@ == d.name && e@ == device_endpoint(d)),
                None => r is None,
            },
    {
        match self.position(id) {
            Some(i) => {
                proof {
                    lemma_first_with_id_unique(self@.devices, id, i as int);
                }
                Some((self.devices[i].name.clone(), self.devices[i].endpoint()))
            },
            None => None,
        }
    }

    /// The first device with id `id`.
    pub fn find(&self, id: u32) -> (r: Option<&Device>)
        ensures
            match find_device(self@.devices, id) {
                Some(d) => (r matches Some(dev) && dev@ == d),
                None => r is None,
            },
    {
        match self.position(id) {
            Some(i) => {
                proof {
                    lemma_first_with_id_unique(self@.devices, id, i as int);
                }
                Some(&self.devices[i])
            },
            None => None,
        }
    }
}

} // verus!
