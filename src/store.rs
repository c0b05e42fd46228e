//! The host's record of paired devices and of its password hash.

use vstd::prelude::*;
use vstd::string::*;
use crate::decimal::u64_text;
use crate::json::{
    array, json_parse, json_text, member, object, object_entry, parse_json, render_json, Json,
    JsonTree,
};
use crate::params::{is_object, optional_text_field, optional_text_of, optional_text_view, text_field, text_of};

verus! {

/// A device that paired with this host.
#[derive(Debug, Clone)]
pub struct PairedDevice {
    pub id: String,
    pub name: String,
    pub public_key: String,
    pub paired_at: String,
    pub last_connected: Option<String>,
}

/// What the host keeps between runs.
#[derive(Debug)]
pub struct HostStore {
    pub devices: Vec<PairedDevice>,
    pub password_hash: Option<String>,
}

/// Keeps the devices whose identifier is not `id`.
pub open spec fn other_id(id: Seq<char>) -> spec_fn(PairedDevice) -> bool {
    |d: PairedDevice| d.id@ != id
}

impl HostStore {
    /// A store with no device and no password.
    pub fn new() -> (r: HostStore)
        ensures
            r.devices@.len() == 0,
            r.password_hash is None,
    {
        HostStore { devices: Vec::new(), password_hash: None }
    }
}

impl Default for HostStore {
    fn default() -> (r: HostStore)
        ensures
            r.devices@.len() == 0,
            r.password_hash is None,
    {
        HostStore::new()
    }
}

/// The devices of `devices` whose identifier is not `id`, in order.
fn without_id(devices: Vec<PairedDevice>, id: &String) -> (r: Vec<PairedDevice>)
    ensures
        r@ == devices@.filter(other_id(id@)),
{
    let ghost all = devices@;
    let mut rest = devices;
    let mut kept: Vec<PairedDevice> = Vec::new();
    let ghost mut i: int = 0;
    while rest.len() > 0
        invariant
            0 <= i <= all.len(),
            rest@ == all.subrange(i, all.len() as int),
            kept@ == all.subrange(0, i).filter(other_id(id@)),
        decreases rest@.len(),
    {
        let d = rest.remove(0);
        proof {
            let next = all.subrange(0, i + 1);
            assert(next.drop_last() =~= all.subrange(0, i));
            assert(next.last() == d);
            reveal(Seq::filter);
        }
        if d.id != *id {
            kept.push(d);
        }
        proof {
            i = i + 1;
            assert(rest@ =~= all.subrange(i, all.len() as int));
        }
    }
    assert(all.subrange(0, all.len() as int) =~= all);
    kept
}

/// Adds `device`, replacing any device with the same identifier.
pub fn add_device(store: &mut HostStore, device: PairedDevice)
    ensures
        final(store).devices@ == old(store).devices@.filter(other_id(device.id@)).push(device),
        final(store).password_hash == old(store).password_hash,
{
    let mut devices: Vec<PairedDevice> = Vec::new();
    std::mem::swap(&mut devices, &mut store.devices);
    let mut kept = without_id(devices, &device.id);
    kept.push(device);
    store.devices = kept;
}

/// The paired devices, in the order they were added.
pub fn list_devices(store: &HostStore) -> (r: &Vec<PairedDevice>)
    ensures
        r@ == store.devices@,
{
    &store.devices
}

/// The failure text for revoking an identifier that no device has.
pub open spec fn device_not_found(id: Seq<char>) -> Seq<char> {
    "Device not found: "@ + id
}

/// Removes the devices with identifier `device_id`; fails, changing nothing,
/// when there is none.
pub fn revoke_device(store: &mut HostStore, device_id: &str) -> (r: Result<(), String>)
    ensures
        final(store).password_hash == old(store).password_hash,
        (exists|i: int| 0 <= i < old(store).devices@.len() && old(store).devices@[i].id@ == device_id@)
            ==> r is Ok && final(store).devices@ == old(store).devices@.filter(
            other_id(device_id@),
        ),
        !(exists|i: int| 0 <= i < old(store).devices@.len() && old(store).devices@[i].id@ == device_id@)
            ==> (r matches Err(m) && m@ == device_not_found(device_id@)) && final(store).devices@
            == old(store).devices@,
{
    let id = device_id.to_owned();
    let before = store.devices.len();
    let mut devices: Vec<PairedDevice> = Vec::new();
    std::mem::swap(&mut devices, &mut store.devices);
    let ghost all = devices@;
    let kept = without_id(devices, &id);
    proof {
        all.lemma_filter_len(other_id(id@));
        if exists|i: int| 0 <= i < all.len() && all[i].id@ == device_id@ {
            let i = choose|i: int| 0 <= i < all.len() && all[i].id@ == device_id@;
            lemma_filter_drops(all, other_id(id@), i);
        } else {
            lemma_filter_keeps_all(all, other_id(id@));
        }
    }
    if kept.len() == before {
        store.devices = kept;
        let mut m = "Device not found: ".to_owned();
        m.append(device_id);
        return Err(m);
    }
    store.devices = kept;
    Ok(())
}

/// Filtering out an element that the predicate refuses shortens the sequence.
proof fn lemma_filter_drops<A>(s: Seq<A>, pred: spec_fn(A) -> bool, i: int)
    requires
        0 <= i < s.len(),
        !pred(s[i]),
    ensures
        s.filter(pred).len() < s.len(),
    decreases s.len(),
{
    reveal(Seq::filter);
    s.drop_last().lemma_filter_len(pred);
    if i < s.len() - 1 {
        lemma_filter_drops(s.drop_last(), pred, i);
    }
}

/// Filtering with a predicate that accepts every element changes nothing.
proof fn lemma_filter_keeps_all<A>(s: Seq<A>, pred: spec_fn(A) -> bool)
    requires
        forall|i: int| 0 <= i < s.len() ==> pred(#[trigger] s[i]),
    ensures
        s.filter(pred) == s,
    decreases s.len(),
{
    reveal(Seq::filter);
    if s.len() > 0 {
        lemma_filter_keeps_all(s.drop_last(), pred);
        assert(s.drop_last().push(s.last()) =~= s);
    }
}

/// The first device whose public key is `public_key`, if any.
pub fn find_device_by_key<'a>(store: &'a HostStore, public_key: &str) -> (r: Option<&'a PairedDevice>)
    ensures
        r matches Some(d) ==> exists|i: int|
            0 <= i < store.devices@.len() && store.devices@[i] == *d && d.public_key@ == public_key@
                && forall|j: int| 0 <= j < i ==> store.devices@[j].public_key@ != public_key@,
        r is None ==> forall|j: int|
            0 <= j < store.devices@.len() ==> store.devices@[j].public_key@ != public_key@,
{
    let key = public_key.to_owned();
    let mut i: usize = 0;
    while i < store.devices.len()
        invariant
            i <= store.devices@.len(),
            key@ == public_key@,
            forall|j: int| 0 <= j < i ==> store.devices@[j].public_key@ != public_key@,
        decreases store.devices@.len() - i,
    {
        if store.devices[i].public_key == key {
            return Some(&store.devices[i]);
        }
        i = i + 1;
    }
    None
}

/// The text of a time, in whole seconds since the epoch.
pub fn timestamp_text(secs: u64) -> (r: String)
    ensures
        r@ == crate::decimal::decimal(secs as nat),
{
    u64_text(secs)
}

/// The index of the first device with identifier `id`, if any.
pub open spec fn first_with_id(devices: Seq<PairedDevice>, id: Seq<char>) -> Option<int> {
    if exists|i: int|
        0 <= i < devices.len() && devices[i].id@ == id && forall|j: int|
            0 <= j < i ==> devices[j].id@ != id {
        Some(
            choose|i: int|
                0 <= i < devices.len() && devices[i].id@ == id && forall|j: int|
                    0 <= j < i ==> devices[j].id@ != id,
        )
    } else {
        None
    }
}

/// `after` is `before` with its last connection set to `now_secs`.
pub open spec fn stamped(before: PairedDevice, after: PairedDevice, now_secs: u64) -> bool {
    &&& after.id == before.id
    &&& after.name == before.name
    &&& after.public_key == before.public_key
    &&& after.paired_at == before.paired_at
    &&& (after.last_connected matches Some(t) && t@ == crate::decimal::decimal(now_secs as nat))
}

/// Records that the first device with identifier `device_id` connected at
/// `now_secs`; every other device is unchanged.
pub fn update_last_connected(store: &mut HostStore, device_id: &str, now_secs: u64)
    ensures
        final(store).password_hash == old(store).password_hash,
        match first_with_id(old(store).devices@, device_id@) {
            Some(i) => {
                &&& final(store).devices@.len() == old(store).devices@.len()
                &&& stamped(old(store).devices@[i], final(store).devices@[i], now_secs)
                &&& forall|j: int|
                    0 <= j < old(store).devices@.len() && j != i ==> final(store).devices@[j]
                        == old(store).devices@[j]
            },
            None => final(store).devices@ == old(store).devices@,
        },
{
    let key = device_id.to_owned();
    let mut i: usize = 0;
    while i < store.devices.len()
        invariant
            i <= store.devices@.len(),
            key@ == device_id@,
            *store == *old(store),
            forall|j: int| 0 <= j < i ==> store.devices@[j].id@ != device_id@,
        decreases store.devices@.len() - i,
    {
        if store.devices[i].id == key {
            let ghost all = store.devices@;
            proof {
                let k = choose|k: int|
                    0 <= k < all.len() && all[k].id@ == device_id@ && forall|j: int|
                        0 <= j < k ==> all[j].id@ != device_id@;
                assert(k == i);
            }
            let mut devices: Vec<PairedDevice> = Vec::new();
            std::mem::swap(&mut devices, &mut store.devices);
            let mut d = devices.remove(i);
            d.last_connected = Some(timestamp_text(now_secs));
            devices.insert(i, d);
            store.devices = devices;
            return;
        }
        i = i + 1;
    }
}

/// The mathematical form of a device record.
pub struct DeviceModel {
    pub id: Seq<char>,
    pub name: Seq<char>,
    pub public_key: Seq<char>,
    pub paired_at: Seq<char>,
    pub last_connected: Option<Seq<char>>,
}

impl View for PairedDevice {
    type V = DeviceModel;

    open spec fn view(&self) -> DeviceModel {
        DeviceModel {
            id: self.id@,
            name: self.name@,
            public_key: self.public_key@,
            paired_at: self.paired_at@,
            last_connected: optional_text_view(self.last_connected),
        }
    }
}

/// A string, or null when there is none.
pub open spec fn optional_text_tree(v: Option<Seq<char>>) -> JsonTree {
    match v {
        Some(t) => JsonTree::Str(t),
        None => JsonTree::Null,
    }
}

fn optional_text_json(v: &Option<String>) -> (r: Json)
    ensures
        r@ == optional_text_tree(optional_text_view(*v)),
{
    match v {
        Some(t) => Json::Str(t.clone()),
        None => Json::Null,
    }
}

/// The JSON object of a device record.
pub open spec fn device_tree(d: DeviceModel) -> JsonTree {
    JsonTree::Object(
        seq![
            ("id"@, JsonTree::Str(d.id)),
            ("name"@, JsonTree::Str(d.name)),
            ("public_key"@, JsonTree::Str(d.public_key)),
            ("paired_at"@, JsonTree::Str(d.paired_at)),
            ("last_connected"@, optional_text_tree(d.last_connected)),
        ],
    )
}

/// The device record that `t` holds, or the failure text of its first bad
/// field.
pub open spec fn device_of(t: JsonTree) -> Result<DeviceModel, Seq<char>> {
    if !(t is Object) {
        Err(crate::params::params_not_object())
    } else {
        match (
            text_of(t, "id"@),
            text_of(t, "name"@),
            text_of(t, "public_key"@),
            text_of(t, "paired_at"@),
            optional_text_of(t, "last_connected"@),
        ) {
            (Err(e), _, _, _, _) => Err(e),
            (Ok(_), Err(e), _, _, _) => Err(e),
            (Ok(_), Ok(_), Err(e), _, _) => Err(e),
            (Ok(_), Ok(_), Ok(_), Err(e), _) => Err(e),
            (Ok(_), Ok(_), Ok(_), Ok(_), Err(e)) => Err(e),
            (Ok(id), Ok(name), Ok(public_key), Ok(paired_at), Ok(last_connected)) => Ok(
                DeviceModel { id, name, public_key, paired_at, last_connected },
            ),
        }
    }
}

impl PairedDevice {
    pub fn to_json(&self) -> (r: Json)
        ensures
            r@ == device_tree(self@),
    {
        let ghost t = device_tree(self@);
        let mut es: Vec<(String, Json)> = Vec::new();
        es.push(object_entry("id", Json::Str(self.id.clone())));
        es.push(object_entry("name", Json::Str(self.name.clone())));
        es.push(object_entry("public_key", Json::Str(self.public_key.clone())));
        es.push(object_entry("paired_at", Json::Str(self.paired_at.clone())));
        es.push(object_entry("last_connected", optional_text_json(&self.last_connected)));
        let r = object(es);
        assert(r@->Object_0 =~= t->Object_0);
        r
    }

    pub fn from_json(j: &Json) -> (r: Result<PairedDevice, String>)
        ensures
            match device_of(j@) {
                Ok(d) => r matches Ok(p) && p@ == d,
                Err(e) => r matches Err(m) && m@ == e,
            },
    {
        if !is_object(j) {
            return Err("params must be an object".to_owned());
        }
        let id = match text_field(j, "id") {
            Ok(v) => v,
            Err(e) => {
                return Err(e);
            },
        };
        let name = match text_field(j, "name") {
            Ok(v) => v,
            Err(e) => {
                return Err(e);
            },
        };
        let public_key = match text_field(j, "public_key") {
            Ok(v) => v,
            Err(e) => {
                return Err(e);
            },
        };
        let paired_at = match text_field(j, "paired_at") {
            Ok(v) => v,
            Err(e) => {
                return Err(e);
            },
        };
        let last_connected = match optional_text_field(j, "last_connected") {
            Ok(v) => v,
            Err(e) => {
                return Err(e);
            },
        };
        Ok(PairedDevice { id, name, public_key, paired_at, last_connected })
    }
}

/// The JSON object of the whole store.
pub open spec fn store_tree(devices: Seq<DeviceModel>, password_hash: Option<Seq<char>>) -> JsonTree {
    JsonTree::Object(
        seq![
            ("devices"@, JsonTree::Array(Seq::new(devices.len(), |i: int| device_tree(devices[i])))),
            ("password_hash"@, optional_text_tree(password_hash)),
        ],
    )
}

/// `s` is the store that `t` holds.
pub open spec fn store_read_as(t: JsonTree, s: HostStore) -> bool {
    &&& member(t, "devices"@) matches Some(JsonTree::Array(items))
    &&& s.devices@.len() == items.len()
    &&& forall|i: int|
        0 <= i < items.len() ==> device_of(items[i]) == Ok::<DeviceModel, Seq<char>>(
            #[trigger] s.devices@[i]@,
        )
    &&& optional_text_of(t, "password_hash"@) == Ok::<Option<Seq<char>>, Seq<char>>(
        optional_text_view(s.password_hash),
    )
}

/// `t` holds no store: the device list is missing or not a list, a device
/// record does not read, or the password hash is not a string.
pub open spec fn store_unreadable(t: JsonTree) -> bool {
    ||| !(member(t, "devices"@) matches Some(JsonTree::Array(_)))
    ||| (member(t, "devices"@) matches Some(JsonTree::Array(items)) && exists|i: int|
        0 <= i < items.len() && device_of(items[i]) is Err)
    ||| optional_text_of(t, "password_hash"@) is Err
}

impl HostStore {
    /// The device records, in order.
    pub open spec fn device_models(&self) -> Seq<DeviceModel> {
        Seq::new(self.devices@.len(), |i: int| self.devices@[i]@)
    }

    pub fn to_json(&self) -> (r: Json)
        ensures
            r@ == store_tree(self.device_models(), optional_text_view(self.password_hash)),
    {
        let ghost t = store_tree(self.device_models(), optional_text_view(self.password_hash));
        let mut items: Vec<Json> = Vec::new();
        let mut i: usize = 0;
        while i < self.devices.len()
            invariant
                i <= self.devices@.len(),
                items@.len() == i,
                forall|k: int| 0 <= k < i ==> (#[trigger] items@[k])@ == device_tree(self.devices@[k]@),
            decreases self.devices@.len() - i,
        {
            items.push(self.devices[i].to_json());
            i = i + 1;
        }
        let devices = array(items);
        assert(devices@->Array_0 =~= Seq::new(
            self.device_models().len(),
            |i: int| device_tree(self.device_models()[i]),
        ));
        let mut es: Vec<(String, Json)> = Vec::new();
        es.push(object_entry("devices", devices));
        es.push(object_entry("password_hash", optional_text_json(&self.password_hash)));
        let r = object(es);
        assert(r@->Object_0 =~= t->Object_0);
        r
    }

    /// The store that `j` holds: every device record must read, and the
    /// password hash may be absent or null.
    pub fn from_json(j: &Json) -> (r: Result<HostStore, String>)
        ensures
            r matches Ok(s) ==> store_read_as(j@, s),
            r is Err ==> store_unreadable(j@),
    {
        let got = j.get("devices");
        let items = match got {
            Some(jv) => match jv {
                Json::Array(items) => items,
                _ => {
                    return Err("invalid type for field `devices`".to_owned());
                },
            },
            None => {
                return Err("missing field `devices`".to_owned());
            },
        };
        let ghost trees = got.unwrap()@->Array_0;
        let mut devices: Vec<PairedDevice> = Vec::new();
        let mut i: usize = 0;
        while i < items.len()
            invariant
                i <= items@.len(),
                member(j@, "devices"@) == Some(JsonTree::Array(trees)),
                trees.len() == items@.len(),
                forall|k: int| 0 <= k < items@.len() ==> #[trigger] trees[k] == items@[k]@,
                devices@.len() == i,
                forall|k: int| 0 <= k < i ==> device_of(trees[k]) == Ok::<DeviceModel, Seq<char>>(#[trigger] devices@[k]@),
            decreases items@.len() - i,
        {
            assert(trees[i as int] == items@[i as int]@);
            match PairedDevice::from_json(&items[i]) {
                Ok(d) => {
                    devices.push(d);
                },
                Err(e) => {
                    return Err(e);
                },
            }
            i = i + 1;
        }
        let password_hash = match optional_text_field(j, "password_hash") {
            Ok(v) => v,
            Err(e) => {
                return Err(e);
            },
        };
        Ok(HostStore { devices, password_hash })
    }
}

/// The failure text for a store file that is not JSON.
pub open spec fn unreadable_store() -> Seq<char> {
    "store file is not valid JSON"@
}

/// The store that a file's bytes hold; no file gives the empty store.
pub fn load_store(contents: Option<&[u8]>) -> (r: Result<HostStore, String>)
    ensures
        contents is None ==> (r matches Ok(s) && s.devices@.len() == 0 && s.password_hash is None),
        contents matches Some(b) ==> match json_parse(b@) {
            None => r matches Err(m) && m@ == unreadable_store(),
            Some(t) => (r matches Ok(s) ==> store_read_as(t, s)) && (r is Err ==> store_unreadable(
                t,
            )),
        },
{
    match contents {
        None => Ok(HostStore::new()),
        Some(bytes) => match parse_json(bytes) {
            Some(j) => HostStore::from_json(&j),
            None => Err("store file is not valid JSON".to_owned()),
        },
    }
}

/// The bytes to write to the store file.
pub fn save_store(store: &HostStore) -> (r: Vec<u8>)
    ensures
        r@ == json_text(store_tree(store.device_models(), optional_text_view(store.password_hash))),
{
    render_json(&store.to_json())
}

} // verus!
