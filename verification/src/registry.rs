//! The table of known waveforms: device name, then button name, then the
//! bytes of the waveform.
//!
//! The table is filled once and read from then on. Its model is a map from
//! device names to maps from button names to waveforms; no waveform in it is
//! longer than a frame can carry.

use vstd::prelude::*;
use vstd::string::*;
use crate::frame::MAX_WAVEFORM_LEN;

verus! {

/// Why a lookup failed.
#[derive(Debug, Clone, Copy, PartialEq, Eq, Structural)]
pub enum LookupError {
    /// The table has no device of that name.
    DeviceNotFound,
    /// The device has no button of that name.
    ButtonNotFound,
}

/// Why a waveform was not added to the table.
#[derive(Debug, Clone, Copy, PartialEq, Eq, Structural)]
pub enum RegisterError {
    /// The waveform is longer than a frame can carry.
    WaveformTooLarge,
    /// The device already has a button of that name.
    DuplicateButton,
}

/// The buttons of a device, by name.
pub type Buttons = Map<Seq<char>, Seq<u8>>;

/// The devices of a table, by name.
pub type Devices = Map<Seq<char>, Buttons>;

/// The buttons of `device` in `devices`: none if there is no such device.
pub open spec fn buttons_of(devices: Devices, device: Seq<char>) -> Buttons {
    if devices.contains_key(device) {
        devices[device]
    } else {
        Map::empty()
    }
}

/// What a lookup in `devices` comes to.
pub open spec fn lookup_result(devices: Devices, device: Seq<char>, button: Seq<char>) -> Result<
    Seq<u8>,
    LookupError,
> {
    if !devices.contains_key(device) {
        Err(LookupError::DeviceNotFound)
    } else if !devices[device].contains_key(button) {
        Err(LookupError::ButtonNotFound)
    } else {
        Ok(devices[device][button])
    }
}

/// One line of a listing of the table: a device and the names of its
/// buttons.
#[derive(Debug, Clone, PartialEq, Eq)]
pub struct DeviceListing {
    pub name: String,
    pub buttons: Vec<String>,
}

/// The strings of `strings`, as sequences of characters.
pub open spec fn views_of(strings: Seq<String>) -> Seq<Seq<char>> {
    Seq::new(strings.len(), |k: int| strings[k]@)
}

/// The device names of `listing`, in its order.
pub open spec fn listed_names(listing: Seq<DeviceListing>) -> Seq<Seq<char>> {
    Seq::new(listing.len(), |i: int| listing[i].name@)
}

/// `names` holds each of `keys` once, and nothing else.
pub open spec fn enumerates(names: Seq<Seq<char>>, keys: Set<Seq<char>>) -> bool {
    names.no_duplicates() && names.to_set() == keys
}

struct Button {
    name: String,
    waveform: Vec<u8>,
}

struct Device {
    name: String,
    buttons: Vec<Button>,
}

/// The table of known waveforms.
pub struct Registry {
    devices: Vec<Device>,
}

/// `buttons[k]` is the button called `name`.
spec fn has_button(buttons: Seq<Button>, name: Seq<char>, k: int) -> bool {
    0 <= k < buttons.len() && buttons[k].name@ == name
}

/// `devices[i]` is the device called `name`.
spec fn has_device(devices: Seq<Device>, name: Seq<char>, i: int) -> bool {
    0 <= i < devices.len() && devices[i].name@ == name
}

/// The map that a list of buttons stands for.
spec fn buttons_model(buttons: Seq<Button>) -> Buttons {
    Map::new(
        |name: Seq<char>| exists|k: int| has_button(buttons, name, k),
        |name: Seq<char>| buttons[choose|k: int| has_button(buttons, name, k)].waveform@,
    )
}

/// The map that a list of devices stands for.
spec fn devices_model(devices: Seq<Device>) -> Devices {
    Map::new(
        |name: Seq<char>| exists|i: int| has_device(devices, name, i),
        |name: Seq<char>|
            buttons_model(devices[choose|i: int| has_device(devices, name, i)].buttons@),
    )
}

/// No two buttons of the list have the same name.
spec fn buttons_distinct(buttons: Seq<Button>) -> bool {
    forall|j: int, k: int|
        0 <= j < k < buttons.len() ==> (#[trigger] buttons[j]).name@
            != (#[trigger] buttons[k]).name@
}

/// No waveform of the list is longer than a frame can carry.
spec fn buttons_fit(buttons: Seq<Button>) -> bool {
    forall|k: int|
        0 <= k < buttons.len() ==> (#[trigger] buttons[k]).waveform@.len() <= MAX_WAVEFORM_LEN
}

/// No two devices of the list have the same name.
spec fn devices_distinct(devices: Seq<Device>) -> bool {
    forall|i: int, j: int|
        0 <= i < j < devices.len() ==> (#[trigger] devices[i]).name@
            != (#[trigger] devices[j]).name@
}

/// The buttons of every device of the list are distinct and fit.
spec fn devices_sound(devices: Seq<Device>) -> bool {
    forall|i: int|
        0 <= i < devices.len() ==> buttons_distinct((#[trigger] devices[i]).buttons@)
            && buttons_fit(devices[i].buttons@)
}

proof fn lemma_button_at(buttons: Seq<Button>, k: int)
    requires
        buttons_distinct(buttons),
        0 <= k < buttons.len(),
    ensures
        buttons_model(buttons).contains_key(buttons[k].name@),
        buttons_model(buttons)[buttons[k].name@] == buttons[k].waveform@,
{
    let name = buttons[k].name@;
    assert(has_button(buttons, name, k));
    let c = choose|c: int| has_button(buttons, name, c);
    assert(has_button(buttons, name, c));
    assert(c == k);
}

proof fn lemma_device_at(devices: Seq<Device>, i: int)
    requires
        devices_distinct(devices),
        0 <= i < devices.len(),
    ensures
        devices_model(devices).contains_key(devices[i].name@),
        devices_model(devices)[devices[i].name@] == buttons_model(devices[i].buttons@),
{
    let name = devices[i].name@;
    assert(has_device(devices, name, i));
    let c = choose|c: int| has_device(devices, name, c);
    assert(has_device(devices, name, c));
    assert(c == i);
}

spec fn button_names(buttons: Seq<Button>) -> Seq<Seq<char>> {
    Seq::new(buttons.len(), |k: int| buttons[k].name@)
}

spec fn device_names(devices: Seq<Device>) -> Seq<Seq<char>> {
    Seq::new(devices.len(), |i: int| devices[i].name@)
}

proof fn lemma_button_names(buttons: Seq<Button>)
    requires
        buttons_distinct(buttons),
    ensures
        enumerates(button_names(buttons), buttons_model(buttons).dom()),
{
    let names = button_names(buttons);
    assert forall|name: Seq<char>| #[trigger]
        names.to_set().contains(name) == buttons_model(buttons).dom().contains(name) by {
        if names.contains(name) {
            let k = choose|k: int| 0 <= k < names.len() && names[k] == name;
            assert(has_button(buttons, name, k));
        }
        if buttons_model(buttons).contains_key(name) {
            let k = choose|k: int| has_button(buttons, name, k);
            assert(names[k] == name);
        }
    }
    assert(names.to_set() =~= buttons_model(buttons).dom());
}

proof fn lemma_device_names(devices: Seq<Device>)
    requires
        devices_distinct(devices),
    ensures
        enumerates(device_names(devices), devices_model(devices).dom()),
{
    let names = device_names(devices);
    assert forall|name: Seq<char>| #[trigger]
        names.to_set().contains(name) == devices_model(devices).dom().contains(name) by {
        if names.contains(name) {
            let i = choose|i: int| 0 <= i < names.len() && names[i] == name;
            assert(has_device(devices, name, i));
        }
        if devices_model(devices).contains_key(name) {
            let i = choose|i: int| has_device(devices, name, i);
            assert(names[i] == name);
        }
    }
    assert(names.to_set() =~= devices_model(devices).dom());
}

proof fn lemma_push_button(buttons: Seq<Button>, button: Button)
    requires
        buttons_distinct(buttons),
        buttons_fit(buttons),
        forall|k: int| !has_button(buttons, button.name@, k),
        button.waveform@.len() <= MAX_WAVEFORM_LEN,
    ensures
        buttons_distinct(buttons.push(button)),
        buttons_fit(buttons.push(button)),
        buttons_model(buttons.push(button)) == buttons_model(buttons).insert(
            button.name@,
            button.waveform@,
        ),
{
    let after = buttons.push(button);
    assert forall|j: int, k: int| 0 <= j < k < after.len() implies (#[trigger] after[j]).name@
        != (#[trigger] after[k]).name@ by {
        if k == buttons.len() {
            assert(!has_button(buttons, button.name@, j));
        }
    }
    let expected = buttons_model(buttons).insert(button.name@, button.waveform@);
    assert forall|name: Seq<char>| #[trigger]
        buttons_model(after).contains_key(name) == expected.contains_key(name) by {
        if buttons_model(after).contains_key(name) {
            let k = choose|k: int| has_button(after, name, k);
            if k < buttons.len() {
                assert(has_button(buttons, name, k));
            }
        }
        if expected.contains_key(name) {
            if name == button.name@ {
                assert(has_button(after, name, buttons.len() as int));
            } else {
                let k = choose|k: int| has_button(buttons, name, k);
                assert(has_button(after, name, k));
            }
        }
    }
    assert forall|name: Seq<char>| #[trigger]
        buttons_model(after).contains_key(name) implies buttons_model(after)[name]
        == expected[name] by {
        let k = choose|k: int| has_button(after, name, k);
        lemma_button_at(after, k);
        if k < buttons.len() {
            lemma_button_at(buttons, k);
            assert(has_button(buttons, name, k));
        }
    }
    assert(buttons_model(after) =~= expected);
}

proof fn lemma_push_device(devices: Seq<Device>, device: Device)
    requires
        devices_distinct(devices),
        devices_sound(devices),
        forall|i: int| !has_device(devices, device.name@, i),
        buttons_distinct(device.buttons@),
        buttons_fit(device.buttons@),
    ensures
        devices_distinct(devices.push(device)),
        devices_sound(devices.push(device)),
        devices_model(devices.push(device)) == devices_model(devices).insert(
            device.name@,
            buttons_model(device.buttons@),
        ),
{
    let after = devices.push(device);
    assert forall|i: int, j: int| 0 <= i < j < after.len() implies (#[trigger] after[i]).name@
        != (#[trigger] after[j]).name@ by {
        if j == devices.len() {
            assert(!has_device(devices, device.name@, i));
        }
    }
    let expected = devices_model(devices).insert(device.name@, buttons_model(device.buttons@));
    assert forall|name: Seq<char>| #[trigger]
        devices_model(after).contains_key(name) == expected.contains_key(name) by {
        if devices_model(after).contains_key(name) {
            let i = choose|i: int| has_device(after, name, i);
            if i < devices.len() {
                assert(has_device(devices, name, i));
            }
        }
        if expected.contains_key(name) {
            if name == device.name@ {
                assert(has_device(after, name, devices.len() as int));
            } else {
                let i = choose|i: int| has_device(devices, name, i);
                assert(has_device(after, name, i));
            }
        }
    }
    assert forall|name: Seq<char>| #[trigger]
        devices_model(after).contains_key(name) implies devices_model(after)[name]
        == expected[name] by {
        let i = choose|i: int| has_device(after, name, i);
        lemma_device_at(after, i);
        if i < devices.len() {
            lemma_device_at(devices, i);
            assert(has_device(devices, name, i));
        }
    }
    assert(devices_model(after) =~= expected);
}

proof fn lemma_update_device(devices: Seq<Device>, at: int, device: Device)
    requires
        devices_distinct(devices),
        devices_sound(devices),
        0 <= at < devices.len(),
        device.name@ == devices[at].name@,
        buttons_distinct(device.buttons@),
        buttons_fit(device.buttons@),
    ensures
        devices_distinct(devices.update(at, device)),
        devices_sound(devices.update(at, device)),
        devices_model(devices.update(at, device)) == devices_model(devices).insert(
            device.name@,
            buttons_model(device.buttons@),
        ),
{
    let after = devices.update(at, device);
    assert forall|i: int, j: int| 0 <= i < j < after.len() implies (#[trigger] after[i]).name@
        != (#[trigger] after[j]).name@ by {
        assert(devices[i].name@ != devices[j].name@);
    }
    assert forall|i: int| 0 <= i < after.len() implies buttons_distinct(
        (#[trigger] after[i]).buttons@,
    ) && buttons_fit(after[i].buttons@) by {
        if i != at {
            assert(after[i] == devices[i]);
        }
    }
    let expected = devices_model(devices).insert(device.name@, buttons_model(device.buttons@));
    assert forall|name: Seq<char>| #[trigger]
        devices_model(after).contains_key(name) == expected.contains_key(name) by {
        if devices_model(after).contains_key(name) {
            let i = choose|i: int| has_device(after, name, i);
            assert(has_device(devices, name, i));
        }
        if expected.contains_key(name) {
            if name == device.name@ {
                assert(has_device(after, name, at));
            } else {
                let i = choose|i: int| has_device(devices, name, i);
                assert(has_device(after, name, i));
            }
        }
    }
    assert forall|name: Seq<char>| #[trigger]
        devices_model(after).contains_key(name) implies devices_model(after)[name]
        == expected[name] by {
        let i = choose|i: int| has_device(after, name, i);
        lemma_device_at(after, i);
        if i != at {
            lemma_device_at(devices, i);
        }
    }
    assert(devices_model(after) =~= expected);
}

impl View for Registry {
    type V = Devices;

    closed spec fn view(&self) -> Devices {
        devices_model(self.devices@)
    }
}

impl Registry {
    #[verifier::type_invariant]
    spec fn well_formed(self) -> bool {
        devices_distinct(self.devices@) && devices_sound(self.devices@)
    }

    /// An empty table.
    pub fn new() -> (registry: Self)
        ensures
            registry@ == Map::<Seq<char>, Buttons>::empty(),
    {
        let registry = Registry { devices: Vec::new() };
        assert(registry@ =~= Map::<Seq<char>, Buttons>::empty());
        registry
    }

    fn find_device(&self, device: &String) -> (found: Option<usize>)
        ensures
            match found {
                Some(i) => has_device(self.devices@, device@, i as int),
                None => forall|i: int| !has_device(self.devices@, device@, i),
            },
    {
        let mut i: usize = 0;
        while i < self.devices.len()
            invariant
                i <= self.devices.len(),
                forall|j: int| 0 <= j < i ==> !has_device(self.devices@, device@, j),
            decreases self.devices.len() - i,
        {
            if self.devices[i].name == *device {
                return Some(i);
            }
            i = i + 1;
        }
        None
    }

    /// Adds `waveform` as `button` of `device`. A waveform that is too long,
    /// or a button that the device already has, leaves the table as it was.
    pub fn register(&mut self, device: &str, button: &str, waveform: Vec<u8>) -> (added: Result<
        (),
        RegisterError,
    >)
        ensures
            waveform@.len() > MAX_WAVEFORM_LEN ==> added == Err::<(), RegisterError>(
                RegisterError::WaveformTooLarge,
            ),
            waveform@.len() <= MAX_WAVEFORM_LEN && buttons_of(old(self)@, device@).contains_key(
                button@,
            ) ==> added == Err::<(), RegisterError>(RegisterError::DuplicateButton),
            waveform@.len() <= MAX_WAVEFORM_LEN && !buttons_of(old(self)@, device@).contains_key(
                button@,
            ) ==> added is Ok,
            added is Err ==> final(self)@ == old(self)@,
            added is Ok ==> final(self)@ == old(self)@.insert(
                device@,
                buttons_of(old(self)@, device@).insert(button@, waveform@),
            ),
    {
        proof {
            use_type_invariant(&*self);
        }
        if waveform.len() > MAX_WAVEFORM_LEN {
            return Err(RegisterError::WaveformTooLarge);
        }
        let device_name = String::from_str(device);
        let button_name = String::from_str(button);
        let found = self.find_device(&device_name);
        let mut devices: Vec<Device> = Vec::new();
        core::mem::swap(&mut self.devices, &mut devices);
        let ghost before = devices@;
        let added = match found {
            None => {
                let entry = Button { name: button_name, waveform };
                let mut buttons: Vec<Button> = Vec::new();
                buttons.push(entry);
                let device = Device { name: device_name, buttons };
                proof {
                    lemma_push_button(Seq::empty(), entry);
                    assert(buttons_model(Seq::empty()) =~= Map::<Seq<char>, Seq<u8>>::empty());
                    lemma_push_device(before, device);
                }
                devices.push(device);
                Ok(())
            },
            Some(i) => {
                proof {
                    lemma_device_at(before, i as int);
                }
                match find_button(&devices[i].buttons, &button_name) {
                    Some(k) => {
                        proof {
                            lemma_button_at(before[i as int].buttons@, k as int);
                        }
                        Err(RegisterError::DuplicateButton)
                    },
                    None => {
                        let entry = Button { name: button_name, waveform };
                        proof {
                            lemma_push_button(before[i as int].buttons@, entry);
                        }
                        devices[i].buttons.push(entry);
                        proof {
                            assert(devices@ =~= before.update(i as int, devices@[i as int]));
                            lemma_update_device(before, i as int, devices@[i as int]);
                        }
                        Ok(())
                    },
                }
            },
        };
        core::mem::swap(&mut self.devices, &mut devices);
        added
    }

    /// Lists every device of the table with the names of its buttons.
    pub fn list_devices(&self) -> (listing: Vec<DeviceListing>)
        ensures
            enumerates(listed_names(listing@), self@.dom()),
            forall|i: int|
                0 <= i < listing@.len() ==> enumerates(
                    views_of((#[trigger] listing@[i]).buttons@),
                    self@[listing@[i].name@].dom(),
                ),
    {
        proof {
            use_type_invariant(self);
        }
        let mut listing: Vec<DeviceListing> = Vec::new();
        let mut i: usize = 0;
        while i < self.devices.len()
            invariant
                i <= self.devices.len(),
                listing@.len() == i,
                forall|j: int|
                    0 <= j < i ==> (#[trigger] listing@[j]).name@ == self.devices@[j].name@
                        && views_of(listing@[j].buttons@) == button_names(
                        self.devices@[j].buttons@,
                    ),
            decreases self.devices.len() - i,
        {
            let device = &self.devices[i];
            let buttons = list_buttons(&device.buttons);
            listing.push(DeviceListing { name: device.name.clone(), buttons });
            i = i + 1;
        }
        proof {
            assert(listed_names(listing@) =~= device_names(self.devices@));
            lemma_device_names(self.devices@);
            assert forall|i: int| 0 <= i < listing@.len() implies enumerates(
                views_of((#[trigger] listing@[i]).buttons@),
                self@[listing@[i].name@].dom(),
            ) by {
                lemma_device_at(self.devices@, i);
                lemma_button_names(self.devices@[i].buttons@);
            }
        }
        listing
    }

    /// Looks up the waveform of `button` on `device`.
    pub fn lookup(&self, device: &str, button: &str) -> (found: Result<&Vec<u8>, LookupError>)
        ensures
            match found {
                Ok(waveform) => lookup_result(self@, device@, button@) == Ok::<
                    Seq<u8>,
                    LookupError,
                >(waveform@) && waveform@.len() <= MAX_WAVEFORM_LEN,
                Err(error) => lookup_result(self@, device@, button@) == Err::<Seq<u8>, LookupError>(
                    error,
                ),
            },
    {
        proof {
            use_type_invariant(self);
        }
        let device_name = String::from_str(device);
        let button_name = String::from_str(button);
        match self.find_device(&device_name) {
            None => Err(LookupError::DeviceNotFound),
            Some(i) => {
                proof {
                    lemma_device_at(self.devices@, i as int);
                }
                let buttons = &self.devices[i].buttons;
                match find_button(buttons, &button_name) {
                    None => Err(LookupError::ButtonNotFound),
                    Some(k) => {
                        proof {
                            lemma_button_at(buttons@, k as int);
                        }
                        Ok(&buttons[k].waveform)
                    },
                }
            },
        }
    }
}

fn list_buttons(buttons: &Vec<Button>) -> (names: Vec<String>)
    ensures
        views_of(names@) == button_names(buttons@),
{
    let mut names: Vec<String> = Vec::new();
    let mut k: usize = 0;
    while k < buttons.len()
        invariant
            k <= buttons.len(),
            names@.len() == k,
            forall|j: int| 0 <= j < k ==> (#[trigger] names@[j])@ == buttons@[j].name@,
        decreases buttons.len() - k,
    {
        names.push(buttons[k].name.clone());
        k = k + 1;
    }
    assert(views_of(names@) =~= button_names(buttons@));
    names
}

fn find_button(buttons: &Vec<Button>, button: &String) -> (found: Option<usize>)
    ensures
        match found {
            Some(k) => has_button(buttons@, button@, k as int),
            None => forall|k: int| !has_button(buttons@, button@, k),
        },
{
    let mut k: usize = 0;
    while k < buttons.len()
        invariant
            k <= buttons.len(),
            forall|j: int| 0 <= j < k ==> !has_button(buttons@, button@, j),
        decreases buttons.len() - k,
    {
        if buttons[k].name == *button {
            return Some(k);
        }
        k = k + 1;
    }
    None
}

} // verus!
