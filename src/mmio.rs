use vstd::prelude::*;
use std::collections::HashMap;

verus! {

broadcast use vstd::std_specs::hash::group_hash_axioms;

/// State of a device as the user interface renders it.
#[derive(Clone, Copy, Debug, PartialEq, Eq, Structural)]
pub enum DeviceState {
    Led { value: u32, color: u32 },
}

/// General interface of a virtual device mapped into the address space.
pub trait IoDevice: Sized {
    /// The word that a read at `offset` returns.
    spec fn spec_read(&self, offset: u32) -> u32;

    /// The device after a write of `value` at `offset`.
    spec fn spec_write(&self, offset: u32, value: u32) -> Self;

    /// The state handed to the user interface.
    spec fn spec_state(&self) -> DeviceState;

    fn read(&mut self, offset: u32) -> (r: u32)
        ensures
            r == old(self).spec_read(offset),
            *final(self) == *old(self),
    ;

    fn write(&mut self, offset: u32, value: u32)
        ensures
            *final(self) == old(self).spec_write(offset, value),
    ;

    fn name(&self) -> (r: &'static str);

    fn get_state(&self) -> (s: DeviceState)
        ensures
            s == self.spec_state(),
    ;
}

/// Colour of a freshly made LED: green.
pub const LED_DEFAULT_COLOR: u32 = 0x00FF00;

/// An LED: an on/off value at offset 0 and a 24-bit colour at offset 4.
#[derive(Clone, Copy, Debug, PartialEq, Eq, Structural)]
pub struct LedDevice {
    pub value: u32,
    pub color: u32,
}

impl LedDevice {
    pub fn new() -> (r: Self)
        ensures
            r.value == 0,
            r.color == LED_DEFAULT_COLOR,
    {
        LedDevice { value: 0, color: LED_DEFAULT_COLOR }
    }
}

impl IoDevice for LedDevice {
    open spec fn spec_read(&self, offset: u32) -> u32 {
        if offset == 0 {
            self.value
        } else if offset == 4 {
            self.color
        } else {
            0
        }
    }

    open spec fn spec_write(&self, offset: u32, value: u32) -> Self {
        if offset == 0 {
            LedDevice { value, color: self.color }
        } else if offset == 4 {
            LedDevice { value: self.value, color: value & 0x00FF_FFFF }
        } else {
            *self
        }
    }

    open spec fn spec_state(&self) -> DeviceState {
        DeviceState::Led { value: self.value, color: self.color }
    }

    fn read(&mut self, offset: u32) -> (r: u32) {
        if offset == 0 {
            self.value
        } else if offset == 4 {
            self.color
        } else {
            0
        }
    }

    fn write(&mut self, offset: u32, value: u32) {
        if offset == 0 {
            self.value = value;
        } else if offset == 4 {
            self.color = value & 0x00FF_FFFF;
        }
    }

    fn name(&self) -> (r: &'static str) {
        "LED"
    }

    fn get_state(&self) -> (s: DeviceState) {
        DeviceState::Led { value: self.value, color: self.color }
    }
}

/// The devices that the bus can hold.
#[derive(Clone, Copy, Debug, PartialEq, Eq, Structural)]
pub enum Device {
    Led(LedDevice),
}

impl IoDevice for Device {
    open spec fn spec_read(&self, offset: u32) -> u32 {
        match self {
            Device::Led(d) => d.spec_read(offset),
        }
    }

    open spec fn spec_write(&self, offset: u32, value: u32) -> Self {
        match self {
            Device::Led(d) => Device::Led(d.spec_write(offset, value)),
        }
    }

    open spec fn spec_state(&self) -> DeviceState {
        match self {
            Device::Led(d) => d.spec_state(),
        }
    }

    fn read(&mut self, offset: u32) -> (r: u32) {
        match self {
            Device::Led(d) => d.read(offset),
        }
    }

    fn write(&mut self, offset: u32, value: u32) {
        match self {
            Device::Led(d) => d.write(offset, value),
        }
    }

    fn name(&self) -> (r: &'static str) {
        match self {
            Device::Led(d) => d.name(),
        }
    }

    fn get_state(&self) -> (s: DeviceState) {
        match self {
            Device::Led(d) => d.get_state(),
        }
    }
}

/// One mapped range: start address, end address (exclusive), device.
pub type Mapping = (u32, u32, Device);

pub open spec fn in_mapping(m: Mapping, address: u32) -> bool {
    m.0 <= address && address < m.1
}

/// `i` is the first mapping of `devs` whose range holds `address`.
pub open spec fn first_match(devs: Seq<Mapping>, address: u32, i: int) -> bool {
    &&& 0 <= i < devs.len()
    &&& in_mapping(devs[i], address)
    &&& forall|j: int| 0 <= j < i ==> !in_mapping(#[trigger] devs[j], address)
}

pub open spec fn has_match(devs: Seq<Mapping>, address: u32) -> bool {
    exists|i: int| first_match(devs, address, i)
}

pub open spec fn match_index(devs: Seq<Mapping>, address: u32) -> int {
    choose|i: int| first_match(devs, address, i)
}

/// What a read at `address` returns: the first device whose range holds it
/// answers at its own offset; an address that no device holds reads 0.
pub open spec fn bus_read(devs: Seq<Mapping>, address: u32) -> u32 {
    if has_match(devs, address) {
        let m = devs[match_index(devs, address)];
        m.2.spec_read((address - m.0) as u32)
    } else {
        0
    }
}

/// The mappings after a write at `address`; a write that no device holds is dropped.
pub open spec fn bus_write(devs: Seq<Mapping>, address: u32, value: u32) -> Seq<Mapping> {
    if has_match(devs, address) {
        let i = match_index(devs, address);
        let m = devs[i];
        devs.update(i, (m.0, m.1, m.2.spec_write((address - m.0) as u32, value)))
    } else {
        devs
    }
}

/// The device states keyed by start address; a later mapping with the same
/// start replaces an earlier one.
pub open spec fn bus_states(devs: Seq<Mapping>) -> Map<u32, DeviceState>
    decreases devs.len(),
{
    if devs.len() == 0 {
        Map::empty()
    } else {
        bus_states(devs.drop_last()).insert(devs.last().0, devs.last().2.spec_state())
    }
}

proof fn lemma_first_match_unique(devs: Seq<Mapping>, address: u32, i: int, k: int)
    requires
        first_match(devs, address, i),
        first_match(devs, address, k),
    ensures
        i == k,
{
    if i < k {
        assert(!in_mapping(devs[i], address));
    } else if k < i {
        assert(!in_mapping(devs[k], address));
    }
}

/// Routes memory accesses to the device whose address range holds them.
pub struct MmioBus {
    pub devices: Vec<Mapping>,
}

impl MmioBus {
    pub fn new() -> (r: Self)
        ensures
            r.devices@ == Seq::<Mapping>::empty(),
    {
        MmioBus { devices: Vec::new() }
    }

    /// Adds a device that answers at `base_addr .. base_addr + size`.
    pub fn register(&mut self, base_addr: u32, size: u32, device: Device)
        requires
            base_addr as int + size as int <= u32::MAX,
        ensures
            final(self).devices@ == old(self).devices@.push(
                (base_addr, (base_addr + size) as u32, device),
            ),
    {
        let end_addr = base_addr + size;
        self.devices.push((base_addr, end_addr, device));
    }

    fn find(&self, address: u32) -> (r: Option<usize>)
        ensures
            match r {
                Some(i) => first_match(self.devices@, address, i as int),
                None => !has_match(self.devices@, address),
            },
    {
        let mut i: usize = 0;
        while i < self.devices.len()
            invariant
                i <= self.devices@.len(),
                forall|j: int| 0 <= j < i ==> !in_mapping(#[trigger] self.devices@[j], address),
            decreases self.devices@.len() - i,
        {
            let (start, end, _) = self.devices[i];
            if address >= start && address < end {
                return Some(i);
            }
            i += 1;
        }
        None
    }

    pub fn load(&mut self, address: u32) -> (r: u32)
        ensures
            r == bus_read(old(self).devices@, address),
            final(self).devices@ == old(self).devices@,
    {
        match self.find(address) {
            Some(i) => {
                proof {
                    if has_match(self.devices@, address) {
                        lemma_first_match_unique(
                            self.devices@,
                            address,
                            i as int,
                            match_index(self.devices@, address),
                        );
                    }
                }
                let (start, _, dev) = self.devices[i];
                let mut d = dev;
                d.read(address - start)
            },
            None => 0,
        }
    }

    pub fn store(&mut self, address: u32, value: u32)
        ensures
            final(self).devices@ == bus_write(old(self).devices@, address, value),
    {
        match self.find(address) {
            Some(i) => {
                proof {
                    lemma_first_match_unique(
                        self.devices@,
                        address,
                        i as int,
                        match_index(self.devices@, address),
                    );
                }
                let (start, end, dev) = self.devices[i];
                let mut d = dev;
                d.write(address - start, value);
                self.devices.set(i, (start, end, d));
            },
            None => {},
        }
    }

    /// The state of every device, keyed by its start address.
    pub fn snapshot(&self) -> (r: HashMap<u32, DeviceState>)
        ensures
            r@ == bus_states(self.devices@),
    {
        let mut map: HashMap<u32, DeviceState> = HashMap::new();
        let mut i: usize = 0;
        while i < self.devices.len()
            invariant
                i <= self.devices@.len(),
                map@ == bus_states(self.devices@.subrange(0, i as int)),
            decreases self.devices@.len() - i,
        {
            let (start, _, dev) = self.devices[i];
            map.insert(start, dev.get_state());
            proof {
                assert(self.devices@.subrange(0, i + 1).drop_last() =~= self.devices@.subrange(
                    0,
                    i as int,
                ));
            }
            i += 1;
        }
        proof {
            assert(self.devices@.subrange(0, i as int) =~= self.devices@);
        }
        map
    }
}

} // verus!
