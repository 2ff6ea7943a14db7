use vstd::prelude::*;
use std::collections::HashMap;
use vstd::string::StringSliceAdditionalSpecFns;
use crate::mmio::{bus_read, bus_write, Device, LedDevice, Mapping, MmioBus};

verus! {

broadcast use vstd::std_specs::hash::group_hash_axioms;

pub const WORD_SIZE: usize = 4;

pub const HALF_SIZE: usize = 2;

/// Bytes in a page.
pub const PAGE_SIZE: usize = 512;

/// `PAGE_SIZE == 1 << PAGE_POWER`.
pub const PAGE_POWER: u32 = 9;

pub const PAGE_MASK: u32 = 511;

/// Every access at or above this address goes to the device bus.
pub const DEFAULT_MMIO_ADDRESS: u32 = 0xFFFF_0000;

pub const DEFAULT_STACK_BASE_ADDRESS: u32 = 0x7FFF_FFFF;

/// Initial stack pointer, one word below the stack base.
pub const DEFAULT_STACK_POINTER: u32 = 0x7FFF_FFFC;

pub const DEFAULT_TEXT_BASE_ADDRESS: u32 = 0x0040_0000;

pub const DEFAULT_STATIC_DATA_BASE_ADDRESS: u32 = 0x1000_0000;

pub const DEFAULT_HEAP_BASE_ADDRESS: u32 = 0x1000_8000;

pub const DEFAULT_HEAP_POINTER: u32 = 0x1000_8000;

/// Address range that the LED answers on.
pub const LED_ADDRESS: u32 = 0xFFFF_0000;

pub const LED_SIZE: u32 = 8;

/// The abstract memory: a byte at every address, and the mapped devices.
pub struct MemView {
    pub ram: Map<u32, u8>,
    pub devices: Seq<Mapping>,
}

pub open spec fn word_address(a: u32) -> u32 {
    a & 0xFFFF_FFFC
}

/// Shift of the big-endian byte lane of `a` within its word.
pub open spec fn byte_lane(a: u32) -> u32 {
    ((3 - (a & 3)) * 8) as u32
}

/// Shift of the big-endian halfword lane of `a` within its word.
pub open spec fn half_lane(a: u32) -> u32 {
    if a & 2 == 0 {
        16
    } else {
        0
    }
}

/// The word whose bytes, most significant first, are `b0 b1 b2 b3`.
pub open spec fn be_word(b0: u8, b1: u8, b2: u8, b3: u8) -> u32 {
    ((b0 as u32) << 24u32) | ((b1 as u32) << 16u32) | ((b2 as u32) << 8u32) | (b3 as u32)
}

pub open spec fn be_half(b0: u8, b1: u8) -> u16 {
    (((b0 as u16) << 8u16) | (b1 as u16)) as u16
}

impl MemView {
    pub open spec fn is_mmio(a: u32) -> bool {
        a >= DEFAULT_MMIO_ADDRESS
    }

    pub open spec fn load_byte(self, a: u32) -> u8 {
        if Self::is_mmio(a) {
            (bus_read(self.devices, word_address(a)) >> byte_lane(a)) as u8
        } else {
            self.ram[a]
        }
    }

    pub open spec fn store_byte(self, a: u32, v: u8) -> MemView {
        if Self::is_mmio(a) {
            let w = bus_read(self.devices, word_address(a));
            let sh = byte_lane(a);
            let nw = (w & !(0xFFu32 << sh)) | ((v as u32) << sh);
            MemView { ram: self.ram, devices: bus_write(self.devices, word_address(a), nw) }
        } else {
            MemView { ram: self.ram.insert(a, v), devices: self.devices }
        }
    }

    pub open spec fn load_half(self, a: u32) -> u16 {
        if Self::is_mmio(a) {
            (bus_read(self.devices, word_address(a)) >> half_lane(a)) as u16
        } else {
            be_half(self.ram[a], self.ram[(a + 1) as u32])
        }
    }

    pub open spec fn store_half(self, a: u32, v: u16) -> MemView {
        if Self::is_mmio(a) {
            let w = bus_read(self.devices, word_address(a));
            let sh = half_lane(a);
            let nw = (w & !(0xFFFFu32 << sh)) | ((v as u32) << sh);
            MemView { ram: self.ram, devices: bus_write(self.devices, word_address(a), nw) }
        } else {
            MemView {
                ram: self.ram.insert(a, #[verifier::truncate] ((v >> 8u16) as u8)).insert((a + 1) as u32, #[verifier::truncate] (v as u8)),
                devices: self.devices,
            }
        }
    }

    pub open spec fn load_word(self, a: u32) -> u32 {
        if Self::is_mmio(a) {
            bus_read(self.devices, a)
        } else {
            be_word(
                self.ram[a],
                self.ram[(a + 1) as u32],
                self.ram[(a + 2) as u32],
                self.ram[(a + 3) as u32],
            )
        }
    }

    pub open spec fn store_word(self, a: u32, v: u32) -> MemView {
        if Self::is_mmio(a) {
            MemView { ram: self.ram, devices: bus_write(self.devices, a, v) }
        } else {
            MemView {
                ram: self.ram.insert(a, (v >> 24u32) as u8).insert(
                    (a + 1) as u32,
                    (v >> 16u32) as u8,
                ).insert((a + 2) as u32, (v >> 8u32) as u8).insert((a + 3) as u32, v as u8),
                devices: self.devices,
            }
        }
    }

    /// The memory after writing `bytes` at successive addresses from `a`.
    pub open spec fn store_bytes(self, a: u32, bytes: Seq<u8>) -> MemView
        decreases bytes.len(),
    {
        if bytes.len() == 0 {
            self
        } else {
            self.store_byte(a, bytes[0]).store_bytes((a + 1) as u32, bytes.drop_first())
        }
    }

    /// The `n` bytes from `a` on.
    pub open spec fn slice(self, a: u32, n: nat) -> Seq<u8> {
        Seq::new(n, |i: int| self.load_byte((a + i) as u32))
    }
}

/// A word stored at an address below the device region reads back unchanged.
pub proof fn lemma_word_round_trip(m: MemView, a: u32, v: u32)
    requires
        a < DEFAULT_MMIO_ADDRESS,
        a % 4 == 0,
    ensures
        m.store_word(a, v).load_word(a) == v,
{
    let r = m.store_word(a, v).ram;
    assert(r[a] == (v >> 24u32) as u8);
    assert(r[(a + 1) as u32] == (v >> 16u32) as u8);
    assert(r[(a + 2) as u32] == (v >> 8u32) as u8);
    assert(r[(a + 3) as u32] == v as u8);
    assert(be_word((v >> 24u32) as u8, (v >> 16u32) as u8, (v >> 8u32) as u8, v as u8) == v)
        by (bit_vector);
}

/// A halfword stored at an address below the device region reads back unchanged.
pub proof fn lemma_half_round_trip(m: MemView, a: u32, v: u16)
    requires
        a < DEFAULT_MMIO_ADDRESS,
        a % 2 == 0,
    ensures
        m.store_half(a, v).load_half(a) == v,
{
    let r = m.store_half(a, v).ram;
    assert(r[a] == #[verifier::truncate] ((v >> 8u16) as u8));
    assert(r[(a + 1) as u32] == #[verifier::truncate] (v as u8));
    assert(be_half(#[verifier::truncate] ((v >> 8u16) as u8), #[verifier::truncate] (v as u8)) == v)
        by (bit_vector);
}

/// A byte stored at an address below the device region reads back unchanged.
pub proof fn lemma_byte_round_trip(m: MemView, a: u32, v: u8)
    requires
        a < DEFAULT_MMIO_ADDRESS,
    ensures
        m.store_byte(a, v).load_byte(a) == v,
{
}

/// Words are stored most significant byte first.
pub proof fn lemma_big_endian(m: MemView, a: u32)
    requires
        a < DEFAULT_MMIO_ADDRESS,
    ensures
        m.store_word(a, 0x0102_0304).load_byte(a) == 0x01,
{
    let v: u32 = 0x0102_0304;
    assert((v >> 24u32) as u8 == 1u8) by (bit_vector)
        requires
            v == 0x0102_0304u32,
    ;
}

/// With the LED mapped at `LED_ADDRESS`, its value register reads back what
/// was written and its colour register keeps the low 24 bits.
pub proof fn lemma_led_registers(m: MemView, d: LedDevice, v: u32)
    requires
        m.devices == seq![(LED_ADDRESS, (LED_ADDRESS + LED_SIZE) as u32, Device::Led(d))],
    ensures
        m.store_word(LED_ADDRESS, v).load_word(LED_ADDRESS) == v,
        m.store_word((LED_ADDRESS + 4) as u32, v).load_word((LED_ADDRESS + 4) as u32) == v
            & 0x00FF_FFFF,
{
    let a0 = LED_ADDRESS;
    let a4 = (LED_ADDRESS + 4) as u32;
    assert(crate::mmio::first_match(m.devices, a0, 0));
    assert(crate::mmio::first_match(m.devices, a4, 0));
    let m0 = m.store_word(a0, v);
    let m4 = m.store_word(a4, v);
    assert(crate::mmio::first_match(m0.devices, a0, 0));
    assert(crate::mmio::first_match(m4.devices, a4, 0));
    lemma_only_match(m.devices, a0);
    lemma_only_match(m.devices, a4);
    lemma_only_match(m0.devices, a0);
    lemma_only_match(m4.devices, a4);
}

proof fn lemma_only_match(devs: Seq<Mapping>, a: u32)
    requires
        crate::mmio::first_match(devs, a, 0),
    ensures
        crate::mmio::has_match(devs, a),
        crate::mmio::match_index(devs, a) == 0,
{
    let i = crate::mmio::match_index(devs, a);
    assert(crate::mmio::first_match(devs, a, i));
    if i > 0 {
        assert(!crate::mmio::in_mapping(devs[0], a));
    }
}

/// A word in a page that was never written reads as zero.
pub proof fn lemma_unwritten_page_reads_zero(pages: Map<u32, Vec<u8>>, devices: Seq<Mapping>, a: u32)
    requires
        a < DEFAULT_MMIO_ADDRESS,
        a % 4 == 0,
        !pages.contains_key(a >> 9u32),
    ensures
        (MemView { ram: ram_of(pages), devices }).load_word(a) == 0,
{
    assert(a % 4 == 0 ==> (a + 1) as u32 >> 9u32 == a >> 9u32 && (a + 2) as u32 >> 9u32 == a >> 9u32
        && (a + 3) as u32 >> 9u32 == a >> 9u32) by (bit_vector)
        requires
            a < 0xFFFF_0000u32,
    ;
    assert(be_word(0, 0, 0, 0) == 0) by (bit_vector);
}

pub fn page_index(addr: u32) -> (r: u32)
    ensures
        r == addr >> 9u32,
{
    addr >> PAGE_POWER
}

pub fn page_offset(addr: u32) -> (r: usize)
    ensures
        r == (addr & 511u32) as usize,
        r < PAGE_SIZE,
{
    assert((addr & 511u32) < 512) by (bit_vector);
    (addr & PAGE_MASK) as usize
}

proof fn lemma_page_split(a: u32, b: u32)
    requires
        a >> 9u32 == b >> 9u32,
        a & 511u32 == b & 511u32,
    ensures
        a == b,
{
    assert(a >> 9u32 == b >> 9u32 && a & 511u32 == b & 511u32 ==> a == b) by (bit_vector);
}

fn zero_page() -> (r: Vec<u8>)
    ensures
        r@.len() == PAGE_SIZE,
        forall|i: int| 0 <= i < PAGE_SIZE ==> r@[i] == 0,
{
    let mut page: Vec<u8> = Vec::new();
    let mut i: usize = 0;
    while i < PAGE_SIZE
        invariant
            i <= PAGE_SIZE,
            page@.len() == i,
            forall|j: int| 0 <= j < i ==> page@[j] == 0,
        decreases PAGE_SIZE - i,
    {
        page.push(0);
        i += 1;
    }
    page
}

/// The byte at `a` in paged storage; a page never written reads as zeros.
pub open spec fn page_byte(pages: Map<u32, Vec<u8>>, a: u32) -> u8 {
    let p = a >> 9u32;
    if pages.contains_key(p) {
        pages[p]@[(a & 511u32) as int]
    } else {
        0
    }
}

pub open spec fn ram_of(pages: Map<u32, Vec<u8>>) -> Map<u32, u8> {
    Map::new(|a: u32| true, |a: u32| page_byte(pages, a))
}

/// A paged, big-endian, byte-addressed memory, with a device bus above
/// `DEFAULT_MMIO_ADDRESS`.
pub struct Memory {
    pub pages: HashMap<u32, Vec<u8>>,
    pub bus: MmioBus,
}

impl View for Memory {
    type V = MemView;

    open spec fn view(&self) -> MemView {
        MemView { ram: ram_of(self.pages@), devices: self.bus.devices@ }
    }
}

impl Memory {
    /// The memory of a fresh machine, as plain values.
    pub open spec fn new_view() -> MemView {
        MemView {
            ram: Map::new(|a: u32| true, |a: u32| 0u8),
            devices: seq![
                (LED_ADDRESS, (LED_ADDRESS + LED_SIZE) as u32, Device::Led(LedDevice { value: 0, color: crate::mmio::LED_DEFAULT_COLOR })),
            ],
        }
    }

    /// Every page holds exactly `PAGE_SIZE` bytes.
    pub open spec fn wf(&self) -> bool {
        forall|p: u32| #[trigger]
            self.pages@.contains_key(p) ==> self.pages@[p]@.len() == PAGE_SIZE
    }


    /// The memory of a fresh machine: zeroed pages for the stack, heap,
    /// static data, text and device segments, and the LED on the bus.
    pub fn new() -> (r: Self)
        ensures
            r.wf(),
            r@ == Self::new_view(),
            forall|a: u32| #[trigger] r@.ram[a] == 0,
            r@.devices == seq![
                (LED_ADDRESS, (LED_ADDRESS + LED_SIZE) as u32, Device::Led(LedDevice { value: 0, color: crate::mmio::LED_DEFAULT_COLOR })),
            ],
    {
        let mut pages: HashMap<u32, Vec<u8>> = HashMap::new();
        pages.insert((DEFAULT_STACK_BASE_ADDRESS - PAGE_SIZE as u32) >> PAGE_POWER, zero_page());
        pages.insert(DEFAULT_HEAP_BASE_ADDRESS >> PAGE_POWER, zero_page());
        pages.insert(DEFAULT_STATIC_DATA_BASE_ADDRESS >> PAGE_POWER, zero_page());
        pages.insert(DEFAULT_TEXT_BASE_ADDRESS >> PAGE_POWER, zero_page());
        pages.insert(DEFAULT_MMIO_ADDRESS >> PAGE_POWER, zero_page());
        let mut bus = MmioBus::new();
        bus.register(LED_ADDRESS, LED_SIZE, Device::Led(LedDevice::new()));
        let r = Memory { pages, bus };
        assert forall|a: u32| #[trigger] r@.ram[a] == 0 by {
            assert((a & 511u32) < 512) by (bit_vector);
        }
        assert(r@.ram =~= Self::new_view().ram);
        r
    }

    fn read_ram(&self, a: u32) -> (r: u8)
        requires
            self.wf(),
        ensures
            r == self@.ram[a],
    {
        let p = page_index(a);
        let off = page_offset(a);
        match self.pages.get(&p) {
            Some(page) => page[off],
            None => 0,
        }
    }

    fn write_ram(&mut self, a: u32, v: u8)
        requires
            old(self).wf(),
        ensures
            final(self).wf(),
            final(self)@ == (MemView { ram: old(self)@.ram.insert(a, v), devices: old(self)@.devices }),
    {
        let p = page_index(a);
        let off = page_offset(a);
        let mut page = match self.pages.remove(&p) {
            Some(pg) => pg,
            None => zero_page(),
        };
        page.set(off, v);
        self.pages.insert(p, page);
        proof {
            assert forall|x: u32| #[trigger] page_byte(self.pages@, x) == old(self)@.ram.insert(a, v)[x] by {
                assert((x & 511u32) < 512) by (bit_vector);
                if x != a {
                    if x >> 9u32 == p {
                        if x & 511u32 == a & 511u32 {
                            lemma_page_split(x, a);
                        }
                    }
                }
            }
            assert(self@.ram =~= old(self)@.ram.insert(a, v));
        }
    }

    pub fn set_byte(&mut self, address: u32, value: i8)
        requires
            old(self).wf(),
        ensures
            final(self).wf(),
            final(self)@ == old(self)@.store_byte(address, #[verifier::truncate] (value as u8)),
    {
        let b: u8 = #[verifier::truncate] (value as u8);
        if address >= DEFAULT_MMIO_ADDRESS {
            let base = address & 0xFFFF_FFFC;
            assert(address & 3 <= 3) by (bit_vector);
            let sh = (3 - (address & 3)) * 8;
            let w = self.bus.load(base);
            let nw = (w & !(0xFFu32 << sh)) | ((b as u32) << sh);
            self.bus.store(base, nw);
        } else {
            self.write_ram(address, b);
        }
    }

    pub fn load_byte(&mut self, address: u32) -> (r: i8)
        requires
            old(self).wf(),
        ensures
            final(self).wf(),
            final(self)@ == old(self)@,
            final(self).pages@ == old(self).pages@,
            #[verifier::truncate] (r as u8) == old(self)@.load_byte(address),
    {
        let b: u8 = if address >= DEFAULT_MMIO_ADDRESS {
            assert(address & 3 <= 3) by (bit_vector);
            let sh = (3 - (address & 3)) * 8;
            let w = self.bus.load(address & 0xFFFF_FFFC);
            #[verifier::truncate] ((w >> sh) as u8)
        } else {
            self.read_ram(address)
        };
        let r: i8 = #[verifier::truncate] (b as i8);
        assert(#[verifier::truncate] (r as u8) == b) by (bit_vector)
            requires r == #[verifier::truncate] (b as i8);
        r
    }

    pub fn set_halfword(&mut self, address: u32, value: i16)
        requires
            old(self).wf(),
        ensures
            final(self).wf(),
            final(self)@ == old(self)@.store_half(address, #[verifier::truncate] (value as u16)),
    {
        let v: u16 = #[verifier::truncate] (value as u16);
        if address >= DEFAULT_MMIO_ADDRESS {
            let base = address & 0xFFFF_FFFC;
            let sh: u32 = if address & 2 == 0 { 16 } else { 0 };
            let w = self.bus.load(base);
            let nw = (w & !(0xFFFFu32 << sh)) | ((v as u32) << sh);
            self.bus.store(base, nw);
        } else {
            self.write_ram(address, #[verifier::truncate] ((v >> 8u16) as u8));
            self.write_ram(address + 1, #[verifier::truncate] (v as u8));
        }
    }

    pub fn load_halfword(&mut self, address: u32) -> (r: i16)
        requires
            old(self).wf(),
        ensures
            final(self).wf(),
            final(self)@ == old(self)@,
            final(self).pages@ == old(self).pages@,
            #[verifier::truncate] (r as u16) == old(self)@.load_half(address),
    {
        if address >= DEFAULT_MMIO_ADDRESS {
            let sh: u32 = if address & 2 == 0 { 16 } else { 0 };
            let w = self.bus.load(address & 0xFFFF_FFFC);
            let h: u16 = #[verifier::truncate] ((w >> sh) as u16);
            let r: i16 = #[verifier::truncate] (h as i16);
            assert(#[verifier::truncate] (r as u16) == h) by (bit_vector)
                requires r == #[verifier::truncate] (h as i16);
            r
        } else {
            let b0 = self.read_ram(address);
            let b1 = self.read_ram(address + 1);
            let h: u16 = ((b0 as u16) << 8u16) | (b1 as u16);
            let r: i16 = #[verifier::truncate] (h as i16);
            assert(#[verifier::truncate] (r as u16) == h) by (bit_vector)
                requires r == #[verifier::truncate] (h as i16);
            r
        }
    }

    pub fn set_word(&mut self, address: u32, value: i32)
        requires
            old(self).wf(),
        ensures
            final(self).wf(),
            final(self)@ == old(self)@.store_word(address, #[verifier::truncate] (value as u32)),
    {
        let v: u32 = #[verifier::truncate] (value as u32);
        if address >= DEFAULT_MMIO_ADDRESS {
            self.bus.store(address, v);
        } else {
            self.write_ram(address, (v >> 24u32) as u8);
            self.write_ram(address + 1, (v >> 16u32) as u8);
            self.write_ram(address + 2, (v >> 8u32) as u8);
            self.write_ram(address + 3, #[verifier::truncate] (v as u8));
        }
    }

    pub fn load_word(&mut self, address: u32) -> (r: i32)
        requires
            old(self).wf(),
        ensures
            final(self).wf(),
            final(self)@ == old(self)@,
            final(self).pages@ == old(self).pages@,
            #[verifier::truncate] (r as u32) == old(self)@.load_word(address),
    {
        if address >= DEFAULT_MMIO_ADDRESS {
            let w = self.bus.load(address);
            let r: i32 = #[verifier::truncate] (w as i32);
            assert(#[verifier::truncate] (r as u32) == w) by (bit_vector)
                requires r == #[verifier::truncate] (w as i32);
            r
        } else {
            let b0 = self.read_ram(address);
            let b1 = self.read_ram(address + 1);
            let b2 = self.read_ram(address + 2);
            let b3 = self.read_ram(address + 3);
            let w: u32 = ((b0 as u32) << 24u32) | ((b1 as u32) << 16u32) | ((b2 as u32) << 8u32)
                | (b3 as u32);
            let r: i32 = #[verifier::truncate] (w as i32);
            assert(#[verifier::truncate] (r as u32) == w) by (bit_vector)
                requires r == #[verifier::truncate] (w as i32);
            r
        }
    }

    /// Writes the bytes of `value` at successive addresses from `address`;
    /// a caller that wants a terminating NUL appends it.
    pub fn set_string(&mut self, address: u32, value: &str)
        requires
            old(self).wf(),
            address as int + value.spec_bytes().len() <= u32::MAX + 1,
        ensures
            final(self).wf(),
            final(self)@ == old(self)@.store_bytes(address, value.spec_bytes()),
    {
        self.set_bytes(address, value.as_bytes());
    }

    /// Writes `bytes` at successive addresses from `address`.
    pub fn set_bytes(&mut self, address: u32, bytes: &[u8])
        requires
            old(self).wf(),
            address as int + bytes@.len() <= u32::MAX + 1,
        ensures
            final(self).wf(),
            final(self)@ == old(self)@.store_bytes(address, bytes@),
    {
        let mut i: usize = 0;
        assert(bytes@.subrange(0, bytes@.len() as int) =~= bytes@);
        while i < bytes.len()
            invariant
                self.wf(),
                i <= bytes@.len(),
                address as int + bytes@.len() <= u32::MAX + 1,
                old(self)@.store_bytes(address, bytes@) == self@.store_bytes(
                    (address + i) as u32,
                    bytes@.subrange(i as int, bytes@.len() as int),
                ),
            decreases bytes@.len() - i,
        {
            self.set_byte(address + i as u32, #[verifier::truncate] (bytes[i] as i8));
            proof {
                let rest = bytes@.subrange(i as int, bytes@.len() as int);
                assert(rest.drop_first() =~= bytes@.subrange(i + 1, bytes@.len() as int));
                let b = bytes@[i as int];
                assert(#[verifier::truncate] ((#[verifier::truncate] (b as i8)) as u8) == b) by (bit_vector);
            }
            i += 1;
        }
        proof {
            assert(bytes@.subrange(i as int, bytes@.len() as int) =~= Seq::<u8>::empty());
        }
    }

    /// The `n` bytes from `address` on.
    pub fn get_memory_slice(&mut self, address: u32, n: u32) -> (r: Vec<u8>)
        requires
            old(self).wf(),
            address as int + n as int <= u32::MAX + 1,
        ensures
            final(self).wf(),
            final(self)@ == old(self)@,
            final(self).pages@ == old(self).pages@,
            r@ == old(self)@.slice(address, n as nat),
    {
        let mut out: Vec<u8> = Vec::new();
        let mut i: u32 = 0;
        while i < n
            invariant
                self.wf(),
                self@ == old(self)@,
                self.pages@ == old(self).pages@,
                i <= n,
                address as int + n as int <= u32::MAX + 1,
                out@ =~= old(self)@.slice(address, i as nat),
            decreases n - i,
        {
            let b = self.load_byte(address + i);
            out.push(#[verifier::truncate] (b as u8));
            i += 1;
        }
        out
    }
}

} // verus!
