//! PCI: what devices there are and where their registers are.
//!
//! Configuration space is reached through two ports: an address is written to
//! one, and the data is read or written at the other.
use vstd::prelude::*;

use crate::text::{put_decimal, put_hex2, put_hex4};
#[allow(unused_imports)]
use crate::text::{digits, hex2, hex4, law_hex_reads_back, read_hex1};

verus! {

/// The port an address is written to.
pub const CONFIG_ADDRESS: u16 = 0x0CF8;

/// The port the data is at.
pub const CONFIG_DATA: u16 = 0x0CFC;

/// Without this bit of the address the access does not happen.
pub const ENABLE: u32 = 0x8000_0000;

/// The vendor of a device that did not answer.
pub const NO_DEVICE: u16 = 0xFFFF;

/// The most capabilities a device can have.
pub const MOST_CAPABILITIES: u32 = 64;

/// The bit that says a device has a list of capabilities.
pub const HAS_CAPABILITIES: u32 = 0x0010_0000;

/// Where a device is.
#[derive(Debug, Clone, Copy, PartialEq, Eq, Structural)]
pub struct Address {
    pub bus: u8,
    pub device: u8,
    pub function: u8,
}

impl Address {
    /// Whether there can be such a device.
    pub open spec fn wf(self) -> bool {
        self.device < 32 && self.function < 8
    }

    /// The address of a register, with the enabling bit.
    pub open spec fn spec_word(self, offset: u8) -> u32 {
        ENABLE | ((self.bus as u32) << 16) | ((self.device as u32) << 11) | ((self.function as u32)
            << 8) | ((offset & 0xFC) as u32)
    }

    /// The address of a register: aligned down, because the data port is four
    /// bytes wide.
    pub fn word(self, offset: u8) -> (word: u32)
        ensures
            word == self.spec_word(offset),
    {
        ENABLE | ((self.bus as u32) << 16) | ((self.device as u32) << 11) | ((self.function as u32)
            << 8) | ((offset & 0xFC) as u32)
    }

    /// The address as it is shown.
    pub open spec fn shown(self) -> Seq<u8> {
        hex2(self.bus) + seq![0x3Au8] + hex2(self.device) + seq![0x2Eu8] + digits(
            self.function as nat,
        )
    }

    /// The address as it is shown.
    pub fn text(self) -> (text: Vec<u8>)
        ensures
            text@ == self.shown(),
    {
        let mut text: Vec<u8> = Vec::new();
        put_hex2(&mut text, self.bus);
        text.push(0x3A);
        put_hex2(&mut text, self.device);
        text.push(0x2E);
        put_decimal(&mut text, self.function as u64);
        assert(text@ =~= self.shown());
        text
    }
}

/// Read a register: what to write to the address port before the data port is
/// read.
pub fn read_config(address: Address, offset: u8) -> (word: u32)
    ensures
        word == address.spec_word(offset),
{
    address.word(offset)
}

/// Write a register: what to write to the address port, and then to the data
/// port.
pub fn write_config(address: Address, offset: u8, value: u32) -> (words: (u32, u32))
    ensures
        words == (address.spec_word(offset), value),
{
    (address.word(offset), value)
}

/// Where a device's registers are.
#[derive(Debug, Clone, Copy, PartialEq, Eq, Structural)]
pub enum BaseAddress {
    /// Among the ports.
    Port(u16),
    /// In memory.
    Memory { base: u64, sixty_four: bool },
}

/// Whether a base address register says that its window is among the ports.
pub open spec fn is_port(low: u32) -> bool {
    low % 2 == 1
}

/// Whether a base address register of memory is the lower half of one.
pub open spec fn is_wide(low: u32) -> bool {
    (low / 2) % 4 == 2
}

/// What one or two base address registers say.
pub open spec fn window(low: u32, high: u32) -> BaseAddress {
    if is_port(low) {
        BaseAddress::Port(((low % 0x1_0000) - (low % 4)) as u16)
    } else {
        let base = (low - low % 16) as int;
        BaseAddress::Memory {
            base: if is_wide(low) {
                (base + high * 0x1_0000_0000) as u64
            } else {
                base as u64
            },
            sixty_four: is_wide(low),
        }
    }
}

/// A device found on the bus.
#[derive(Debug, Clone, Copy, PartialEq, Eq, Structural)]
pub struct Device {
    pub address: Address,
    pub vendor: u16,
    pub device: u16,
    pub class: u8,
    pub subclass: u8,
    pub interface: u8,
    pub header_type: u8,
    /// What a device says it is where its own number does not.
    pub subsystem: u16,
    /// The interrupt line it was wired to, or `FF` for none.
    pub interrupt_line: u8,
}

/// A walk along a device's capabilities.
#[derive(Debug, Clone, Copy, PartialEq, Eq, Structural)]
pub struct Capabilities {
    /// Where the next one is.
    pub at: u8,
    /// How many more may be looked at.
    pub left: u32,
}

/// A capability.
#[derive(Debug, Clone, Copy, PartialEq, Eq, Structural)]
pub struct Capability {
    pub offset: u8,
    pub identifier: u8,
}

impl Capabilities {
    /// Whether there is another one.
    pub open spec fn more(self) -> bool {
        self.left > 0 && self.at >= 0x40
    }

    /// Where the next capability's first register is, if there is another.
    pub fn next(&self) -> (offset: Option<u8>)
        ensures
            offset == if self.more() {
                Some(self.at)
            } else {
                None
            },
    {
        if self.left > 0 && self.at >= 0x40 {
            Some(self.at)
        } else {
            None
        }
    }

    /// The walk past a capability with this first register.
    pub open spec fn past(self, header: u32) -> Capabilities {
        let next = ((header / 0x100) % 0x100 - (header / 0x100) % 4) as u8;
        if next == 0 || next == self.at {
            Capabilities { left: 0, ..self }
        } else {
            Capabilities { at: next, left: (self.left - 1) as u32 }
        }
    }

    /// Take in the first register of a capability, and go on to the next.
    ///
    /// The list is the device's own, so the walk is bounded: one with a loop in
    /// it ends.
    pub fn look(&mut self, header: u32) -> (found: Capability)
        requires
            old(self).more(),
        ensures
            found == (Capability { offset: old(self).at, identifier: (header % 0x100) as u8 }),
            *final(self) == old(self).past(header),
    {
        let found = Capability { offset: self.at, identifier: (header % 0x100) as u8 };
        let next: u8 = ((header / 0x100) % 0x100 - (header / 0x100) % 4) as u8;
        if next == 0 || next == self.at {
            self.left = 0;
        } else {
            self.at = next;
            self.left = self.left - 1;
        }
        found
    }
}

/// What a class and a subclass are called.
pub open spec fn called(class: u8, subclass: u8) -> Seq<char> {
    if class == 0x00 {
        "pre-class device"@
    } else if class == 0x01 && subclass == 0x01 {
        "IDE controller"@
    } else if class == 0x01 && subclass == 0x06 {
        "SATA controller"@
    } else if class == 0x01 && subclass == 0x08 {
        "NVMe controller"@
    } else if class == 0x01 {
        "storage controller"@
    } else if class == 0x02 {
        "network controller"@
    } else if class == 0x03 {
        "display controller"@
    } else if class == 0x04 {
        "multimedia device"@
    } else if class == 0x06 && subclass == 0x00 {
        "host bridge"@
    } else if class == 0x06 && subclass == 0x01 {
        "ISA bridge"@
    } else if class == 0x06 && subclass == 0x04 {
        "PCI-to-PCI bridge"@
    } else if class == 0x06 {
        "bridge"@
    } else if class == 0x0C && subclass == 0x03 {
        "USB controller"@
    } else if class == 0x0C {
        "serial bus controller"@
    } else {
        "device"@
    }
}

impl Device {
    /// Where one of the six base address registers is.
    pub fn base_offset(&self, index: u8) -> (offset: u8)
        requires
            index < 6,
        ensures
            offset == 0x10 + index * 4,
    {
        0x10 + index * 4
    }

    /// What a base address register says, and the one after it where the first
    /// is the lower half of an address.
    pub fn base_address(&self, low: u32, high: u32) -> (base: BaseAddress)
        ensures
            base == window(low, high),
    {
        if low % 2 == 1 {
            return BaseAddress::Port(((low % 0x1_0000) - (low % 4)) as u16);
        }
        let sixty_four: bool = (low / 2) % 4 == 2;
        let base: u64 = (low - low % 16) as u64;
        if sixty_four {
            BaseAddress::Memory { base: base + high as u64 * 0x1_0000_0000, sixty_four }
        } else {
            BaseAddress::Memory { base, sixty_four }
        }
    }

    /// Start along the capabilities, given the command register and the one that
    /// says where the first is. A device without the list has anything in the
    /// second.
    pub fn capabilities(&self, command: u32, pointer: u32) -> (walk: Capabilities)
        ensures
            walk == if command & HAS_CAPABILITIES == 0 {
                Capabilities { at: 0, left: 0 }
            } else {
                Capabilities {
                    at: (pointer % 0x100 - pointer % 4) as u8,
                    left: MOST_CAPABILITIES,
                }
            },
    {
        if command & HAS_CAPABILITIES == 0 {
            return Capabilities { at: 0, left: 0 };
        }
        Capabilities { at: (pointer % 0x100 - pointer % 4) as u8, left: MOST_CAPABILITIES }
    }

    /// What to write to the command register to let the device be driven: its
    /// ports, its memory and its own reading of memory. The status half is
    /// cleared by writing ones, so none are.
    pub fn enable(&self, command: u32) -> (value: u32)
        ensures
            value == ((command % 0x1_0000) - command % 8 + 7) as u32,
    {
        (command % 0x1_0000) - command % 8 + 7
    }

    /// A short description of what the device claims to be.
    pub fn describe(&self) -> (text: &'static str)
        ensures
            text@ == called(self.class, self.subclass),
    {
        match (self.class, self.subclass) {
            (0x00, _) => "pre-class device",
            (0x01, 0x01) => "IDE controller",
            (0x01, 0x06) => "SATA controller",
            (0x01, 0x08) => "NVMe controller",
            (0x01, _) => "storage controller",
            (0x02, _) => "network controller",
            (0x03, _) => "display controller",
            (0x04, _) => "multimedia device",
            (0x06, 0x00) => "host bridge",
            (0x06, 0x01) => "ISA bridge",
            (0x06, 0x04) => "PCI-to-PCI bridge",
            (0x06, _) => "bridge",
            (0x0C, 0x03) => "USB controller",
            (0x0C, _) => "serial bus controller",
            _ => "device",
        }
    }
}

/// What a function's registers held.
#[derive(Debug, Clone, Copy, PartialEq, Eq, Structural)]
pub struct Registers {
    /// At `00`: who made it, and what it is.
    pub identity: u32,
    /// At `08`: what kind of thing it is.
    pub classes: u32,
    /// At `0C`: what kind of header it has.
    pub header: u32,
    /// At `2C`, in the header of an ordinary device.
    pub subsystem: u32,
    /// At `3C`, in the header of an ordinary device.
    pub interrupt: u32,
}

/// The kind of header, and whether there are more functions.
pub open spec fn header_of(header: u32) -> u8 {
    ((header / 0x1_0000) % 0x100) as u8
}

/// The device whose registers these are, if one answered. A bridge has no
/// subsystem and no interrupt line.
pub open spec fn probed(address: Address, registers: Registers) -> Option<Device> {
    if registers.identity % 0x1_0000 == NO_DEVICE {
        None
    } else {
        let ordinary = header_of(registers.header) % 0x80 == 0;
        Some(
            Device {
                address,
                vendor: (registers.identity % 0x1_0000) as u16,
                device: (registers.identity / 0x1_0000) as u16,
                class: (registers.classes / 0x100_0000) as u8,
                subclass: ((registers.classes / 0x1_0000) % 0x100) as u8,
                interface: ((registers.classes / 0x100) % 0x100) as u8,
                header_type: header_of(registers.header),
                subsystem: if ordinary {
                    (registers.subsystem / 0x1_0000) as u16
                } else {
                    0
                },
                interrupt_line: if ordinary {
                    (registers.interrupt % 0x100) as u8
                } else {
                    0xFF
                },
            },
        )
    }
}

/// Read one function, if anything answers there.
pub fn probe(address: Address, registers: &Registers) -> (device: Option<Device>)
    ensures
        device == probed(address, *registers),
{
    if registers.identity % 0x1_0000 == NO_DEVICE as u32 {
        return None;
    }
    let header_type: u8 = ((registers.header / 0x1_0000) % 0x100) as u8;
    let ordinary: bool = header_type % 0x80 == 0;
    Some(
        Device {
            address,
            vendor: (registers.identity % 0x1_0000) as u16,
            device: (registers.identity / 0x1_0000) as u16,
            class: (registers.classes / 0x100_0000) as u8,
            subclass: ((registers.classes / 0x1_0000) % 0x100) as u8,
            interface: ((registers.classes / 0x100) % 0x100) as u8,
            header_type,
            subsystem: if ordinary {
                (registers.subsystem / 0x1_0000) as u16
            } else {
                0
            },
            interrupt_line: if ordinary {
                (registers.interrupt % 0x100) as u8
            } else {
                0xFF
            },
        },
    )
}

/// A look at every function of every device on every bus.
pub struct Scan {
    at: u32,
    found: Vec<Device>,
}

/// The same, as a value.
#[verifier::ext_equal]
pub struct ScanModel {
    /// How many functions are behind, of the sixty-five thousand there can be.
    pub at: nat,
    /// What was found, in order.
    pub found: Seq<Device>,
}

impl View for Scan {
    type V = ScanModel;

    closed spec fn view(&self) -> ScanModel {
        ScanModel { at: self.at as nat, found: self.found@ }
    }
}

/// The function that so many others stand before.
pub open spec fn function_at(at: nat) -> Address {
    Address {
        bus: (at / 256) as u8,
        device: ((at / 8) % 32) as u8,
        function: (at % 8) as u8,
    }
}

/// How many functions there can be.
pub const FUNCTIONS: u32 = 65_536;

/// Which function is looked at after one that gave this: function zero answers
/// for the device, and says whether there are more.
pub open spec fn after(at: nat, answer: Option<Device>) -> nat {
    if at % 8 == 0 && !(answer matches Some(device) && device.header_type >= 0x80) {
        at + 8
    } else {
        at + 1
    }
}

/// A scan after an answer.
pub open spec fn scanned(before: ScanModel, answer: Option<Device>) -> ScanModel {
    ScanModel {
        at: after(before.at, answer),
        found: match answer {
            Some(device) => before.found.push(device),
            None => before.found,
        },
    }
}

impl Scan {
    /// The scan is in the space there is.
    pub open spec fn wf(&self) -> bool {
        self@.at <= FUNCTIONS
    }

    /// Nothing looked at.
    pub fn new() -> (scan: Self)
        ensures
            scan.wf(),
            scan@ == (ScanModel { at: 0, found: Seq::empty() }),
    {
        Scan { at: 0, found: Vec::new() }
    }

    /// The next function to look at, until there is none.
    pub fn next(&self) -> (address: Option<Address>)
        requires
            self.wf(),
        ensures
            address == if self@.at < FUNCTIONS {
                Some(function_at(self@.at))
            } else {
                None
            },
    {
        if self.at >= FUNCTIONS {
            return None;
        }
        Some(
            Address {
                bus: (self.at / 256) as u8,
                device: ((self.at / 8) % 32) as u8,
                function: (self.at % 8) as u8,
            },
        )
    }

    /// Take in what a function gave.
    pub fn answered(&mut self, answer: Option<Device>)
        requires
            old(self).wf(),
            old(self)@.at < FUNCTIONS,
        ensures
            final(self).wf(),
            final(self)@ == scanned(old(self)@, answer),
    {
        let more: bool = match answer {
            Some(device) => device.header_type >= 0x80,
            None => false,
        };
        if let Some(device) = answer {
            self.found.push(device);
        }
        self.at = if self.at % 8 == 0 && !more {
            self.at + 8
        } else {
            self.at + 1
        };
    }
}

/// Every device that was found, once the scan is through.
pub fn enumerate(scan: Scan) -> (devices: Vec<Device>)
    requires
        scan@.at == FUNCTIONS,
    ensures
        devices@ == scan@.found,
{
    scan.found
}

/// What is shown of a device before what it is called.
pub open spec fn line(device: Device) -> Seq<u8> {
    device.address.shown() + seq![0x20u8] + hex4(device.vendor) + seq![0x3Au8] + hex4(device.device)
        + seq![0x20u8, 0x63u8, 0x6Cu8, 0x61u8, 0x73u8, 0x73u8, 0x20u8] + hex2(device.class) + seq![
        0x2Eu8,
    ] + hex2(device.subclass) + seq![0x2Eu8] + hex2(device.interface)
}

/// What is shown of a device: where and what it is, and what that is called. The
/// programming interface is what separates two kinds of one subclass.
pub fn report(device: &Device) -> (shown: (Vec<u8>, &'static str))
    ensures
        shown.0@ == line(*device),
        shown.1@ == called(device.class, device.subclass),
{
    let mut text: Vec<u8> = device.address.text();
    text.push(0x20);
    put_hex4(&mut text, device.vendor);
    text.push(0x3A);
    put_hex4(&mut text, device.device);
    text.push(0x20);
    text.push(0x63);
    text.push(0x6C);
    text.push(0x61);
    text.push(0x73);
    text.push(0x73);
    text.push(0x20);
    put_hex2(&mut text, device.class);
    text.push(0x2E);
    put_hex2(&mut text, device.subclass);
    text.push(0x2E);
    put_hex2(&mut text, device.interface);
    assert(text@ =~= line(*device));
    (text, device.describe())
}

/// Two different functions have different addresses, and two registers of one
/// function that are four bytes or more apart do too.
pub proof fn law_addresses_are_apart(left: Address, right: Address, first: u8, second: u8)
    requires
        left.wf(),
        right.wf(),
        left.spec_word(first) == right.spec_word(second),
    ensures
        left == right,
        first / 4 == second / 4,
{
    let (a, b, c) = (left.bus as u32, left.device as u32, left.function as u32);
    let (d, e, f) = (right.bus as u32, right.device as u32, right.function as u32);
    assert(a == d && b == e && c == f && first / 4 == second / 4) by (bit_vector)
        requires
            a < 256,
            d < 256,
            b < 32,
            e < 32,
            c < 8,
            f < 8,
            0x8000_0000u32 | (a << 16) | (b << 11) | (c << 8) | ((first & 0xFC) as u32)
                == 0x8000_0000u32 | (d << 16) | (e << 11) | (f << 8) | ((second & 0xFC) as u32),
    ;
}

/// Every function of the space is looked at once and no more: each address
/// stands at one place.
pub proof fn law_every_function_has_a_place(address: Address)
    requires
        address.wf(),
    ensures
        ({
            let at = (address.bus * 256 + address.device * 8 + address.function) as nat;
            at < FUNCTIONS && function_at(at) == address
        }),
{
}

/// A walk along capabilities ends, whatever the device says, and stays out of
/// the registers before the list.
pub proof fn law_walks_end(walk: Capabilities, header: u32)
    requires
        walk.more(),
    ensures
        walk.past(header).left < walk.left,
        walk.past(header).more() ==> walk.past(header).at >= 0x40 && walk.past(header).at % 4 == 0,
{
}

/// Letting a device be driven turns on three bits and clears nothing that it
/// reported.
pub proof fn law_enabling_adds_three_bits(command: u32)
    ensures
        ({
            let value = ((command % 0x1_0000) - command % 8 + 7) as u32;
            &&& value % 8 == 7
            &&& value / 8 == (command % 0x1_0000) / 8
            &&& value < 0x1_0000
        }),
{
}

/// The word that selects a register: a bit that is always set, and below it the bus,
/// the device, the function and the register's offset, which is a multiple of four.
pub proof fn law_the_word_of_an_address(address: Address, offset: u8)
    requires
        address.wf(),
    ensures
        address.spec_word(offset) == 0x8000_0000 + 0x1_0000 * address.bus + 0x800 * address.device
            + 0x100 * address.function + (offset - offset % 4),
        CONFIG_ADDRESS == 0xCF8,
        CONFIG_DATA == 0xCFC,
{
    let (a, b, c) = (address.bus, address.device, address.function);
    assert(b < 32 && c < 8 ==> 0x8000_0000u32 | ((a as u32) << 16) | ((b as u32) << 11) | ((c as u32)
        << 8) | ((offset & 0xFC) as u32) == 0x8000_0000 + 0x1_0000 * a + 0x800 * b + 0x100 * c + (
    offset - offset % 4)) by (bit_vector);
}

/// What a base address says: an odd one is a port, whose two lowest bits are not part
/// of it; an even one is memory, whose four lowest are not, and it is of 64 bits where
/// the two bits above the lowest say two.
pub proof fn law_what_a_base_address_says(low: u32, high: u32)
    ensures
        low % 2 == 1 ==> (window(low, high) matches BaseAddress::Port(port) && port % 4 == 0 && port
            + low % 4 == low % 0x1_0000),
        low % 2 == 0 ==> (window(low, high) matches BaseAddress::Memory { base, sixty_four } && (
        sixty_four <==> low % 8 == 4) && base % 16 == 0 && base + low % 16 == low + if sixty_four {
            0x1_0000_0000 * high
        } else {
            0
        }),
{
}

/// A capability's first two bytes are what it is and where the next one is; a walk
/// ends at a next one of zero and at one that is the same again.
pub proof fn law_where_the_next_capability_is(walk: Capabilities, header: u32)
    requires
        walk.more(),
    ensures
        ({
            let next = (header / 0x100) % 0x100;
            let after = walk.past(header);
            &&& next / 4 == 0 || next - next % 4 == walk.at ==> after.left == 0
            &&& next / 4 != 0 && next - next % 4 != walk.at ==> after.at == next - next % 4
                && after.left == walk.left - 1
        }),
        walk.more() <==> walk.left > 0 && walk.at >= 64,
        HAS_CAPABILITIES == 0x10_0000,
        MOST_CAPABILITIES == 64,
{
}

/// What is read of a device: vendor and number in one word, the low half first; the
/// classes from the top of another; the header's kind; and of an ordinary device the
/// subsystem and the line it interrupts on. Nothing is there where the vendor is all
/// ones.
pub proof fn law_what_is_read_of_a_device(address: Address, registers: Registers)
    ensures
        probed(address, registers) is None <==> registers.identity % 0x1_0000 == 0xFFFF,
        probed(address, registers) matches Some(device) ==> {
            &&& device.address == address
            &&& device.vendor + 0x1_0000 * device.device == registers.identity
            &&& 0x1_0000 * device.class + 0x100 * device.subclass + device.interface
                == registers.classes / 0x100
            &&& device.header_type == (registers.header / 0x1_0000) % 0x100
            &&& device.header_type % 0x80 == 0 ==> device.subsystem == registers.subsystem / 0x1_0000
                && device.interrupt_line == registers.interrupt % 0x100
            &&& device.header_type % 0x80 != 0 ==> device.subsystem == 0 && device.interrupt_line
                == 0xFF
        },
{
}

/// A scan goes over 256 buses of 32 devices of eight functions, in that order; of a
/// device that does not answer or has one function only the first is asked.
pub proof fn law_a_scan_goes_over_everything(before: ScanModel, answer: Option<Device>)
    requires
        before.at < 65_536,
    ensures
        ({
            let address = function_at(before.at);
            let after = scanned(before, answer);
            let many = answer is Some && answer->Some_0.header_type >= 0x80;
            &&& 256 * address.bus + 8 * address.device + address.function == before.at
            &&& address.wf()
            &&& address.function == 0 && !many ==> after.at == before.at + 8
            &&& address.function != 0 || many ==> after.at == before.at + 1
            &&& answer matches Some(device) ==> after.found == before.found.push(device)
            &&& answer is None ==> after.found == before.found
        }),
        FUNCTIONS == 256 * 32 * 8,
{
}

/// What the kinds of devices are called.
pub proof fn law_what_kinds_are_called(subclass: u8)
    ensures
        called(0, subclass) == "pre-class device"@,
        called(1, 1) == "IDE controller"@,
        called(1, 6) == "SATA controller"@,
        called(1, 8) == "NVMe controller"@,
        subclass != 1 && subclass != 6 && subclass != 8 ==> called(1, subclass)
            == "storage controller"@,
        called(2, subclass) == "network controller"@,
        called(3, subclass) == "display controller"@,
        called(4, subclass) == "multimedia device"@,
        called(6, 0) == "host bridge"@,
        called(6, 1) == "ISA bridge"@,
        called(6, 4) == "PCI-to-PCI bridge"@,
        subclass != 0 && subclass != 1 && subclass != 4 ==> called(6, subclass) == "bridge"@,
        called(0x0C, 3) == "USB controller"@,
        subclass != 3 ==> called(0x0C, subclass) == "serial bus controller"@,
        forall|class: u8|
            class == 5 || 7 <= class <= 0x0B || class >= 0x0D ==> #[trigger] called(class, subclass)
                == "device"@,
{
}

/// What a device's line reads like: `00:1f.2 8086:2922 class 01.06.01`, its place
/// first, then who made it and what it is, and then its three kinds, each to the base
/// sixteen.
pub proof fn law_what_a_device_s_line_reads_like(device: Device)
    requires
        device.address.function < 8,
    ensures
        ({
            let text = line(device);
            let byte = |at: int| 16 * read_hex1(text[at]) + read_hex1(text[at + 1]);
            &&& text.len() == 32
            &&& byte(0) == device.address.bus
            &&& text[2] == 0x3A
            &&& byte(3) == device.address.device
            &&& text[5] == 0x2E
            &&& read_hex1(text[6]) == device.address.function
            &&& text[7] == 0x20
            &&& 256 * byte(8) + byte(10) == device.vendor
            &&& text[12] == 0x3A
            &&& 256 * byte(13) + byte(15) == device.device
            &&& text.subrange(17, 24) == seq![0x20u8, 0x63, 0x6C, 0x61, 0x73, 0x73, 0x20]
            &&& byte(24) == device.class
            &&& text[26] == 0x2E
            &&& byte(27) == device.subclass
            &&& text[29] == 0x2E
            &&& byte(30) == device.interface
        }),
{
    let text = line(device);
    law_hex_reads_back(device.address.bus, device.vendor);
    law_hex_reads_back(device.address.device, device.device);
    law_hex_reads_back(device.class, 0);
    law_hex_reads_back(device.subclass, 0);
    law_hex_reads_back(device.interface, 0);
    assert(text.subrange(0, 2) =~= hex2(device.address.bus));
    assert(text.subrange(3, 5) =~= hex2(device.address.device));
    assert(digits(device.address.function as nat).len() == 1);
    assert(text.subrange(8, 12) =~= hex4(device.vendor));
    assert(text.subrange(13, 17) =~= hex4(device.device));
    assert(text.subrange(17, 24) =~= seq![0x20u8, 0x63, 0x6C, 0x61, 0x73, 0x73, 0x20]);
    assert(text.subrange(24, 26) =~= hex2(device.class));
    assert(text.subrange(27, 29) =~= hex2(device.subclass));
    assert(text.subrange(30, 32) =~= hex2(device.interface));
}

} // verus!
