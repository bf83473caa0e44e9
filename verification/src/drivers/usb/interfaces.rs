//! What a device can do, from its configuration descriptor.
//!
//! It is a flat list of records, each with its own length and kind, walked by
//! those lengths.
use vstd::prelude::*;

verus! {

/// The class of storage.
pub const MASS_STORAGE: u8 = 0x08;

/// A record: an interface.
pub const INTERFACE: u8 = 4;

/// A record: an endpoint of the interface before it.
pub const ENDPOINT: u8 = 5;

/// A bulk endpoint.
#[derive(Debug, Clone, Copy, PartialEq, Eq, Structural)]
pub struct Endpoint {
    pub number: u8,
    /// How large its packets are.
    pub packet: u16,
}

/// What a driver of storage needs to know of a device.
#[derive(Debug, Clone, Copy, PartialEq, Eq, Structural)]
pub struct Interfaces {
    pub class: u8,
    pub subclass: u8,
    pub protocol: u8,
    pub interface: u8,
    pub bulk_in: Option<Endpoint>,
    pub bulk_out: Option<Endpoint>,
}

/// What is known part way along: whether the interface being walked is the one
/// that was chosen.
#[derive(Debug, Clone, Copy, PartialEq, Eq, Structural)]
pub struct Walking {
    pub found: Interfaces,
    pub ours: bool,
}

/// What a record that is an interface tells: one of storage is chosen until one
/// has had a way in, and the endpoints of any other are passed over.
pub open spec fn with_interface(before: Walking, record: Seq<u8>) -> Walking {
    if record[5] == MASS_STORAGE && before.found.bulk_in is None {
        Walking {
            found: Interfaces {
                interface: record[2],
                class: record[5],
                subclass: record[6],
                protocol: record[7],
                ..before.found
            },
            ours: true,
        }
    } else {
        Walking { ours: false, ..before }
    }
}

/// What a record that is an endpoint of the chosen interface tells: a bulk one
/// is kept by which way it goes.
pub open spec fn with_endpoint(before: Walking, record: Seq<u8>) -> Walking {
    let endpoint = Endpoint {
        number: record[2] % 16,
        packet: (record[4] + record[5] * 256) as u16,
    };
    if record[3] % 4 != 2 {
        before
    } else if record[2] >= 0x80 {
        Walking { found: Interfaces { bulk_in: Some(endpoint), ..before.found }, ..before }
    } else {
        Walking { found: Interfaces { bulk_out: Some(endpoint), ..before.found }, ..before }
    }
}

/// What a record tells.
pub open spec fn with_record(before: Walking, record: Seq<u8>) -> Walking {
    if record[1] == INTERFACE && record.len() >= 9 {
        with_interface(before, record)
    } else if record[1] == ENDPOINT && record.len() >= 7 && before.ours {
        with_endpoint(before, record)
    } else {
        before
    }
}

/// Whether a whole record stands at a place.
pub open spec fn is_record(tree: Seq<u8>, at: int) -> bool {
    at + 2 <= tree.len() && tree[at] >= 2 && at + tree[at] <= tree.len()
}

/// What the records from a place on tell. The first that is not whole ends them:
/// it would have the walk go on for ever, or past the end.
pub open spec fn walked(before: Walking, tree: Seq<u8>, at: int) -> Walking
    decreases tree.len() - at,
{
    if !is_record(tree, at) {
        before
    } else {
        walked(with_record(before, tree.subrange(at, at + tree[at])), tree, at + tree[at])
    }
}

/// Walk a configuration descriptor, and pick out what a driver of storage needs.
pub fn read_interfaces(before: Interfaces, tree: &[u8]) -> (found: Interfaces)
    ensures
        found == walked(Walking { found: before, ours: false }, tree@, 0).found,
{
    let mut now = Walking { found: before, ours: false };
    let mut at: usize = 0;
    let size: usize = tree.len();
    while at < size && size - at >= 2 && tree[at] >= 2 && tree[at] as usize <= size - at
        invariant
            at <= size,
            size == tree@.len(),
            walked(Walking { found: before, ours: false }, tree@, 0) == walked(now, tree@, at as int),
        decreases size - at,
    {
        let length: usize = tree[at] as usize;
        let kind: u8 = tree[at + 1];
        let ghost record = tree@.subrange(at as int, at + length);
        let ghost then = now;
        if kind == INTERFACE && length >= 9 {
            let class: u8 = tree[at + 5];
            let none: bool = now.found.bulk_in.is_none();
            if class == MASS_STORAGE && none {
                now.ours = true;
                now.found.interface = tree[at + 2];
                now.found.class = class;
                now.found.subclass = tree[at + 6];
                now.found.protocol = tree[at + 7];
            } else {
                now.ours = false;
            }
        } else if kind == ENDPOINT && length >= 7 && now.ours {
            let address: u8 = tree[at + 2];
            let endpoint = Endpoint {
                number: address % 16,
                packet: tree[at + 4] as u16 + tree[at + 5] as u16 * 256,
            };
            if tree[at + 3] % 4 == 2 {
                if address >= 0x80 {
                    now.found.bulk_in = Some(endpoint);
                } else {
                    now.found.bulk_out = Some(endpoint);
                }
            }
        }
        assert(now == with_record(then, record));
        at = at + length;
    }
    now.found
}

/// What a driver learns of a device that has no interface of storage is what it
/// knew before: no endpoint of another interface is taken for one.
pub proof fn law_only_storage_is_believed(before: Interfaces, tree: Seq<u8>, at: int)
    requires
        0 <= at,
        forall|i: int|
            #![trigger tree[i]]
            at <= i && is_record(tree, i) && tree[i + 1] == INTERFACE && tree[i] >= 9 ==> tree[i + 5]
                != MASS_STORAGE,
    ensures
        walked(Walking { found: before, ours: false }, tree, at).found == before,
    decreases tree.len() - at,
{
    if is_record(tree, at) {
        let record = tree.subrange(at, at + tree[at]);
        let start = Walking { found: before, ours: false };
        assert(tree[at] == record[0]);
        assert(with_record(start, record) == start);
        law_only_storage_is_believed(before, tree, at + tree[at]);
    }
}

} // verus!
