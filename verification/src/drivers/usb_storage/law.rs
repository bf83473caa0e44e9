//! What a disk on the bus is told and says, in its own numbers: what stands where in
//! the wrappers of a command and of its status, and in the commands themselves.
use vstd::prelude::*;

#[allow(unused_imports)]
use super::{
    asked, bulk_control, bulk_of, bytes_of, configuring, endpoint_stores, higher, index_of, learned,
    name_shown, opened_after, pair_stores, ring_stores, scsi, short_block, transfer_block,
    unopened, wrapper, zeros, Carrying, CommandModel, DiskModel, Opening, Pair, Preparation, Stage,
    Told, Transaction, Transfer, Trouble, Wanted, MAX_TRANSFER,
};
#[allow(unused_imports)]
use crate::bytes::{be16, be32, le32, lemma_numbers_among_bytes, u32_at, u32_be_at};
#[allow(unused_imports)]
use crate::drivers::usb::{choosing, marked, Attached, Device};
#[allow(unused_imports)]
use crate::drivers::xhci::speed_of;
#[allow(unused_imports)]
use crate::drivers::xhci_rings::{entry_stores, link, Store};

verus! {

/// What stands where in the 31 bytes of a command's wrapper: the letters `USBC`, the
/// tag, how many bytes follow, 0x80 where they come from the disk, the first unit, and
/// the length of the command with the command behind it. Zeros fill it up to 64.
pub proof fn law_a_wrapper_s_fields(tag: u32, command: CommandModel)
    requires
        command.block.len() == 16,
    ensures
        ({
            let bytes = wrapper(tag, command);
            &&& bytes.len() == 64
            &&& u32_at(bytes, 0) == 0x4342_5355
            &&& u32_at(bytes, 4) == tag
            &&& u32_at(bytes, 8) == command.data
            &&& bytes[12] == if command.reading {
                0x80u8
            } else {
                0
            }
            &&& bytes[13] == 0
            &&& bytes[14] == command.length
            &&& bytes.subrange(15, 31) == command.block
            &&& forall|i: int| 31 <= i < 64 ==> #[trigger] bytes[i] == 0
        }),
{
    let bytes = wrapper(tag, command);
    lemma_numbers_among_bytes(bytes, 0);
    lemma_numbers_among_bytes(bytes, 4);
    lemma_numbers_among_bytes(bytes, 8);
    assert(bytes.subrange(0, 4) =~= le32(0x4342_5355));
    assert(bytes.subrange(4, 8) =~= le32(tag));
    assert(bytes.subrange(8, 12) =~= le32(command.data));
    assert(bytes.subrange(15, 31) =~= command.block);
}

/// What a status says: it starts with the letters `USBS`, has the tag of its command
/// behind them, and its last byte is zero where the command was carried out.
pub proof fn law_what_a_status_says(tag: u32, status: Seq<u8>)
    ensures
        u32_at(status, 0) != 0x5342_5355 ==> Transaction::verdict(tag, status) == Err::<(), Trouble>(
            Trouble::BadStatus,
        ),
        u32_at(status, 0) == 0x5342_5355 && u32_at(status, 4) != tag ==> Transaction::verdict(
            tag,
            status,
        ) == Err::<(), Trouble>(Trouble::WrongTag),
        u32_at(status, 0) == 0x5342_5355 && u32_at(status, 4) == tag && status[12] != 0
            ==> Transaction::verdict(tag, status) == Err::<(), Trouble>(Trouble::Failed(status[12])),
        u32_at(status, 0) == 0x5342_5355 && u32_at(status, 4) == tag && status[12] == 0
            ==> Transaction::verdict(tag, status) is Ok,
{
}

/// What a transaction carries: 31 bytes out, then the data to or from its buffer, and
/// thirteen bytes of status in.
pub proof fn law_what_a_transaction_carries(transaction: Transaction, command: u64, buffer: u64)
    requires
        command <= u64::MAX - 64,
    ensures
        transaction.stage is Wrapper ==> transaction.transfer(command, buffer) == Some(
            Transfer { physical: command, length: 31, reading: false },
        ),
        transaction.stage is Data ==> transaction.transfer(command, buffer) == Some(
            Transfer { physical: buffer, length: transaction.data, reading: transaction.reading },
        ),
        transaction.stage is Status ==> transaction.transfer(command, buffer) == Some(
            Transfer { physical: (command + 64) as u64, length: 13, reading: true },
        ),
        transaction.stage is Answer ==> transaction.transfer(command, buffer) is None,
        transaction.after().tag == transaction.tag && transaction.after().data == transaction.data
            && transaction.after().reading == transaction.reading,
{
}

/// What moves blocks: the operation, the first block in four bytes and how many in
/// two, each with the high byte first. 0x28 reads and 0x2A writes.
pub proof fn law_what_moves_blocks(operation: u8, block: u64, count: u16)
    ensures
        ({
            let bytes = transfer_block(operation, block, count);
            &&& bytes.len() == 16
            &&& bytes[0] == operation
            &&& bytes[1] == 0
            &&& u32_be_at(bytes, 2) == block % 0x1_0000_0000
            &&& bytes[6] == 0
            &&& 256 * bytes[7] + bytes[8] == count
            &&& forall|i: int| 9 <= i < 16 ==> #[trigger] bytes[i] == 0
        }),
        scsi::READ_10 == 0x28,
        scsi::WRITE_10 == 0x2A,
        MAX_TRANSFER == 4096,
{
}

/// How many bytes so many blocks are.
pub proof fn law_bytes_in_blocks(disk: DiskModel, count: u16)
    ensures
        bytes_of(disk, 0) == 0,
        count < 65535 ==> bytes_of(disk, (count + 1) as u16) == bytes_of(disk, count)
            + disk.block_size,
{
    assert((count + 1) * disk.block_size == count * disk.block_size + disk.block_size)
        by (nonlinear_arith);
    assert(0 * disk.block_size == 0) by (nonlinear_arith);
}

/// What opens a disk, command by command: who it is, 36 bytes; whether it is ready;
/// where it is not, why, eighteen bytes, and whether it is then; and how large it is,
/// eight bytes.
pub proof fn law_what_opens_a_disk(i: int)
    ensures
        asked(Opening::Inquiry) == Some(
            CommandModel { block: short_block(0x12, 36), length: 6, data: 36, reading: true },
        ),
        asked(Opening::Ready) == Some(
            CommandModel { block: short_block(0, 0), length: 6, data: 0, reading: false },
        ),
        asked(Opening::ReadyAgain) == asked(Opening::Ready),
        asked(Opening::Sense) == Some(
            CommandModel { block: short_block(0x03, 18), length: 6, data: 18, reading: true },
        ),
        asked(Opening::Capacity) == Some(
            CommandModel { block: short_block(0x25, 0), length: 10, data: 8, reading: true },
        ),
        asked(Opening::Open) is None,
        forall|operation: u8, length: u8|
            (#[trigger] short_block(operation, length)).len() == 16 && short_block(
                operation,
                length,
            )[0] == operation && short_block(operation, length)[4] == length,
        0 < i < 16 && i != 4 ==> forall|operation: u8, length: u8| #[trigger]
            short_block(operation, length)[i] == 0,
{
}

/// What follows each command: a disk that is not ready is asked why and then once
/// more; every other failure ends it.
pub proof fn law_what_follows_each_command(outcome: Result<(), Trouble>)
    ensures
        outcome is Ok ==> {
            &&& opened_after(Opening::Inquiry, outcome) == Ok::<Opening, Trouble>(Opening::Ready)
            &&& opened_after(Opening::Ready, outcome) == Ok::<Opening, Trouble>(Opening::Capacity)
            &&& opened_after(Opening::ReadyAgain, outcome) == Ok::<Opening, Trouble>(
                Opening::Capacity,
            )
            &&& opened_after(Opening::Capacity, outcome) == Ok::<Opening, Trouble>(Opening::Open)
        },
        outcome matches Err(trouble) ==> {
            &&& opened_after(Opening::Inquiry, outcome) == Err::<Opening, Trouble>(trouble)
            &&& opened_after(Opening::Ready, outcome) == Ok::<Opening, Trouble>(Opening::Sense)
            &&& opened_after(Opening::ReadyAgain, outcome) == Err::<Opening, Trouble>(trouble)
            &&& opened_after(Opening::Capacity, outcome) == Err::<Opening, Trouble>(trouble)
        },
        opened_after(Opening::Sense, outcome) == Ok::<Opening, Trouble>(Opening::ReadyAgain),
{
}

/// What is learned of a disk: its vendor and its product from the first answer, and
/// from the last the number of its last block and how large one is, high byte first.
pub proof fn law_what_is_learned(disk: DiskModel, bytes: Seq<u8>)
    ensures
        learned(Opening::Inquiry, disk, bytes) == (DiskModel {
            vendor: bytes.subrange(8, 16),
            product: bytes.subrange(16, 32),
            ..disk
        }),
        learned(Opening::Capacity, disk, bytes) == (DiskModel {
            blocks: (u32_be_at(bytes, 0) + 1) as u64,
            block_size: u32_be_at(bytes, 4),
            ..disk
        }),
        learned(Opening::Ready, disk, bytes) == disk,
        learned(Opening::Sense, disk, bytes) == disk,
        learned(Opening::ReadyAgain, disk, bytes) == disk,
        unopened().blocks == 0 && unopened().block_size == 0 && unopened().tag == 1,
{
}

/// An endpoint's place among the contexts is twice its number, and one more where it
/// goes in.
pub proof fn law_where_an_endpoint_s_context_is(endpoint: u8, left: u8, right: u8)
    requires
        endpoint < 16,
    ensures
        index_of(endpoint, true) == 2 * endpoint + 1,
        index_of(endpoint, false) == 2 * endpoint,
        higher(left, right) >= left && higher(left, right) >= right,
        higher(left, right) == left || higher(left, right) == right,
{
}

/// What describes an endpoint to the controller: its kind, that it is tried three
/// times, how large its packets are, where its ring is, and its average.
pub proof fn law_what_describes_an_endpoint(at: u64, kind: u32, packet: u16, ring: u64)
    requires
        at <= u64::MAX - 4096,
        kind < 8,
    ensures
        endpoint_stores(at, kind, packet, ring).len() == 3,
        endpoint_stores(at, kind, packet, ring)[0] == (Store::Word {
            at: (at + 4) as u64,
            word: (3 * 2 + 8 * kind + 0x1_0000 * packet) as u32,
        }),
        endpoint_stores(at, kind, packet, ring)[1] == (Store::Long {
            at: (at + 8) as u64,
            long: marked(ring),
        }),
        endpoint_stores(at, kind, packet, ring)[2] == (Store::Word {
            at: (at + 16) as u64,
            word: packet as u32,
        }),
{
}

/// What describes a disk's two endpoints: that the slot and both are meant, the slot
/// with the higher of the two as its last, and each at its place, kind six in and kind
/// two out.
pub proof fn law_what_describes_the_pair(
    described: u64,
    port: u64,
    speed: u32,
    context_size: u64,
    pair: Pair,
    in_ring: u64,
    out_ring: u64,
)
    requires
        described <= u64::MAX - 4096,
        port < 256,
        speed < 16,
        context_size <= 64,
        pair.wf(),
    ensures
        ({
            let stores = pair_stores(
                described,
                port,
                speed,
                context_size,
                pair,
                in_ring,
                out_ring,
            );
            let inward = 2 * pair.inward.number + 1;
            let outward = 2 * pair.outward.number;
            &&& stores.len() == 10
            &&& stores[0] == (Store::Zero { at: described })
            &&& stores[1] == (Store::Word {
                at: (described + 4) as u64,
                word: 1u32 | (1u32 << (inward as u8)) | (1u32 << (outward as u8)),
            })
            &&& stores[2] == (Store::Word {
                at: (described + context_size) as u64,
                word: (0x10_0000 * speed + 0x800_0000 * if inward < outward {
                    outward
                } else {
                    inward
                }) as u32,
            })
            &&& stores[3] == (Store::Word {
                at: (described + context_size + 4) as u64,
                word: (0x1_0000 * port) as u32,
            })
            &&& stores.subrange(4, 7) == endpoint_stores(
                (described + context_size * (1 + inward)) as u64,
                6,
                pair.inward.packet,
                in_ring,
            )
            &&& stores.subrange(7, 10) == endpoint_stores(
                (described + context_size * (1 + outward)) as u64,
                2,
                pair.outward.packet,
                out_ring,
            )
        }),
{
    let stores = pair_stores(described, port, speed, context_size, pair, in_ring, out_ring);
    let inward = 2 * pair.inward.number + 1;
    let outward = 2 * pair.outward.number;
    assert(index_of(pair.inward.number, true) == inward as u8);
    assert(index_of(pair.outward.number, false) == outward as u8);
    assert(stores.subrange(4, 7) =~= endpoint_stores(
        (described + context_size * (1 + inward)) as u64,
        6,
        pair.inward.packet,
        in_ring,
    ));
    assert(stores.subrange(7, 10) =~= endpoint_stores(
        (described + context_size * (1 + outward)) as u64,
        2,
        pair.outward.packet,
        out_ring,
    ));
}

/// What is stored to configure a disk: the two rings, in and then out, each cleared
/// and linked to its own start, and then what describes the pair.
pub proof fn law_what_configures_a_disk(
    described: u64,
    port: u64,
    speed: u32,
    context_size: u64,
    pair: Pair,
    in_page: u64,
    out_page: u64,
)
    ensures
        configuring(described, port, speed, context_size, pair, in_page, out_page) == seq![
            Store::Zero { at: in_page },
        ] + entry_stores((in_page + 4080) as u64, link(in_page, true)) + seq![
            Store::Zero { at: out_page },
        ] + entry_stores((out_page + 4080) as u64, link(out_page, true)) + pair_stores(
            described,
            port,
            speed,
            context_size,
            pair,
            in_page,
            out_page,
        ),
{
    assert(configuring(described, port, speed, context_size, pair, in_page, out_page) =~= seq![
        Store::Zero { at: in_page },
    ] + entry_stores((in_page + 4080) as u64, link(in_page, true)) + seq![
        Store::Zero { at: out_page },
    ] + entry_stores((out_page + 4080) as u64, link(out_page, true)) + pair_stores(
        described,
        port,
        speed,
        context_size,
        pair,
        in_page,
        out_page,
    ));
}

/// What preparing a disk asks for, and what it makes of each answer: the
/// configuration is chosen, a page for each ring is found, the first one for what comes
/// in, and the speed of the device's port is looked at.
pub proof fn law_what_preparing_asks(before: Preparation, device: Device, page: u64, value: u32)
    requires
        device.port > 0,
    ensures
        before.stage is Choosing ==> before.wants(device) == Wanted::Control(
            choosing(device.configuration),
        ),
        before.stage is InPage || before.stage is OutPage ==> before.wants(device) == Wanted::Page,
        before.stage is Port ==> before.wants(device) == Wanted::Port((device.port - 1) as u64),
        before.stage is Endpoints ==> before.wants(device) == Wanted::Configure,
        before.stage is Over ==> before.wants(device) == Wanted::Over,
        before.stage is InPage ==> before.after(Told::Page(Some(page))) == (Preparation {
            stage: Stage::OutPage,
            in_page: page,
            ..before
        }),
        before.stage is OutPage ==> before.after(Told::Page(Some(page))) == (Preparation {
            stage: Stage::Port,
            out_page: page,
            ..before
        }),
        before.stage is Port ==> before.after(Told::Port(value)) == (Preparation {
            stage: Stage::Endpoints,
            ..before
        }),
        before.stage is Choosing ==> before.after(Told::Done(true)) == (Preparation {
            stage: Stage::InPage,
            ..before
        }),
        !before.goes_on(Told::Done(false)) && !before.goes_on(Told::Page(None)),
        before.goes_on(Told::Done(true)) && before.goes_on(Told::Page(Some(page)))
            && before.goes_on(Told::Port(value)),
{
}

/// Which stores preparing a disk makes: those that configure it, with the speed its
/// port has, once that is known; none before.
pub proof fn law_what_preparing_stores(before: Preparation, attached: Attached, value: u32)
    ensures
        before.stage is Port ==> before.stores(attached, Told::Port(value)) == configuring(
            attached.described,
            attached.device.port,
            (value / 1024) % 16,
            before.context_size,
            before.pair,
            before.in_page,
            before.out_page,
        ),
        forall|told: Told| !(before.stage is Port) ==> (#[trigger] before.stores(attached, told)).len()
            == 0,
{
}

/// A transfer goes over the endpoint and the ring of its own direction, is told of
/// when it is done, and also when it is short.
pub proof fn law_a_transfer_has_its_own_ring(attached: Attached)
    ensures
        bulk_control() == 1 * 1024 + 32 + 4,
        bulk_of(attached, true) matches Some((endpoint, ring)) ==> Some(endpoint)
            == attached.device.interfaces.bulk_in && Some(ring) == attached.in_ring,
        bulk_of(attached, false) matches Some((endpoint, ring)) ==> Some(endpoint)
            == attached.device.interfaces.bulk_out && Some(ring) == attached.out_ring,
        bulk_of(attached, true) is Some <==> attached.device.interfaces.bulk_in is Some
            && attached.in_ring is Some,
        bulk_of(attached, false) is Some <==> attached.device.interfaces.bulk_out is Some
            && attached.out_ring is Some,
{
}

/// A name that is no text is shown as question marks, one for each of its bytes.
pub proof fn law_a_name_that_is_no_text(name: Seq<u8>, many: nat, i: int)
    requires
        !vstd::utf8::valid_utf8(name),
        0 <= i < many,
    ensures
        name_shown(name, many).len() == many,
        name_shown(name, many)[i] == 0x3F,
{
}

} // verus!
