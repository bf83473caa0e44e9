//! What the network card is told, in the device's own numbers: queue 0 receives
//! and queue 1 transmits, a buffer is 2048 bytes, and a frame of up to 1514 stands in
//! it behind a header of ten.
use vstd::prelude::*;

#[allow(unused_imports)]
use super::{
    agreed_to, agreeing, buffer_flags, buffer_order, buffer_steps, buffers_of, frame_length, lesser,
    queue_order, selecting, send_refused, send_steps, setting_up, starting, waiting, Card, Model,
    NetError, Progress, Queue, Sending, Stage, Turn, NUMBER, SUBSYSTEM,
};
#[allow(unused_imports)]
use crate::drivers::port::{Heard, PortWrite, Want};
#[allow(unused_imports)]
use crate::drivers::virtio::{layout_of, Look, Step};

verus! {

/// A frame that is sent, step by step: ten bytes of zeros, the frame behind them,
/// one descriptor for both that the device only reads, and the card is told that the
/// second queue has it.
pub proof fn law_a_frame_that_is_sent(card: Card, length: usize, at: u16)
    requires
        card.wf(),
        length <= 1514,
    ensures
        ({
            let steps = send_steps(card, length, at);
            let queue = card.transmit;
            let table = queue.physical as int;
            let ring = table + 16 * queue.size;
            &&& steps.len() == 12
            &&& steps[0] == (Step::Zeros { at: queue.buffers, many: 10 })
            &&& steps[1] == (Step::Data {
                at: (queue.buffers + 10) as u64,
                length: length as u64,
            })
            &&& steps[2] == (Step::Long { at: table as u64, long: queue.buffers })
            &&& steps[3] == (Step::Word { at: (table + 8) as u64, word: (10 + length) as u32 })
            &&& steps[4] == (Step::Half { at: (table + 12) as u64, half: 0 })
            &&& steps[5] == (Step::Half { at: (table + 14) as u64, half: 0 })
            &&& steps[6] == Step::Sample
            &&& steps[7] == (Step::Half {
                at: (ring + 4 + 2 * (at % queue.size)) as u64,
                half: 0,
            })
            &&& steps[8] == Step::Fence
            &&& steps[9] == (Step::Half {
                at: (ring + 2) as u64,
                half: if at == 65535 {
                    0
                } else {
                    (at + 1) as u16
                },
            })
            &&& steps[10] == Step::Fence
            &&& steps[11] == Step::Port(
                PortWrite::Word { port: (card.port + 16) as u16, word: 1 },
            )
        }),
{
}

/// What cannot be sent: a frame of more than 1514 bytes, and anything without a
/// card.
pub proof fn law_what_cannot_be_sent(state: Model, length: usize)
    ensures
        length > 1514 ==> send_refused(state, length) == Some(NetError::TooLong(length)),
        length <= 1514 && state.card is None ==> send_refused(state, length) == Some(
            NetError::NoDevice,
        ),
        length <= 1514 && state.card is Some ==> send_refused(state, length) is None,
{
}

/// How long a frame is that the card wrote: what stands behind the ten bytes of its
/// header, up to 1514.
pub proof fn law_how_long_a_frame_is(written: u32)
    ensures
        written <= 10 ==> frame_length(written) == 0,
        10 < written <= 1524 ==> frame_length(written) == written - 10,
        written > 1524 ==> frame_length(written) == 1514,
        forall|left: int, right: int| #[trigger]
            lesser(left, right) == if left <= right {
                left
            } else {
                right
            },
{
}

/// Where the parts of a queue of the card are: the ring of what is available behind
/// the descriptors, and the buffers 2048 bytes apart.
pub proof fn law_where_the_buffers_are(queue: Queue, index: u16)
    requires
        queue.wf(),
    ensures
        queue.ring() == queue.physical + 16 * queue.size,
        queue.spec_buffer(index) == queue.buffers + 2048 * index,
{
}

/// How a queue is set up: it is placed, and each of its descriptors has one buffer
/// for good, which the card writes on the receiving queue and only reads on the
/// other.
pub proof fn law_how_a_queue_is_set_up(
    port: u16,
    which: u16,
    buffers: u16,
    queue: Queue,
    index: u16,
)
    requires
        port <= 0xFFE0,
        queue.wf(),
        queue.physical % 4096 == 0,
        queue.physical < 0x1000_0000_0000,
        index < buffers,
    ensures
        ({
            let steps = setting_up(port, which, buffers, queue);
            let at = queue.physical + 16 * index;
            &&& steps.len() == 1 + 4 * buffers
            &&& steps[0] matches Step::Port(PortWrite::Long { port: register, long }) && register
                == port + 8 && long * 4096 == queue.physical
            &&& steps[1 + 4 * index] == (Step::Long {
                at: at as u64,
                long: (queue.buffers + 2048 * index) as u64,
            })
            &&& steps[2 + 4 * index] == (Step::Word { at: (at + 8) as u64, word: 2048 })
            &&& steps[3 + 4 * index] == (Step::Half {
                at: (at + 12) as u64,
                half: if which == 0 {
                    2
                } else {
                    0
                },
            })
            &&& steps[4 + 4 * index] == (Step::Half { at: (at + 14) as u64, half: 0 })
        }),
{
    lemma_buffers(queue, buffer_flags(which), buffers as nat, index);
}

proof fn lemma_buffers(queue: Queue, flags: u16, many: nat, index: u16)
    requires
        queue.wf(),
        index < many <= 65535,
    ensures
        ({
            let steps = buffer_steps(queue, flags, many);
            let at = queue.physical + 16 * index;
            &&& steps.len() == 4 * many
            &&& steps[4 * index] == (Step::Long {
                at: at as u64,
                long: (queue.buffers + 2048 * index) as u64,
            })
            &&& steps[4 * index + 1] == (Step::Word { at: (at + 8) as u64, word: 2048 })
            &&& steps[4 * index + 2] == (Step::Half { at: (at + 12) as u64, half: flags })
            &&& steps[4 * index + 3] == (Step::Half { at: (at + 14) as u64, half: 0 })
        }),
    decreases many,
{
    lemma_buffers_len(queue, flags, (many - 1) as nat);
    if index < many - 1 {
        lemma_buffers(queue, flags, (many - 1) as nat, index);
    }
}

proof fn lemma_buffers_len(queue: Queue, flags: u16, many: nat)
    ensures
        buffer_steps(queue, flags, many).len() == 4 * many,
    decreases many,
{
    if many > 0 {
        lemma_buffers_len(queue, flags, (many - 1) as nat);
    }
}

/// The card is started by saying that the driver is ready; then its 32 receiving
/// buffers are offered, and it is told that the first queue has them.
pub proof fn law_how_a_card_is_started(port: u16, receive: Queue)
    requires
        port <= 0xFFE0,
        receive.wf(),
    ensures
        starting(port, receive).len() == 2 + 4 * 32,
        starting(port, receive)[0] == Step::Port(
            PortWrite::Byte { port: (port + 18) as u16, byte: 7 },
        ),
        starting(port, receive).last() == Step::Port(
            PortWrite::Word { port: (port + 16) as u16, word: 0 },
        ),
{
    super::lemma_offers_len(receive, 32);
}

/// A card's own address is bit five of what it offers; it is agreed to exactly where
/// it is offered, and nothing else is.
pub proof fn law_what_is_agreed_to(port: u16, offered: u32, which: u16)
    requires
        port <= 0xFFE0,
    ensures
        agreed_to(offered) == offered & 0x20,
        agreeing(port, agreed_to(offered)) == (PortWrite::Long {
            port: (port + 4) as u16,
            long: offered & 0x20,
        }),
        selecting(port, which) == (PortWrite::Word { port: (port + 14) as u16, word: which }),
{
    assert(((offered / 32) % 2 == 1 ==> offered & 0x20 == 0x20) && ((offered / 32) % 2 != 1
        ==> offered & 0x20 == 0)) by (bit_vector);
}

/// How many buffers each queue has.
pub proof fn law_how_many_buffers(which: u16)
    ensures
        buffers_of(0) == 32,
        which != 0 ==> buffers_of(which) == 8,
        buffer_flags(0) == 2,
        which != 0 ==> buffer_flags(which) == 0,
        SUBSYSTEM == 1,
        NUMBER == 0x1000,
{
}

/// What bringing a card up reads and asks for: what it offers; for each queue its
/// size, memory for it and memory for its buffers; and then the bytes of its address
/// one by one.
pub proof fn law_what_bringing_up_asks(card: Progress)
    requires
        card.sound(),
    ensures
        card.stage is Offer ==> card.turn() == Turn::Want(Want::Read32(card.port)),
        card.stage is Size ==> card.turn() == Turn::Want(Want::Read16((card.port + 12) as u16)),
        card.stage is Queue ==> card.turn() == Turn::Want(Want::Block(card.order)),
        card.stage is Buffers ==> card.turn() == Turn::Want(Want::Block(buffer_order(card.which))),
        card.stage is Address ==> card.turn() == Turn::Want(
            Want::Read8((card.port + 20 + card.said.len()) as u16),
        ),
        card.stage is Up ==> card.turn() == Turn::Up,
        card.stage matches Stage::Down(error, _) ==> card.turn() == Turn::Down(error),
{
}

/// What is made of each answer: it is kept where it belongs and nothing else
/// changes. A queue with fewer entries than it has buffers cannot be used; the second
/// queue comes after the first.
pub proof fn law_what_is_made_of_an_answer(card: Progress, value: u32, block: u64)
    requires
        card.sound(),
        value <= 0xFFFF,
    ensures
        ({
            let read = card.told(Heard::Read(value));
            &&& card.stage is Offer ==> read == (Progress {
                stage: Stage::Size,
                agreed: value & 0x20,
                ..card
            })
            &&& card.stage is Size && value >= buffers_of(card.which) ==> read == (Progress {
                stage: Stage::Queue,
                size: value as u16,
                order: queue_order(value as u16),
                ..card
            })
            &&& card.stage is Size && value < buffers_of(card.which) ==> read == (Progress {
                stage: Stage::Down(NetError::QueueSize(value as u16), false),
                ..card
            })
            &&& card.stage is Address ==> read == (Progress {
                stage: if card.said.len() == 5 {
                    Stage::Up
                } else {
                    Stage::Address
                },
                said: card.said.push(value as u8),
                ..card
            })
        }),
        ({
            let given = card.told(Heard::Block(Some(block)));
            let none = card.told(Heard::Block(None));
            let queue = Queue {
                physical: card.physical,
                size: card.size,
                layout: layout_of(card.size),
                buffers: block,
                seen: 0,
            };
            &&& card.stage is Queue ==> given == (Progress {
                stage: Stage::Buffers,
                physical: block,
                ..card
            }) && none.stage == Stage::Down(NetError::OutOfMemory, false)
            &&& card.stage is Buffers ==> none.stage == Stage::Down(NetError::OutOfMemory, true)
            &&& card.stage is Buffers && card.which == 0 ==> given == (Progress {
                stage: Stage::Size,
                which: 1,
                receive: queue,
                ..card
            })
            &&& card.stage is Buffers && card.which != 0 ==> given == (Progress {
                stage: if card.agreed != 0 {
                    Stage::Address
                } else {
                    Stage::Up
                },
                transmit: queue,
                ..card
            })
        }),
{
    law_what_is_agreed_to(0, value, 0);
}

/// A card's address is what it said, in that order, where it was asked; otherwise it
/// is all zeros.
pub proof fn law_a_card_s_address(card: Progress, i: int)
    requires
        0 <= i < 6,
    ensures
        card.agreed != 0 ==> card.address() == card.said,
        card.agreed == 0 ==> card.address().len() == 6 && card.address()[i] == 0,
{
}

/// A frame is waiting where the card has used an entry that was not looked at.
pub proof fn law_when_a_frame_is_waiting(state: Model, used: u16)
    ensures
        state.card is None ==> !waiting(state, used),
        state.card matches Some(card) ==> (waiting(state, used) <==> used != card.receive.seen),
{
}

/// How a frame that is not taken is waited for: slept on where a thread can sleep,
/// and otherwise looked at 50000000 times before it is given up.
pub proof fn law_how_a_frame_is_waited_for(sending: Sending, used: u16)
    requires
        sending.wf(),
    ensures
        ({
            let (next, look) = sending.looked(used);
            &&& used != sending.before ==> look == Look::Done && next == sending
            &&& used == sending.before && sending.spins is None ==> look == Look::Sleep(
                sending.generation,
            ) && next == sending
            &&& used == sending.before ==> (sending.spins matches Some(spins) ==> {
                &&& spins < 49_999_999 ==> look == Look::Again && next.spins == Some(
                    (spins + 1) as u32,
                )
                &&& spins == 49_999_999 ==> look == Look::TimedOut
            })
            &&& next.before == sending.before && next.generation == sending.generation
        }),
{
}

} // verus!
