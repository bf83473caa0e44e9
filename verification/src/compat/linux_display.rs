//! A window, for a program built for Linux.
//!
//! A program gets a buffer it can write and a way to say which part of it
//! changed. The buffer is the compositor's surface, the descriptor is the
//! channel to the compositor, and what the compositor says while a frame is in
//! flight is kept for the program to ask about.
use vstd::prelude::*;

use crate::bytes::{get_u32, le32, put_bytes, put_u32, same_bytes, u32_at};
use crate::compat::error::{
    EBADF, EFAULT, EINVAL, ENODEV, ENOMEM, ENOSYS, ENOTTY, ENXIO, ETIMEDOUT,
};
use crate::compat::reply::Reply;
use crate::count::{count, counted};
use crate::table::Table;

pub mod event;
pub mod law;
pub mod request;
pub mod wire;

verus! {

/// Where the window is among the devices: `/dev/nexus/display`.
pub const PATH: [u8; 18] = [
    0x2F, 0x64, 0x65, 0x76, 0x2F, 0x6E, 0x65, 0x78, 0x75, 0x73, 0x2F, 0x64, 0x69, 0x73, 0x70, 0x6C,
    0x61, 0x79,
];

/// How long a frame may go unacknowledged.
pub const ACKNOWLEDGE_MS: u64 = 10_000;

/// How long to wait for the compositor's opening message.
pub const OFFER_MS: u64 = 2000;

/// The most events held before the oldest is dropped.
pub const MAX_PENDING: usize = 64;

/// Something that happened to a window.
#[derive(Clone, Copy, PartialEq, Eq, Structural, Debug)]
pub struct Event {
    pub kind: u32,
    pub value: u32,
}

/// A buffer shared with the compositor.
#[derive(Clone, Copy, PartialEq, Eq, Structural, Debug)]
pub struct Surface {
    /// Which memory object it is.
    pub object: u64,
    /// Its bytes.
    pub size: u64,
}

/// A message from the compositor.
#[derive(Debug)]
pub struct Message {
    pub bytes: Vec<u8>,
    /// How many handles came with it.
    pub handles: usize,
    /// The first of them, where it is memory.
    pub memory: Option<Surface>,
}

/// What one process's window is.
struct Window {
    surface: Surface,
    width: u32,
    height: u32,
    pending: Vec<Event>,
    closed: bool,
}

/// A window, as a value.
#[verifier::ext_equal]
pub struct WindowModel {
    /// The buffer the program draws into.
    pub surface: Surface,
    pub width: u32,
    pub height: u32,
    /// What happened that has not been asked about, oldest first.
    pub pending: Seq<Event>,
    /// Whether the compositor has gone.
    pub closed: bool,
}

impl WindowModel {
    /// The surface holds every pixel, and the queue is bounded.
    pub open spec fn sound(self) -> bool {
        large_enough(self.width, self.height, self.surface.size) && self.pending.len()
            <= MAX_PENDING
    }
}

impl View for Window {
    type V = WindowModel;

    closed spec fn view(&self) -> WindowModel {
        WindowModel {
            surface: self.surface,
            width: self.width,
            height: self.height,
            pending: self.pending@,
            closed: self.closed,
        }
    }
}

/// Every open window, and the counts.
pub struct State {
    processes: Table<Table<Window>>,
    presented: u64,
    delivered: u64,
}

/// The same, as a value.
#[verifier::ext_equal]
pub struct Model {
    /// By process and descriptor.
    pub windows: Map<(u64, u32), WindowModel>,
    /// Frames presented.
    pub presented: u64,
    /// Events delivered.
    pub delivered: u64,
}

impl Model {
    /// Every window is sound.
    pub open spec fn sound(self) -> bool {
        forall|key: (u64, u32)| #[trigger]
            self.windows.dom().contains(key) ==> self.windows[key].sound()
    }
}

spec fn has(processes: Map<u64, Table<Window>>, key: (u64, u32)) -> bool {
    processes.dom().contains(key.0) && processes[key.0]@.dom().contains(key.1 as u64)
}

impl View for State {
    type V = Model;

    closed spec fn view(&self) -> Model {
        Model {
            windows: Map::new(
                |key: (u64, u32)| has(self.processes@, key),
                |key: (u64, u32)| self.processes@[key.0]@[key.1 as u64]@,
            ),
            presented: self.presented,
            delivered: self.delivered,
        }
    }
}

impl State {
    /// The tables are in order and every window is sound.
    pub closed spec fn wf(&self) -> bool {
        &&& self.processes.wf()
        &&& forall|process: u64| #[trigger]
            self.processes@.dom().contains(process) ==> self.processes@[process].wf()
        &&& self@.sound()
    }

    /// No windows.
    pub fn new() -> (state: Self)
        ensures
            state.wf(),
            state@ == (Model { windows: Map::empty(), presented: 0, delivered: 0 }),
    {
        let state = State { processes: Table::new(), presented: 0, delivered: 0 };
        assert(state@.windows =~= Map::empty());
        state
    }

    fn find(&self, process: u64, descriptor: u32) -> (found: Option<&Window>)
        requires
            self.wf(),
        ensures
            match found {
                Some(window) => self@.windows.dom().contains((process, descriptor))
                    && self@.windows[(process, descriptor)] == window@,
                None => !self@.windows.dom().contains((process, descriptor)),
            },
    {
        match self.processes.get(process) {
            Some(owned) => owned.get(descriptor as u64),
            None => None,
        }
    }

    fn take(&mut self, process: u64, descriptor: u32) -> (taken: Option<Window>)
        requires
            old(self).wf(),
        ensures
            final(self).wf(),
            match taken {
                Some(window) => old(self)@.windows.dom().contains((process, descriptor))
                    && old(self)@.windows[(process, descriptor)] == window@,
                None => !old(self)@.windows.dom().contains((process, descriptor)),
            },
            final(self)@ == (Model {
                windows: old(self)@.windows.remove((process, descriptor)),
                ..old(self)@
            }),
    {
        match self.processes.remove(process) {
            Some(mut owned) => {
                let taken = owned.remove(descriptor as u64);
                self.processes.insert(process, owned);
                assert(self@.windows =~= old(self)@.windows.remove((process, descriptor)));
                taken
            },
            None => {
                assert(self@.windows =~= old(self)@.windows.remove((process, descriptor)));
                None
            },
        }
    }

    fn put(&mut self, process: u64, descriptor: u32, window: Window)
        requires
            old(self).wf(),
            window@.sound(),
        ensures
            final(self).wf(),
            final(self)@ == (Model {
                windows: old(self)@.windows.insert((process, descriptor), window@),
                ..old(self)@
            }),
    {
        let mut owned: Table<Window> = match self.processes.remove(process) {
            Some(owned) => owned,
            None => Table::new(),
        };
        owned.insert(descriptor as u64, window);
        self.processes.insert(process, owned);
        assert(self@.windows =~= old(self)@.windows.insert((process, descriptor), window@));
        assert forall|key: (u64, u32)| #[trigger] self@.windows.dom().contains(key) implies
            self@.windows[key].sound() by {
            if key != (process, descriptor) {
                assert(old(self)@.windows.dom().contains(key));
            }
        }
    }
}

/// Frames presented and events delivered.
pub fn statistics(state: &State) -> (counts: (u64, u64))
    ensures
        counts == (state@.presented, state@.delivered),
{
    (state.presented, state.delivered)
}

/// Forget a process's windows. Called when it ends.
pub fn forget(state: &mut State, process: u64)
    requires
        old(state).wf(),
    ensures
        final(state).wf(),
        final(state)@ == (Model {
            windows: old(state)@.windows.remove_keys(
                Set::new(|key: (u64, u32)| key.0 == process),
            ),
            ..old(state)@
        }),
{
    state.processes.remove(process);
    assert(state@.windows =~= old(state)@.windows.remove_keys(
        Set::new(|key: (u64, u32)| key.0 == process),
    ));
}

/// Whether a path is the window's.
pub open spec fn names_device(path: Seq<u8>) -> bool {
    path == PATH@
}

/// Whether a path is the window's.
pub fn is_device(path: &[u8]) -> (device: bool)
    ensures
        device == names_device(path@),
{
    same_bytes(path, &PATH)
}

/// Whether `size` bytes hold a surface of these dimensions.
pub open spec fn large_enough(width: u32, height: u32, size: u64) -> bool {
    width > 0 && height > 0 && width * height * 4 <= size
}

/// Whether `size` bytes hold a surface of these dimensions: however large the
/// dimensions, the product is the real one.
pub fn fits(width: u32, height: u32, size: u64) -> (enough: bool)
    ensures
        enough == large_enough(width, height, size),
{
    if width == 0 || height == 0 {
        return false;
    }
    assert(0 <= width * height <= 0xFFFF_FFFF * 0xFFFF_FFFF) by (nonlinear_arith)
        requires
            0 <= width <= 0xFFFF_FFFF,
            0 <= height <= 0xFFFF_FFFF,
    ;
    let pixels: u128 = width as u128 * height as u128;
    pixels * 4u128 <= size as u128
}

/// A number in a message, or zero where the message ends before it.
pub fn read_u32(bytes: &[u8], at: usize) -> (value: u32)
    ensures
        value == if at + 4 <= bytes@.len() {
            u32_at(bytes@, at as int)
        } else {
            0
        },
{
    if bytes.len() >= 4 && at <= bytes.len() - 4 {
        get_u32(bytes, at)
    } else {
        0
    }
}

/// What an attempt to open the device comes to next.
#[derive(Clone, Copy, PartialEq, Eq, Structural, Debug)]
pub enum Opening {
    Answer(u64),
    /// Wait to be offered a surface: rounds of [`offered`].
    Wait,
}

/// `openat` of the device: whether the process has the channel a window program
/// is started with.
pub fn open(has_process: bool, has_channel: bool) -> (next: Opening)
    ensures
        next == if !has_process {
            Opening::Answer(ENOSYS)
        } else if !has_channel {
            Opening::Answer(ENXIO)
        } else {
            Opening::Wait
        },
{
    if !has_process {
        return Opening::Answer(ENOSYS);
    }
    if !has_channel {
        return Opening::Answer(ENXIO);
    }
    Opening::Wait
}

/// What to do after a look at the channel.
#[derive(Clone, Copy, PartialEq, Eq, Structural, Debug)]
pub enum Offer {
    /// There is a message: [`surface_in`].
    Take,
    /// There will be none: [`not_offered`].
    GiveUp,
    /// Sleep a little, and look again.
    Again,
}

/// When to stop waiting to be offered a surface.
pub fn offer_deadline(now: u64) -> (deadline: u64)
    ensures
        deadline == if now + OFFER_MS <= u64::MAX {
            (now + OFFER_MS) as u64
        } else {
            u64::MAX
        },
{
    now.saturating_add(OFFER_MS)
}

/// One look at the channel.
///
/// The channel is to whoever started the program, which need not be a
/// compositor, so the wait has an end.
pub fn offered(message: bool, peer_open: bool, cancelled: bool, now: u64, deadline: u64) -> (next:
    Offer)
    ensures
        next == if message {
            Offer::Take
        } else if !peer_open || cancelled || now >= deadline {
            Offer::GiveUp
        } else {
            Offer::Again
        },
{
    if message {
        return Offer::Take;
    }
    if !peer_open || cancelled {
        return Offer::GiveUp;
    }
    if now >= deadline {
        return Offer::GiveUp;
    }
    Offer::Again
}

/// What `openat` answers a program that was offered no surface: it has no
/// window.
pub fn not_offered() -> (answer: u64)
    ensures
        answer == ENXIO,
{
    ENXIO
}

/// What the opening message gives.
#[derive(Clone, Copy, PartialEq, Eq, Structural, Debug)]
pub struct Given {
    pub surface: Surface,
    pub width: u32,
    pub height: u32,
}

/// Read the opening message: the size of the surface, and the surface.
pub fn surface_in(message: &Message) -> (given: Result<Given, u64>)
    ensures
        given == if message.bytes@.len() < 16 || message.handles == 0 || message.memory is None {
            Err::<Given, u64>(ENODEV)
        } else {
            let width = u32_at(message.bytes@, 0);
            let height = u32_at(message.bytes@, 4);
            let surface = message.memory.unwrap();
            if large_enough(width, height, surface.size) {
                Ok(Given { surface, width, height })
            } else {
                Err(ENODEV)
            }
        },
{
    if message.bytes.len() < 16 || message.handles == 0 {
        return Err(ENODEV);
    }
    let width: u32 = read_u32(message.bytes.as_slice(), 0);
    let height: u32 = read_u32(message.bytes.as_slice(), 4);
    match message.memory {
        None => Err(ENODEV),
        Some(surface) => {
            if !fits(width, height, surface.size) {
                return Err(ENODEV);
            }
            Ok(Given { surface, width, height })
        },
    }
}

/// Finish opening: the descriptor, a second handle on the channel, or that there
/// was no room for one.
pub fn opened(state: &mut State, process: u64, given: Given, descriptor: Option<u32>) -> (answer:
    u64)
    requires
        old(state).wf(),
        large_enough(given.width, given.height, given.surface.size),
    ensures
        final(state).wf(),
        match descriptor {
            None => answer == ENOMEM && final(state)@ == old(state)@,
            Some(descriptor) => {
                &&& answer == descriptor
                &&& final(state)@ == Model {
                    windows: old(state)@.windows.insert(
                        (process, descriptor),
                        WindowModel {
                            surface: given.surface,
                            width: given.width,
                            height: given.height,
                            pending: Seq::empty(),
                            closed: false,
                        },
                    ),
                    ..old(state)@
                }
            },
        },
{
    match descriptor {
        None => ENOMEM,
        Some(descriptor) => {
            let window = Window {
                surface: given.surface,
                width: given.width,
                height: given.height,
                pending: Vec::new(),
                closed: false,
            };
            assert(window@.pending =~= Seq::empty());
            state.put(process, descriptor, window);
            descriptor as u64
        },
    }
}

/// Whether a descriptor is one of these.
pub fn is_window(state: &State, process: u64, descriptor: u64) -> (window: bool)
    requires
        state.wf(),
    ensures
        window == (descriptor <= u32::MAX && state@.windows.dom().contains(
            (process, descriptor as u32),
        )),
{
    if descriptor > u32::MAX as u64 {
        return false;
    }
    state.find(process, descriptor as u32).is_some()
}

/// The surface behind a descriptor, for `mmap`: the one the window has now.
pub fn surface_of(state: &State, process: u64, descriptor: u64) -> (surface: Option<Surface>)
    requires
        state.wf(),
    ensures
        surface == if descriptor <= u32::MAX && state@.windows.dom().contains(
            (process, descriptor as u32),
        ) {
            Some(state@.windows[(process, descriptor as u32)].surface)
        } else {
            None
        },
{
    if descriptor > u32::MAX as u64 {
        return None;
    }
    match state.find(process, descriptor as u32) {
        Some(window) => Some(window.surface),
        None => None,
    }
}

/// `close` of the descriptor: the program has given the window back.
pub fn close(state: &mut State, process: u64, descriptor: u32)
    requires
        old(state).wf(),
    ensures
        final(state).wf(),
        final(state)@ == (Model {
            windows: old(state)@.windows.remove((process, descriptor)),
            ..old(state)@
        }),
{
    let _ = state.take(process, descriptor);
}

/// What a request asks for.
#[derive(Clone, Copy, PartialEq, Eq, Structural, Debug)]
pub enum Request {
    Answer(u64),
    /// [`info`] of this descriptor.
    Info(u32),
    /// [`present`] on this descriptor.
    Present(u32),
    /// [`next_event`] of this descriptor.
    Event(u32),
}

/// `ioctl(fd, request, argument)` on this device.
///
/// A request it does not implement is refused, so that no program believes it
/// has configured something.
pub fn ioctl(has_process: bool, descriptor: u64, wanted: u64) -> (next: Request)
    ensures
        next == if !has_process {
            Request::Answer(ENOSYS)
        } else if descriptor > u32::MAX {
            Request::Answer(EBADF)
        } else if wanted == request::INFO {
            Request::Info(descriptor as u32)
        } else if wanted == request::PRESENT {
            Request::Present(descriptor as u32)
        } else if wanted == request::EVENT {
            Request::Event(descriptor as u32)
        } else {
            Request::Answer(ENOTTY)
        },
{
    if !has_process {
        return Request::Answer(ENOSYS);
    }
    if descriptor > u32::MAX as u64 {
        return Request::Answer(EBADF);
    }
    let id: u32 = descriptor as u32;
    if wanted == request::INFO {
        Request::Info(id)
    } else if wanted == request::PRESENT {
        Request::Present(id)
    } else if wanted == request::EVENT {
        Request::Event(id)
    } else {
        Request::Answer(ENOTTY)
    }
}

/// Four numbers, as a program finds them in memory.
pub open spec fn four(a: u32, b: u32, c: u32, d: u32) -> Seq<u8> {
    le32(a) + le32(b) + le32(c) + le32(d)
}

fn put_four(a: u32, b: u32, c: u32, d: u32) -> (out: Vec<u8>)
    ensures
        out@ == four(a, b, c, d),
{
    let mut out: Vec<u8> = Vec::new();
    put_u32(&mut out, a);
    put_u32(&mut out, b);
    put_u32(&mut out, c);
    put_u32(&mut out, d);
    assert(out@ =~= four(a, b, c, d));
    out
}

/// The bytes in a row of a surface.
pub open spec fn stride(width: u32) -> u32 {
    if width * 4 <= u32::MAX {
        (width * 4) as u32
    } else {
        u32::MAX
    }
}

/// How large the surface is, and how it is laid out: width, height, bytes in a
/// row, and zero for thirty-two bits a pixel.
pub fn info(state: &State, process: u64, descriptor: u32, out: u64, in_range: bool) -> (reply:
    Reply)
    requires
        state.wf(),
    ensures
        if !state@.windows.dom().contains((process, descriptor)) {
            reply.is_plain(EBADF)
        } else if !in_range {
            reply.is_plain(EFAULT)
        } else {
            let window = state@.windows[(process, descriptor)];
            reply.is_writing(0, out, four(window.width, window.height, stride(window.width), 0))
        },
{
    match state.find(process, descriptor) {
        None => Reply::plain(EBADF),
        Some(window) => {
            if !in_range {
                return Reply::plain(EFAULT);
            }
            let row: u32 = if window.width <= u32::MAX / 4 {
                window.width * 4
            } else {
                u32::MAX
            };
            Reply::writing(0, out, put_four(window.width, window.height, row, 0))
        },
    }
}

/// What presenting a frame comes to next.
#[derive(Debug)]
pub enum Presenting {
    Answer(u64),
    /// Send this to the compositor: [`sent`].
    Send(Vec<u8>),
}

/// Whether a rectangle goes past the window's edges.
pub open spec fn outside(rectangle: Seq<u8>, window: WindowModel) -> bool {
    u32_at(rectangle, 0) + u32_at(rectangle, 8) > window.width || u32_at(rectangle, 4) + u32_at(
        rectangle,
        12,
    ) > window.height
}

/// What the compositor is told of a frame.
pub open spec fn damage(rectangle: Seq<u8>) -> Seq<u8> {
    wire::DAMAGED@ + four(
        u32_at(rectangle, 0),
        u32_at(rectangle, 4),
        u32_at(rectangle, 8),
        u32_at(rectangle, 12),
    )
}

/// Put a rectangle on screen: a refusal, or what to tell the compositor.
///
/// `rectangle` is the sixteen bytes the program gave, where it has them: x, y,
/// width and height.
pub fn present(state: &State, process: u64, descriptor: u32, rectangle: Option<&[u8]>) -> (next:
    Presenting)
    requires
        state.wf(),
        rectangle matches Some(bytes) ==> bytes@.len() == 16,
    ensures
        match rectangle {
            None => next == Presenting::Answer(EFAULT),
            Some(bytes) => if !state@.windows.dom().contains((process, descriptor)) {
                next == Presenting::Answer(EBADF)
            } else {
                let window = state@.windows[(process, descriptor)];
                if window.closed {
                    next == Presenting::Answer(ENXIO)
                } else if outside(bytes@, window) {
                    next == Presenting::Answer(EINVAL)
                } else {
                    next matches Presenting::Send(message) && message@ == damage(bytes@)
                }
            },
        },
{
    let bytes: &[u8] = match rectangle {
        None => return Presenting::Answer(EFAULT),
        Some(bytes) => bytes,
    };
    let x: u32 = get_u32(bytes, 0);
    let y: u32 = get_u32(bytes, 4);
    let width: u32 = get_u32(bytes, 8);
    let height: u32 = get_u32(bytes, 12);
    match state.find(process, descriptor) {
        None => return Presenting::Answer(EBADF),
        Some(window) => {
            if window.closed {
                return Presenting::Answer(ENXIO);
            }
            if x as u64 + width as u64 > window.width as u64 || y as u64 + height as u64
                > window.height as u64 {
                return Presenting::Answer(EINVAL);
            }
        },
    }
    let mut message: Vec<u8> = Vec::new();
    put_bytes(&mut message, &wire::DAMAGED);
    let rest = put_four(x, y, width, height);
    put_bytes(&mut message, rest.as_slice());
    assert(message@ =~= damage(bytes@));
    Presenting::Send(message)
}

/// A queue with one more event: the oldest goes if there is no room.
pub open spec fn queued(pending: Seq<Event>, event: Event) -> Seq<Event> {
    if pending.len() >= MAX_PENDING {
        pending.drop_first().push(event)
    } else {
        pending.push(event)
    }
}

fn queue(pending: &mut Vec<Event>, event: Event)
    requires
        old(pending)@.len() <= MAX_PENDING,
    ensures
        final(pending)@ == queued(old(pending)@, event),
        final(pending)@.len() <= MAX_PENDING,
{
    if pending.len() >= MAX_PENDING {
        let _ = pending.remove(0);
        assert(pending@ =~= old(pending)@.drop_first());
    }
    pending.push(event);
}

/// A window whose compositor has gone.
pub open spec fn gone(window: WindowModel) -> WindowModel {
    WindowModel {
        closed: true,
        pending: queued(window.pending, Event { kind: event::CLOSED, value: 0 }),
        ..window
    }
}

/// A state in which a window, if it is there, is `window`.
pub open spec fn replaced(state: Model, key: (u64, u32), window: WindowModel) -> Model {
    if state.windows.dom().contains(key) {
        Model { windows: state.windows.insert(key, window), ..state }
    } else {
        state
    }
}

/// Record that the compositor has gone.
pub fn mark_closed(state: &mut State, process: u64, descriptor: u32)
    requires
        old(state).wf(),
    ensures
        final(state).wf(),
        final(state)@ == replaced(
            old(state)@,
            (process, descriptor),
            gone(old(state)@.windows[(process, descriptor)]),
        ),
{
    match state.take(process, descriptor) {
        None => {
            assert(state@.windows =~= old(state)@.windows);
        },
        Some(mut window) => {
            let ghost before = window@;
            assert(before.sound());
            window.closed = true;
            queue(&mut window.pending, Event { kind: event::CLOSED, value: 0 });
            assert(window@ =~= gone(before));
            state.put(process, descriptor, window);
            assert(state@.windows =~= old(state)@.windows.insert(
                (process, descriptor),
                gone(before),
            ));
        },
    }
}

/// After the frame was handed to the compositor: an answer if it has gone, and
/// otherwise the frame counts and is to be waited for.
pub fn sent(state: &mut State, process: u64, descriptor: u32, taken: bool) -> (answer: Option<u64>)
    requires
        old(state).wf(),
    ensures
        final(state).wf(),
        if taken {
            answer is None && final(state)@ == Model {
                presented: counted(old(state)@.presented, 1),
                ..old(state)@
            }
        } else {
            answer == Some(ENXIO) && final(state)@ == replaced(
                old(state)@,
                (process, descriptor),
                gone(old(state)@.windows[(process, descriptor)]),
            )
        },
{
    if !taken {
        mark_closed(state, process, descriptor);
        return Some(ENXIO);
    }
    let ghost before = state@.windows;
    state.presented = count(state.presented, 1);
    assert(state@.windows =~= before);
    None
}

/// When a frame that was handed over at a time stops being waited for.
pub open spec fn frame_end(now: u64) -> u64 {
    if now + ACKNOWLEDGE_MS <= u64::MAX {
        (now + ACKNOWLEDGE_MS) as u64
    } else {
        u64::MAX
    }
}

/// When to stop waiting for a frame.
pub fn frame_deadline(now: u64) -> (deadline: u64)
    ensures
        deadline == frame_end(now),
{
    now.saturating_add(ACKNOWLEDGE_MS)
}

/// Whether a message is a new size: the word, two numbers and one handle.
pub open spec fn is_resize(message: Message) -> bool {
    message.bytes@.len() >= 12 && message.bytes@.take(4) == wire::RESIZED@ && message.handles == 1
}

/// What a message makes of a window.
///
/// An acknowledgement that nothing waits for any more is no event. A resize this
/// layer cannot honour is the window being lost. A key is five bytes, one of kind
/// and four of value; kind one is a character. Anything shorter says nothing.
pub open spec fn absorbed(window: WindowModel, message: Message) -> WindowModel {
    let bytes = message.bytes@;
    if bytes == wire::SHOWN@ {
        window
    } else if is_resize(message) {
        let width = u32_at(bytes, 4);
        let height = u32_at(bytes, 8);
        if message.memory is Some && large_enough(width, height, message.memory.unwrap().size) {
            WindowModel {
                surface: message.memory.unwrap(),
                width,
                height,
                pending: queued(window.pending, Event { kind: event::RESIZED, value: 0 }),
                ..window
            }
        } else {
            gone(window)
        }
    } else if bytes.len() >= 5 {
        WindowModel {
            pending: queued(
                window.pending,
                if bytes[0] == 1 {
                    Event { kind: event::CHARACTER, value: u32_at(bytes, 1) }
                } else {
                    Event { kind: event::KEY, value: bytes[0] as u32 }
                },
            ),
            ..window
        }
    } else {
        window
    }
}

fn starts_with_resized(bytes: &[u8]) -> (starts: bool)
    requires
        bytes@.len() >= 4,
    ensures
        starts == (bytes@.take(4) == wire::RESIZED@),
{
    let mut at: usize = 0;
    while at < 4
        invariant
            at <= 4,
            bytes@.len() >= 4,
            forall|i: int| 0 <= i < at ==> bytes@[i] == wire::RESIZED@[i],
        decreases 4 - at,
    {
        if bytes[at] != wire::RESIZED[at] {
            assert(bytes@.take(4)[at as int] != wire::RESIZED@[at as int]);
            return false;
        }
        at += 1;
    }
    assert(bytes@.take(4) =~= wire::RESIZED@);
    true
}

/// Take in one message from the compositor that no frame waits for.
pub fn absorb(state: &mut State, process: u64, descriptor: u32, message: &Message)
    requires
        old(state).wf(),
    ensures
        final(state).wf(),
        final(state)@ == replaced(
            old(state)@,
            (process, descriptor),
            absorbed(old(state)@.windows[(process, descriptor)], *message),
        ),
{
    let mut window = match state.take(process, descriptor) {
        None => {
            assert(state@.windows =~= old(state)@.windows);
            return;
        },
        Some(window) => window,
    };
    let ghost before = window@;
    assert(before.sound());
    let bytes: &[u8] = message.bytes.as_slice();
    if same_bytes(bytes, &wire::SHOWN) {
        // The frame it is for was given up on.
    } else if bytes.len() >= 12 && starts_with_resized(bytes) && message.handles == 1 {
        let width: u32 = read_u32(bytes, 4);
        let height: u32 = read_u32(bytes, 8);
        let usable: Option<Surface> = match message.memory {
            Some(surface) => if fits(width, height, surface.size) {
                Some(surface)
            } else {
                None
            },
            None => None,
        };
        match usable {
            Some(surface) => {
                window.surface = surface;
                window.width = width;
                window.height = height;
                queue(&mut window.pending, Event { kind: event::RESIZED, value: 0 });
            },
            None => {
                window.closed = true;
                queue(&mut window.pending, Event { kind: event::CLOSED, value: 0 });
            },
        }
    } else if bytes.len() >= 5 {
        let value: u32 = read_u32(bytes, 1);
        if bytes[0] == 1 {
            queue(&mut window.pending, Event { kind: event::CHARACTER, value });
        } else {
            queue(&mut window.pending, Event { kind: event::KEY, value: bytes[0] as u32 });
        }
    }
    assert(window@ =~= absorbed(before, *message));
    state.put(process, descriptor, window);
    assert(state@.windows =~= old(state)@.windows.insert(
        (process, descriptor),
        absorbed(before, *message),
    ));
}

/// What a message while a frame is waited for comes to: an answer, or another
/// wait. `None` is that the compositor has gone.
///
/// Anything but an acknowledgement is a key or a resize, and is kept.
pub fn acknowledged(
    state: &mut State,
    process: u64,
    descriptor: u32,
    message: Option<&Message>,
    now: u64,
    deadline: u64,
) -> (answer: Option<u64>)
    requires
        old(state).wf(),
    ensures
        final(state).wf(),
        match message {
            None => {
                &&& answer == Some(ENXIO)
                &&& final(state)@ == replaced(
                    old(state)@,
                    (process, descriptor),
                    gone(old(state)@.windows[(process, descriptor)]),
                )
            },
            Some(message) => if message.bytes@ == wire::SHOWN@ {
                answer == Some(0u64) && final(state)@ == old(state)@
            } else {
                &&& final(state)@ == replaced(
                    old(state)@,
                    (process, descriptor),
                    absorbed(old(state)@.windows[(process, descriptor)], *message),
                )
                &&& answer == overdue(now, deadline)
            },
        },
{
    match message {
        None => {
            mark_closed(state, process, descriptor);
            Some(ENXIO)
        },
        Some(message) => {
            if same_bytes(message.bytes.as_slice(), &wire::SHOWN) {
                return Some(0);
            }
            absorb(state, process, descriptor, message);
            if now >= deadline {
                return Some(ETIMEDOUT);
            }
            None
        },
    }
}

/// What a wait for a frame comes to that nothing has ended.
pub open spec fn overdue(now: u64, deadline: u64) -> Option<u64> {
    if now >= deadline {
        Some(ETIMEDOUT)
    } else {
        None
    }
}

/// What it comes to that nothing has arrived while a frame is waited for: an
/// answer, or another look. A compositor that says nothing more is waited for
/// until the deadline and no longer.
pub fn unacknowledged(now: u64, deadline: u64) -> (answer: Option<u64>)
    ensures
        answer == overdue(now, deadline),
{
    if now >= deadline {
        Some(ETIMEDOUT)
    } else {
        None
    }
}

/// Whether anything is queued for a window, so that the channel need not be
/// looked at.
pub fn has_event(state: &State, process: u64, descriptor: u32) -> (waiting: Result<bool, u64>)
    requires
        state.wf(),
    ensures
        waiting == if state@.windows.dom().contains((process, descriptor)) {
            Ok::<bool, u64>(state@.windows[(process, descriptor)].pending.len() > 0)
        } else {
            Err(EBADF)
        },
{
    match state.find(process, descriptor) {
        None => Err(EBADF),
        Some(window) => Ok(window.pending.len() > 0),
    }
}

/// A window before the next event is taken: with the channel's message taken in
/// only if nothing was queued.
pub open spec fn refreshed(window: WindowModel, message: Option<&Message>) -> WindowModel {
    match message {
        Some(message) => if window.pending.len() == 0 {
            absorbed(window, *message)
        } else {
            window
        },
        None => window,
    }
}

/// The event a window gives next.
pub open spec fn front(window: WindowModel) -> Event {
    if window.pending.len() > 0 {
        window.pending[0]
    } else {
        Event { kind: event::NONE, value: 0 }
    }
}

/// A window after that.
pub open spec fn behind(window: WindowModel) -> WindowModel {
    if window.pending.len() > 0 {
        WindowModel { pending: window.pending.drop_first(), ..window }
    } else {
        window
    }
}

/// The next thing that happened, or nothing: its kind and value, and the
/// window's size. Never blocks.
///
/// What was queued comes first, so a program sees what arrived while its frame
/// was in flight before anything newer. `message` is what the channel had; it is
/// looked at only if nothing was queued.
pub fn next_event(
    state: &mut State,
    process: u64,
    descriptor: u32,
    message: Option<&Message>,
    out: u64,
    in_range: bool,
) -> (reply: Reply)
    requires
        old(state).wf(),
    ensures
        final(state).wf(),
        if !old(state)@.windows.dom().contains((process, descriptor)) {
            reply.is_plain(EBADF) && final(state)@ == old(state)@
        } else {
            let window = refreshed(old(state)@.windows[(process, descriptor)], message);
            let next = front(window);
            &&& if in_range {
                reply.is_writing(
                    0,
                    out,
                    four(next.kind, next.value, window.width, window.height),
                )
            } else {
                reply.is_plain(EFAULT)
            }
            &&& final(state)@ == Model {
                windows: old(state)@.windows.insert((process, descriptor), behind(window)),
                delivered: if in_range && next.kind != event::NONE {
                    counted(old(state)@.delivered, 1)
                } else {
                    old(state)@.delivered
                },
                ..old(state)@
            }
        },
{
    let empty: bool = match state.find(process, descriptor) {
        None => return Reply::plain(EBADF),
        Some(window) => window.pending.len() == 0,
    };
    let ghost key = (process, descriptor);
    let ghost window = refreshed(old(state)@.windows[key], message);
    if empty {
        if let Some(message) = message {
            absorb(state, process, descriptor, message);
        }
    }
    assert(state@.windows =~= old(state)@.windows.insert(key, window));
    let mut held = match state.take(process, descriptor) {
        None => return Reply::plain(EBADF),
        Some(held) => held,
    };
    assert(held@ == window);
    assert(window.sound());
    let next: Event = if held.pending.len() > 0 {
        held.pending.remove(0)
    } else {
        Event { kind: event::NONE, value: 0 }
    };
    assert(held@ =~= behind(window));
    let width: u32 = held.width;
    let height: u32 = held.height;
    state.put(process, descriptor, held);
    assert(state@.windows =~= old(state)@.windows.insert(key, behind(window)));
    if !in_range {
        return Reply::plain(EFAULT);
    }
    if next.kind != event::NONE {
        state.delivered = count(state.delivered, 1);
    }
    Reply::writing(0, out, put_four(next.kind, next.value, width, height))
}

/// A compositor that stopped answering does not hold a program for ever: a frame
/// is waited for as long as it may go unacknowledged, and then the answer is that
/// it timed out.
pub proof fn law_a_silent_compositor_is_left(sent_at: u64, now: u64)
    requires
        sent_at + ACKNOWLEDGE_MS <= u64::MAX,
    ensures
        now >= sent_at + ACKNOWLEDGE_MS ==> overdue(now, frame_end(sent_at)) == Some(ETIMEDOUT),
        now < sent_at + ACKNOWLEDGE_MS ==> overdue(now, frame_end(sent_at)) is None,
{
}

/// Whatever the compositor says and whatever a program does, the surface of
/// every window is large enough for the window, and no queue grows past its
/// bound.
pub proof fn law_windows_are_sound(state: &State)
    requires
        state.wf(),
    ensures
        state@.sound(),
{
}

/// Taking in a message keeps a window sound, whatever the message.
pub proof fn law_no_message_breaks_a_window(window: WindowModel, message: Message)
    requires
        window.sound(),
    ensures
        absorbed(window, message).sound(),
{
}

/// Events come out in the order they went in: one more behind a queue with room
/// changes nothing of what stands before it.
pub proof fn law_events_keep_their_order(pending: Seq<Event>, event: Event)
    requires
        pending.len() < MAX_PENDING,
    ensures
        queued(pending, event).drop_last() == pending,
        queued(pending, event).last() == event,
{
    assert(queued(pending, event).drop_last() =~= pending);
}

/// A frame that is put on screen touches only pixels that the surface has.
pub proof fn law_presented_pixels_exist(window: WindowModel, rectangle: Seq<u8>, x: int, y: int)
    requires
        window.sound(),
        !outside(rectangle, window),
        u32_at(rectangle, 0) <= x < u32_at(rectangle, 0) + u32_at(rectangle, 8),
        u32_at(rectangle, 4) <= y < u32_at(rectangle, 4) + u32_at(rectangle, 12),
    ensures
        0 <= (y * window.width + x) * 4,
        (y * window.width + x) * 4 + 4 <= window.surface.size,
{
    let width = window.width as int;
    let height = window.height as int;
    assert(0 <= y * width + x < height * width) by (nonlinear_arith)
        requires
            0 <= x < width,
            0 <= y < height,
    ;
    assert(width * height == height * width) by (nonlinear_arith);
}

} // verus!
