//! The registers a program entered the kernel with.
use vstd::prelude::*;

use crate::bytes::{get_u64, u64_at, words_bytes, words_to_bytes};
#[allow(unused_imports)]
use crate::bytes::lemma_words_at;

verus! {

/// How many bytes a [`Frame`] takes on a program's stack.
pub const FRAME_BYTES: u64 = 128;

/// A program's registers, as the way back to it restores them.
#[derive(Clone, Copy, PartialEq, Eq, Structural, Debug)]
pub struct Frame {
    pub r15: u64,
    pub r14: u64,
    pub r13: u64,
    pub r12: u64,
    pub rbp: u64,
    pub rbx: u64,
    pub r9: u64,
    pub r8: u64,
    pub r10: u64,
    pub rdx: u64,
    pub rsi: u64,
    pub rdi: u64,
    pub rax: u64,
    pub rflags: u64,
    pub rip: u64,
    pub rsp: u64,
}

impl Frame {
    /// The registers in the order they stand in memory.
    pub open spec fn words(self) -> Seq<u64> {
        seq![
            self.r15,
            self.r14,
            self.r13,
            self.r12,
            self.rbp,
            self.rbx,
            self.r9,
            self.r8,
            self.r10,
            self.rdx,
            self.rsi,
            self.rdi,
            self.rax,
            self.rflags,
            self.rip,
            self.rsp,
        ]
    }

    /// What the frame looks like in memory.
    pub open spec fn encoded(self) -> Seq<u8> {
        words_bytes(self.words())
    }

    /// The frame that `bytes` hold.
    pub open spec fn decoded(bytes: Seq<u8>) -> Frame {
        Frame {
            r15: u64_at(bytes, 0),
            r14: u64_at(bytes, 8),
            r13: u64_at(bytes, 16),
            r12: u64_at(bytes, 24),
            rbp: u64_at(bytes, 32),
            rbx: u64_at(bytes, 40),
            r9: u64_at(bytes, 48),
            r8: u64_at(bytes, 56),
            r10: u64_at(bytes, 64),
            rdx: u64_at(bytes, 72),
            rsi: u64_at(bytes, 80),
            rdi: u64_at(bytes, 88),
            rax: u64_at(bytes, 96),
            rflags: u64_at(bytes, 104),
            rip: u64_at(bytes, 112),
            rsp: u64_at(bytes, 120),
        }
    }

    /// A frame read back from memory is the frame that was written.
    pub proof fn lemma_round_trip(self)
        ensures
            self.encoded().len() == FRAME_BYTES,
            Frame::decoded(self.encoded()) == self,
    {
        lemma_words_at(self.words(), 0);
        lemma_words_at(self.words(), 1);
        lemma_words_at(self.words(), 2);
        lemma_words_at(self.words(), 3);
        lemma_words_at(self.words(), 4);
        lemma_words_at(self.words(), 5);
        lemma_words_at(self.words(), 6);
        lemma_words_at(self.words(), 7);
        lemma_words_at(self.words(), 8);
        lemma_words_at(self.words(), 9);
        lemma_words_at(self.words(), 10);
        lemma_words_at(self.words(), 11);
        lemma_words_at(self.words(), 12);
        lemma_words_at(self.words(), 13);
        lemma_words_at(self.words(), 14);
        lemma_words_at(self.words(), 15);
    }

    /// The bytes to write for this frame.
    pub fn to_bytes(&self) -> (bytes: Vec<u8>)
        ensures
            bytes@ == self.encoded(),
    {
        let words: [u64; 16] = [
            self.r15,
            self.r14,
            self.r13,
            self.r12,
            self.rbp,
            self.rbx,
            self.r9,
            self.r8,
            self.r10,
            self.rdx,
            self.rsi,
            self.rdi,
            self.rax,
            self.rflags,
            self.rip,
            self.rsp,
        ];
        assert(words@ =~= self.words());
        words_to_bytes(&words)
    }

    /// The frame in `bytes`.
    pub fn from_bytes(bytes: &[u8]) -> (frame: Frame)
        requires
            bytes@.len() == FRAME_BYTES,
        ensures
            frame == Frame::decoded(bytes@),
    {
        Frame {
            r15: get_u64(bytes, 0),
            r14: get_u64(bytes, 8),
            r13: get_u64(bytes, 16),
            r12: get_u64(bytes, 24),
            rbp: get_u64(bytes, 32),
            rbx: get_u64(bytes, 40),
            r9: get_u64(bytes, 48),
            r8: get_u64(bytes, 56),
            r10: get_u64(bytes, 64),
            rdx: get_u64(bytes, 72),
            rsi: get_u64(bytes, 80),
            rdi: get_u64(bytes, 88),
            rax: get_u64(bytes, 96),
            rflags: get_u64(bytes, 104),
            rip: get_u64(bytes, 112),
            rsp: get_u64(bytes, 120),
        }
    }
}

/// Where each register stands in memory, eight bytes for each, from the one that is
/// restored first.
pub proof fn law_where_each_register_stands(frame: Frame)
    ensures
        frame.encoded().len() == 128,
        u64_at(frame.encoded(), 0) == frame.r15,
        u64_at(frame.encoded(), 8) == frame.r14,
        u64_at(frame.encoded(), 16) == frame.r13,
        u64_at(frame.encoded(), 24) == frame.r12,
        u64_at(frame.encoded(), 32) == frame.rbp,
        u64_at(frame.encoded(), 40) == frame.rbx,
        u64_at(frame.encoded(), 48) == frame.r9,
        u64_at(frame.encoded(), 56) == frame.r8,
        u64_at(frame.encoded(), 64) == frame.r10,
        u64_at(frame.encoded(), 72) == frame.rdx,
        u64_at(frame.encoded(), 80) == frame.rsi,
        u64_at(frame.encoded(), 88) == frame.rdi,
        u64_at(frame.encoded(), 96) == frame.rax,
        u64_at(frame.encoded(), 104) == frame.rflags,
        u64_at(frame.encoded(), 112) == frame.rip,
        u64_at(frame.encoded(), 120) == frame.rsp,
        Frame::decoded(frame.encoded()) == frame,
{
    frame.lemma_round_trip();
}

} // verus!
