//! A list of buffers, for the calls that move bytes through one.
//!
//! Each piece goes through the call that moves a single buffer, so a list moves
//! bytes wherever one buffer would. [`Vectors`] says which piece is next and
//! what the whole comes to.
use vstd::prelude::*;

use crate::bytes::{get_u64, u64_at};
use crate::compat::error::{failed, is_error};
use crate::count::{count, counted};

verus! {

/// Bytes in a `struct iovec`: an address and a length.
pub const IOVEC: u64 = 16;

/// The most pieces one list may have.
pub const MAX_IOV: u64 = 64;

/// One buffer of a list.
#[derive(Clone, Copy, PartialEq, Eq, Structural, Debug)]
pub struct Piece {
    pub base: u64,
    pub length: u64,
}

/// The pieces that a list's bytes describe.
pub open spec fn pieces_of(bytes: Seq<u8>) -> Seq<Piece> {
    Seq::new(
        bytes.len() / 16,
        |i: int| Piece { base: u64_at(bytes, 16 * i), length: u64_at(bytes, 16 * i + 8) },
    )
}

/// Those of them that hold anything.
pub open spec fn holding(pieces: Seq<Piece>) -> Seq<Piece> {
    pieces.filter(|piece: Piece| piece.length != 0)
}

/// What is left to move, and what was moved.
pub struct Vectors {
    pieces: Vec<Piece>,
    at: usize,
    total: u64,
}

/// The same, as a value.
#[verifier::ext_equal]
pub struct Model {
    /// The pieces not moved yet, none of them empty.
    pub rest: Seq<Piece>,
    /// The bytes moved so far.
    pub total: u64,
}

impl View for Vectors {
    type V = Model;

    closed spec fn view(&self) -> Model {
        Model { rest: self.pieces@.skip(self.at as int), total: self.total }
    }
}

/// What a list comes to next.
#[derive(Clone, Copy, PartialEq, Eq, Structural, Debug)]
pub enum Next {
    /// Move this piece.
    Move(Piece),
    /// Nothing is left: this is the answer.
    Done(u64),
}

/// A list after a piece was moved with this answer.
pub open spec fn moved(before: Model, answer: u64) -> Model {
    if is_error(answer) {
        before
    } else {
        Model { rest: before.rest.drop_first(), total: counted(before.total, answer) }
    }
}

/// The answer to the whole, where that ends it.
pub open spec fn whole_after(before: Model, answer: u64) -> Option<u64> {
    if is_error(answer) {
        Some(
            if before.total == 0 {
                answer
            } else {
                before.total
            },
        )
    } else if answer < before.rest[0].length {
        Some(counted(before.total, answer))
    } else {
        None
    }
}

impl Vectors {
    /// The place in the list is in it.
    pub closed spec fn wf(&self) -> bool {
        self.at <= self.pieces@.len()
    }

    /// A list read out of a program's memory, with nothing moved.
    pub fn new(bytes: &[u8]) -> (vectors: Self)
        ensures
            vectors.wf(),
            vectors@ == (Model { rest: holding(pieces_of(bytes@)), total: 0 }),
    {
        let size: usize = bytes.len();
        let many: usize = size / 16;
        let ghost all = pieces_of(bytes@);
        let ghost holds = |piece: Piece| piece.length != 0;
        let mut pieces: Vec<Piece> = Vec::new();
        let mut index: usize = 0;
        proof {
            reveal(Seq::filter);
            assert(all.take(0) =~= Seq::empty());
        }
        while index < many
            invariant
                index <= many,
                size == bytes@.len(),
                many == size / 16,
                all == pieces_of(bytes@),
                holds == (|piece: Piece| piece.length != 0),
                pieces@ == all.take(index as int).filter(holds),
            decreases many - index,
        {
            assert(16 * index + 16 <= size);
            let at: usize = index * 16;
            let piece = Piece { base: get_u64(bytes, at), length: get_u64(bytes, at + 8) };
            proof {
                assert(all[index as int] == piece);
                assert(all.take(index + 1).drop_last() =~= all.take(index as int));
                assert(all.take(index + 1).last() == piece);
                reveal(Seq::filter);
            }
            if piece.length != 0 {
                pieces.push(piece);
            }
            index += 1;
        }
        assert(all.take(index as int) =~= all);
        let vectors = Vectors { pieces, at: 0, total: 0 };
        assert(vectors@.rest =~= holding(all));
        vectors
    }

    /// The next piece, or the answer.
    pub fn next(&self) -> (next: Next)
        requires
            self.wf(),
        ensures
            next == if self@.rest.len() > 0 {
                Next::Move(self@.rest[0])
            } else {
                Next::Done(self@.total)
            },
    {
        if self.at < self.pieces.len() {
            Next::Move(self.pieces[self.at])
        } else {
            Next::Done(self.total)
        }
    }

    /// Take in what moving a piece answered, and answer the whole where that
    /// ends it.
    ///
    /// An error is the answer only if nothing has been moved: bytes that have
    /// gone are gone, and a program told of an error would send or expect them
    /// twice. A short piece ends the list, because the pieces are one stream.
    pub fn took(&mut self, answer: u64) -> (whole: Option<u64>)
        requires
            old(self).wf(),
            old(self)@.rest.len() > 0,
        ensures
            final(self).wf(),
            final(self)@ == moved(old(self)@, answer),
            whole == whole_after(old(self)@, answer),
    {
        let wanted: u64 = self.pieces[self.at].length;
        if failed(answer) {
            return Some(
                if self.total == 0 {
                    answer
                } else {
                    self.total
                },
            );
        }
        self.total = count(self.total, answer);
        assert(self.at < self.pieces.len());
        self.at = self.at + 1;
        assert(self@.rest =~= old(self)@.rest.drop_first());
        if answer < wanted {
            Some(self.total)
        } else {
            None
        }
    }
}

/// A list goes on past a piece only if all of it was moved, where moving one
/// answers with no more than was asked for: what is moved is an unbroken run
/// from the start of the stream, and what is answered is its length.
pub proof fn law_pieces_are_one_stream(before: Model, answer: u64)
    requires
        before.rest.len() > 0,
        !is_error(answer),
        answer <= before.rest[0].length,
        before.total + answer <= u64::MAX,
    ensures
        whole_after(before, answer) is None <==> answer == before.rest[0].length,
        moved(before, answer).total == before.total + answer,
        whole_after(before, answer) matches Some(whole) ==> whole == before.total + answer,
{
}

/// One entry of a list is sixteen bytes: where the piece starts, and then how
/// many bytes it has. What is left to move are the entries that have any, in
/// their order.
pub proof fn law_entries_are_addresses_and_lengths(bytes: Seq<u8>, i: int)
    requires
        0 <= i,
        16 * i + 16 <= bytes.len(),
    ensures
        pieces_of(bytes).len() == bytes.len() / 16,
        pieces_of(bytes)[i].base == u64_at(bytes, 16 * i),
        pieces_of(bytes)[i].length == u64_at(bytes, 16 * i + 8),
        pieces_of(bytes)[i].length > 0 ==> holding(pieces_of(bytes)).contains(pieces_of(bytes)[i]),
        forall|j: int|
            0 <= j < holding(pieces_of(bytes)).len() ==> (#[trigger] holding(
                pieces_of(bytes),
            )[j]).length > 0 && pieces_of(bytes).contains(holding(pieces_of(bytes))[j]),
{
    let wanted = |piece: Piece| piece.length != 0;
    let all = pieces_of(bytes);
    let kept = all.filter(wanted);
    assert forall|j: int| 0 <= j < kept.len() implies (#[trigger] kept[j]).length > 0
        && all.contains(kept[j]) by {
        all.lemma_filter_pred(wanted, j);
        all.lemma_filter_contains_rev(wanted, kept[j]);
    }
    if all[i].length > 0 {
        all.lemma_filter_contains(wanted, i);
    }
}

/// What a piece moved is dropped from the list and added to the whole; a piece
/// that failed changes neither, and only the first to fail is an error for the
/// program.
pub proof fn law_only_the_first_failure_is_seen(before: Model, answer: u64)
    requires
        before.rest.len() > 0,
    ensures
        answer >= 0x8000_0000_0000_0000 ==> {
            &&& moved(before, answer) == before
            &&& before.total == 0 ==> whole_after(before, answer) == Some(answer)
            &&& before.total > 0 ==> whole_after(before, answer) == Some(before.total)
        },
        answer < 0x8000_0000_0000_0000 ==> {
            &&& moved(before, answer).rest == before.rest.drop_first()
            &&& whole_after(before, answer) is Some <==> answer < before.rest[0].length
        },
{
}

} // verus!
