//! What a call answers, and what it leaves in the program's memory.
use vstd::prelude::*;

verus! {

/// Bytes to put into the program's memory.
#[derive(Debug)]
pub struct Write {
    /// The program's own address for them.
    pub at: u64,
    pub bytes: Vec<u8>,
}

impl View for Write {
    type V = (u64, Seq<u8>);

    open spec fn view(&self) -> (u64, Seq<u8>) {
        (self.at, self.bytes@)
    }
}

/// What the program finds in its return register, after the writes.
#[derive(Debug)]
pub struct Reply {
    pub answer: u64,
    /// In the order they are to be made.
    pub writes: Vec<Write>,
}

impl Reply {
    /// The writes, as addresses and bytes.
    pub open spec fn written(&self) -> Seq<(u64, Seq<u8>)> {
        Seq::new(self.writes@.len(), |i: int| self.writes@[i]@)
    }

    /// Whether this is `answer` with nothing written.
    pub open spec fn is_plain(&self, answer: u64) -> bool {
        self.answer == answer && self.written() == Seq::<(u64, Seq<u8>)>::empty()
    }

    /// Whether this is `answer` with `bytes` written at `at`.
    pub open spec fn is_writing(&self, answer: u64, at: u64, bytes: Seq<u8>) -> bool {
        self.answer == answer && self.written() == seq![(at, bytes)]
    }

    /// An answer that writes nothing.
    pub fn plain(answer: u64) -> (reply: Self)
        ensures
            reply.is_plain(answer),
    {
        let reply = Reply { answer, writes: Vec::new() };
        assert(reply.written() =~= Seq::<(u64, Seq<u8>)>::empty());
        reply
    }

    /// An answer and one write.
    pub fn writing(answer: u64, at: u64, bytes: Vec<u8>) -> (reply: Self)
        ensures
            reply.is_writing(answer, at, bytes@),
    {
        let mut writes: Vec<Write> = Vec::new();
        writes.push(Write { at, bytes });
        let reply = Reply { answer, writes };
        assert(reply.written() =~= seq![(at, bytes@)]);
        reply
    }

    /// One more write, after the others.
    pub fn and_write(&mut self, at: u64, bytes: Vec<u8>)
        ensures
            final(self).answer == old(self).answer,
            final(self).written() == old(self).written().push((at, bytes@)),
    {
        self.writes.push(Write { at, bytes });
        assert(self.written() =~= old(self).written().push((at, bytes@)));
    }
}

/// What a reply is said to be: a plain one writes nothing, and one that writes puts
/// these bytes at this address and nothing else anywhere.
pub proof fn law_what_a_reply_is(reply: Reply, answer: u64, at: u64, bytes: Seq<u8>)
    ensures
        reply.is_plain(answer) <==> reply.answer == answer && reply.writes@.len() == 0,
        reply.is_writing(answer, at, bytes) <==> reply.answer == answer && reply.writes@.len() == 1
            && reply.writes@[0].at == at && reply.writes@[0].bytes@ == bytes,
{
    if reply.writes@.len() == 0 {
        assert(reply.written() =~= Seq::<(u64, Seq<u8>)>::empty());
    }
    if reply.is_plain(answer) {
        assert(reply.written().len() == reply.writes@.len());
    }
    if reply.writes@.len() == 1 && reply.writes@[0].at == at && reply.writes@[0].bytes@ == bytes {
        assert(reply.written() =~= seq![(at, bytes)]);
    }
    if reply.is_writing(answer, at, bytes) {
        assert(reply.written().len() == 1);
        assert(reply.written()[0] == reply.writes@[0]@);
    }
}

} // verus!
