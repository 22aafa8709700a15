use vstd::prelude::*;

use crate::error::RaceError;

verus! {

/// The payload a response handler accumulates from reads that return these
/// chunks in order: the bytes of every chunk up to and including the first
/// short one, concatenated in read order. A chunk shorter than `requested`
/// — an empty one included — signals the end of the available data.
pub open spec fn accumulated(chunks: Seq<Seq<u8>>, requested: nat) -> Seq<u8>
    decreases chunks.len(),
{
    if chunks.len() == 0 {
        Seq::empty()
    } else if chunks[0].len() < requested {
        chunks[0]
    } else {
        chunks[0] + accumulated(chunks.drop_first(), requested)
    }
}

/// Accumulates the bytes of a response that is read in chunks. Reading ends
/// at the first short read — a read that returned fewer bytes than were
/// asked for, which is taken to mean no more data is coming — or at a read
/// error; an error keeps whatever was accumulated before it.
pub struct ResponseAccumulator {
    /// The bytes accumulated so far, in read order.
    pub payload: Vec<u8>,
    /// Whether reading has ended.
    pub done: bool,
    /// Whether reading ended on a read error rather than a short read.
    pub read_failed: bool,
}

impl ResponseAccumulator {
    /// A fresh accumulator: nothing read yet.
    pub fn new() -> (r: ResponseAccumulator)
        ensures
            r.payload@ == Seq::<u8>::empty(),
            !r.done,
            !r.read_failed,
    {
        ResponseAccumulator { payload: Vec::new(), done: false, read_failed: false }
    }

    /// Takes one read's bytes: a read that asked for `requested` bytes and
    /// returned `chunk`. The chunk's bytes are appended whole; a short
    /// chunk ends the reading.
    pub fn on_read(&mut self, chunk: &Vec<u8>, requested: usize)
        requires
            !old(self).done,
            requested >= 1,
            chunk@.len() <= requested,
        ensures
            final(self).payload@ == old(self).payload@ + chunk@,
            final(self).done == (chunk@.len() < requested),
            final(self).read_failed == old(self).read_failed,
    {
        let mut i: usize = 0;
        while i < chunk.len()
            invariant
                i <= chunk@.len(),
                self.payload@ == old(self).payload@ + chunk@.take(i as int),
                self.done == old(self).done,
                self.read_failed == old(self).read_failed,
            decreases chunk@.len() - i,
        {
            self.payload.push(chunk[i]);
            proof {
                assert(chunk@.take(i + 1) =~= chunk@.take(i as int).push(chunk@[i as int]));
            }
            i = i + 1;
        }
        proof {
            assert(chunk@.take(chunk@.len() as int) =~= chunk@);
        }
        if chunk.len() < requested {
            self.done = true;
        }
    }

    /// Records a failed read: reading ends, and what was accumulated before
    /// the error stands as the payload.
    pub fn on_read_error(&mut self)
        requires
            !old(self).done,
        ensures
            final(self).payload@ == old(self).payload@,
            final(self).done,
            final(self).read_failed,
    {
        self.done = true;
        self.read_failed = true;
    }
}

/// The fetch result for the winning connection. A failed request write is a
/// write failure before anything was read. A read error that struck before
/// any data arrived means no response was obtained; one that struck after
/// some data leaves that data standing as the payload, as a short read
/// would.
pub fn fetch_outcome(write_ok: bool, acc: ResponseAccumulator) -> (r: Result<Vec<u8>, RaceError>)
    ensures
        !write_ok ==> r == Err::<Vec<u8>, RaceError>(RaceError::Write),
        write_ok && acc.read_failed && acc.payload@.len() == 0 ==> r == Err::<Vec<u8>, RaceError>(
            RaceError::Read,
        ),
        write_ok && !(acc.read_failed && acc.payload@.len() == 0) ==> (r matches Ok(p)
            && p@ == acc.payload@),
{
    if !write_ok {
        Err(RaceError::Write)
    } else if acc.read_failed && acc.payload.len() == 0 {
        Err(RaceError::Read)
    } else {
        Ok(acc.payload)
    }
}

/// Reads a whole scripted response through the accumulator: the `i`-th read
/// asks for `requested` bytes and returns `chunks[i]`. Returns the payload:
/// exactly the accumulation of the chunks up to and including the first
/// short one.
pub fn accumulate_reads(chunks: &Vec<Vec<u8>>, requested: usize) -> (payload: Vec<u8>)
    requires
        requested >= 1,
        forall|i: int| 0 <= i < chunks@.len() ==> #[trigger] chunks@[i]@.len() <= requested,
    ensures
        payload@ == accumulated(chunks@.map_values(|c: Vec<u8>| c@), requested as nat),
{
    let ghost cs = chunks@.map_values(|c: Vec<u8>| c@);
    let mut acc = ResponseAccumulator::new();
    let mut i: usize = 0;
    proof {
        assert(cs.skip(0) =~= cs);
        assert(Seq::<u8>::empty() + accumulated(cs, requested as nat) =~= accumulated(
            cs,
            requested as nat,
        ));
    }
    while i < chunks.len() && !acc.done
        invariant
            cs == chunks@.map_values(|c: Vec<u8>| c@),
            cs.len() == chunks@.len(),
            requested >= 1,
            forall|j: int| 0 <= j < chunks@.len() ==> #[trigger] chunks@[j]@.len() <= requested,
            i <= cs.len(),
            !acc.done ==> acc.payload@ + accumulated(cs.skip(i as int), requested as nat)
                == accumulated(cs, requested as nat),
            acc.done ==> acc.payload@ == accumulated(cs, requested as nat),
        decreases cs.len() - i,
    {
        let chunk = &chunks[i];
        proof {
            assert(cs[i as int] == chunks@[i as int]@);
            assert(cs.skip(i as int).len() == cs.len() - i);
            assert(cs.skip(i as int)[0] == cs[i as int]);
            if chunk@.len() >= requested {
                assert(cs.skip(i as int).drop_first() =~= cs.skip(i + 1));
            }
        }
        acc.on_read(chunk, requested);
        i = i + 1;
    }
    proof {
        if !acc.done {
            assert(i == cs.len());
            assert(cs.skip(cs.len() as int) =~= Seq::<Seq<u8>>::empty());
        }
    }
    acc.payload
}

/// Round trip: when a known byte sequence is served in full-sized chunks
/// with one final short chunk, the accumulated payload is exactly the
/// original sequence — the concatenation of all the chunks.
pub proof fn lemma_response_round_trip(chunks: Seq<Seq<u8>>, requested: nat)
    requires
        requested >= 1,
        chunks.len() >= 1,
        forall|i: int| 0 <= i < chunks.len() - 1 ==> #[trigger] chunks[i].len() == requested,
        chunks[chunks.len() - 1].len() < requested,
    ensures
        accumulated(chunks, requested) == chunks.flatten(),
    decreases chunks.len(),
{
    if chunks.len() == 1 {
        assert(accumulated(chunks, requested) == chunks[0]);
        assert(chunks.drop_first().len() == 0);
        assert(chunks.drop_first().flatten() =~= Seq::<u8>::empty());
        assert(chunks.flatten() =~= chunks[0] + chunks.drop_first().flatten());
        assert(accumulated(chunks, requested) =~= chunks.flatten());
    } else {
        let t = chunks.drop_first();
        assert(chunks[0].len() == requested);
        assert(forall|i: int|
            0 <= i < t.len() - 1 ==> #[trigger] t[i].len() == requested) by {
            assert forall|i: int| 0 <= i < t.len() - 1 implies #[trigger] t[i].len()
                == requested by {
                assert(t[i] == chunks[i + 1]);
            }
        }
        assert(t[t.len() - 1] == chunks[chunks.len() - 1]);
        lemma_response_round_trip(t, requested);
        assert(accumulated(chunks, requested) == chunks[0] + accumulated(t, requested));
        assert(chunks.flatten() == chunks[0] + t.flatten());
    }
}

} // verus!
