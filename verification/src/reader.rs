//! Reading a range of the target byte by byte where the target refuses
//! larger reads.
//!
//! The host program owns the call to the operating system. A
//! [`GapReader`] tells it what to ask for next and takes the answer, so
//! that one unreadable page does not lose the rest of a range.

use vstd::prelude::*;
use crate::memory;

verus! {

/// The state of a read of `len` bytes at `address` that goes on past gaps.
#[derive(Debug)]
pub struct GapReader {
    address: u64,
    data: Vec<Option<u8>>,
    offset: usize,
    chunk: usize,
}

/// The first `count` entries of a range agree with memory: the byte
/// where the target can be read, a gap where it cannot.
pub open spec fn settled(data: Seq<Option<u8>>, mem: Map<u64, u8>, address: u64, count: nat) -> bool {
    forall|i: int|
        0 <= i < count ==> #[trigger] data[i] == memory::gaps_at(
            mem,
            address as int,
            data.len(),
        )[i]
}

/// Whether `bytes` is a true answer of a target with memory `mem` to a
/// request for `len` bytes at `address`: bytes given are the bytes
/// there, and a request for one byte is refused only where that byte
/// cannot be read.
pub open spec fn truthful(bytes: Seq<u8>, mem: Map<u64, u8>, address: u64, len: nat) -> bool {
    &&& forall|i: int|
        0 <= i < bytes.len() && i < len ==> memory::readable(mem, address + i) && #[trigger] bytes[i]
            == mem[(address + i) as u64]
    &&& bytes.len() == 0 && len == 1 ==> !memory::readable(mem, address as int)
}

impl GapReader {
    /// The address of the range.
    pub closed spec fn address(&self) -> u64 {
        self.address
    }

    /// What is known of the range so far: one entry per byte.
    pub closed spec fn data(&self) -> Seq<Option<u8>> {
        self.data@
    }

    /// How many leading bytes of the range are settled.
    pub closed spec fn offset(&self) -> nat {
        self.offset as nat
    }

    /// The most bytes that the next request asks for.
    pub closed spec fn chunk(&self) -> nat {
        self.chunk as nat
    }

    /// The invariant of a reader: the settled part lies inside the range,
    /// nothing past it is known, and a request asks for at least one byte.
    pub open spec fn wf(&self) -> bool {
        &&& self.offset() <= self.data().len()
        &&& self.chunk() >= 1
        &&& forall|i: int| self.offset() <= i < self.data().len() ==> self.data()[i] is None
    }

    /// Whether the read is over: the range is settled, or what is left of
    /// it lies outside the address space.
    pub open spec fn done(&self) -> bool {
        self.offset() >= self.data().len() || self.address() + self.offset() > u64::MAX
    }

    /// The number of bytes that the next request asks for: what is left
    /// of the range, but no more than the last refusal allows.
    pub open spec fn request_len(&self) -> nat {
        if self.chunk() < self.data().len() - self.offset() {
            self.chunk()
        } else {
            (self.data().len() - self.offset()) as nat
        }
    }

    /// What an answer makes of a reader. Bytes given settle as many
    /// entries, and the next request asks for all that is left. A refusal
    /// of one byte settles that byte as a gap. A refusal of more settles
    /// nothing: the next request asks for half as much.
    pub open spec fn completes(before: GapReader, after: GapReader, bytes: Seq<u8>) -> bool {
        let asked = before.request_len();
        let given = if bytes.len() <= asked {
            bytes.len()
        } else {
            asked
        };
        &&& after.address() == before.address()
        &&& after.data().len() == before.data().len()
        &&& forall|i: int| 0 <= i < before.offset() ==> after.data()[i] == before.data()[i]
        &&& if given > 0 {
            &&& after.offset() == before.offset() + given
            &&& after.chunk() == before.data().len() - before.offset()
            &&& forall|i: int|
                before.offset() <= i < after.offset() ==> after.data()[i] == Some(
                    bytes[i - before.offset()],
                )
        } else if asked == 1 {
            &&& after.offset() == before.offset() + 1
            &&& after.chunk() == before.data().len() - before.offset()
            &&& after.data()[before.offset() as int] is None
        } else {
            &&& after.offset() == before.offset()
            &&& after.chunk() == asked / 2
        }
    }

    /// Starts a read of `len` bytes at `address`.
    pub fn new(address: u64, len: usize) -> (r: GapReader)
        ensures
            r.wf(),
            r.address() == address,
            r.offset() == 0,
            r.request_len() == len,
            r.data() == Seq::new(len as nat, |i: int| None::<u8>),
    {
        let mut data: Vec<Option<u8>> = Vec::new();
        let mut i: usize = 0;
        while i < len
            invariant
                i <= len,
                data@ == Seq::new(i as nat, |k: int| None::<u8>),
            decreases len - i,
        {
            data.push(None);
            proof {
                assert(data@ =~= Seq::new((i + 1) as nat, |k: int| None::<u8>));
            }
            i = i + 1;
        }
        GapReader { address, data, offset: 0, chunk: if len == 0 {
            1
        } else {
            len
        } }
    }

    /// The next read to ask the target for: an address and a number of
    /// bytes. Nothing when the read is over.
    pub fn next_request(&self) -> (r: Option<(u64, usize)>)
        requires
            self.wf(),
        ensures
            match r {
                Some((address, len)) => !self.done() && address == self.address() + self.offset()
                    && len == self.request_len() && len >= 1,
                None => self.done(),
            },
    {
        if self.offset >= self.data.len() {
            return None;
        }
        if self.offset as u64 > u64::MAX - self.address {
            return None;
        }
        let left = self.data.len() - self.offset;
        let len = if self.chunk < left {
            self.chunk
        } else {
            left
        };
        Some((self.address + self.offset as u64, len))
    }

    /// Takes the answer to the last request: the bytes that the target
    /// gave, none if it refused.
    pub fn complete(&mut self, bytes: &[u8])
        requires
            old(self).wf(),
            !old(self).done(),
        ensures
            final(self).wf(),
            GapReader::completes(*old(self), *final(self), bytes@),
            final(self).data().len() - final(self).offset() < old(self).data().len() - old(
                self,
            ).offset() || (final(self).offset() == old(self).offset() && final(self).chunk() < old(
                self,
            ).request_len()),
    {
        assert(self.offset < self.data.len());
        let left: usize = self.data.len() - self.offset;
        let asked: usize = if self.chunk < left {
            self.chunk
        } else {
            left
        };
        if bytes.len() == 0 {
            if asked == 1 {
                self.offset = self.offset + 1;
                self.chunk = left;
            } else {
                self.chunk = asked / 2;
            }
            return ;
        }
        let count: usize = if bytes.len() <= asked {
            bytes.len()
        } else {
            asked
        };
        let start: usize = self.offset;
        let mut index: usize = 0;
        while index < count
            invariant
                index <= count,
                count <= bytes@.len(),
                start + count <= self.data@.len(),
                self.data@.len() == old(self).data@.len(),
                self.address == old(self).address,
                self.offset == start,
                self.chunk == old(self).chunk,
                start == old(self).offset,
                forall|i: int| 0 <= i < start ==> self.data@[i] == old(self).data@[i],
                forall|i: int| start <= i < start + index ==> self.data@[i] == Some(bytes@[i - start]),
                forall|i: int| start + index <= i < self.data@.len() ==> self.data@[i] is None,
            decreases count - index,
        {
            assert(start + index < self.data.len());
            self.data[start + index] = Some(bytes[index]);
            index = index + 1;
        }
        self.offset = start + count;
        self.chunk = left;
    }

    /// The outcome of the read: one entry per byte of the range.
    pub fn finish(self) -> (data: Vec<Option<u8>>)
        ensures
            data@ == self.data(),
    {
        self.data
    }
}

/// True answers keep a reader true: if what is settled agrees with the
/// target's memory and the answer is a true one, what is settled after
/// the answer agrees with the target's memory too.
pub proof fn lemma_true_answers(before: GapReader, after: GapReader, bytes: Seq<u8>, mem: Map<u64, u8>)
    requires
        before.wf(),
        !before.done(),
        GapReader::completes(before, after, bytes),
        settled(before.data(), mem, before.address(), before.offset()),
        truthful(
            bytes,
            mem,
            (before.address() + before.offset()) as u64,
            before.request_len(),
        ),
    ensures
        settled(after.data(), mem, after.address(), after.offset()),
{
    let n = before.data().len();
    let gaps = memory::gaps_at(mem, before.address() as int, n);
    assert forall|i: int| 0 <= i < after.offset() implies #[trigger] after.data()[i] == gaps[i] by {
        if i < before.offset() {
            assert(before.data()[i] == gaps[i]);
        } else {
            let k = i - before.offset();
            if bytes.len() > 0 {
                let at = (before.address() + before.offset()) as u64;
                assert(after.data()[i] == Some(bytes[k]));
                assert(bytes[k] == mem[(at + k) as u64] && memory::readable(mem, at + k));
            }
        }
    }
}

/// A reader that is done and true holds the range as the target has it,
/// as far as the range lies in the address space.
pub proof fn lemma_done_is_whole(reader: GapReader, mem: Map<u64, u8>)
    requires
        reader.wf(),
        reader.done(),
        settled(reader.data(), mem, reader.address(), reader.offset()),
    ensures
        reader.data() == memory::gaps_at(mem, reader.address() as int, reader.data().len()),
{
    let gaps = memory::gaps_at(mem, reader.address() as int, reader.data().len());
    assert forall|i: int| 0 <= i < reader.data().len() implies reader.data()[i] == gaps[i] by {
        if i >= reader.offset() {
            assert(reader.data()[i] is None);
            assert(!memory::readable(mem, reader.address() + i));
        }
    }
    assert(reader.data() =~= gaps);
}

/// The index of the first gap from `from` on, or the length of the list.
pub open spec fn first_gap(data: Seq<Option<u8>>, from: int) -> int
    decreases data.len() - from,
{
    if from < 0 || from >= data.len() {
        data.len() as int
    } else if data[from] is None {
        from
    } else {
        first_gap(data, from + 1)
    }
}

/// The bytes before the first gap.
pub open spec fn prefix_of(data: Seq<Option<u8>>) -> Seq<u8> {
    Seq::new(first_gap(data, 0) as nat, |i: int| data[i]->Some_0)
}

/// The bytes of `data` before its first gap: what a read that stops at
/// the first refusal gives.
pub fn contiguous_prefix(data: &Vec<Option<u8>>) -> (bytes: Vec<u8>)
    ensures
        bytes@ == prefix_of(data@),
{
    let mut bytes: Vec<u8> = Vec::new();
    let mut i: usize = 0;
    while i < data.len()
        invariant
            i <= data.len(),
            first_gap(data@, 0) == first_gap(data@, i as int),
            bytes@ == Seq::new(i as nat, |k: int| data@[k]->Some_0),
        decreases data.len() - i,
    {
        match data[i] {
            Some(b) => {
                bytes.push(b);
                proof {
                    assert(bytes@ =~= Seq::new((i + 1) as nat, |k: int| data@[k]->Some_0));
                }
            },
            None => {
                return bytes;
            },
        }
        i = i + 1;
    }
    bytes
}

/// The bytes before the first gap of a range are its readable prefix:
/// cutting what `read_memory` gives at the first gap is what
/// `read_raw_memory` gives.
pub proof fn lemma_prefix_of_gaps(mem: Map<u64, u8>, addr: int, len: nat)
    ensures
        prefix_of(memory::gaps_at(mem, addr, len)) == memory::bytes_at(
            mem,
            addr,
            memory::readable_prefix_len(mem, addr, len),
        ),
{
    let gaps = memory::gaps_at(mem, addr, len);
    lemma_first_gap(gaps, 0);
    let n = first_gap(gaps, 0);
    assert forall|a: int| addr <= a < addr + n implies #[trigger] memory::readable(mem, a) by {
        assert(gaps[a - addr] is Some);
    }
    if n < len {
        assert(gaps[n] is None);
    }
    memory::lemma_readable_prefix_unique(mem, addr, len, n as nat);
    assert(prefix_of(gaps) =~= memory::bytes_at(mem, addr, n as nat)) by {
        assert forall|i: int| 0 <= i < n implies prefix_of(gaps)[i] == memory::bytes_at(
            mem,
            addr,
            n as nat,
        )[i] by {
            assert(gaps[i] is Some);
        }
    }
}

/// Before the first gap there is no gap.
proof fn lemma_first_gap(data: Seq<Option<u8>>, from: int)
    requires
        0 <= from <= data.len(),
    ensures
        from <= first_gap(data, from) <= data.len(),
        forall|i: int| from <= i < first_gap(data, from) ==> (#[trigger] data[i]) is Some,
        first_gap(data, from) < data.len() ==> data[first_gap(data, from)] is None,
    decreases data.len() - from,
{
    if from < data.len() && data[from] is Some {
        lemma_first_gap(data, from + 1);
    }
}

} // verus!
