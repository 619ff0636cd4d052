//! One transfer stream: the bytes it asks for, where each received piece goes in
//! the output file, and when it has failed.
use vstd::prelude::*;
use vstd::string::StringExecFns;
use crate::range::ByteRange;
use crate::text::{decimal, decimal_string};

verus! {

/// What makes a stream fail on its own account.
#[derive(Clone, Copy, Debug, PartialEq, Eq, Structural)]
pub enum ChunkError {
    /// The server sent more bytes than the range holds.
    Overrun,
    /// The body ended before the whole range arrived.
    Incomplete,
}

/// The state of one stream: it writes from `start` on, up to `end` inclusive when it
/// fetches a range, and has `written` bytes so far.
#[derive(Clone, Copy, Debug, PartialEq, Eq, Structural)]
pub struct ChunkWorker {
    pub start: u64,
    pub end: Option<u64>,
    pub written: u64,
}

/// The value of a `Range` request header: `bytes=start-end`, or `bytes=start-` for an
/// open-ended stream.
pub open spec fn range_header_spec(start: u64, end: Option<u64>) -> Seq<char> {
    seq!['b', 'y', 't', 'e', 's', '='] + decimal(start as nat) + seq!['-'] + match end {
        Some(e) => decimal(e as nat),
        None => Seq::empty(),
    }
}

/// The file `file` after `data` is written at `offset`: the written bytes replace
/// what was there, a gap past the old end reads as zeros, all else is kept.
pub open spec fn write_at(file: Seq<u8>, offset: int, data: Seq<u8>) -> Seq<u8> {
    let len = if offset + data.len() > file.len() {
        offset + data.len()
    } else {
        file.len() as int
    };
    Seq::new(
        len as nat,
        |x: int|
            if offset <= x < offset + data.len() {
                data[x - offset]
            } else if x < file.len() {
                file[x]
            } else {
                0u8
            },
    )
}

/// Applies the writes `(offset, bytes)` in order.
pub open spec fn apply_writes(file: Seq<u8>, writes: Seq<(int, Seq<u8>)>) -> Seq<u8>
    decreases writes.len(),
{
    if writes.len() == 0 {
        file
    } else {
        write_at(
            apply_writes(file, writes.drop_last()),
            writes.last().0,
            writes.last().1,
        )
    }
}

/// Each write lies within `[lo, hi]`.
pub open spec fn writes_within(writes: Seq<(int, Seq<u8>)>, lo: int, hi: int) -> bool {
    forall|i: int|
        0 <= i < writes.len() ==> lo <= (#[trigger] writes[i]).0 && writes[i].0 + writes[i].1.len()
            <= hi + 1
}

/// Writes that stay within `[lo, hi]` of a file that already reaches past `hi` leave
/// the file's length and every byte outside `[lo, hi]` as they were.
pub proof fn lemma_writes_within_keep_outside(
    file: Seq<u8>,
    writes: Seq<(int, Seq<u8>)>,
    lo: int,
    hi: int,
)
    requires
        writes_within(writes, lo, hi),
        hi < file.len(),
    ensures
        apply_writes(file, writes).len() == file.len(),
        forall|x: int|
            0 <= x < file.len() && !(lo <= x <= hi) ==> #[trigger] apply_writes(file, writes)[x]
                == file[x],
    decreases writes.len(),
{
    if writes.len() > 0 {
        let rest = writes.drop_last();
        assert(writes_within(rest, lo, hi)) by {
            assert forall|i: int| 0 <= i < rest.len() implies lo <= (#[trigger] rest[i]).0
                && rest[i].0 + rest[i].1.len() <= hi + 1 by {
                assert(rest[i] == writes[i]);
            }
        }
        lemma_writes_within_keep_outside(file, rest, lo, hi);
        assert(lo <= writes[writes.len() - 1].0);
    }
}

impl ChunkWorker {
    /// A worker is well formed when what it wrote fits in its range, whose end is a
    /// byte offset of a file, or in those offsets for an open-ended stream.
    pub open spec fn wf(&self) -> bool {
        match self.end {
            Some(e) => self.start <= e < u64::MAX && self.start + self.written <= e + 1,
            None => self.start + self.written <= u64::MAX,
        }
    }

    /// Offset at which the next received byte goes.
    pub open spec fn cursor(&self) -> int {
        self.start + self.written
    }

    /// Whether `k` more bytes still fit.
    pub open spec fn fits(&self, k: u64) -> bool {
        match self.end {
            Some(e) => self.cursor() + k <= e + 1,
            None => self.cursor() + k <= u64::MAX,
        }
    }

    /// A worker for the inclusive range `r`, with nothing written yet.
    pub fn for_range(r: ByteRange) -> (w: Self)
        requires
            r.wf(),
            r.end < u64::MAX,
        ensures
            w.wf(),
            w == (ChunkWorker { start: r.start, end: Some(r.end), written: 0 }),
    {
        ChunkWorker { start: r.start, end: Some(r.end), written: 0 }
    }

    /// A worker for a sequential stream that writes from offset `from` on.
    pub fn single_stream(from: u64) -> (w: Self)
        ensures
            w.wf(),
            w == (ChunkWorker { start: from, end: None, written: 0 }),
    {
        ChunkWorker { start: from, end: None, written: 0 }
    }

    /// The `Range` header to send, if any: the whole range of a ranged worker, the
    /// rest of the resource for a stream that starts past offset 0, and none for a
    /// stream from 0.
    pub fn range_header(&self) -> (h: Option<String>)
        ensures
            match h {
                Some(s) => (self.end is Some || self.start > 0) && s@ == range_header_spec(
                    self.start,
                    self.end,
                ),
                None => self.end is None && self.start == 0,
            },
    {
        if self.end.is_none() && self.start == 0 {
            return None;
        }
        let mut s = String::from_str("bytes=");
        let first = decimal_string(self.start);
        s.append(first.as_str());
        s.append("-");
        match self.end {
            Some(e) => {
                let last = decimal_string(e);
                s.append(last.as_str());
            },
            None => {},
        }
        proof {
            reveal_strlit("bytes=");
            reveal_strlit("-");
        }
        assert(s@ =~= range_header_spec(self.start, self.end));
        Some(s)
    }

    /// Takes `k` received bytes: returns the file offset to write them at and counts
    /// them, or fails with `Overrun`, writing nothing, when they do not fit.
    pub fn accept(&mut self, k: u64) -> (r: Result<u64, ChunkError>)
        requires
            old(self).wf(),
        ensures
            final(self).wf(),
            final(self).start == old(self).start,
            final(self).end == old(self).end,
            old(self).fits(k) ==> r == Ok::<u64, ChunkError>(old(self).cursor() as u64)
                && final(self).written == old(self).written + k,
            !old(self).fits(k) ==> r == Err::<u64, ChunkError>(ChunkError::Overrun)
                && *final(self) == *old(self),
    {
        let cursor: u64 = self.start + self.written;
        let fits = match self.end {
            Some(e) => k <= (e + 1) - cursor,
            None => k <= u64::MAX - cursor,
        };
        if !fits {
            return Err(ChunkError::Overrun);
        }
        self.written = self.written + k;
        Ok(cursor)
    }

    /// The server ignored the range and sent the whole resource: an open-ended stream
    /// that started past 0 starts over at 0 (the caller empties the file) and the
    /// result says so; any other worker is kept, and a whole body that does not fit
    /// its range then overruns.
    pub fn restart_on_full_body(&mut self) -> (restarted: bool)
        requires
            old(self).wf(),
            old(self).written == 0,
        ensures
            final(self).wf(),
            restarted == (old(self).end is None && old(self).start > 0),
            restarted ==> *final(self) == (ChunkWorker { start: 0, end: None, written: 0 }),
            !restarted ==> *final(self) == *old(self),
    {
        if self.end.is_none() && self.start > 0 {
            self.start = 0;
            true
        } else {
            false
        }
    }

    /// The body has ended: a ranged worker must have received its whole range.
    pub fn finish(&self) -> (r: Result<(), ChunkError>)
        requires
            self.wf(),
        ensures
            match self.end {
                Some(e) => (r is Ok) == (self.cursor() == e + 1) && (r is Err ==> r == Err::<
                    (),
                    ChunkError,
                >(ChunkError::Incomplete)),
                None => r is Ok,
            },
    {
        match self.end {
            Some(e) => if self.written == e - self.start + 1 {
                Ok(())
            } else {
                Err(ChunkError::Incomplete)
            },
            None => Ok(()),
        }
    }
}

/// Every write that a ranged worker accepts lies within its range, so a file that
/// already reaches past the range keeps its length and every byte outside it.
pub proof fn lemma_accepted_write_in_range(w: ChunkWorker, k: u64, file: Seq<u8>, data: Seq<u8>)
    requires
        w.wf(),
        w.end is Some,
        w.fits(k),
        data.len() == k,
        w.end->0 < file.len(),
    ensures
        w.start <= w.cursor(),
        w.cursor() + k <= w.end->0 + 1,
        write_at(file, w.cursor(), data).len() == file.len(),
        forall|x: int|
            0 <= x < file.len() && !(w.start <= x <= w.end->0) ==> #[trigger] write_at(
                file,
                w.cursor(),
                data,
            )[x] == file[x],
{
}

/// The pieces of a body joined in order.
pub open spec fn join_pieces(pieces: Seq<Seq<u8>>) -> Seq<u8>
    decreases pieces.len(),
{
    if pieces.len() == 0 {
        Seq::empty()
    } else {
        join_pieces(pieces.drop_last()) + pieces.last()
    }
}

/// The writes a worker starting at `start` makes for a body that arrives as
/// `pieces`: each piece goes at `start` plus the bytes received before it, the
/// offset that `accept` hands out.
pub open spec fn piece_writes(start: int, pieces: Seq<Seq<u8>>) -> Seq<(int, Seq<u8>)>
    decreases pieces.len(),
{
    if pieces.len() == 0 {
        Seq::empty()
    } else {
        piece_writes(start, pieces.drop_last()).push(
            (start + join_pieces(pieces.drop_last()).len(), pieces.last()),
        )
    }
}

/// A body written into the range `[start, end]` of a file that already reaches past
/// `end`, however it is cut into pieces, leaves the file's length and every byte
/// outside the range as they were, and puts the body's bytes, in order, from
/// `start` on.
pub proof fn lemma_body_fills_range(
    file: Seq<u8>,
    start: int,
    end: int,
    pieces: Seq<Seq<u8>>,
)
    requires
        0 <= start,
        start + join_pieces(pieces).len() <= end + 1,
        end < file.len(),
    ensures
        writes_within(piece_writes(start, pieces), start, end),
        apply_writes(file, piece_writes(start, pieces)).len() == file.len(),
        forall|x: int|
            0 <= x < file.len() && !(start <= x <= end) ==> #[trigger] apply_writes(
                file,
                piece_writes(start, pieces),
            )[x] == file[x],
        forall|k: int|
            0 <= k < join_pieces(pieces).len() ==> #[trigger] apply_writes(
                file,
                piece_writes(start, pieces),
            )[start + k] == join_pieces(pieces)[k],
    decreases pieces.len(),
{
    let ws = piece_writes(start, pieces);
    if pieces.len() > 0 {
        let rest = pieces.drop_last();
        let last = pieces.last();
        let joined = join_pieces(rest);
        assert(join_pieces(pieces) == joined + last);
        lemma_body_fills_range(file, start, end, rest);
        let ws0 = piece_writes(start, rest);
        assert(ws.drop_last() == ws0);
        assert(writes_within(ws, start, end)) by {
            assert forall|i: int| 0 <= i < ws.len() implies start <= (#[trigger] ws[i]).0
                && ws[i].0 + ws[i].1.len() <= end + 1 by {
                if i < ws0.len() {
                    assert(ws[i] == ws0[i]);
                }
            }
        }
        let f0 = apply_writes(file, ws0);
        let f1 = apply_writes(file, ws);
        assert(f1 == write_at(f0, start + joined.len(), last));
        assert forall|k: int| 0 <= k < join_pieces(pieces).len() implies #[trigger] f1[start + k]
            == join_pieces(pieces)[k] by {
            if k < joined.len() {
                assert(f0[start + k] == joined[k]);
            }
        }
    }
    lemma_writes_within_keep_outside(file, ws, start, end);
}

} // verus!
