//! Blocking SPI API.
//!
//! The capability traits here ([`Write`], [`Transfer`], [`WriteIter`]) state
//! their contracts over a shared abstract view, [`BusLog`]: the log of words
//! written to the bus and the log of responses clocked in.  [`BlockingSpi`]
//! derives all of them from a single non-blocking full-duplex primitive by
//! polling each word until it is exchanged, propagating the first hard error
//! and aborting the remaining words.

use vstd::prelude::*;

use crate::nb::spi::FullDuplex;
use crate::nb::NbError;

verus! {

/// The number of word slots a transfer with buffer lengths `m` and `n`
/// exchanges: the larger of the two.
pub open spec fn transfer_steps(m: int, n: int) -> int {
    if m >= n {
        m
    } else {
        n
    }
}

/// `n` copies of `fill`.
pub open spec fn filled_with<W>(fill: W, n: int) -> Seq<W> {
    Seq::new(n as nat, |i: int| fill)
}

/// `ws`, padded with `fill` up to length `n` (or cut to `n` if longer).
pub open spec fn padded<W>(ws: Seq<W>, fill: W, n: int) -> Seq<W> {
    if n <= ws.len() {
        ws.take(n)
    } else {
        ws + filled_with(fill, n - ws.len())
    }
}

/// After an aborted multi-word write: the first `k` of `words` were pushed
/// (`written0`, `resp0len` are the logs before the operation, `written1`,
/// `resp1len` after), and the remaining words were never attempted.
pub open spec fn write_abort<W>(
    k: int,
    words: Seq<W>,
    written0: Seq<W>,
    written1: Seq<W>,
    resp0len: int,
    resp1len: int,
) -> bool {
    0 <= k <= words.len() && written1 == written0 + words.take(k) && resp1len == resp0len + k
}

/// After an aborted transfer: `k` of the `outgoing` words were clocked (the
/// last of them may have lost its response to a read error), and the first
/// `s` responses were stored into the read buffer (`read0` before, `read1`
/// after); the rest of the buffer is untouched.
pub open spec fn transfer_abort<W>(
    k: int,
    s: int,
    outgoing: Seq<W>,
    written0: Seq<W>,
    written1: Seq<W>,
    resp0len: int,
    resp1: Seq<W>,
    read0: Seq<W>,
    read1: Seq<W>,
) -> bool {
    0 <= k <= outgoing.len()
    && (s == k || s == k - 1)
    && 0 <= s
    && written1 == written0 + outgoing.take(k)
    && resp1.len() == resp0len + k
    && read1.len() == read0.len()
    && (forall|j: int| 0 <= j < s && j < read0.len() ==> read1[j] == resp1[resp0len + j])
    && (forall|j: int| s <= j < read0.len() ==> read1[j] == read0[j])
}

/// Abstract view of a blocking SPI endpoint: the history of words pushed to
/// the bus and of the responses clocked in, one response per written word.
pub trait BusLog<W>: Sized {
    /// Well-formedness: established by constructors, preserved by every
    /// operation.
    spec fn wf(&self) -> bool;

    /// The words pushed to the bus so far, oldest first.
    spec fn written(&self) -> Seq<W>;

    /// The responses clocked in so far, one per written word.  A response
    /// that was discarded or lost still occupies its position.
    spec fn responses(&self) -> Seq<W>;

    /// Whether every operation on this endpoint is owed success.
    spec fn reliable(&self) -> bool;

    /// The word pushed to the bus when an operation has no more data to
    /// send.
    spec fn fill_word(&self) -> W;
}

/// Blocking transfer.
pub trait Transfer<W>: BusLog<W> {
    /// Error type.
    type Error;

    /// Writes `write` to the slave while reading into `read`; the buffer
    /// lengths may differ.  `transfer_steps(read.len(), write.len())` words
    /// are exchanged: beyond `write`'s length the fill word is sent, beyond
    /// `read`'s length the received word is discarded.
    fn transfer(&mut self, read: &mut Vec<W>, write: &Vec<W>) -> (r: Result<(), Self::Error>)
        requires
            old(self).wf(),
        ensures
            final(self).wf(),
            final(self).reliable() == old(self).reliable(),
            final(self).fill_word() == old(self).fill_word(),
            old(self).reliable() ==> r is Ok,
            final(self).responses().take(old(self).responses().len() as int) == old(self).responses(),
            final(read)@.len() == old(read)@.len(),
            r is Ok ==> final(self).written()
                == old(self).written()
                    + padded(write@, old(self).fill_word(), transfer_steps(old(read)@.len() as int, write@.len() as int))
                && final(self).responses().len()
                    == old(self).responses().len() + transfer_steps(old(read)@.len() as int, write@.len() as int)
                && final(read)@
                    == final(self).responses().skip(old(self).responses().len() as int).take(old(read)@.len() as int),
            r is Err ==> exists|k: int, s: int|
                transfer_abort(
                    k,
                    s,
                    padded(write@, old(self).fill_word(), transfer_steps(old(read)@.len() as int, write@.len() as int)),
                    old(self).written(),
                    final(self).written(),
                    old(self).responses().len() as int,
                    final(self).responses(),
                    old(read)@,
                    final(read)@,
                ),
    ;

    /// Writes each word of `words` to the slave and overwrites that same
    /// slot with the word received in response to it.
    fn transfer_inplace(&mut self, words: &mut Vec<W>) -> (r: Result<(), Self::Error>)
        requires
            old(self).wf(),
        ensures
            final(self).wf(),
            final(self).reliable() == old(self).reliable(),
            final(self).fill_word() == old(self).fill_word(),
            old(self).reliable() ==> r is Ok,
            final(self).responses().take(old(self).responses().len() as int) == old(self).responses(),
            final(words)@.len() == old(words)@.len(),
            r is Ok ==> final(self).written() == old(self).written() + old(words)@
                && final(self).responses().len() == old(self).responses().len() + old(words)@.len()
                && final(words)@ == final(self).responses().skip(old(self).responses().len() as int),
            r is Err ==> exists|k: int, s: int|
                transfer_abort(
                    k,
                    s,
                    old(words)@,
                    old(self).written(),
                    final(self).written(),
                    old(self).responses().len() as int,
                    final(self).responses(),
                    old(words)@,
                    final(words)@,
                ),
    ;
}

/// Blocking write.
pub trait Write<W>: BusLog<W> {
    /// Error type.
    type Error;

    /// Writes `words` to the slave, ignoring all the incoming words.
    fn write(&mut self, words: &Vec<W>) -> (r: Result<(), Self::Error>)
        requires
            old(self).wf(),
        ensures
            final(self).wf(),
            final(self).reliable() == old(self).reliable(),
            final(self).fill_word() == old(self).fill_word(),
            old(self).reliable() ==> r is Ok,
            final(self).responses().take(old(self).responses().len() as int) == old(self).responses(),
            r is Ok ==> final(self).written() == old(self).written() + words@
                && final(self).responses().len() == old(self).responses().len() + words@.len(),
            r is Err ==> exists|k: int|
                write_abort(
                    k,
                    words@,
                    old(self).written(),
                    final(self).written(),
                    old(self).responses().len() as int,
                    final(self).responses().len() as int,
                ),
    ;
}

/// Blocking write, consuming its source.
pub trait WriteIter<W>: BusLog<W> {
    /// Error type.
    type Error;

    /// Writes `words` to the slave, ignoring all the incoming words.  Each
    /// element of the source is consumed exactly once, in order, and the
    /// source is fully drained before `Ok` is returned.
    fn write_iter(&mut self, words: Vec<W>) -> (r: Result<(), Self::Error>)
        requires
            old(self).wf(),
        ensures
            final(self).wf(),
            final(self).reliable() == old(self).reliable(),
            final(self).fill_word() == old(self).fill_word(),
            old(self).reliable() ==> r is Ok,
            final(self).responses().take(old(self).responses().len() as int) == old(self).responses(),
            r is Ok ==> final(self).written() == old(self).written() + words@
                && final(self).responses().len() == old(self).responses().len() + words@.len(),
            r is Err ==> exists|k: int|
                write_abort(
                    k,
                    words@,
                    old(self).written(),
                    final(self).written(),
                    old(self).responses().len() as int,
                    final(self).responses().len() as int,
                ),
    ;
}

/// Marker capability: every operation on this endpoint is preceded by
/// asserting the chip-select pin and followed by deasserting it.  Code
/// holding an endpoint with this capability must not manipulate the select
/// line itself.
pub trait ManagedCs {

}

/// Blocking SPI endpoint derived from a non-blocking full-duplex primitive.
///
/// Each word is exchanged by polling the primitive's write until it stops
/// answering "would block", then polling the read for the response.  The
/// first hard error aborts the remaining words; words already exchanged are
/// not rolled back.
pub struct BlockingSpi<W, S> {
    /// The wrapped non-blocking device.  Using it directly while the bridge
    /// holds words in flight breaks the alternation discipline.
    pub dev: S,
    /// The word clocked out when an operation has no more data to send.
    pub fill: W,
}

impl<W, S: FullDuplex<W>> BusLog<W> for BlockingSpi<W, S> {
    /// The device has one response per sent word: nothing is in flight.
    open spec fn wf(&self) -> bool {
        self.dev.sent().len() == self.dev.received().len()
    }

    open spec fn written(&self) -> Seq<W> {
        self.dev.sent()
    }

    open spec fn responses(&self) -> Seq<W> {
        self.dev.received()
    }

    open spec fn reliable(&self) -> bool {
        self.dev.infallible()
    }

    open spec fn fill_word(&self) -> W {
        self.fill
    }
}

impl<W: Copy, S: FullDuplex<W>> BlockingSpi<W, S> {
    /// Wraps `dev`, using `fill` as the word sent when an operation runs out
    /// of data.
    pub fn new(dev: S, fill: W) -> (r: Self)
        ensures
            r.dev == dev,
            r.fill == fill,
    {
        BlockingSpi { dev, fill }
    }

    /// One blocking full-duplex exchange: polls the non-blocking write until
    /// the word is accepted, then polls the read for the response.
    fn exchange(&mut self, word: W) -> (r: Result<W, S::Error>)
        requires
            old(self).wf(),
        ensures
            final(self).wf(),
            final(self).fill == old(self).fill,
            final(self).dev.infallible() == old(self).dev.infallible(),
            old(self).dev.infallible() ==> r is Ok,
            match r {
                Result::Ok(w) => final(self).dev.sent() == old(self).dev.sent().push(word)
                    && final(self).dev.received() == old(self).dev.received().push(w),
                Result::Err(_) => (final(self).dev.sent() == old(self).dev.sent()
                    && final(self).dev.received() == old(self).dev.received())
                    || (final(self).dev.sent() == old(self).dev.sent().push(word)
                        && final(self).dev.received().len() == old(self).dev.received().len() + 1
                        && final(self).dev.received().take(old(self).dev.received().len() as int)
                            == old(self).dev.received()),
            },
    {
        loop
            invariant_except_break
                self.dev.sent() == old(self).dev.sent(),
            invariant
                old(self).dev.sent().len() == old(self).dev.received().len(),
                self.dev.received() == old(self).dev.received(),
                self.fill == old(self).fill,
                self.dev.infallible() == old(self).dev.infallible(),
            ensures
                self.dev.sent() == old(self).dev.sent().push(word),
                self.dev.received() == old(self).dev.received(),
                self.fill == old(self).fill,
                self.dev.infallible() == old(self).dev.infallible(),
            decreases self.dev.poll_budget(),
        {
            match self.dev.write(word) {
                Result::Ok(()) => { break ; },
                Result::Err(NbError::WouldBlock) => {},
                Result::Err(NbError::Other(e)) => { return Result::Err(e); },
            }
        }
        loop
            invariant
                old(self).dev.sent().len() == old(self).dev.received().len(),
                self.dev.sent() == old(self).dev.sent().push(word),
                self.dev.received() == old(self).dev.received(),
                self.fill == old(self).fill,
                self.dev.infallible() == old(self).dev.infallible(),
            decreases self.dev.poll_budget(),
        {
            match self.dev.read() {
                Result::Ok(w) => { return Result::Ok(w); },
                Result::Err(NbError::WouldBlock) => {},
                Result::Err(NbError::Other(e)) => { return Result::Err(e); },
            }
        }
    }

    /// Reads `words.len()` words into `words`, clocking out the fill word
    /// for each of them.
    pub fn read(&mut self, words: &mut Vec<W>) -> (r: Result<(), S::Error>)
        requires
            old(self).wf(),
        ensures
            final(self).wf(),
            final(self).reliable() == old(self).reliable(),
            final(self).fill_word() == old(self).fill_word(),
            old(self).reliable() ==> r is Ok,
            final(self).responses().take(old(self).responses().len() as int) == old(self).responses(),
            final(words)@.len() == old(words)@.len(),
            r is Ok ==> final(self).written() == old(self).written()
                    + filled_with(old(self).fill_word(), old(words)@.len() as int)
                && final(self).responses().len() == old(self).responses().len() + old(words)@.len()
                && final(words)@ == final(self).responses().skip(old(self).responses().len() as int),
            r is Err ==> exists|k: int, s: int|
                transfer_abort(
                    k,
                    s,
                    filled_with(old(self).fill_word(), old(words)@.len() as int),
                    old(self).written(),
                    final(self).written(),
                    old(self).responses().len() as int,
                    final(self).responses(),
                    old(words)@,
                    final(words)@,
                ),
    {
        let outgoing: Vec<W> = Vec::new();
        let ghost m = old(words)@.len() as int;
        let r = self.transfer(words, &outgoing);
        proof {
            assert(padded(outgoing@, old(self).fill_word(), transfer_steps(m, 0)) =~= filled_with(
                old(self).fill_word(),
                m,
            ));
            if r is Ok {
                assert(words@ =~= self.responses().skip(old(self).responses().len() as int));
            }
        }
        r
    }
}

impl<W: Copy, S: FullDuplex<W>> Transfer<W> for BlockingSpi<W, S> {
    type Error = S::Error;

    #[verifier::loop_isolation(false)]
    fn transfer(&mut self, read: &mut Vec<W>, write: &Vec<W>) -> (r: Result<(), S::Error>) {
        let m = read.len();
        let n = write.len();
        let steps = if m >= n { m } else { n };
        let ghost outgoing = padded(write@, self.fill, steps as int);
        let mut i: usize = 0;
        while i < steps
            invariant
                i <= steps,
                m == old(read)@.len(),
                n == write@.len(),
                steps == transfer_steps(m as int, n as int),
                outgoing == padded(write@, old(self).fill_word(), steps as int),
                read@.len() == m,
                self.wf(),
                self.fill == old(self).fill,
                self.dev.infallible() == old(self).dev.infallible(),
                self.dev.received().take(old(self).dev.received().len() as int) == old(self).dev.received(),
                self.dev.sent() == old(self).dev.sent() + outgoing.take(i as int),
                self.dev.received().len() == old(self).dev.received().len() + i,
                forall|j: int| 0 <= j < i && j < m
                    ==> read@[j] == self.dev.received()[old(self).dev.received().len() + j],
                forall|j: int| i <= j < m ==> read@[j] == old(read)@[j],
            decreases steps - i,
        {
            let w = if i < n { write[i] } else { self.fill };
            proof {
                assert(outgoing[i as int] == w);
            }
            match self.exchange(w) {
                Result::Ok(resp) => {
                    if i < m {
                        read.set(i, resp);
                    }
                    proof {
                        assert(self.dev.received().take(old(self).dev.received().len() as int) =~= old(self).dev.received());
                        assert(self.dev.sent() =~= old(self).dev.sent() + outgoing.take(i as int + 1));
                    }
                },
                Result::Err(e) => {
                    proof {
                        assert(self.dev.received().take(old(self).dev.received().len() as int) =~= old(self).dev.received());
                        let r0 = old(self).responses().len() as int;
                        if self.dev.sent() == old(self).dev.sent() + outgoing.take(i as int) {
                            assert(transfer_abort(i as int, i as int, outgoing, old(self).written(),
                                self.written(), r0, self.responses(), old(read)@, read@));
                        } else {
                            assert(self.dev.sent() =~= old(self).dev.sent() + outgoing.take(i as int + 1));
                            assert(transfer_abort(i as int + 1, i as int, outgoing, old(self).written(),
                                self.written(), r0, self.responses(), old(read)@, read@));
                        }
                        assert(exists|k: int, s: int|
                            transfer_abort(k, s, outgoing, old(self).written(), self.written(), r0,
                                self.responses(), old(read)@, read@));
                    }
                    return Result::Err(e);
                },
            }
            i = i + 1;
        }
        proof {
            assert(self.dev.sent() =~= old(self).dev.sent() + outgoing);
            assert(read@ =~= self.dev.received().skip(old(self).dev.received().len() as int).take(m as int));
        }
        Result::Ok(())
    }

    #[verifier::loop_isolation(false)]
    fn transfer_inplace(&mut self, words: &mut Vec<W>) -> (r: Result<(), S::Error>) {
        let len = words.len();
        let mut i: usize = 0;
        while i < len
            invariant
                i <= len,
                len == old(words)@.len(),
                words@.len() == len,
                self.wf(),
                self.fill == old(self).fill,
                self.dev.infallible() == old(self).dev.infallible(),
                self.dev.received().take(old(self).dev.received().len() as int) == old(self).dev.received(),
                self.dev.sent() == old(self).dev.sent() + old(words)@.take(i as int),
                self.dev.received().len() == old(self).dev.received().len() + i,
                forall|j: int| 0 <= j < i
                    ==> words@[j] == self.dev.received()[old(self).dev.received().len() + j],
                forall|j: int| i <= j < len ==> words@[j] == old(words)@[j],
            decreases len - i,
        {
            let w = words[i];
            match self.exchange(w) {
                Result::Ok(resp) => {
                    words.set(i, resp);
                    proof {
                        assert(self.dev.received().take(old(self).dev.received().len() as int) =~= old(self).dev.received());
                        assert(self.dev.sent() =~= old(self).dev.sent() + old(words)@.take(i as int + 1));
                    }
                },
                Result::Err(e) => {
                    proof {
                        assert(self.dev.received().take(old(self).dev.received().len() as int) =~= old(self).dev.received());
                        let r0 = old(self).responses().len() as int;
                        if self.dev.sent() == old(self).dev.sent() + old(words)@.take(i as int) {
                            assert(transfer_abort(i as int, i as int, old(words)@, old(self).written(),
                                self.written(), r0, self.responses(), old(words)@, words@));
                        } else {
                            assert(self.dev.sent() =~= old(self).dev.sent() + old(words)@.take(i as int + 1));
                            assert(transfer_abort(i as int + 1, i as int, old(words)@, old(self).written(),
                                self.written(), r0, self.responses(), old(words)@, words@));
                        }
                        assert(exists|k: int, s: int|
                            transfer_abort(k, s, old(words)@, old(self).written(), self.written(), r0,
                                self.responses(), old(words)@, words@));
                    }
                    return Result::Err(e);
                },
            }
            i = i + 1;
        }
        proof {
            assert(self.dev.sent() =~= old(self).dev.sent() + old(words)@);
            assert(words@ =~= self.dev.received().skip(old(self).dev.received().len() as int));
        }
        Result::Ok(())
    }
}

impl<W: Copy, S: FullDuplex<W>> Write<W> for BlockingSpi<W, S> {
    type Error = S::Error;

    #[verifier::loop_isolation(false)]
    fn write(&mut self, words: &Vec<W>) -> (r: Result<(), S::Error>) {
        let mut i: usize = 0;
        while i < words.len()
            invariant
                i <= words@.len(),
                self.wf(),
                self.fill == old(self).fill,
                self.dev.infallible() == old(self).dev.infallible(),
                self.dev.received().take(old(self).dev.received().len() as int) == old(self).dev.received(),
                self.dev.sent() == old(self).dev.sent() + words@.take(i as int),
                self.dev.received().len() == old(self).dev.received().len() + i,
            decreases words@.len() - i,
        {
            match self.exchange(words[i]) {
                Result::Ok(_) => {
                    proof {
                        assert(self.dev.received().take(old(self).dev.received().len() as int) =~= old(self).dev.received());
                        assert(self.dev.sent() =~= old(self).dev.sent() + words@.take(i as int + 1));
                    }
                },
                Result::Err(e) => {
                    proof {
                        assert(self.dev.received().take(old(self).dev.received().len() as int) =~= old(self).dev.received());
                        let r0 = old(self).responses().len() as int;
                        let r1 = self.responses().len() as int;
                        if self.dev.sent() == old(self).dev.sent() + words@.take(i as int) {
                            assert(write_abort(i as int, words@, old(self).written(), self.written(), r0, r1));
                        } else {
                            assert(self.dev.sent() =~= old(self).dev.sent() + words@.take(i as int + 1));
                            assert(write_abort(i as int + 1, words@, old(self).written(), self.written(), r0, r1));
                        }
                        assert(exists|k: int|
                            write_abort(k, words@, old(self).written(), self.written(), r0, r1));
                    }
                    return Result::Err(e);
                },
            }
            i = i + 1;
        }
        proof {
            assert(words@.take(words@.len() as int) =~= words@);
        }
        Result::Ok(())
    }
}

impl<W: Copy, S: FullDuplex<W>> WriteIter<W> for BlockingSpi<W, S> {
    type Error = S::Error;

    fn write_iter(&mut self, words: Vec<W>) -> (r: Result<(), S::Error>) {
        Write::write(self, &words)
    }
}


/// Operation for transactional SPI trait.
///
/// This allows composition of SPI operations into a single bus transaction.
#[derive(Debug, PartialEq)]
pub enum Operation<W> {
    /// Write data from the provided buffer, discarding read data.
    Write(Vec<W>),
    /// Write data out while reading the responses into the same buffer.
    Transfer(Vec<W>),
}

/// The words an operation pushes to the bus: a write sends its buffer, a
/// transfer sends the contents its buffer held before being overwritten.
pub open spec fn op_payload<W>(op: Operation<W>) -> Seq<W> {
    match op {
        Operation::Write(w) => w@,
        Operation::Transfer(t) => t@,
    }
}

/// The words a sequence of operations pushes to the bus, in order.
pub open spec fn ops_payload<W>(ops: Seq<Operation<W>>) -> Seq<W>
    decreases ops.len(),
{
    if ops.len() == 0 {
        Seq::empty()
    } else {
        op_payload(ops[0]) + ops_payload(ops.skip(1))
    }
}

/// Where operation `j`'s words start within the payload of `ops`.
pub open spec fn op_offset<W>(ops: Seq<Operation<W>>, j: int) -> int {
    ops_payload(ops.take(j)).len() as int
}

/// How an operation looks after it was executed, when the responses to its
/// words were `resp`: a write is returned untouched, a transfer's buffer
/// holds the responses.
pub open spec fn op_executed<W>(before: Operation<W>, after: Operation<W>, resp: Seq<W>) -> bool {
    match before {
        Operation::Write(w0) => after == Operation::Write(w0),
        Operation::Transfer(t0) => after matches Operation::Transfer(t1) && t1@ == resp
            && resp.len() == t0@.len(),
    }
}

/// An operation keeps its variant and its buffer length whatever happens to
/// it; a write is never modified at all.
pub open spec fn op_shape<W>(before: Operation<W>, after: Operation<W>) -> bool {
    match before {
        Operation::Write(w0) => after == Operation::Write(w0),
        Operation::Transfer(t0) => after matches Operation::Transfer(t1) && t1@.len() == t0@.len(),
    }
}

/// After an aborted transaction: the operations before `x` were executed,
/// the `x`-th was attempted and failed part-way, and the ones after it were
/// never started.
pub open spec fn exec_abort<W>(
    x: int,
    before: Seq<Operation<W>>,
    after: Seq<Operation<W>>,
    written0: Seq<W>,
    written1: Seq<W>,
    resp0len: int,
    resp1: Seq<W>,
) -> bool {
    0 <= x < before.len()
    && after.len() == before.len()
    && (forall|j: int| 0 <= j < x ==> op_executed(
        before[j],
        after[j],
        resp1.subrange(resp0len + op_offset(before, j), resp0len + op_offset(before, j + 1)),
    ))
    && op_shape(before[x], after[x])
    && (forall|j: int| x < j < before.len() ==> after[j] == before[j])
    && (written0 + ops_payload(before.take(x))).is_prefix_of(written1)
    && written1.is_prefix_of(written0 + ops_payload(before.take(x + 1)))
    && resp1.len() == resp0len + written1.len() - written0.len()
}

/// The payload of `ops.take(j + 1)` extends the payload of `ops.take(j)` by
/// the words of `ops[j]`.
pub proof fn lemma_ops_payload_take_succ<W>(ops: Seq<Operation<W>>, j: int)
    requires
        0 <= j < ops.len(),
    ensures
        ops_payload(ops.take(j + 1)) == ops_payload(ops.take(j)) + op_payload(ops[j]),
    decreases j,
{
    if j == 0 {
        assert(ops.take(1).len() == 1);
        assert(ops.take(1)[0] == ops[0]);
        assert(ops.take(1).skip(1) =~= Seq::<Operation<W>>::empty());
        assert(ops_payload(ops.take(1))
            == op_payload(ops.take(1)[0]) + ops_payload(ops.take(1).skip(1)));
        assert(ops_payload(Seq::<Operation<W>>::empty()) == Seq::<W>::empty());
        assert(ops_payload(ops.take(1)) =~= op_payload(ops[0]));
        assert(ops.take(0) =~= Seq::<Operation<W>>::empty());
        assert(ops_payload(ops.take(0)) + op_payload(ops[0]) =~= op_payload(ops[0]));
    } else {
        let tail = ops.skip(1);
        lemma_ops_payload_take_succ(tail, j - 1);
        assert(ops.take(j + 1).skip(1) =~= tail.take(j));
        assert(ops.take(j).skip(1) =~= tail.take(j - 1));
        assert(tail[j - 1] == ops[j]);
        assert(ops_payload(ops.take(j + 1)) =~= ops_payload(ops.take(j)) + op_payload(ops[j]));
    }
}

/// The payload of a longer prefix of `ops` is at least as long.
pub proof fn lemma_ops_payload_take_le<W>(ops: Seq<Operation<W>>, a: int, b: int)
    requires
        0 <= a <= b <= ops.len(),
    ensures
        ops_payload(ops.take(a)).len() <= ops_payload(ops.take(b)).len(),
    decreases b - a,
{
    if a < b {
        lemma_ops_payload_take_succ(ops, b - 1);
        lemma_ops_payload_take_le(ops, a, b - 1);
    }
}

/// Appends the whole contents of `rest`, in order, to `done`.
#[verifier::loop_isolation(false)]
fn reassemble<W>(done: &mut Vec<Operation<W>>, rest: &mut Vec<Operation<W>>)
    ensures
        final(done)@ == old(done)@ + old(rest)@,
        final(rest)@.len() == 0,
{
    while rest.len() > 0
        invariant
            done@ + rest@ == old(done)@ + old(rest)@,
        decreases rest@.len(),
    {
        let op = rest.remove(0);
        done.push(op);
        proof {
            assert(done@ + rest@ =~= old(done)@ + old(rest)@);
        }
    }
    proof {
        assert(done@ =~= done@ + rest@);
    }
}

/// Re-establishes the loop facts of [`Transactional::exec`] after operation
/// `d` succeeded: `recv_d` is the response log just before the operation,
/// `sent0`/`recv0` the logs before the whole transaction, `sent1`/`recv1`
/// the logs now, and `done` the processed operations including `d`.
proof fn exec_step_glue<W>(
    ops: Seq<Operation<W>>,
    d: int,
    done: Seq<Operation<W>>,
    recv_d: Seq<W>,
    sent0: Seq<W>,
    sent1: Seq<W>,
    recv0: Seq<W>,
    recv1: Seq<W>,
)
    requires
        0 <= d < ops.len(),
        done.len() == d + 1,
        recv_d.len() == recv0.len() + ops_payload(ops.take(d)).len(),
        recv_d.take(recv0.len() as int) == recv0,
        sent1 == sent0 + ops_payload(ops.take(d)) + op_payload(ops[d]),
        recv1.len() == recv_d.len() + op_payload(ops[d]).len(),
        recv1.take(recv_d.len() as int) == recv_d,
        forall|j: int| 0 <= j < d ==> op_executed(
            ops[j],
            done[j],
            recv_d.subrange(recv0.len() + op_offset(ops, j), recv0.len() + op_offset(ops, j + 1)),
        ),
        op_executed(
            ops[d],
            done[d],
            recv1.subrange(recv_d.len() as int, recv_d.len() + op_payload(ops[d]).len() as int),
        ),
    ensures
        sent1 == sent0 + ops_payload(ops.take(d + 1)),
        recv1.len() == recv0.len() + ops_payload(ops.take(d + 1)).len(),
        recv1.take(recv0.len() as int) == recv0,
        forall|j: int| 0 <= j < d + 1 ==> op_executed(
            ops[j],
            done[j],
            recv1.subrange(recv0.len() + op_offset(ops, j), recv0.len() + op_offset(ops, j + 1)),
        ),
{
    lemma_ops_payload_take_succ(ops, d);
    assert(sent1 =~= sent0 + ops_payload(ops.take(d + 1)));
    assert forall|x: int| 0 <= x < recv_d.len() implies recv1[x] == recv_d[x] by {
        assert(recv1.take(recv_d.len() as int)[x] == recv_d[x]);
    }
    assert forall|x: int| 0 <= x < recv0.len() implies recv_d[x] == recv0[x] by {
        assert(recv_d.take(recv0.len() as int)[x] == recv0[x]);
    }
    assert(recv1.take(recv0.len() as int) =~= recv0);
    assert forall|j: int| 0 <= j < d + 1 implies op_executed(
        ops[j],
        done[j],
        recv1.subrange(recv0.len() + op_offset(ops, j), recv0.len() + op_offset(ops, j + 1)),
    ) by {
        if j < d {
            lemma_ops_payload_take_le(ops, j, j + 1);
            lemma_ops_payload_take_le(ops, j + 1, d);
            assert(recv1.subrange(
                recv0.len() + op_offset(ops, j),
                recv0.len() + op_offset(ops, j + 1),
            ) =~= recv_d.subrange(
                recv0.len() + op_offset(ops, j),
                recv0.len() + op_offset(ops, j + 1),
            ));
        } else {
            assert(recv0.len() + op_offset(ops, d) == recv_d.len());
            assert(op_offset(ops, d + 1) == op_offset(ops, d) + op_payload(ops[d]).len());
        }
    }
}

/// Establishes the abort description of [`Transactional::exec`] after
/// operation `d` failed, with the buffers already reassembled into `done`.
proof fn exec_abort_glue<W>(
    ops: Seq<Operation<W>>,
    d: int,
    done: Seq<Operation<W>>,
    recv_d: Seq<W>,
    sent0: Seq<W>,
    sent1: Seq<W>,
    recv0: Seq<W>,
    recv1: Seq<W>,
)
    requires
        0 <= d < ops.len(),
        done.len() == ops.len(),
        recv_d.len() == recv0.len() + ops_payload(ops.take(d)).len(),
        recv_d.take(recv0.len() as int) == recv0,
        recv1.take(recv_d.len() as int) == recv_d,
        forall|j: int| 0 <= j < d ==> op_executed(
            ops[j],
            done[j],
            recv_d.subrange(recv0.len() + op_offset(ops, j), recv0.len() + op_offset(ops, j + 1)),
        ),
        op_shape(ops[d], done[d]),
        forall|j: int| d < j < ops.len() ==> done[j] == ops[j],
        (sent0 + ops_payload(ops.take(d))).is_prefix_of(sent1),
        sent1.is_prefix_of(sent0 + ops_payload(ops.take(d + 1))),
        recv1.len() == recv0.len() + sent1.len() - sent0.len(),
    ensures
        exec_abort(d, ops, done, sent0, sent1, recv0.len() as int, recv1),
        recv1.take(recv0.len() as int) == recv0,
{
    assert forall|x: int| 0 <= x < recv_d.len() implies recv1[x] == recv_d[x] by {
        assert(recv1.take(recv_d.len() as int)[x] == recv_d[x]);
    }
    assert forall|x: int| 0 <= x < recv0.len() implies recv_d[x] == recv0[x] by {
        assert(recv_d.take(recv0.len() as int)[x] == recv0[x]);
    }
    assert(recv1.take(recv0.len() as int) =~= recv0);
    assert forall|j: int| 0 <= j < d implies op_executed(
        ops[j],
        done[j],
        recv1.subrange(recv0.len() + op_offset(ops, j), recv0.len() + op_offset(ops, j + 1)),
    ) by {
        lemma_ops_payload_take_le(ops, j, j + 1);
        lemma_ops_payload_take_le(ops, j + 1, d);
        assert(recv1.subrange(
            recv0.len() + op_offset(ops, j),
            recv0.len() + op_offset(ops, j + 1),
        ) =~= recv_d.subrange(
            recv0.len() + op_offset(ops, j),
            recv0.len() + op_offset(ops, j + 1),
        ));
    }
}

/// Transactional trait allows multiple actions to be executed as part of a
/// single SPI transaction.
pub trait Transactional<W>: BusLog<W> {
    /// Associated error type.
    type Error;

    /// Executes the provided operations, in order; the first error aborts
    /// the remaining ones, and nothing already executed is undone.
    fn exec(&mut self, operations: &mut Vec<Operation<W>>) -> (r: Result<(), Self::Error>)
        requires
            old(self).wf(),
        ensures
            final(self).wf(),
            final(self).reliable() == old(self).reliable(),
            final(self).fill_word() == old(self).fill_word(),
            old(self).reliable() ==> r is Ok,
            final(self).responses().take(old(self).responses().len() as int) == old(self).responses(),
            final(operations)@.len() == old(operations)@.len(),
            r is Ok ==> final(self).written() == old(self).written() + ops_payload(old(operations)@)
                && final(self).responses().len() == old(self).responses().len()
                    + ops_payload(old(operations)@).len()
                && (forall|j: int| 0 <= j < old(operations)@.len() ==> op_executed(
                    old(operations)@[j],
                    final(operations)@[j],
                    final(self).responses().subrange(
                        old(self).responses().len() + op_offset(old(operations)@, j),
                        old(self).responses().len() + op_offset(old(operations)@, j + 1),
                    ),
                )),
            r is Err ==> exists|x: int|
                exec_abort(
                    x,
                    old(operations)@,
                    final(operations)@,
                    old(self).written(),
                    final(self).written(),
                    old(self).responses().len() as int,
                    final(self).responses(),
                ),
    ;
}

impl<W: Copy, S: FullDuplex<W>> Transactional<W> for BlockingSpi<W, S> {
    type Error = S::Error;

    #[verifier::loop_isolation(false)]
    fn exec(&mut self, operations: &mut Vec<Operation<W>>) -> (r: Result<(), S::Error>) {
        let n = operations.len();
        let mut done: Vec<Operation<W>> = Vec::new();
        while done.len() < n
            invariant
                done@.len() <= n,
                n == old(operations)@.len(),
                operations@ == old(operations)@.skip(done@.len() as int),
                self.wf(),
                self.fill == old(self).fill,
                self.dev.infallible() == old(self).dev.infallible(),
                self.dev.received().take(old(self).dev.received().len() as int)
                    == old(self).dev.received(),
                self.dev.sent() == old(self).dev.sent()
                    + ops_payload(old(operations)@.take(done@.len() as int)),
                self.dev.received().len() == old(self).dev.received().len()
                    + ops_payload(old(operations)@.take(done@.len() as int)).len(),
                forall|j: int| 0 <= j < done@.len() ==> op_executed(
                    old(operations)@[j],
                    done@[j],
                    self.dev.received().subrange(
                        old(self).dev.received().len() + op_offset(old(operations)@, j),
                        old(self).dev.received().len() + op_offset(old(operations)@, j + 1),
                    ),
                ),
            decreases n - done@.len(),
        {
            let ghost d = done@.len() as int;
            let ghost recv_d = self.dev.received();
            let ghost base = old(self).dev.sent() + ops_payload(old(operations)@.take(d));
            let ghost c0 = old(self).dev.received().len()
                + ops_payload(old(operations)@.take(d)).len();
            let op = operations.remove(0);
            proof {
                assert(operations@ =~= old(operations)@.skip(d + 1));
                assert(op == old(operations)@[d]);
                lemma_ops_payload_take_succ(old(operations)@, d);
            }
            match op {
                Operation::Write(w) => {
                    match Write::write(self, &w) {
                        Result::Ok(_) => {
                            done.push(Operation::Write(w));
                        },
                        Result::Err(e) => {
                            done.push(Operation::Write(w));
                            reassemble(&mut done, operations);
                            proof {
                                let k = choose|k: int|
                                    write_abort(k, w@, base, self.dev.sent(), c0 as int,
                                        self.dev.received().len() as int);
                                assert(self.dev.sent().take(base.len() as int) =~= base);
                                assert(old(self).dev.sent() + ops_payload(
                                    old(operations)@.take(d + 1)) =~= base + w@);
                                assert((base + w@).take(self.dev.sent().len() as int)
                                    =~= self.dev.sent());
                            }
                            proof {
                                exec_abort_glue(old(operations)@, d, done@, recv_d,
                                    old(self).dev.sent(), self.dev.sent(),
                                    old(self).dev.received(), self.dev.received());
                                assert(exec_abort(d, old(operations)@, done@,
                                    old(self).written(), self.written(),
                                    old(self).responses().len() as int, self.responses()));
                                assert(exists|x: int| exec_abort(x, old(operations)@, done@,
                                    old(self).written(), self.written(),
                                    old(self).responses().len() as int, self.responses()));
                            }
                            *operations = done;
                            return Result::Err(e);
                        },
                    }
                    proof {
                        exec_step_glue(old(operations)@, d, done@, recv_d,
                            old(self).dev.sent(), self.dev.sent(),
                            old(self).dev.received(), self.dev.received());
                    }
                },
                Operation::Transfer(mut t) => {
                    let ghost t0 = t@;
                    match Transfer::transfer_inplace(self, &mut t) {
                        Result::Ok(_) => {
                            proof {
                                assert(t@ =~= self.dev.received().subrange(c0 as int,
                                    c0 as int + t0.len() as int));
                            }
                            done.push(Operation::Transfer(t));
                        },
                        Result::Err(e) => {
                            done.push(Operation::Transfer(t));
                            reassemble(&mut done, operations);
                            proof {
                                let (k, s) = choose|k: int, s: int|
                                    transfer_abort(k, s, t0, base, self.dev.sent(), c0 as int,
                                        self.dev.received(), t0, t@);
                                assert(self.dev.sent().take(base.len() as int) =~= base);
                                assert(old(self).dev.sent() + ops_payload(
                                    old(operations)@.take(d + 1)) =~= base + t0);
                                assert((base + t0).take(self.dev.sent().len() as int)
                                    =~= self.dev.sent());
                            }
                            proof {
                                exec_abort_glue(old(operations)@, d, done@, recv_d,
                                    old(self).dev.sent(), self.dev.sent(),
                                    old(self).dev.received(), self.dev.received());
                                assert(exec_abort(d, old(operations)@, done@,
                                    old(self).written(), self.written(),
                                    old(self).responses().len() as int, self.responses()));
                                assert(exists|x: int| exec_abort(x, old(operations)@, done@,
                                    old(self).written(), self.written(),
                                    old(self).responses().len() as int, self.responses()));
                            }
                            *operations = done;
                            return Result::Err(e);
                        },
                    }
                    proof {
                        exec_step_glue(old(operations)@, d, done@, recv_d,
                            old(self).dev.sent(), self.dev.sent(),
                            old(self).dev.received(), self.dev.received());
                    }
                },
            }
        }
        *operations = done;
        proof {
            assert(old(operations)@.take(n as int) =~= old(operations)@);
        }
        Result::Ok(())
    }
}

} // verus!
