//! The socket driver.
//!
//! A [`Driver`] owns the non-blocking transport's two directions: an
//! outbound queue of encoded lines, drained chunk by chunk as the transport
//! accepts bytes, and an inbound [`LineDecoder`]. It is a re-entrant state
//! machine: the surrounding loop performs one read or write, reports the
//! outcome, and parks the driver when the transport would block; no state
//! is lost between suspension and resumption. The driver carries the proof
//! that the bytes handed to the transport are exactly the encodings of the
//! enqueued lines, in order — a partially accepted line resumes from its
//! exact unsent remainder.

use vstd::prelude::*;
use vstd::slice::{slice_subrange, slice_to_vec};
use std::collections::VecDeque;
use crate::codec::{decode_all, encode_line, encode_line_spec, first_nl_from, LineDecoder};
use crate::network::Output;

verus! {

/// The concatenation of a sequence of byte chunks, in order.
pub open spec fn concat_bytes(chunks: Seq<Seq<u8>>) -> Seq<u8>
    decreases chunks.len(),
{
    if chunks.len() == 0 {
        Seq::empty()
    } else {
        chunks.first() + concat_bytes(chunks.drop_first())
    }
}

proof fn lemma_concat_bytes_push(chunks: Seq<Seq<u8>>, x: Seq<u8>)
    ensures
        concat_bytes(chunks.push(x)) == concat_bytes(chunks) + x,
    decreases chunks.len(),
{
    if chunks.len() == 0 {
        assert(chunks.push(x).drop_first() =~= Seq::<Seq<u8>>::empty());
        assert(chunks.push(x).first() == x);
        assert(concat_bytes(Seq::<Seq<u8>>::empty()) == Seq::<u8>::empty());
        assert(concat_bytes(chunks.push(x)) == x + Seq::<u8>::empty());
        assert(concat_bytes(chunks.push(x)) =~= concat_bytes(chunks) + x);
    } else {
        assert(chunks.push(x).drop_first() =~= chunks.drop_first().push(x));
        lemma_concat_bytes_push(chunks.drop_first(), x);
        assert(concat_bytes(chunks.push(x)) =~= concat_bytes(chunks) + x);
    }
}

/// The byte stream that carries the given lines: each line's wire encoding,
/// in order.
pub open spec fn wire_bytes(lines: Seq<Seq<char>>) -> Seq<u8> {
    concat_bytes(lines.map_values(|l: Seq<char>| encode_line_spec(l)))
}

/// The driver's phase. `Idle` decides between receiving and sending;
/// `Receiving` awaits one read; `Sending` drains the queue write by write;
/// `FlushingTransport` awaits the transport's own buffer; `Closed` is
/// terminal.
#[derive(Clone, Copy, Debug, PartialEq, Eq, Structural)]
pub enum DriverState {
    Idle,
    Receiving,
    Sending,
    FlushingTransport,
    Closed,
}

/// The non-blocking transport driver: the outbound queue, the partial
/// progress of the current write, and the inbound decode buffer.
pub struct Driver {
    state: DriverState,
    queue: VecDeque<Vec<u8>>,
    decoder: LineDecoder,
    accepted: Ghost<Seq<u8>>,
    enqueued: Ghost<Seq<Seq<char>>>,
}

impl Driver {
    /// The driver's phase.
    pub closed spec fn state_v(&self) -> DriverState {
        self.state
    }

    /// The encoded chunks awaiting the transport; the head may be the
    /// unsent remainder of a partially accepted line.
    pub closed spec fn pending(&self) -> Seq<Seq<u8>> {
        Seq::new(self.queue@.len(), |i: int| self.queue@[i]@)
    }

    /// Every byte the transport has accepted so far, in order.
    pub closed spec fn accepted_bytes(&self) -> Seq<u8> {
        self.accepted@
    }

    /// Every line ever enqueued for sending, in order.
    pub closed spec fn enqueued_lines(&self) -> Seq<Seq<char>> {
        self.enqueued@
    }

    /// The inbound decoder.
    pub closed spec fn decoder_v(&self) -> LineDecoder {
        self.decoder
    }

    /// No byte is lost, duplicated or reordered: what the transport has
    /// accepted, followed by what still awaits it, is exactly the wire
    /// encoding of the enqueued lines. The inbound decoder is well formed.
    pub closed spec fn wf(&self) -> bool {
        &&& self.accepted@ + concat_bytes(self.pending()) == wire_bytes(self.enqueued@)
        &&& self.decoder.wf()
    }

    /// A fresh driver, idle, with nothing queued and nothing buffered.
    pub fn new() -> (d: Driver)
        ensures
            d.wf(),
            d.state_v() == DriverState::Idle,
            d.pending() == Seq::<Seq<u8>>::empty(),
            d.accepted_bytes() == Seq::<u8>::empty(),
            d.enqueued_lines() == Seq::<Seq<char>>::empty(),
            d.decoder_v().fed() == Seq::<u8>::empty(),
            d.decoder_v().emitted() == Seq::<Seq<char>>::empty(),
    {
        let d = Driver {
            state: DriverState::Idle,
            queue: VecDeque::new(),
            decoder: LineDecoder::new(),
            accepted: Ghost(Seq::empty()),
            enqueued: Ghost(Seq::empty()),
        };
        proof {
            assert(d.pending() =~= Seq::<Seq<u8>>::empty());
            assert(d.enqueued@.map_values(|l: Seq<char>| encode_line_spec(l)) =~= Seq::<
                Seq<u8>,
            >::empty());
            assert(d.accepted@ + concat_bytes(d.pending()) =~= wire_bytes(d.enqueued@));
        }
        d
    }

    /// The Idle decision: go to Sending when lines await, to Receiving
    /// otherwise.
    pub fn step_idle(&mut self)
        requires
            old(self).wf(),
            old(self).state_v() == DriverState::Idle,
        ensures
            final(self).wf(),
            final(self).state_v() == if old(self).pending().len() == 0 {
                DriverState::Receiving
            } else {
                DriverState::Sending
            },
            final(self).pending() == old(self).pending(),
            final(self).accepted_bytes() == old(self).accepted_bytes(),
            final(self).enqueued_lines() == old(self).enqueued_lines(),
            final(self).decoder_v() == old(self).decoder_v(),
    {
        if self.queue.len() == 0 {
            self.state = DriverState::Receiving;
        } else {
            self.state = DriverState::Sending;
        }
    }

    /// The driver's current phase, for the loop that hosts it.
    pub fn state(&self) -> (s: DriverState)
        ensures
            s == self.state_v(),
    {
        self.state
    }

    /// Feeds bytes the transport delivered while receiving.
    pub fn on_read(&mut self, data: &[u8])
        requires
            old(self).wf(),
            old(self).state_v() == DriverState::Receiving,
        ensures
            final(self).wf(),
            final(self).state_v() == DriverState::Receiving,
            final(self).decoder_v().fed() == old(self).decoder_v().fed() + data@,
            final(self).decoder_v().emitted() == old(self).decoder_v().emitted(),
            final(self).pending() == old(self).pending(),
            final(self).accepted_bytes() == old(self).accepted_bytes(),
            final(self).enqueued_lines() == old(self).enqueued_lines(),
    {
        self.decoder.feed(data);
    }

    /// Takes the next decoded line, returning to Idle when one is
    /// available; with none buffered the driver stays in Receiving and the
    /// host parks it until the transport is readable again. A buffer
    /// without a line feed yields nothing and is left untouched.
    pub fn poll_line(&mut self) -> (r: Option<String>)
        requires
            old(self).wf(),
            old(self).state_v() == DriverState::Receiving,
        ensures
            final(self).wf(),
            r matches Some(l) ==> final(self).decoder_v().emitted() == old(
                self,
            ).decoder_v().emitted().push(l@) && final(self).state_v() == DriverState::Idle && seq![
                l@,
            ] + decode_all(final(self).decoder_v().buffered()) == decode_all(
                old(self).decoder_v().buffered(),
            ),
            r is None ==> final(self).decoder_v().emitted() == old(self).decoder_v().emitted()
                && final(self).state_v() == DriverState::Receiving && first_nl_from(
                final(self).decoder_v().buffered(),
                0,
            ) == final(self).decoder_v().buffered().len(),
            first_nl_from(old(self).decoder_v().buffered(), 0) == old(
                self,
            ).decoder_v().buffered().len() ==> r is None && final(self).decoder_v().buffered()
                == old(self).decoder_v().buffered(),
            final(self).decoder_v().fed() == old(self).decoder_v().fed(),
            final(self).pending() == old(self).pending(),
            final(self).accepted_bytes() == old(self).accepted_bytes(),
            final(self).enqueued_lines() == old(self).enqueued_lines(),
    {
        let r = self.decoder.next_line();
        if r.is_some() {
            self.state = DriverState::Idle;
        }
        r
    }

    /// The end of the inbound stream: the driver closes.
    pub fn on_eof(&mut self)
        requires
            old(self).wf(),
            old(self).state_v() == DriverState::Receiving,
        ensures
            final(self).wf(),
            final(self).state_v() == DriverState::Closed,
    {
        self.state = DriverState::Closed;
    }

    /// The Sending decision: done with the queue, move on to flushing the
    /// transport; otherwise keep sending.
    pub fn step_sending(&mut self) -> (more: bool)
        requires
            old(self).wf(),
            old(self).state_v() == DriverState::Sending,
        ensures
            final(self).wf(),
            more == (old(self).pending().len() > 0),
            final(self).state_v() == if more {
                DriverState::Sending
            } else {
                DriverState::FlushingTransport
            },
            final(self).pending() == old(self).pending(),
            final(self).accepted_bytes() == old(self).accepted_bytes(),
            final(self).enqueued_lines() == old(self).enqueued_lines(),
            final(self).decoder_v() == old(self).decoder_v(),
    {
        if self.queue.len() == 0 {
            self.state = DriverState::FlushingTransport;
            false
        } else {
            true
        }
    }

    /// The bytes the transport should be offered next: the head chunk,
    /// which is the oldest line not yet fully accepted.
    pub fn head_chunk(&self) -> (r: &Vec<u8>)
        requires
            self.state_v() == DriverState::Sending,
            self.pending().len() > 0,
        ensures
            r@ == self.pending()[0],
    {
        &self.queue[0]
    }

    /// Records that the transport accepted the first `n` bytes of the head
    /// chunk: a fully accepted chunk leaves the queue, and a partial one is
    /// requeued at the head as its exact unsent remainder.
    pub fn on_wrote(&mut self, n: usize)
        requires
            old(self).wf(),
            old(self).state_v() == DriverState::Sending,
            old(self).pending().len() > 0,
            n <= old(self).pending()[0].len(),
        ensures
            final(self).wf(),
            final(self).state_v() == DriverState::Sending,
            final(self).accepted_bytes() == old(self).accepted_bytes() + old(self).pending()[0].subrange(
                0,
                n as int,
            ),
            final(self).pending() == if n == old(self).pending()[0].len() {
                old(self).pending().drop_first()
            } else {
                seq![old(self).pending()[0].subrange(n as int, old(self).pending()[0].len() as int)]
                    + old(self).pending().drop_first()
            },
            final(self).enqueued_lines() == old(self).enqueued_lines(),
            final(self).decoder_v() == old(self).decoder_v(),
    {
        let ghost oldp = self.pending();
        let head = match self.queue.pop_front() {
            Some(h) => h,
            None => {
                proof {
                    assert(false);
                }
                Vec::new()
            },
        };
        let taken = slice_subrange(head.as_slice(), 0, n);
        self.accepted = Ghost(self.accepted@ + taken@);
        if n < head.len() {
            let remainder = slice_to_vec(slice_subrange(head.as_slice(), n, head.len()));
            self.queue.push_front(remainder);
        }
        proof {
            let newp = self.pending();
            let rem = oldp[0].subrange(n as int, oldp[0].len() as int);
            assert(head@ == oldp[0]);
            assert(oldp.first() == oldp[0]);
            assert(concat_bytes(oldp) == oldp[0] + concat_bytes(oldp.drop_first()));
            if n == head.len() {
                assert(newp =~= oldp.drop_first());
                assert(taken@ =~= oldp[0]);
                assert(self.accepted@ + concat_bytes(newp) =~= old(self).accepted@ + concat_bytes(
                    oldp,
                ));
            } else {
                assert(newp =~= seq![rem] + oldp.drop_first());
                assert(newp.first() == rem);
                assert(newp.drop_first() =~= oldp.drop_first());
                assert(concat_bytes(newp) == newp.first() + concat_bytes(newp.drop_first()));
                assert(taken@ + rem =~= oldp[0]);
                assert(self.accepted@ + concat_bytes(newp) =~= old(self).accepted@ + concat_bytes(
                    oldp,
                ));
            }
        }
    }

    /// The transport's own buffer has drained: back to Idle, re-checking
    /// the queue, since lines may have been enqueued meanwhile.
    pub fn on_flushed(&mut self)
        requires
            old(self).wf(),
            old(self).state_v() == DriverState::FlushingTransport,
        ensures
            final(self).wf(),
            final(self).state_v() == DriverState::Idle,
            final(self).pending() == old(self).pending(),
            final(self).accepted_bytes() == old(self).accepted_bytes(),
            final(self).enqueued_lines() == old(self).enqueued_lines(),
            final(self).decoder_v() == old(self).decoder_v(),
    {
        self.state = DriverState::Idle;
    }

    /// Cancellation: close the transport at any point. The driver is
    /// terminal from here; what the queue still holds is never offered to
    /// the transport again.
    pub fn close(&mut self)
        requires
            old(self).wf(),
        ensures
            final(self).wf(),
            final(self).state_v() == DriverState::Closed,
            final(self).accepted_bytes() == old(self).accepted_bytes(),
            final(self).enqueued_lines() == old(self).enqueued_lines(),
    {
        self.state = DriverState::Closed;
    }

    /// Enqueues one line for sending: its wire encoding joins the back of
    /// the queue. Enqueuing touches no transport state: the phase, the
    /// bytes already accepted and the inbound decoder stay as they were,
    /// so a host may enqueue at any point and take the driver on from its
    /// current phase.
    pub fn send(&mut self, line: String)
        requires
            old(self).wf(),
        ensures
            final(self).wf(),
            final(self).enqueued_lines() == old(self).enqueued_lines().push(line@),
            final(self).pending() == old(self).pending().push(encode_line_spec(line@)),
            final(self).state_v() == old(self).state_v(),
            final(self).accepted_bytes() == old(self).accepted_bytes(),
            final(self).decoder_v() == old(self).decoder_v(),
    {
        let chunk = encode_line(line.as_str());
        let ghost oldp = self.pending();
        self.queue.push_back(chunk);
        self.enqueued = Ghost(self.enqueued@.push(line@));
        proof {
            assert(self.pending() =~= oldp.push(encode_line_spec(line@)));
            lemma_concat_bytes_push(oldp, encode_line_spec(line@));
            assert(old(self).enqueued@.push(line@).map_values(|l: Seq<char>| encode_line_spec(l))
                =~= old(self).enqueued@.map_values(|l: Seq<char>| encode_line_spec(l)).push(
                encode_line_spec(line@),
            ));
            lemma_concat_bytes_push(
                old(self).enqueued@.map_values(|l: Seq<char>| encode_line_spec(l)),
                encode_line_spec(line@),
            );
            assert(self.accepted@ + concat_bytes(self.pending()) =~= (self.accepted@
                + concat_bytes(oldp)) + encode_line_spec(line@));
            assert(self.accepted@ + concat_bytes(self.pending()) == wire_bytes(self.enqueued@));
        }
    }
}

impl Output for Driver {
    open spec fn wf(&self) -> bool {
        Driver::wf(self)
    }

    open spec fn lines(&self) -> Seq<Seq<char>> {
        self.enqueued_lines()
    }

    fn send(&mut self, line: String) {
        Driver::send(self, line);
    }
}

/// The transport never sees bytes out of order: at every instant, what it
/// has accepted is a prefix of the wire encoding of the enqueued lines.
pub proof fn lemma_accepted_is_prefix(d: &Driver)
    requires
        d.wf(),
    ensures
        d.accepted_bytes().len() <= wire_bytes(d.enqueued_lines()).len(),
        d.accepted_bytes() == wire_bytes(d.enqueued_lines()).subrange(
            0,
            d.accepted_bytes().len() as int,
        ),
{
    assert(d.accepted_bytes() + concat_bytes(d.pending()) == wire_bytes(d.enqueued_lines()));
    assert(d.accepted_bytes() =~= wire_bytes(d.enqueued_lines()).subrange(
        0,
        d.accepted_bytes().len() as int,
    ));
}

/// The inbound side of the driver inherits the decoder's chunking law:
/// once no complete line remains buffered, the lines the driver has
/// delivered are exactly the lines of every byte the transport produced,
/// however the reads were split.
pub proof fn lemma_driver_delivered_everything(d: &Driver)
    requires
        d.wf(),
        crate::codec::first_nl_from(d.decoder_v().buffered(), 0) == d.decoder_v().buffered().len(),
    ensures
        d.decoder_v().emitted() == crate::codec::decode_all(d.decoder_v().fed()),
{
    crate::codec::lemma_decoder_complete(&d.decoder);
}

/// Once the outbound queue has drained, the transport has accepted exactly
/// the wire encodings of the enqueued lines, in order — nothing lost,
/// duplicated, reordered or corrupted, however the transport split its
/// acceptances.
pub proof fn lemma_drained_driver_sent_everything(d: &Driver)
    requires
        d.wf(),
        d.pending().len() == 0,
    ensures
        d.accepted_bytes() == wire_bytes(d.enqueued_lines()),
{
    assert(concat_bytes(d.pending()) =~= Seq::<u8>::empty());
    assert(d.accepted_bytes() =~= d.accepted_bytes() + concat_bytes(d.pending()));
}

} // verus!
