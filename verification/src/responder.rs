//! The streaming responder: one JSON array, emitted incrementally.
//!
//! Rows arrive one at a time as pre-rendered byte items. The responder frames
//! them as a single JSON array, buffering at most one batch of items before
//! handing a chunk to the transport, so the memory held at any moment is
//! bounded by the batch size and never by the result size. The concatenation
//! of everything handed out is exactly the array of everything pushed.

use vstd::prelude::*;

use crate::render::push_bytes;

verus! {

/// The bytes of the JSON array holding `items`, before the closing bracket:
/// an opening bracket, then the items separated by commas.
pub open spec fn render_open(items: Seq<Seq<u8>>) -> Seq<u8>
    decreases items.len(),
{
    if items.len() == 0 {
        seq![91u8]
    } else if items.len() == 1 {
        seq![91u8] + items.last()
    } else {
        render_open(items.drop_last()) + seq![44u8] + items.last()
    }
}

/// The complete JSON array holding `items`.
pub open spec fn render_array(items: Seq<Seq<u8>>) -> Seq<u8> {
    render_open(items) + seq![93u8]
}

/// Streams rows out as one JSON array, holding at most one batch of rows in
/// its buffer at any time.
pub struct StreamingResponder {
    batch: usize,
    pending: Vec<u8>,
    pending_items: usize,
    started: bool,
    items: Ghost<Seq<Seq<u8>>>,
    emitted: Ghost<Seq<u8>>,
}

impl StreamingResponder {
    /// Every item pushed so far.
    pub closed spec fn pushed(self) -> Seq<Seq<u8>> {
        self.items@
    }

    /// Every byte handed out so far.
    pub closed spec fn flushed(self) -> Seq<u8> {
        self.emitted@
    }

    /// The configured batch size.
    pub closed spec fn batch_size(self) -> int {
        self.batch as int
    }

    /// How many items the buffer currently holds.
    pub closed spec fn buffered_items(self) -> int {
        self.pending_items as int
    }

    /// The bytes the buffer currently holds.
    pub closed spec fn buffered_bytes(self) -> Seq<u8> {
        self.pending@
    }

    /// The separator bookkeeping matches the item count.
    pub closed spec fn separators_consistent(self) -> bool {
        self.started <==> self.items@.len() > 0
    }

    /// The responder's invariant: the buffer holds strictly less than one
    /// batch of items, and the bytes handed out followed by the buffered
    /// bytes are exactly the array prefix of the items pushed so far.
    pub open spec fn wf(self) -> bool {
        &&& self.batch_size() >= 1
        &&& 0 <= self.buffered_items() < self.batch_size()
        &&& self.flushed() + self.buffered_bytes() == render_open(self.pushed())
        &&& self.separators_consistent()
    }

    /// A fresh responder that will flush after every `batch` items.
    pub fn new(batch: usize) -> (s: StreamingResponder)
        requires
            batch >= 1,
        ensures
            s.wf(),
            s.pushed() == Seq::<Seq<u8>>::empty(),
            s.flushed() == Seq::<u8>::empty(),
            s.batch_size() == batch,
            s.buffered_items() == 0,
    {
        let mut pending: Vec<u8> = Vec::new();
        pending.push(91);
        let s = StreamingResponder {
            batch,
            pending,
            pending_items: 0,
            started: false,
            items: Ghost(Seq::empty()),
            emitted: Ghost(Seq::empty()),
        };
        proof {
            assert(s.emitted@ + s.pending@ =~= render_open(s.items@));
        }
        s
    }

    /// Accept one more item. When this fills the batch, the buffered bytes
    /// are handed out as a chunk and the buffer empties; otherwise nothing is
    /// handed out yet.
    pub fn push(&mut self, item: &Vec<u8>) -> (chunk: Option<Vec<u8>>)
        requires
            old(self).wf(),
        ensures
            final(self).wf(),
            final(self).batch_size() == old(self).batch_size(),
            final(self).pushed() == old(self).pushed().push(item@),
            chunk is Some <==> old(self).buffered_items() + 1 == old(self).batch_size(),
            final(self).buffered_items() == (if chunk is Some {
                0int
            } else {
                old(self).buffered_items() + 1
            }),
            chunk matches Some(c) ==> final(self).flushed() == old(self).flushed() + c@,
            chunk is None ==> final(self).flushed() == old(self).flushed(),
    {
        let ghost prior = self.items@;
        if self.started {
            self.pending.push(44);
        } else {
            self.started = true;
        }
        push_bytes(&mut self.pending, item.as_slice());
        self.pending_items = self.pending_items + 1;
        self.items = Ghost(prior.push(item@));
        proof {
            assert(prior.push(item@).drop_last() =~= prior);
            assert(self.emitted@ + self.pending@ =~= render_open(self.items@));
        }
        if self.pending_items == self.batch {
            let mut chunk: Vec<u8> = Vec::new();
            core::mem::swap(&mut chunk, &mut self.pending);
            self.pending_items = 0;
            self.emitted = Ghost(self.emitted@ + chunk@);
            proof {
                assert(self.emitted@ + self.pending@ =~= render_open(self.items@));
            }
            Some(chunk)
        } else {
            None
        }
    }

    /// Close the array: hand out the remaining buffered bytes and the closing
    /// bracket. Everything handed out over the responder's lifetime is
    /// exactly the JSON array of everything pushed.
    pub fn finish(self) -> (tail: Vec<u8>)
        requires
            self.wf(),
        ensures
            self.flushed() + tail@ == render_array(self.pushed()),
    {
        let StreamingResponder { pending: mut out, items, emitted, .. } = self;
        out.push(93);
        proof {
            assert(emitted@ + out@ =~= render_array(items@));
        }
        out
    }
}

/// The views of a sequence of byte vectors.
pub open spec fn views_of(rows: Seq<Vec<u8>>) -> Seq<Seq<u8>>
    decreases rows.len(),
{
    if rows.len() == 0 {
        Seq::empty()
    } else {
        views_of(rows.drop_last()).push(rows.last()@)
    }
}

/// The concatenation of a sequence of byte vectors.
pub open spec fn concat_chunks(cs: Seq<Vec<u8>>) -> Seq<u8>
    decreases cs.len(),
{
    if cs.len() == 0 {
        Seq::empty()
    } else {
        concat_chunks(cs.drop_last()) + cs.last()@
    }
}

/// Stream pre-rendered rows as one JSON array in bounded batches: the chunks
/// concatenate to exactly the array of the rows, and no more than one batch
/// of rows is ever buffered while producing them.
pub fn stream_rows(rows: &Vec<Vec<u8>>, batch: usize) -> (chunks: Vec<Vec<u8>>)
    requires
        batch >= 1,
    ensures
        concat_chunks(chunks@) == render_array(views_of(rows@)),
        chunks@.len() == rows@.len() as int / batch as int + 1,
{
    let mut r = StreamingResponder::new(batch);
    let mut chunks: Vec<Vec<u8>> = Vec::new();
    let mut i: usize = 0;
    while i < rows.len()
        invariant
            r.wf(),
            r.batch_size() == batch as int,
            i <= rows@.len(),
            r.pushed() == views_of(rows@.take(i as int)),
            concat_chunks(chunks@) == r.flushed(),
            r.buffered_items() == i as int % (batch as int),
            chunks@.len() == i as int / (batch as int),
        decreases rows@.len() - i,
    {
        let ghost pre = rows@.take(i as int);
        let ghost post = rows@.take(i as int + 1);
        proof {
            assert(post.drop_last() =~= pre);
            assert(post.last() == rows@[i as int]);
        }
        let c = r.push(&rows[i]);
        proof {
            // One more item either fills the batch, flushing a chunk, or
            // grows the buffer: the division bookkeeping steps accordingly.
            let b = batch as int;
            let q = i as int / b;
            let rem = i as int % b;
            vstd::arithmetic::div_mod::lemma_fundamental_div_mod(i as int, b);
            assert(b * q == q * b) by (nonlinear_arith);
            assert((q + 1) * b == q * b + b) by (nonlinear_arith);
            if rem + 1 == b {
                vstd::arithmetic::div_mod::lemma_fundamental_div_mod_converse(
                    i as int + 1,
                    b,
                    q + 1,
                    0,
                );
            } else {
                vstd::arithmetic::div_mod::lemma_fundamental_div_mod_converse(
                    i as int + 1,
                    b,
                    q,
                    rem + 1,
                );
            }
        }
        match c {
            Some(chunk) => {
                let ghost cs = chunks@;
                proof {
                    assert(cs.push(chunk).drop_last() =~= cs);
                }
                chunks.push(chunk);
            },
            None => {},
        }
        i += 1;
    }
    proof {
        assert(rows@.take(rows@.len() as int) =~= rows@);
    }
    let tail = r.finish();
    let ghost cs = chunks@;
    proof {
        assert(cs.push(tail).drop_last() =~= cs);
    }
    chunks.push(tail);
    chunks
}

} // verus!
