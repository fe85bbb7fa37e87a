//! Datagram framing of the local transport.
//!
//! A logical message is split into chunks of at most `CHUNK_SIZE`
//! bytes, sent as successive datagrams, and closed by exactly one
//! zero-length datagram.  The receiver concatenates datagrams until it
//! sees the zero-length terminator.  Chunking removes the transport's
//! datagram size limit; the zero-length terminator makes the message
//! boundary explicit, even when the payload length is an exact
//! multiple of the chunk size.

use vstd::prelude::*;

verus! {

/// The largest datagram the transport layer is asked to carry.
pub const CHUNK_SIZE: usize = 2048;

/// The datagrams that carry a message: ceiling(len / chunk) full or
/// partial chunks, then one empty terminator.  A message of length an
/// exact multiple of the chunk size gets no ragged tail chunk and
/// still exactly one terminator.
pub open spec fn spec_frame(msg: Seq<u8>) -> Seq<Seq<u8>>
    decreases msg.len(),
{
    if msg.len() == 0 {
        seq![Seq::empty()]
    } else if msg.len() <= CHUNK_SIZE {
        seq![msg, Seq::empty()]
    } else {
        seq![msg.subrange(0, CHUNK_SIZE as int)] + spec_frame(
            msg.subrange(CHUNK_SIZE as int, msg.len() as int),
        )
    }
}

/// What a receiver reassembles from a sequence of datagrams: the
/// concatenation of everything before the first empty datagram, or
/// nothing when no empty datagram ever arrives.
pub open spec fn spec_reassemble(datagrams: Seq<Seq<u8>>) -> Option<Seq<u8>>
    decreases datagrams.len(),
{
    if datagrams.len() == 0 {
        None
    } else if datagrams[0].len() == 0 {
        Some(Seq::empty())
    } else {
        match spec_reassemble(datagrams.drop_first()) {
            Some(rest) => Some(datagrams[0] + rest),
            None => None,
        }
    }
}

/// Framing terminates with exactly one empty datagram: the last one,
/// and no other.
pub proof fn lemma_frame_shape(msg: Seq<u8>)
    ensures
        spec_frame(msg).len() >= 1,
        spec_frame(msg).last().len() == 0,
        forall|i: int|
            0 <= i < spec_frame(msg).len() - 1 ==> 0 < #[trigger] spec_frame(msg)[i].len()
                <= CHUNK_SIZE,
    decreases msg.len(),
{
    if msg.len() == 0 {
    } else if msg.len() <= CHUNK_SIZE {
    } else {
        lemma_frame_shape(msg.subrange(CHUNK_SIZE as int, msg.len() as int));
        let head = seq![msg.subrange(0, CHUNK_SIZE as int)];
        let tail = spec_frame(msg.subrange(CHUNK_SIZE as int, msg.len() as int));
        assert(spec_frame(msg) == head + tail);
        assert((head + tail).last() == tail.last());
        assert forall|i: int| 0 <= i < (head + tail).len() - 1 implies 0 < #[trigger] (head
            + tail)[i].len() <= CHUNK_SIZE by {
            if i == 0 {
                assert((head + tail)[0] == msg.subrange(0, CHUNK_SIZE as int));
            } else {
                assert((head + tail)[i] == tail[i - 1]);
            }
        }
    }
}

/// Reassembling a framed message yields the original bytes.
pub proof fn lemma_frame_reassemble(msg: Seq<u8>)
    ensures
        spec_reassemble(spec_frame(msg)) == Some(msg),
    decreases msg.len(),
{
    if msg.len() == 0 {
        assert(spec_frame(msg)[0].len() == 0);
        assert(msg =~= Seq::<u8>::empty());
    } else if msg.len() <= CHUNK_SIZE {
        let d = spec_frame(msg);
        assert(d[0] == msg);
        assert(d.drop_first() =~= seq![Seq::<u8>::empty()]);
        assert(spec_reassemble(d.drop_first()) == Some(Seq::<u8>::empty()));
        assert(msg + Seq::<u8>::empty() =~= msg);
    } else {
        let head = msg.subrange(0, CHUNK_SIZE as int);
        let rest = msg.subrange(CHUNK_SIZE as int, msg.len() as int);
        lemma_frame_reassemble(rest);
        let d = spec_frame(msg);
        assert(d == seq![head] + spec_frame(rest));
        assert(d[0] == head);
        assert(d.drop_first() =~= spec_frame(rest));
        assert(head + rest =~= msg);
    }
}

/// Split a message into its datagrams, ready to send in order.
pub fn frame_message(msg: &Vec<u8>) -> (r: Vec<Vec<u8>>)
    ensures
        r.deep_view() == spec_frame(msg@),
{
    let mut out: Vec<Vec<u8>> = Vec::new();
    let mut pos: usize = 0;
    proof {
        assert(msg@.subrange(0, msg@.len() as int) =~= msg@);
        assert(out.deep_view() =~= Seq::<Seq<u8>>::empty());
        assert(Seq::<Seq<u8>>::empty() + spec_frame(msg@) =~= spec_frame(msg@));
    }
    while msg.len() - pos > CHUNK_SIZE
        invariant
            pos <= msg@.len(),
            pos % CHUNK_SIZE == 0,
            spec_frame(msg@) == out.deep_view() + spec_frame(
                msg@.subrange(pos as int, msg@.len() as int),
            ),
        decreases msg@.len() - pos,
    {
        let ghost before = out.deep_view();
        let ghost remaining = msg@.subrange(pos as int, msg@.len() as int);
        let chunk = vstd::slice::slice_to_vec(
            vstd::slice::slice_subrange(msg.as_slice(), pos, pos + CHUNK_SIZE),
        );
        proof {
            assert(remaining.len() > CHUNK_SIZE);
            assert(spec_frame(remaining) == seq![remaining.subrange(0, CHUNK_SIZE as int)]
                + spec_frame(remaining.subrange(CHUNK_SIZE as int, remaining.len() as int)));
            assert(remaining.subrange(0, CHUNK_SIZE as int) =~= chunk@);
            assert(remaining.subrange(CHUNK_SIZE as int, remaining.len() as int) =~= msg@.subrange(
                pos + CHUNK_SIZE,
                msg@.len() as int,
            ));
        }
        out.push(chunk);
        pos = pos + CHUNK_SIZE;
        proof {
            assert(out.deep_view() =~~= before.push(chunk@));
            assert(before.push(chunk@) + spec_frame(msg@.subrange(pos as int, msg@.len() as int))
                =~= before + (seq![chunk@] + spec_frame(
                msg@.subrange(pos as int, msg@.len() as int),
            )));
        }
    }
    let ghost before = out.deep_view();
    let ghost remaining = msg@.subrange(pos as int, msg@.len() as int);
    if pos < msg.len() {
        let chunk = vstd::slice::slice_to_vec(
            vstd::slice::slice_subrange(msg.as_slice(), pos, msg.len()),
        );
        proof {
            assert(chunk@ =~= remaining);
            assert(spec_frame(remaining) == seq![remaining, Seq::<u8>::empty()]);
        }
        out.push(chunk);
        let empty: Vec<u8> = Vec::new();
        out.push(empty);
        proof {
            assert(out.deep_view() =~~= before + seq![remaining, Seq::<u8>::empty()]);
        }
    } else {
        proof {
            assert(remaining.len() == 0);
            assert(spec_frame(remaining) == seq![Seq::<u8>::empty()]);
        }
        let empty: Vec<u8> = Vec::new();
        out.push(empty);
        proof {
            assert(out.deep_view() =~~= before + seq![Seq::<u8>::empty()]);
        }
    }
    out
}

/// Concatenate received datagrams up to the first empty one; nothing
/// when no empty datagram is present (the peer vanished mid-message).
pub fn reassemble(datagrams: &Vec<Vec<u8>>) -> (r: Option<Vec<u8>>)
    ensures
        match r {
            Some(msg) => spec_reassemble(datagrams.deep_view()) == Some(msg@),
            None => spec_reassemble(datagrams.deep_view()) is None,
        },
{
    let ghost all = datagrams.deep_view();
    let mut out: Vec<u8> = Vec::new();
    let mut i: usize = 0;
    proof {
        assert(all.subrange(0, all.len() as int) =~= all);
        match spec_reassemble(all) {
            Some(rest) => {
                assert(Seq::<u8>::empty() + rest =~= rest);
            },
            None => {
            },
        }
    }
    while i < datagrams.len()
        invariant
            i <= all.len(),
            all == datagrams.deep_view(),
            all.len() == datagrams@.len(),
            forall|k: int| 0 <= k < i ==> #[trigger] all[k].len() > 0,
            spec_reassemble(all) == (match spec_reassemble(all.subrange(i as int, all.len() as int)) {
                Some(rest) => Some(out@ + rest),
                None => None,
            }),
        decreases all.len() - i,
    {
        let ghost before = out@;
        let ghost remaining = all.subrange(i as int, all.len() as int);
        if datagrams[i].len() == 0 {
            proof {
                assert(remaining[0] == all[i as int]);
                assert(spec_reassemble(remaining) == Some(Seq::<u8>::empty()));
                assert(out@ + Seq::<u8>::empty() =~= out@);
            }
            return Some(out);
        }
        crate::wire::push_bytes(&mut out, &datagrams[i]);
        i = i + 1;
        proof {
            assert(remaining[0] == all[i - 1]);
            assert(remaining.drop_first() =~= all.subrange(i as int, all.len() as int));
            match spec_reassemble(all.subrange(i as int, all.len() as int)) {
                Some(rest) => {
                    assert(spec_reassemble(remaining) == Some(all[i - 1] + rest));
                    assert(before + (all[i - 1] + rest) =~= out@ + rest);
                },
                None => {
                },
            }
        }
    }
    proof {
        assert(all.subrange(i as int, all.len() as int).len() == 0);
    }
    None
}

} // verus!
