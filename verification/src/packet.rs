use vstd::prelude::*;

use tokio_util::bytes::Bytes;

verus! {

#[verifier::external_type_specification]
#[verifier::external_body]
pub struct ExBytes(Bytes);

/// The bytes a `Bytes` buffer holds.
pub uninterp spec fn bytes_view(b: Bytes) -> Seq<u8>;

/// `Bytes::from(Vec<u8>)`: the buffer holds exactly the vector's bytes.
#[verifier::external_body]
fn bytes_from_vec(v: Vec<u8>) -> (b: Bytes)
    ensures
        bytes_view(b) == v@,
{
    Bytes::from(v)
}

/// `Bytes`' deref to a byte slice: the slice holds the buffer's bytes.
#[verifier::external_body]
fn bytes_as_slice(b: &Bytes) -> (s: &[u8])
    ensures
        s@ == bytes_view(*b),
{
    b.as_ref()
}

/// One replication message on the wire: `[channel_id: u8][data...]` inside a length-delimited frame.
#[derive(Debug, Clone, PartialEq, Eq)]
pub struct RepliconPacket {
    pub channel_id: u8,
    pub data: Vec<u8>,
}

/// The frame contents of a packet: its channel byte followed by its data.
pub open spec fn frame_of(channel_id: u8, data: Seq<u8>) -> Seq<u8> {
    seq![channel_id] + data
}

/// What a frame decodes to: nothing for an empty frame, else its first byte as the
/// channel and the rest as data.
pub open spec fn decode_spec(frame: Seq<u8>) -> Option<(u8, Seq<u8>)> {
    if frame.len() == 0 {
        None
    } else {
        Some((frame[0], frame.subrange(1, frame.len() as int)))
    }
}

impl RepliconPacket {
    pub fn encode(&self) -> (frame: Bytes)
        requires
            self.data@.len() < usize::MAX,
        ensures
            bytes_view(frame) == frame_of(self.channel_id, self.data@),
    {
        let mut buf: Vec<u8> = Vec::with_capacity(1 + self.data.len());
        buf.push(self.channel_id);
        let mut i: usize = 0;
        while i < self.data.len()
            invariant
                i <= self.data@.len(),
                buf@ == seq![self.channel_id] + self.data@.subrange(0, i as int),
            decreases self.data@.len() - i,
        {
            buf.push(self.data[i]);
            i = i + 1;
            proof {
                assert(self.data@.subrange(0, i as int) =~= self.data@.subrange(0, i - 1).push(self.data@[i - 1]));
            }
        }
        proof {
            assert(self.data@.subrange(0, self.data@.len() as int) =~= self.data@);
        }
        bytes_from_vec(buf)
    }

    pub fn decode(frame: Bytes) -> (p: Option<RepliconPacket>)
        ensures
            match decode_spec(bytes_view(frame)) {
                None => p.is_none(),
                Some((c, d)) => p.is_some() && p.unwrap().channel_id == c && p.unwrap().data@ == d,
            },
    {
        let s = bytes_as_slice(&frame);
        if s.len() == 0 {
            return None;
        }
        let channel_id = s[0];
        let data = vstd::slice::slice_to_vec(&s[1..s.len()]);
        Some(RepliconPacket { channel_id, data })
    }

    /// The packet for a message that the replication layer hands out on `channel_id`;
    /// the channel is truncated to its low byte.
    pub fn from_sent(channel_id: usize, bytes: &Bytes) -> (p: RepliconPacket)
        ensures
            p.channel_id as int == channel_id as int % 256,
            p.data@ == bytes_view(*bytes),
    {
        let data = vstd::slice::slice_to_vec(bytes_as_slice(bytes));
        RepliconPacket { channel_id: (channel_id % 256) as u8, data }
    }

    /// The channel a received packet is handed to the replication layer on.
    pub fn channel(&self) -> (c: usize)
        ensures
            c == self.channel_id as usize,
    {
        self.channel_id as usize
    }
}

/// Decoding an encoded packet gives the packet back.
pub proof fn lemma_decode_encode(channel_id: u8, data: Seq<u8>)
    ensures
        decode_spec(frame_of(channel_id, data)) == Some((channel_id, data)),
{
    assert(frame_of(channel_id, data).subrange(1, frame_of(channel_id, data).len() as int) =~= data);
}

/// A frame that decodes to a packet is exactly that packet's encoding.
pub proof fn lemma_encode_decode(frame: Seq<u8>)
    ensures
        decode_spec(frame) matches Some((c, d)) ==> frame_of(c, d) == frame,
{
    if frame.len() > 0 {
        assert(frame_of(frame[0], frame.subrange(1, frame.len() as int)) =~= frame);
    }
}

/// Only the empty frame fails to decode.
pub proof fn lemma_decode_fails_iff_empty(frame: Seq<u8>)
    ensures
        decode_spec(frame).is_none() <==> frame.len() == 0,
{
}

/// A frame is the channel byte followed by the data: one byte longer than the data.
pub proof fn lemma_frame_layout(channel_id: u8, data: Seq<u8>)
    ensures
        frame_of(channel_id, data).len() == data.len() + 1,
        frame_of(channel_id, data)[0] == channel_id,
        frame_of(channel_id, data).subrange(1, data.len() + 1 as int) == data,
{
    assert(frame_of(channel_id, data).subrange(1, data.len() + 1 as int) =~= data);
}

} // verus!
