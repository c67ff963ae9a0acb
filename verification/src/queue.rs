//! Wire format of the delivery job queue.
//!
//! A job is a 32-bit signed campaign id carried as one discrete 4-byte
//! message in network byte order (big-endian). The producer serialises the
//! id, the consumer decodes exactly the bytes that were sent.

use vstd::prelude::*;

verus! {

/// The campaign id that a 4-byte big-endian queue message carries.
pub open spec fn job_id_of_bytes(b: Seq<u8>) -> i32
    recommends
        b.len() == 4,
{
    ((((b[0] as u32) << 24u32) | ((b[1] as u32) << 16u32) | ((b[2] as u32) << 8u32) | (
    b[3] as u32)) as i32)
}

/// The 4-byte big-endian queue message that carries a campaign id.
pub open spec fn bytes_of_job_id(id: i32) -> Seq<u8> {
    seq![
        (((id as u32) >> 24u32) as u8),
        (((id as u32) >> 16u32) as u8),
        (((id as u32) >> 8u32) as u8),
        ((id as u32) as u8),
    ]
}

/// Serialises a campaign id as the 4-byte big-endian queue message.
pub fn encode_job_id(id: i32) -> (b: Vec<u8>)
    ensures
        b@ == bytes_of_job_id(id),
        b@.len() == 4,
        job_id_of_bytes(b@) == id,
{
    let u: u32 = id as u32;
    let mut b: Vec<u8> = Vec::new();
    b.push((u >> 24u32) as u8);
    b.push((u >> 16u32) as u8);
    b.push((u >> 8u32) as u8);
    b.push(u as u8);
    proof {
        assert(b@ =~= bytes_of_job_id(id));
        lemma_job_id_round_trip(id);
    }
    b
}

/// Decodes the campaign id from one 4-byte queue message.
pub fn decode_job_id(buf: &[u8; 4]) -> (id: i32)
    ensures
        id == job_id_of_bytes(buf@),
{
    let b0: u32 = buf[0] as u32;
    let b1: u32 = buf[1] as u32;
    let b2: u32 = buf[2] as u32;
    let b3: u32 = buf[3] as u32;
    (((b0 << 24u32) | (b1 << 16u32) | (b2 << 8u32) | b3) as i32)
}

/// Law: decoding the message that `encode_job_id` produced for a campaign id
/// yields that id again, for every id.
pub proof fn lemma_job_id_round_trip(id: i32)
    ensures
        job_id_of_bytes(bytes_of_job_id(id)) == id,
{
    assert((((((id as u32) >> 24u32) as u8 as u32) << 24u32) | ((((id as u32) >> 16u32) as u8
        as u32) << 16u32) | ((((id as u32) >> 8u32) as u8 as u32) << 8u32) | (((id as u32) as u8)
        as u32)) as i32 == id) by (bit_vector);
}

} // verus!
