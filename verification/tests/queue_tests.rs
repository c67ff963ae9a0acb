use pushkind_emailer::queue::{decode_job_id, encode_job_id};
use pushkind_emailer::worker::DispatchState;

#[test]
fn decode_four_bytes_big_endian() {
    assert_eq!(decode_job_id(&[0x00, 0x00, 0x00, 0x05]), 5);
    assert_eq!(decode_job_id(&[0x00, 0x00, 0x01, 0x00]), 256);
    assert_eq!(decode_job_id(&[0x7f, 0xff, 0xff, 0xff]), i32::MAX);
    assert_eq!(decode_job_id(&[0xff, 0xff, 0xff, 0xff]), -1);
    assert_eq!(decode_job_id(&[0x80, 0x00, 0x00, 0x00]), i32::MIN);
}

#[test]
fn encode_four_bytes_big_endian() {
    assert_eq!(encode_job_id(5), vec![0x00, 0x00, 0x00, 0x05]);
    assert_eq!(encode_job_id(258), vec![0x00, 0x00, 0x01, 0x02]);
    assert_eq!(encode_job_id(-1), vec![0xff, 0xff, 0xff, 0xff]);
}

#[test]
fn encode_decode_round_trip() {
    for id in [0, 1, -1, 5, 70_000, -70_000, i32::MAX, i32::MIN] {
        let bytes = encode_job_id(id);
        assert_eq!(bytes.len(), 4);
        let mut buf = [0u8; 4];
        buf.copy_from_slice(&bytes);
        assert_eq!(decode_job_id(&buf), id);
    }
}

#[test]
fn queue_message_enters_loading_phase() {
    let state = pushkind_emailer::worker::begin_job(&[0x00, 0x00, 0x00, 0x05]);
    assert_eq!(state, DispatchState::Loading { email_id: 5 });
}
