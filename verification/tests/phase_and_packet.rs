use ecstest::packet::RepliconPacket;
use ecstest::phase::{ContainerPhase, Phase};
use tokio_util::bytes::Bytes;

const ALL: [ContainerPhase; 7] = [
    ContainerPhase::Pending,
    ContainerPhase::PullingImage,
    ContainerPhase::Starting,
    ContainerPhase::Running,
    ContainerPhase::Stopping,
    ContainerPhase::Stopped,
    ContainerPhase::Failed,
];

#[test]
fn labels_name_each_phase() {
    let labels: Vec<&str> = ALL.iter().map(|p| p.label()).collect();
    assert_eq!(
        labels,
        vec!["Pending", "Pulling image", "Starting", "Running", "Stopping", "Stopped", "Failed"]
    );
}

#[test]
fn phase_conversion_round_trips() {
    for p in ALL {
        let w: Phase = Phase::from(p);
        assert_eq!(ContainerPhase::from(w), p);
    }
    assert_eq!(Phase::from(ContainerPhase::PullingImage), Phase::PullingImage);
    assert_eq!(ContainerPhase::from(Phase::Failed), ContainerPhase::Failed);

}

#[test]
fn encode_puts_channel_first() {
    let p = RepliconPacket { channel_id: 7, data: vec![1, 2, 3] };
    let frame = p.encode();
    assert_eq!(frame.as_ref(), &[7u8, 1, 2, 3][..]);
}

#[test]
fn decode_encode_round_trip() {
    let p = RepliconPacket { channel_id: 200, data: vec![9, 8, 7, 6] };
    let back = RepliconPacket::decode(p.encode()).unwrap();
    assert_eq!(back, p);
    let empty_data = RepliconPacket { channel_id: 3, data: vec![] };
    assert_eq!(RepliconPacket::decode(empty_data.encode()).unwrap(), empty_data);
}

#[test]
fn decode_splits_frame() {
    let p = RepliconPacket::decode(Bytes::from(vec![5u8, 10, 11])).unwrap();
    assert_eq!(p.channel_id, 5);
    assert_eq!(p.data, vec![10, 11]);
}

#[test]
fn decode_rejects_empty_frame() {
    assert!(RepliconPacket::decode(Bytes::new()).is_none());
}

#[test]
fn sent_messages_keep_the_low_byte_of_the_channel() {
    let bytes = Bytes::from(vec![1u8, 2]);
    let p = RepliconPacket::from_sent(300, &bytes);
    assert_eq!(p.channel_id, 44);
    assert_eq!(p.data, vec![1, 2]);
    assert_eq!(p.channel(), 44);
    assert_eq!(RepliconPacket::from_sent(2, &bytes).channel(), 2);
}
