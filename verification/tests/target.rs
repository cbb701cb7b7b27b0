use onion_message_target::keys::{random_block_bytes, Recipient};
use onion_message_target::message::OnionMessage;
use onion_message_target::target::{deliver, do_test};

const POINT: &str = "0279be667ef9dcbbac55a06295ce870b07029bfcdb2dce28d959f2815b16f81798";

/// A message with hop data of `hop_data_len` bytes.
fn message(hop_data_len: usize) -> Vec<u8> {
    let mut out = hex::decode(POINT).unwrap();
    out.extend_from_slice(&((66 + hop_data_len) as u16).to_be_bytes());
    out.push(0);
    out.extend_from_slice(&hex::decode(POINT).unwrap());
    out.extend_from_slice(&vec![0xab; hop_data_len]);
    out.extend_from_slice(&[0x93; 32]);
    out
}

#[test]
fn a_message_is_delivered() {
    let data = message(1300);
    assert_eq!(data.len(), 1401);
    let mut delivery = do_test(&data).unwrap();
    assert_eq!(delivery.message.encode(), &data);

    let mut secret = [0; 32];
    secret[31] = 2;
    assert_eq!(delivery.keys.get_node_secret(Recipient::Node).unwrap().secret_bytes(), secret);
    assert_eq!(delivery.keys.get_secure_random_bytes(), random_block_bytes(0));

    let mut peer = [2; 33];
    peer[1] = 0xff;
    assert_eq!(delivery.peer.serialize(), peer);
}

#[test]
fn a_message_that_was_read_can_be_delivered() {
    let data = message(3);
    let delivery = deliver(OnionMessage::read(&data).unwrap());
    assert_eq!(delivery.message.encode(), &data);
    let mut peer = [2; 33];
    peer[1] = 0xff;
    assert_eq!(delivery.peer.serialize(), peer);
}

#[test]
fn hop_data_may_have_any_length() {
    for len in [0, 1, 4095, 4096, 4097, 65535 - 66] {
        let data = message(len);
        assert_eq!(do_test(&data).unwrap().message.encode(), &data);
    }
}

#[test]
fn what_follows_a_message_is_ignored() {
    let data = message(20);
    let mut longer = data.clone();
    longer.extend_from_slice(&[1, 2, 3]);
    assert_eq!(do_test(&longer).unwrap().message.encode(), &data);
}

#[test]
fn a_message_reads_back() {
    let first = OnionMessage::read(&message(7)).unwrap();
    let second = OnionMessage::read(first.encode()).unwrap();
    assert_eq!(first.encode(), second.encode());
}

#[test]
fn a_message_cut_short_is_refused() {
    let data = message(5);
    for len in 0..data.len() {
        assert!(do_test(&data[..len]).is_none());
    }
}

#[test]
fn a_packet_too_short_for_its_fields_is_refused() {
    let mut data = message(0);
    data[34] -= 1;
    assert!(do_test(&data).is_none());
    data[34] = 0;
    assert!(do_test(&data).is_none());
}

/// `data`, once with `point` for the blinding point and once with it in the packet.
fn with_point(data: &[u8], point: &[u8; 33]) -> [Vec<u8>; 2] {
    let mut first = data.to_vec();
    first[..33].copy_from_slice(point);
    let mut second = data.to_vec();
    second[36..69].copy_from_slice(point);
    [first, second]
}

#[test]
fn bytes_without_the_form_of_a_point_are_refused() {
    let zero_abscissa = {
        let mut point = [0; 33];
        point[0] = 2;
        point
    };
    let mut wrong_parity = [0; 33];
    wrong_parity.copy_from_slice(&hex::decode(POINT).unwrap());
    wrong_parity[0] = 4;
    let mut beyond_the_field = [0xff; 33];
    beyond_the_field[0] = 3;
    for point in [zero_abscissa, wrong_parity, beyond_the_field] {
        for data in with_point(&message(10), &point) {
            assert!(do_test(&data).is_none());
        }
    }
}

#[test]
fn points_are_read_as_the_curve_library_reads_them() {
    for abscissa in 0..0x0e10u16 {
        let mut point = [0; 33];
        point[0] = 2;
        point[31..].copy_from_slice(&abscissa.to_be_bytes());
        let accepted = bitcoin::secp256k1::PublicKey::from_slice(&point).is_ok();
        for data in with_point(&message(10), &point) {
            let delivery = do_test(&data);
            assert_eq!(delivery.is_some(), accepted);
            if let Some(delivery) = delivery {
                assert_eq!(delivery.message.encode(), &data);
            }
        }
    }
}

#[test]
fn the_version_is_not_looked_at() {
    let mut data = message(10);
    data[35] = 0xff;
    assert_eq!(do_test(&data).unwrap().message.encode(), &data);
}
