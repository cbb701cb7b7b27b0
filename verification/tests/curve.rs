use onion_message_target::curve::{KeyError, PublicKey, Scalar, SecretKey, SharedSecret};

const ORDER: &str = "fffffffffffffffffffffffffffffffebaaedce6af48a03bbfd25e8cd0364141";
const GENERATOR: &str = "0279be667ef9dcbbac55a06295ce870b07029bfcdb2dce28d959f2815b16f81798";

fn bytes32(text: &str) -> [u8; 32] {
    let mut out = [0; 32];
    out.copy_from_slice(&hex::decode(text).unwrap());
    out
}

fn bytes33(text: &str) -> [u8; 33] {
    let mut out = [0; 33];
    out.copy_from_slice(&hex::decode(text).unwrap());
    out
}

fn small(value: u8) -> [u8; 32] {
    let mut out = [0; 32];
    out[31] = value;
    out
}

fn order_less(by: u8) -> [u8; 32] {
    let mut out = bytes32(ORDER);
    out[31] -= by;
    out
}

#[test]
fn secret_keys_lie_between_zero_and_the_order() {
    assert_eq!(SecretKey::from_bytes(&small(0)).err(), Some(KeyError::InvalidSecretKey));
    assert_eq!(SecretKey::from_bytes(&small(1)).unwrap().secret_bytes(), small(1));
    assert_eq!(SecretKey::from_bytes(&order_less(1)).unwrap().secret_bytes(), order_less(1));
    assert_eq!(SecretKey::from_bytes(&order_less(0)).err(), Some(KeyError::InvalidSecretKey));
    assert_eq!(SecretKey::from_bytes(&[0xff; 32]).err(), Some(KeyError::InvalidSecretKey));
}

#[test]
fn scalars_lie_below_the_order() {
    assert_eq!(Scalar::from_be_bytes(&small(0)).unwrap().to_be_bytes(), small(0));
    assert_eq!(Scalar::from_be_bytes(&order_less(1)).unwrap().to_be_bytes(), order_less(1));
    assert_eq!(Scalar::from_be_bytes(&order_less(0)).err(), Some(KeyError::InvalidScalar));
    let mut above = bytes32(ORDER);
    above[15] = 0xff;
    above[16] = 0;
    assert_eq!(Scalar::from_be_bytes(&above).err(), Some(KeyError::InvalidScalar));
    assert_eq!(Scalar::from_be_bytes(&[0xff; 32]).err(), Some(KeyError::InvalidScalar));
}

#[test]
fn scalars_are_those_of_the_curve_library() {
    for i in 0..32 {
        for byte in [0u8, 1, 0x40, 0x41, 0x42, 0xfe, 0xff] {
            let mut bytes = bytes32(ORDER);
            bytes[i] = byte;
            assert_eq!(
                Scalar::from_be_bytes(&bytes).is_ok(),
                bitcoin::secp256k1::Scalar::from_be_bytes(bytes).is_ok()
            );
        }
    }
}

#[test]
fn public_keys_have_the_form_of_points() {
    let generator = bytes33(GENERATOR);
    assert_eq!(PublicKey::from_bytes(&generator).unwrap().serialize(), generator);
    let mut odd = generator;
    odd[0] = 3;
    assert_eq!(PublicKey::from_bytes(&odd).unwrap().serialize(), odd);
    let mut uncompressed = generator;
    uncompressed[0] = 4;
    assert_eq!(PublicKey::from_bytes(&uncompressed).err(), Some(KeyError::InvalidPublicKey));

    // One is the abscissa of a point, but it must not be written as one plus the prime.
    let mut reduced = [0; 33];
    reduced[0] = 2;
    reduced[32] = 1;
    assert_eq!(PublicKey::from_bytes(&reduced).unwrap().serialize(), reduced);
    let unreduced =
        bytes33("02fffffffffffffffffffffffffffffffffffffffffffffffffffffffefffffc30");
    assert_eq!(PublicKey::from_bytes(&unreduced).err(), Some(KeyError::InvalidPublicKey));
    let mut zero = [0; 33];
    zero[0] = 2;
    assert_eq!(PublicKey::from_bytes(&zero).err(), Some(KeyError::InvalidPublicKey));
}

#[test]
fn public_keys_are_those_of_the_curve_library() {
    for parity in [2, 3] {
        for abscissa in 0..=255 {
            let mut point = [0; 33];
            point[0] = parity;
            point[32] = abscissa;
            match bitcoin::secp256k1::PublicKey::from_slice(&point) {
                Ok(key) => {
                    assert_eq!(PublicKey::from_bytes(&point).unwrap().serialize(), key.serialize())
                }
                Err(_) => assert_eq!(
                    PublicKey::from_bytes(&point).err(),
                    Some(KeyError::InvalidPublicKey)
                ),
            }
        }
    }
}

#[test]
fn tweaks_multiply_modulo_the_order() {
    let two = SecretKey::from_bytes(&small(2)).unwrap();
    let three = Scalar::from_be_bytes(&small(3)).unwrap();
    assert_eq!(two.mul_tweak(&three).unwrap().secret_bytes(), small(6));
    let one = Scalar::from_be_bytes(&small(1)).unwrap();
    assert_eq!(two.mul_tweak(&one).unwrap().secret_bytes(), small(2));
    let minus_one = Scalar::from_be_bytes(&order_less(1)).unwrap();
    assert_eq!(two.mul_tweak(&minus_one).unwrap().secret_bytes(), order_less(2));
    let zero = Scalar::from_be_bytes(&small(0)).unwrap();
    assert_eq!(two.mul_tweak(&zero).err(), Some(KeyError::InvalidTweak));
}

#[test]
fn shared_secret_hashes_the_product() {
    let point = PublicKey::from_bytes(&bytes33(GENERATOR)).unwrap();
    let secret = SecretKey::from_bytes(&small(2)).unwrap();
    assert_eq!(
        SharedSecret::new(&point, &secret).secret_bytes(),
        bytes32("b1c9938f01121e159887ac2c8d393a22e4476ff8212de13fe1939de2a236f0a7")
    );
}
