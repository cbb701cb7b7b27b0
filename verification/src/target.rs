//! The target: what is done with the bytes that a fuzzer feeds.
use vstd::prelude::*;

use crate::bytes;
use crate::curve;
use crate::curve::{PublicKey, SecretKey};
use crate::keys::{KeyProvider, KeyState};
use crate::message;
use crate::message::OnionMessage;

verus! {

/// A message to hand to an onion messenger.
pub struct Delivery {
    /// The keys of the node that receives the message.
    pub keys: KeyProvider,
    /// The peer that the message is said to come from.
    pub peer: PublicKey,
    /// The message.
    pub message: OnionMessage,
}

/// The encoding of the receiving node's secret key, which is two.
pub open spec fn target_secret() -> Seq<u8> {
    Seq::new(31, |i: int| 0u8).push(2)
}

/// The encoding of the peer's public key.
pub open spec fn target_peer() -> Seq<u8> {
    seq![2u8, 0xffu8] + Seq::new(31, |i: int| 2u8)
}

/// How to deliver `message`: to a fresh node with a fixed secret key, from a fixed peer.
pub fn deliver(message: OnionMessage) -> (r: Delivery)
    ensures
        r.message@ == message@,
        r.keys@ == (KeyState { node_secret: target_secret(), counter: 0 }),
        r.peer@ == target_peer(),
        r.keys@.counter == 0,
        r.keys@.node_secret.len() == 32,
        bytes::be_value(r.keys@.node_secret) == 2,
        r.peer@.len() == 33,
        r.peer@[0] == 2,
        r.peer@[1] == 0xff,
        forall|i: int| 2 <= i < 33 ==> r.peer@[i] == 2,
{
    let mut secret_bytes: [u8; 32] = [0; 32];
    secret_bytes[31] = 2;
    assert(secret_bytes@ =~= target_secret());
    proof {
        lemma_target_secret();
    }
    let secret = SecretKey::from_bytes(&secret_bytes).unwrap();
    let keys = KeyProvider::new(secret);
    let mut peer_bytes: [u8; 33] = [2; 33];
    peer_bytes[1] = 0xff;
    assert(peer_bytes@ =~= target_peer());
    proof {
        lemma_target_peer();
    }
    let peer = PublicKey::from_bytes(&peer_bytes).unwrap();
    Delivery { keys, peer, message }
}

/// Reads an onion message from `data` and, if there is one, says how to deliver it.
///
/// Which messages are read depends on the configuration that `secp256k1` is built in: the
/// `fuzzing` one takes points that are not on the curve. `curve::stub_built` tells the two
/// apart, and the contract holds in both. A message whose points are public keys in both
/// is read in either, and one with a point that is a public key in neither is not.
pub fn do_test(data: &[u8]) -> (r: Option<Delivery>)
    ensures
        match message::message_in(data@) {
            Some(bytes) => {
                &&& r matches Some(delivery)
                &&& delivery.message@ == bytes
                &&& delivery.keys@ == (KeyState { node_secret: target_secret(), counter: 0 })
                &&& delivery.peer@ == target_peer()
            },
            None => r is None,
        },
        r is Some ==> message::may_start_with_message(data@),
        message::starts_with_common_message(data@) ==> r is Some,
        r is Some <==> message::starts_with_message(data@),
        r matches Some(delivery) ==> {
            &&& data@.len() >= delivery.message@.len() >= 35 + 66
            &&& delivery.message@.len() == 35 + data@[33] * 256 + data@[34]
            &&& forall|i: int|
                0 <= i < delivery.message@.len() ==> delivery.message@[i] == data@[i]
            &&& delivery.keys@.counter == 0
            &&& delivery.keys@.node_secret.len() == 32
            &&& bytes::be_value(delivery.keys@.node_secret) == 2
            &&& delivery.peer@.len() == 33
            &&& delivery.peer@[0] == 2
            &&& delivery.peer@[1] == 0xff
            &&& forall|i: int| 2 <= i < 33 ==> delivery.peer@[i] == 2
        },
{
    match OnionMessage::read(data) {
        Some(message) => Some(deliver(message)),
        None => None,
    }
}

/// The receiving node's secret key is the number two, which the curve admits.
proof fn lemma_target_secret()
    ensures
        target_secret().len() == 32,
        bytes::be_value(target_secret()) == 2,
        curve::is_secret_key(target_secret()),
{
    let zeroes = Seq::new(31, |i: int| 0u8);
    let two = seq![2u8];
    assert(target_secret() =~= zeroes + two);
    bytes::lemma_leading_zeroes(zeroes, two);
    reveal_with_fuel(bytes::be_value, 2);
}

/// The peer's abscissa.
spec fn peer_abscissa() -> nat {
    0xff020202_02020202_02020202_02020202_02020202_02020202_02020202_02020202nat
}

/// The ordinate of a point of the curve with the peer's abscissa.
spec fn peer_ordinate() -> nat {
    0xbf370e33_c5fe12ca_332eb1c4_386817a2_46411a4c_9eb4f2da_8d66f5d0_88f01661nat
}

/// The peer's point satisfies the curve equation.
#[verifier::spinoff_prover]
proof fn lemma_peer_on_curve()
    ensures
        curve::on_curve(peer_abscissa(), peer_ordinate()),
{
    let x: nat = 0xff020202_02020202_02020202_02020202_02020202_02020202_02020202_02020202nat;
    let y: nat = 0xbf370e33_c5fe12ca_332eb1c4_386817a2_46411a4c_9eb4f2da_8d66f5d0_88f01661nat;
    assert(curve::on_curve(x, y));
}

/// The number that the byte 0xff and then `len` bytes 2 spell.
spec fn peer_digits(len: nat) -> nat
    decreases len,
{
    if len == 0 {
        0xff
    } else {
        peer_digits((len - 1) as nat) * 256 + 2
    }
}

/// A byte string that is 0xff and then twos spells `peer_digits`.
proof fn lemma_peer_digits(s: Seq<u8>)
    requires
        s.len() > 0,
        s[0] == 0xff,
        forall|i: int| 0 < i < s.len() ==> s[i] == 2,
    ensures
        bytes::be_value(s) == peer_digits((s.len() - 1) as nat),
    decreases s.len(),
{
    if s.len() == 1 {
        reveal_with_fuel(bytes::be_value, 2);
    } else {
        lemma_peer_digits(s.drop_last());
    }
}

/// The peer's encoding holds the peer's abscissa.
#[verifier::spinoff_prover]
proof fn lemma_peer_abscissa()
    ensures
        curve::abscissa(target_peer()) == peer_abscissa(),
{
    lemma_peer_digits(target_peer().skip(1));
    reveal_with_fuel(peer_digits, 32);
}

/// The peer's public key is one in both configurations.
proof fn lemma_target_peer()
    ensures
        curve::is_common_point(target_peer()),
{
    lemma_peer_abscissa();
    lemma_peer_on_curve();
}

} // verus!
