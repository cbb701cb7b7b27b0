//! Onion messages on the wire.
use vstd::prelude::*;

use crate::bytes;
use crate::curve;

verus! {

/// The length of the routing packet that follows the length field of `data`.
pub open spec fn packet_len(data: Seq<u8>) -> nat {
    bytes::be_value(data.subrange(33, 35))
}

/// The length of the message at the start of `data`: a blinding point, the packet's
/// length, and the packet.
pub open spec fn message_len(data: Seq<u8>) -> nat {
    33 + 2 + packet_len(data)
}

/// The bytes of the blinding point with which a message at the start of `data` begins.
pub open spec fn blinding_point(data: Seq<u8>) -> Seq<u8> {
    data.take(33)
}

/// The bytes of the public key in the packet, behind the packet's version.
pub open spec fn packet_key(data: Seq<u8>) -> Seq<u8> {
    data.subrange(36, 69)
}

/// `data` is long enough for a message of the length that it gives, and the packet for
/// its fields: a version byte, a public key, hop data of any length, and 32 bytes of
/// authentication code.
pub open spec fn has_frame(data: Seq<u8>) -> bool {
    &&& data.len() >= 35
    &&& packet_len(data) >= 1 + 33 + 32
    &&& data.len() >= message_len(data)
}

/// An onion message stands at the start of `data`: the frame is there, and its two points
/// are public keys. Which points these are depends on the configuration that `secp256k1`
/// is built in: the `fuzzing` one reads points that are not on the curve (see
/// `curve::is_public_key`).
pub open spec fn starts_with_message(data: Seq<u8>) -> bool {
    &&& has_frame(data)
    &&& curve::is_public_key(blinding_point(data))
    &&& curve::is_public_key(packet_key(data))
}

/// Both configurations read a message at the start of `data`.
pub open spec fn starts_with_common_message(data: Seq<u8>) -> bool {
    &&& has_frame(data)
    &&& curve::is_common_point(blinding_point(data))
    &&& curve::is_common_point(packet_key(data))
}

/// One of the configurations reads the blinding point, and one the packet's key: without
/// that neither reads a message at the start of `data`.
pub open spec fn may_start_with_message(data: Seq<u8>) -> bool {
    &&& has_frame(data)
    &&& curve::is_possible_point(blinding_point(data))
    &&& curve::is_possible_point(packet_key(data))
}

/// `data` is an onion message, with nothing behind it.
pub open spec fn is_message(data: Seq<u8>) -> bool {
    starts_with_message(data) && data.len() == message_len(data)
}

/// The message that is read from `data`.
pub open spec fn message_in(data: Seq<u8>) -> Option<Seq<u8>> {
    if starts_with_message(data) {
        Some(data.take(message_len(data) as int))
    } else {
        None
    }
}

/// `lightning::ln::msgs::DecodeError`, opaque.
#[verifier::external_type_specification]
#[verifier::external_body]
pub struct ExDecodeError(lightning::ln::msgs::DecodeError);

/// Calls `lightning::util::ser::Readable::read` for `lightning::ln::msgs::OnionMessage` on
/// a cursor over `data`, and hands the message out as what `Writeable::encode` makes of it.
/// Claimed of the two: reading succeeds if and only if a message stands at the start of
/// `data`, whatever follows it, and the message that was read is encoded as the bytes that
/// it was read from.
#[verifier::external_body]
fn lightning_read_message(data: &[u8]) -> (r: Result<Vec<u8>, lightning::ln::msgs::DecodeError>)
    ensures
        r is Ok <==> starts_with_message(data@),
        r matches Ok(message) ==> message@ == data@.take(message_len(data@) as int),
{
    let mut cursor = std::io::Cursor::new(data);
    let read: Result<lightning::ln::msgs::OnionMessage, lightning::ln::msgs::DecodeError> =
        lightning::util::ser::Readable::read(&mut cursor);
    match read {
        Ok(message) => Ok(lightning::util::ser::Writeable::encode(&message)),
        Err(e) => Err(e),
    }
}

/// An onion message, as its encoding.
pub struct OnionMessage {
    bytes: Vec<u8>,
}

impl View for OnionMessage {
    type V = Seq<u8>;

    closed spec fn view(&self) -> Seq<u8> {
        self.bytes@
    }
}

impl OnionMessage {
    #[verifier::type_invariant]
    spec fn valid(self) -> bool {
        is_message(self.bytes@)
    }

    /// Reads the message at the start of `data`; what follows it is left alone.
    pub fn read(data: &[u8]) -> (r: Option<OnionMessage>)
        ensures
            match message_in(data@) {
                Some(bytes) => r matches Some(message) && message@ == bytes,
                None => r is None,
            },
            r is Some ==> may_start_with_message(data@),
            starts_with_common_message(data@) ==> r is Some,
            r is Some <==> starts_with_message(data@),
            r matches Some(message) ==> {
                &&& data@.len() >= message@.len() >= 35 + 66
                &&& message@.len() == 35 + data@[33] * 256 + data@[34]
                &&& forall|i: int| 0 <= i < message@.len() ==> message@[i] == data@[i]
            },
    {
        match lightning_read_message(data) {
            Ok(bytes) => {
                proof {
                    law_message_reads_back(data@);
                    law_message_is_prefix(data@);
                }
                Some(OnionMessage { bytes })
            },
            Err(_) => None,
        }
    }

    /// The message's encoding.
    pub fn encode(&self) -> (r: &Vec<u8>)
        ensures
            r@ == self@,
            is_message(self@),
    {
        proof {
            use_type_invariant(self);
        }
        &self.bytes
    }
}

/// Law: what is read from `data` is the bytes with which `data` starts, each of them
/// unchanged: 35 of them, and then as many as bytes 33 and 34 say.
pub proof fn law_message_is_prefix(data: Seq<u8>)
    ensures
        message_in(data) is Some <==> starts_with_message(data),
        message_in(data) matches Some(message) ==> {
            &&& data.len() >= message.len() >= 35 + 66
            &&& message.len() == 35 + data[33] * 256 + data[34]
            &&& forall|i: int| 0 <= i < message.len() ==> message[i] == data[i]
        },
{
    if starts_with_message(data) {
        law_packet_len(data);
    }
}

/// Law: whether a message is read depends on nothing but the length of the data, the length
/// field and the two points: not on the version, the hop data or the authentication code.
pub proof fn law_contents_do_not_matter(data: Seq<u8>, other: Seq<u8>)
    requires
        data.len() == other.len(),
        forall|i: int| 0 <= i < 35 && i < data.len() ==> data[i] == other[i],
        forall|i: int| 36 <= i < 69 && i < data.len() ==> data[i] == other[i],
    ensures
        message_in(data) is Some <==> message_in(other) is Some,
{
    if data.len() >= 35 {
        assert(data.take(33) =~= other.take(33));
        assert(data.subrange(33, 35) =~= other.subrange(33, 35));
    }
    if data.len() >= 69 {
        assert(data.subrange(36, 69) =~= other.subrange(36, 69));
    }
}

/// Law: a message is read if and only if the data holds as many bytes as its length field
/// asks for, these suffice for the packet's fields, and both points are public keys.
pub proof fn law_read_iff(data: Seq<u8>)
    ensures
        message_in(data) is Some <==> {
            &&& data.len() >= 35
            &&& data.len() >= 35 + data[33] * 256 + data[34] >= 35 + 66
            &&& curve::is_public_key(data.take(33))
            &&& curve::is_public_key(data.subrange(36, 69))
        },
{
    if data.len() >= 35 {
        law_packet_len(data);
    }
}

/// Law: the packet's length is the big-endian number in bytes 33 and 34.
pub proof fn law_packet_len(data: Seq<u8>)
    requires
        data.len() >= 35,
    ensures
        packet_len(data) == data[33] * 256 + data[34],
{
    reveal_with_fuel(bytes::be_value, 3);
}

/// Whether a message stands at the start of `data` shows within its length.
proof fn lemma_message_local(data: Seq<u8>, other: Seq<u8>)
    requires
        starts_with_message(data),
        other.len() >= message_len(data),
        data.take(message_len(data) as int) == other.take(message_len(data) as int),
    ensures
        starts_with_message(other),
        message_len(other) == message_len(data),
{
    let n = message_len(data) as int;
    assert(data.take(33) =~= data.take(n).take(33));
    assert(other.take(33) =~= other.take(n).take(33));
    assert(data.subrange(33, 35) =~= data.take(n).subrange(33, 35));
    assert(other.subrange(33, 35) =~= other.take(n).subrange(33, 35));
    assert(data.subrange(36, 69) =~= data.take(n).subrange(36, 69));
    assert(other.subrange(36, 69) =~= other.take(n).subrange(36, 69));
}

/// Law: the message that is read from `data` is itself a message, and reading its
/// encoding gives it back.
pub proof fn law_message_reads_back(data: Seq<u8>)
    ensures
        message_in(data) matches Some(message) ==> is_message(message) && message_in(message)
            == Some(message),
{
    if starts_with_message(data) {
        let message = data.take(message_len(data) as int);
        assert(message.take(message_len(data) as int) =~= message);
        lemma_message_local(data, message);
    }
}

/// Law: what follows a message does not matter.
pub proof fn law_rest_ignored(data: Seq<u8>, rest: Seq<u8>)
    ensures
        message_in(data) is Some ==> message_in(data + rest) == message_in(data),
{
    if starts_with_message(data) {
        let n = message_len(data) as int;
        assert((data + rest).take(n) =~= data.take(n));
        lemma_message_local(data, data + rest);
    }
}

/// Law: a message that is cut short is not read.
pub proof fn law_cut_short_refused(message: Seq<u8>, len: int)
    requires
        0 <= len < message.len(),
    ensures
        is_message(message) ==> message_in(message.take(len)) is None,
{
    let cut = message.take(len);
    if is_message(message) && starts_with_message(cut) {
        assert(cut.subrange(33, 35) =~= message.subrange(33, 35));
    }
}

} // verus!
