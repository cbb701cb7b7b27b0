//! Keys and scalars of the secp256k1 curve.
//!
//! Each type holds the byte encoding of its value, and its type invariant says
//! which encodings are values. The `secp256k1` crate can be built in two
//! configurations: the ordinary one, and `fuzzing`, which puts a stub in place of
//! the curve's points. Secret keys and scalars are the same in both. Which bytes
//! are public keys differs; `stub_built` tells the two apart, and all that is
//! stated here holds in either.
use vstd::prelude::*;

use crate::bytes;

verus! {

/// The order of the group that the curve's points form.
pub open spec fn curve_order() -> nat {
    0xffffffff_ffffffff_ffffffff_fffffffe_baaedce6_af48a03b_bfd25e8c_d0364141nat
}

/// The prime modulo which the curve's coordinates are reckoned.
pub open spec fn field_prime() -> nat {
    0xffffffff_ffffffff_ffffffff_ffffffff_ffffffff_ffffffff_fffffffe_fffffc2fnat
}

/// `s` encodes a scalar: 32 bytes, big-endian, below the curve order.
pub open spec fn is_scalar(s: Seq<u8>) -> bool {
    s.len() == 32 && bytes::be_value(s) < curve_order()
}

/// `s` encodes a secret key: a scalar other than zero.
pub open spec fn is_secret_key(s: Seq<u8>) -> bool {
    is_scalar(s) && bytes::be_value(s) != 0
}

/// `(x, y)` satisfies the curve equation `y^2 = x^3 + 7`.
pub open spec fn on_curve(x: nat, y: nat) -> bool {
    (y * y) % field_prime() == (x * x * x + 7) % field_prime()
}

/// `x` is the abscissa of a point of the curve.
pub open spec fn is_curve_abscissa(x: nat) -> bool {
    exists|y: nat| on_curve(x, y)
}

/// The abscissa in a compressed encoding, behind the byte for the ordinate's parity.
pub open spec fn abscissa(s: Seq<u8>) -> nat {
    bytes::be_value(s.skip(1))
}

/// `s` has the form of a compressed public key: a byte for the parity of the ordinate, 2
/// or 3, then an abscissa above zero and below the field prime.
pub open spec fn has_point_form(s: Seq<u8>) -> bool {
    &&& s.len() == 33
    &&& s[0] == 2 || s[0] == 3
    &&& 0 < abscissa(s) < field_prime()
}

/// `secp256k1::PublicKey::from_slice` accepts `s`, in the configuration that is built.
pub uninterp spec fn accepts_point(s: Seq<u8>) -> bool;

/// The encoding of a point with abscissa 5, which is that of no point of the curve.
pub open spec fn stub_point() -> Seq<u8> {
    seq![2u8] + bytes::be_bytes(5, 32)
}

/// The `fuzzing` configuration is built: it alone accepts `stub_point()`.
pub open spec fn stub_built() -> bool {
    accepts_point(stub_point())
}

/// `s` encodes a public key. In the ordinary configuration the public keys are the points
/// of the curve; in the `fuzzing` one any abscissa below the curve order will do, on the
/// curve or not.
pub open spec fn is_public_key(s: Seq<u8>) -> bool {
    &&& has_point_form(s)
    &&& if stub_built() {
        abscissa(s) < curve_order()
    } else {
        is_curve_abscissa(abscissa(s))
    }
}

/// `s` encodes a public key in both configurations.
pub open spec fn is_common_point(s: Seq<u8>) -> bool {
    has_point_form(s) && abscissa(s) < curve_order() && is_curve_abscissa(abscissa(s))
}

/// `s` encodes a public key in one of the configurations.
pub open spec fn is_possible_point(s: Seq<u8>) -> bool {
    has_point_form(s) && (abscissa(s) < curve_order() || is_curve_abscissa(abscissa(s)))
}

/// The encoding of the product of two scalars modulo the curve order.
pub open spec fn scalar_product(a: Seq<u8>, b: Seq<u8>) -> Seq<u8> {
    bytes::be_bytes((bytes::be_value(a) * bytes::be_value(b)) % curve_order(), 32)
}

/// The shared secret of the point that `point` encodes and the secret key that
/// `scalar` encodes: what `secp256k1::ecdh::SharedSecret::new` returns.
pub uninterp spec fn ecdh_output(point: Seq<u8>, scalar: Seq<u8>) -> Seq<u8>;

/// `secp256k1::Error`, opaque.
#[verifier::external_type_specification]
#[verifier::external_body]
pub struct ExSecpError(bitcoin::secp256k1::Error);

/// Calls `secp256k1::SecretKey::from_slice`. Claimed of it: it accepts the big-endian
/// encodings of the numbers from 1 up to the curve order, exclusive, and no others, and
/// the key that it makes holds the bytes that it was given.
#[verifier::external_body]
fn secp_secret_key(data: &[u8; 32]) -> (r: Result<[u8; 32], bitcoin::secp256k1::Error>)
    ensures
        r is Ok <==> is_secret_key(data@),
        r matches Ok(key) ==> key@ == data@,
{
    match bitcoin::secp256k1::SecretKey::from_slice(data) {
        Ok(key) => Ok(key.secret_bytes()),
        Err(e) => Err(e),
    }
}

/// Calls `secp256k1::PublicKey::from_slice`. Claimed of it: whether it accepts 33 bytes
/// depends on them alone; if it accepts the abscissa 5, it is the stub, which accepts every
/// abscissa from 1 up to the curve order, exclusive, and no other; if not, it accepts the
/// points of the curve and nothing else; and the key that it makes has the encoding that it
/// was given.
#[verifier::external_body]
fn secp_public_key(data: &[u8; 33]) -> (r: Result<[u8; 33], bitcoin::secp256k1::Error>)
    ensures
        r is Ok <==> accepts_point(data@),
        r is Ok <==> is_public_key(data@),
        r matches Ok(key) ==> key@ == data@,
{
    match bitcoin::secp256k1::PublicKey::from_slice(data) {
        Ok(key) => Ok(key.serialize()),
        Err(e) => Err(e),
    }
}

/// Calls `secp256k1::SecretKey::mul_tweak`. Claimed of it: it fails on a tweak of zero and
/// on no other, and else returns the secret key that is the product of the key and the
/// tweak modulo the curve order (which is prime, so that the product is not zero).
#[verifier::external_body]
fn secp_mul_tweak(secret: &[u8; 32], tweak: &[u8; 32]) -> (r: Result<
    [u8; 32],
    bitcoin::secp256k1::Error,
>)
    requires
        is_secret_key(secret@),
        is_scalar(tweak@),
    ensures
        r is Ok <==> bytes::be_value(tweak@) != 0,
        r matches Ok(key) ==> is_secret_key(key@) && bytes::be_value(key@) == (bytes::be_value(
            secret@,
        ) * bytes::be_value(tweak@)) % curve_order(),
{
    let key = bitcoin::secp256k1::SecretKey::from_slice(secret).unwrap();
    let factor = bitcoin::secp256k1::Scalar::from_be_bytes(*tweak).unwrap();
    match key.mul_tweak(&factor) {
        Ok(product) => Ok(product.secret_bytes()),
        Err(e) => Err(e),
    }
}

/// Calls `secp256k1::ecdh::SharedSecret::new`. Claimed of it: what it returns depends on
/// the point and the secret key alone. (In the ordinary configuration it is the hash of their product on the
/// curve.)
#[verifier::external_body]
fn secp_shared_secret(point: &[u8; 33], scalar: &[u8; 32]) -> (r: [u8; 32])
    requires
        is_public_key(point@),
        is_secret_key(scalar@),
    ensures
        r@ == ecdh_output(point@, scalar@),
{
    let key = bitcoin::secp256k1::PublicKey::from_slice(point).unwrap();
    let secret = bitcoin::secp256k1::SecretKey::from_slice(scalar).unwrap();
    bitcoin::secp256k1::ecdh::SharedSecret::new(&key, &secret).secret_bytes()
}

/// Why bytes are not a key or a scalar, or a key cannot be tweaked.
#[derive(Clone, Copy, Debug, PartialEq, Eq)]
pub enum KeyError {
    /// The bytes are zero, or not below the curve order.
    InvalidSecretKey,
    /// The bytes are not a public key.
    InvalidPublicKey,
    /// The bytes are not below the curve order.
    InvalidScalar,
    /// The tweak is zero.
    InvalidTweak,
}

/// A secret key.
#[derive(Clone, Copy)]
pub struct SecretKey {
    bytes: [u8; 32],
}

impl View for SecretKey {
    type V = Seq<u8>;

    closed spec fn view(&self) -> Seq<u8> {
        self.bytes@
    }
}

impl SecretKey {
    #[verifier::type_invariant]
    spec fn valid(self) -> bool {
        is_secret_key(self.bytes@)
    }

    /// The secret key that `data` encodes.
    pub fn from_bytes(data: &[u8; 32]) -> (r: Result<SecretKey, KeyError>)
        ensures
            is_secret_key(data@) ==> (r matches Ok(key) && key@ == data@),
            !is_secret_key(data@) ==> r == Err::<SecretKey, KeyError>(KeyError::InvalidSecretKey),
            r is Ok <==> 0 < bytes::be_value(data@) < curve_order(),
    {
        match secp_secret_key(data) {
            Ok(bytes) => Ok(SecretKey { bytes }),
            Err(_) => Err(KeyError::InvalidSecretKey),
        }
    }

    /// The key's encoding.
    pub fn secret_bytes(&self) -> (r: [u8; 32])
        ensures
            r@ == self@,
            is_secret_key(self@),
    {
        proof {
            use_type_invariant(self);
        }
        self.bytes
    }

    /// The product of this key and `tweak` modulo the curve order. A tweak of zero is
    /// refused, for zero is no secret key.
    pub fn mul_tweak(&self, tweak: &Scalar) -> (r: Result<SecretKey, KeyError>)
        ensures
            bytes::be_value(tweak@) != 0 ==> (r matches Ok(key) && key@ == scalar_product(
                self@,
                tweak@,
            ) && is_secret_key(key@)),
            bytes::be_value(tweak@) == 0 ==> r == Err::<SecretKey, KeyError>(
                KeyError::InvalidTweak,
            ),
            r matches Ok(key) ==> bytes::be_value(key@) == (bytes::be_value(self@)
                * bytes::be_value(tweak@)) % curve_order(),
    {
        proof {
            use_type_invariant(self);
            use_type_invariant(tweak);
        }
        match secp_mul_tweak(&self.bytes, &tweak.bytes) {
            Ok(bytes) => {
                proof {
                    bytes::lemma_bytes_of_value(bytes@);
                }
                Ok(SecretKey { bytes })
            },
            Err(_) => Err(KeyError::InvalidTweak),
        }
    }
}

/// A public key.
#[derive(Clone, Copy)]
pub struct PublicKey {
    bytes: [u8; 33],
}

impl View for PublicKey {
    type V = Seq<u8>;

    closed spec fn view(&self) -> Seq<u8> {
        self.bytes@
    }
}

impl PublicKey {
    #[verifier::type_invariant]
    spec fn valid(self) -> bool {
        is_public_key(self.bytes@)
    }

    /// The public key that `data` encodes.
    pub fn from_bytes(data: &[u8; 33]) -> (r: Result<PublicKey, KeyError>)
        ensures
            is_public_key(data@) ==> (r matches Ok(key) && key@ == data@),
            !is_public_key(data@) ==> r == Err::<PublicKey, KeyError>(KeyError::InvalidPublicKey),
            r is Ok <==> accepts_point(data@),
            r is Ok ==> is_possible_point(data@),
            is_common_point(data@) ==> r is Ok,
    {
        match secp_public_key(data) {
            Ok(bytes) => Ok(PublicKey { bytes }),
            Err(_) => Err(KeyError::InvalidPublicKey),
        }
    }

    /// The key's compressed encoding.
    pub fn serialize(&self) -> (r: [u8; 33])
        ensures
            r@ == self@,
            is_public_key(self@),
    {
        proof {
            use_type_invariant(self);
        }
        self.bytes
    }
}

/// The encoding of the curve order.
#[verifier::spinoff_prover]
fn curve_order_bytes() -> (r: [u8; 32])
    ensures
        bytes::be_value(r@) == curve_order(),
{
    let order: [u8; 32] = [
        0xff, 0xff, 0xff, 0xff, 0xff, 0xff, 0xff, 0xff, 0xff, 0xff, 0xff, 0xff, 0xff, 0xff, 0xff,
        0xfe, 0xba, 0xae, 0xdc, 0xe6, 0xaf, 0x48, 0xa0, 0x3b, 0xbf, 0xd2, 0x5e, 0x8c, 0xd0, 0x36,
        0x41, 0x41,
    ];
    proof {
        reveal_with_fuel(bytes::be_value, 33);
    }
    order
}

/// A number below the curve order, by which a key can be multiplied.
#[derive(Clone, Copy)]
pub struct Scalar {
    bytes: [u8; 32],
}

impl View for Scalar {
    type V = Seq<u8>;

    closed spec fn view(&self) -> Seq<u8> {
        self.bytes@
    }
}

impl Scalar {
    #[verifier::type_invariant]
    spec fn valid(self) -> bool {
        is_scalar(self.bytes@)
    }

    /// The scalar that `data` encodes.
    pub fn from_be_bytes(data: &[u8; 32]) -> (r: Result<Scalar, KeyError>)
        ensures
            is_scalar(data@) ==> (r matches Ok(scalar) && scalar@ == data@),
            !is_scalar(data@) ==> r == Err::<Scalar, KeyError>(KeyError::InvalidScalar),
            r is Ok <==> bytes::be_value(data@) < curve_order(),
    {
        let order = curve_order_bytes();
        let mut i: usize = 0;
        while i < 32
            invariant
                i <= 32,
                data@.take(i as int) == order@.take(i as int),
                bytes::be_value(order@) == curve_order(),
            decreases 32 - i,
        {
            if data[i] < order[i] {
                proof {
                    bytes::lemma_first_difference(data@, order@, i as int);
                }
                return Ok(Scalar { bytes: *data });
            }
            if data[i] > order[i] {
                proof {
                    bytes::lemma_first_difference(order@, data@, i as int);
                }
                return Err(KeyError::InvalidScalar);
            }
            assert(data@.take(i + 1) =~= data@.take(i as int).push(data@[i as int]));
            assert(order@.take(i + 1) =~= order@.take(i as int).push(order@[i as int]));
            i = i + 1;
        }
        assert(data@.take(32) =~= data@);
        assert(order@.take(32) =~= order@);
        Err(KeyError::InvalidScalar)
    }

    /// The scalar's encoding.
    pub fn to_be_bytes(&self) -> (r: [u8; 32])
        ensures
            r@ == self@,
            is_scalar(self@),
    {
        proof {
            use_type_invariant(self);
        }
        self.bytes
    }
}

/// What a secret key and a public key have in common with the key pair opposite.
#[derive(Clone, Copy)]
pub struct SharedSecret {
    bytes: [u8; 32],
}

impl View for SharedSecret {
    type V = Seq<u8>;

    closed spec fn view(&self) -> Seq<u8> {
        self.bytes@
    }
}

impl SharedSecret {
    /// The shared secret of `point` and `scalar`.
    pub fn new(point: &PublicKey, scalar: &SecretKey) -> (r: SharedSecret)
        ensures
            r@ == ecdh_output(point@, scalar@),
    {
        proof {
            use_type_invariant(point);
            use_type_invariant(scalar);
        }
        SharedSecret { bytes: secp_shared_secret(&point.bytes, &scalar.bytes) }
    }

    /// The secret as bytes.
    pub fn secret_bytes(&self) -> (r: [u8; 32])
        ensures
            r@ == self@,
    {
        self.bytes
    }
}

/// Law: a point and its opposite, which differ in the byte for the parity alone, are both
/// public keys or neither is.
pub proof fn law_opposite_point(s: Seq<u8>, opposite: Seq<u8>)
    requires
        s.len() == 33,
        opposite.len() == 33,
        s[0] == 2,
        opposite[0] == 3,
        s.skip(1) == opposite.skip(1),
    ensures
        is_public_key(s) <==> is_public_key(opposite),
{
}

/// Law: the product of two scalars is 32 bytes that spell the product of the two numbers
/// modulo the curve order, and no other 32 bytes spell it.
pub proof fn law_product_of_scalars(a: Seq<u8>, b: Seq<u8>)
    ensures
        scalar_product(a, b).len() == 32,
        bytes::be_value(scalar_product(a, b)) == (bytes::be_value(a) * bytes::be_value(b))
            % curve_order(),
        forall|k: Seq<u8>|
            k.len() == 32 && #[trigger] bytes::be_value(k) == (bytes::be_value(a)
                * bytes::be_value(b)) % curve_order() ==> k == scalar_product(a, b),
{
    assert(curve_order() < bytes::be_limit(32)) by {
        reveal_with_fuel(bytes::be_limit, 33);
    }
    let product = (bytes::be_value(a) * bytes::be_value(b)) % curve_order();
    bytes::lemma_value_of_bytes(product, 32);
    assert forall|k: Seq<u8>|
        k.len() == 32 && #[trigger] bytes::be_value(k) == product implies k == scalar_product(
        a,
        b,
    ) by {
        bytes::lemma_bytes_of_value(k);
    }
}

} // verus!
