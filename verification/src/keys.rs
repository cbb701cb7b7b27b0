//! The key provider of the target: one fixed node secret, and "random" bytes that are
//! counted up.
use vstd::prelude::*;

use crate::bytes;
use crate::curve;
use crate::curve::{PublicKey, Scalar, SecretKey, SharedSecret};

verus! {

/// Whose secret key is asked for.
#[derive(Clone, Copy, Debug, PartialEq, Eq)]
pub enum Recipient {
    /// The node itself.
    Node,
    /// The phantom node that several nodes stand for.
    PhantomNode,
}

/// What a `KeyProvider` stands for.
pub struct KeyState {
    /// The encoding of the node's secret key.
    pub node_secret: Seq<u8>,
    /// How many blocks of random bytes have been drawn, modulo 2^64.
    pub counter: u64,
}

/// The secret key that is held for `recipient`: the same for both.
pub open spec fn secret_for(state: KeyState, recipient: Recipient) -> Seq<u8> {
    state.node_secret
}

/// The encoding that a tweak has, if there is a tweak.
pub open spec fn tweak_bytes(tweak: Option<&Scalar>) -> Option<Seq<u8>> {
    match tweak {
        Some(scalar) => Some(scalar@),
        None => None,
    }
}

/// The secret key `secret` times `tweak`; none if the tweak is zero.
pub open spec fn tweaked(secret: Seq<u8>, tweak: Option<Seq<u8>>) -> Option<Seq<u8>> {
    match tweak {
        None => Some(secret),
        Some(factor) => if bytes::be_value(factor) == 0 {
            None
        } else {
            Some(curve::scalar_product(secret, factor))
        },
    }
}

/// The secret that the node shares with the holder of `point`, under `tweak`.
pub open spec fn shared_with(
    state: KeyState,
    recipient: Recipient,
    point: Seq<u8>,
    tweak: Option<Seq<u8>>,
) -> Option<Seq<u8>> {
    match tweaked(secret_for(state, recipient), tweak) {
        Some(secret) => Some(curve::ecdh_output(point, secret)),
        None => None,
    }
}

/// The block of random bytes number `counter`: zeroes, the counter's seven high-order
/// bytes, the byte 14, and the counter's low-order byte.
pub open spec fn random_block(counter: u64) -> Seq<u8> {
    Seq::new(23, |i: int| 0u8) + bytes::be_bytes(counter as nat / 256, 7) + seq![
        14u8,
        (counter % 256) as u8,
    ]
}

/// `block` is drawn in state `before`, and `after` is the state then.
pub open spec fn drawn(before: KeyState, after: KeyState, block: Seq<u8>) -> bool {
    &&& block == random_block(before.counter)
    &&& after.counter == (before.counter + 1) % 0x1_0000_0000_0000_0000
    &&& after.node_secret == before.node_secret
}

/// The bytes of `random_block(counter)`.
pub fn random_block_bytes(counter: u64) -> (r: [u8; 32])
    ensures
        r@ == random_block(counter),
        r@.len() == 32,
        forall|i: int| 0 <= i < 23 ==> r@[i] == 0,
        r@[30] == 14,
        r@[31] == counter % 256,
        bytes::be_value(r@.subrange(23, 30)) == counter / 256,
{
    let r: [u8; 32] = [
        0, 0, 0, 0, 0, 0, 0, 0, 0, 0, 0, 0, 0, 0, 0, 0, 0, 0, 0, 0, 0, 0, 0,
        #[verifier::truncate] ((counter >> 56) as u8),
        #[verifier::truncate] ((counter >> 48) as u8),
        #[verifier::truncate] ((counter >> 40) as u8),
        #[verifier::truncate] ((counter >> 32) as u8),
        #[verifier::truncate] ((counter >> 24) as u8),
        #[verifier::truncate] ((counter >> 16) as u8),
        #[verifier::truncate] ((counter >> 8) as u8),
        14,
        #[verifier::truncate] (counter as u8),
    ];
    proof {
        reveal_with_fuel(bytes::be_bytes, 8);
        assert((counter >> 56) as u8 == counter / 0x100_0000_0000_0000) by (bit_vector);
        assert((counter >> 48) as u8 == (counter / 0x1_0000_0000_0000) % 256) by (bit_vector);
        assert((counter >> 40) as u8 == (counter / 0x100_0000_0000) % 256) by (bit_vector);
        assert((counter >> 32) as u8 == (counter / 0x1_0000_0000) % 256) by (bit_vector);
        assert((counter >> 24) as u8 == (counter / 0x100_0000) % 256) by (bit_vector);
        assert((counter >> 16) as u8 == (counter / 0x1_0000) % 256) by (bit_vector);
        assert((counter >> 8) as u8 == (counter / 0x100) % 256) by (bit_vector);
        assert(counter as u8 == counter % 256) by (bit_vector);
        assert(r@ =~= random_block(counter));
        law_block_spells_counter(counter);
    }
    r
}

/// Keys for one node.
pub struct KeyProvider {
    node_secret: SecretKey,
    counter: u64,
}

impl View for KeyProvider {
    type V = KeyState;

    closed spec fn view(&self) -> KeyState {
        KeyState { node_secret: self.node_secret@, counter: self.counter }
    }
}

impl KeyProvider {
    /// A provider for the node with secret key `node_secret` that has drawn nothing yet.
    pub fn new(node_secret: SecretKey) -> (r: KeyProvider)
        ensures
            r@ == (KeyState { node_secret: node_secret@, counter: 0 }),
    {
        KeyProvider { node_secret, counter: 0 }
    }

    /// The node's secret key, whoever the recipient.
    pub fn get_node_secret(&self, recipient: Recipient) -> (r: Result<SecretKey, ()>)
        ensures
            r matches Ok(key) && key@ == secret_for(self@, recipient),
            r matches Ok(key) && key@ == self@.node_secret,
    {
        Ok(self.node_secret)
    }

    /// The secret key for `recipient`, multiplied by `tweak` if there is one.
    pub fn tweaked_node_secret(&self, recipient: Recipient, tweak: Option<&Scalar>) -> (r: Result<
        SecretKey,
        (),
    >)
        ensures
            match tweaked(secret_for(self@, recipient), tweak_bytes(tweak)) {
                Some(secret) => r matches Ok(key) && key@ == secret,
                None => r is Err,
            },
            tweak is None ==> (r matches Ok(key) && key@ == self@.node_secret),
            tweak matches Some(factor) ==> (r is Ok <==> bytes::be_value(factor@) != 0),
            tweak matches Some(factor) ==> (r matches Ok(key) ==> key@.len() == 32
                && bytes::be_value(key@) == (bytes::be_value(self@.node_secret)
                * bytes::be_value(factor@)) % curve::curve_order()),
    {
        let node_secret = self.get_node_secret(recipient)?;
        match tweak {
            Some(factor) => match node_secret.mul_tweak(factor) {
                Ok(product) => Ok(product),
                Err(_) => Err(()),
            },
            None => Ok(node_secret),
        }
    }

    /// The secret that the node shares with the holder of `other_key`, the node's secret
    /// key being multiplied by `tweak` first if there is one. Fails on a tweak of zero.
    pub fn ecdh(&self, recipient: Recipient, other_key: &PublicKey, tweak: Option<&Scalar>) -> (r:
        Result<SharedSecret, ()>)
        ensures
            match shared_with(self@, recipient, other_key@, tweak_bytes(tweak)) {
                Some(secret) => r matches Ok(shared) && shared@ == secret,
                None => r is Err,
            },
            tweak is None ==> (r matches Ok(shared) && shared@ == curve::ecdh_output(
                other_key@,
                self@.node_secret,
            )),
            tweak matches Some(factor) ==> (r is Ok <==> bytes::be_value(factor@) != 0),
            tweak matches Some(factor) ==> (r matches Ok(shared) ==> exists|k: Seq<u8>|
                {
                    &&& k.len() == 32
                    &&& bytes::be_value(k) == (bytes::be_value(self@.node_secret)
                        * bytes::be_value(factor@)) % curve::curve_order()
                    &&& shared@ == #[trigger] curve::ecdh_output(other_key@, k)
                }),
    {
        let node_secret = self.tweaked_node_secret(recipient, tweak)?;
        Ok(SharedSecret::new(other_key, &node_secret))
    }

    /// The next block of random bytes.
    pub fn get_secure_random_bytes(&mut self) -> (r: [u8; 32])
        ensures
            drawn(old(self)@, final(self)@, r@),
            r@.len() == 32,
            forall|i: int| 0 <= i < 23 ==> r@[i] == 0,
            r@[30] == 14,
            r@[31] == old(self)@.counter % 256,
            bytes::be_value(r@.subrange(23, 30)) == old(self)@.counter / 256,
            final(self)@.counter == if old(self)@.counter == u64::MAX {
                0
            } else {
                old(self)@.counter + 1
            },
            final(self)@.node_secret == old(self)@.node_secret,
    {
        let counter = self.counter;
        self.counter = counter.wrapping_add(1);
        random_block_bytes(counter)
    }
}

/// Law: a block is zeroes but for its last nine bytes; these are the counter's digits, with
/// the byte 14 before the last of them.
pub proof fn law_block_spells_counter(counter: u64)
    ensures
        random_block(counter).len() == 32,
        forall|i: int| 0 <= i < 23 ==> random_block(counter)[i] == 0,
        random_block(counter)[30] == 14,
        random_block(counter)[31] == counter % 256,
        bytes::be_value(random_block(counter).subrange(23, 30)) == counter / 256,
        bytes::be_value(random_block(counter).subrange(23, 30)) * 256 + random_block(counter)[31]
            == counter,
{
    assert(bytes::be_limit(7) == 0x100_0000_0000_0000) by {
        reveal_with_fuel(bytes::be_limit, 8);
    }
    bytes::lemma_value_of_bytes(counter as nat / 256, 7);
    assert(random_block(counter).subrange(23, 30) =~= bytes::be_bytes(counter as nat / 256, 7));
}

/// Law: of two blocks drawn one after the other the second spells the number that follows
/// the first's; after the largest comes zero.
pub proof fn law_next_block_spells_next(
    first: KeyState,
    second: KeyState,
    third: KeyState,
    a: Seq<u8>,
    b: Seq<u8>,
)
    requires
        drawn(first, second, a),
        drawn(second, third, b),
    ensures
        ({
            let spelt_a = bytes::be_value(a.subrange(23, 30)) * 256 + a[31];
            let spelt_b = bytes::be_value(b.subrange(23, 30)) * 256 + b[31];
            spelt_b == if spelt_a == u64::MAX {
                0
            } else {
                spelt_a + 1
            }
        }),
{
    law_block_spells_counter(first.counter);
    law_block_spells_counter(second.counter);
}

/// Law: different counters give different blocks.
pub proof fn law_blocks_differ(a: u64, b: u64)
    requires
        random_block(a) == random_block(b),
    ensures
        a == b,
{
    let high_a = a as nat / 256;
    let high_b = b as nat / 256;
    assert(bytes::be_limit(7) == 0x100_0000_0000_0000) by {
        reveal_with_fuel(bytes::be_limit, 8);
    }
    bytes::lemma_value_of_bytes(high_a, 7);
    bytes::lemma_value_of_bytes(high_b, 7);
    assert(random_block(a).subrange(23, 30) =~= bytes::be_bytes(high_a, 7));
    assert(random_block(b).subrange(23, 30) =~= bytes::be_bytes(high_b, 7));
    assert(high_a == high_b);
    assert(random_block(a)[31] == (a % 256) as u8);
    assert(random_block(b)[31] == (b % 256) as u8);
}

/// Law: every block is a valid secret key, so a block can always serve as one.
pub proof fn law_block_is_secret_key(counter: u64)
    ensures
        curve::is_secret_key(random_block(counter)),
{
    let zeroes = Seq::new(23, |i: int| 0u8);
    let digits = bytes::be_bytes(counter as nat / 256, 7);
    let rest = digits + seq![14u8, (counter % 256) as u8];
    assert(bytes::be_limit(7) == 0x100_0000_0000_0000 && bytes::be_limit(9)
        == 0x100_0000_0000_0000_0000nat) by {
        reveal_with_fuel(bytes::be_limit, 10);
    }
    bytes::lemma_value_of_bytes(counter as nat / 256, 7);
    bytes::lemma_leading_zeroes(zeroes, rest);
    bytes::lemma_value_below_limit(rest);
    assert(random_block(counter) =~= zeroes + rest);
    assert(rest.drop_last().last() == 14);
    reveal_with_fuel(bytes::be_value, 2);
}

/// `blocks` are drawn one after the other; `states[k]` is the state after `k` draws.
pub open spec fn is_run(states: Seq<KeyState>, blocks: Seq<Seq<u8>>) -> bool {
    &&& states.len() == blocks.len() + 1
    &&& forall|k: int|
        0 <= k < blocks.len() ==> drawn(states[k], states[k + 1], #[trigger] blocks[k])
}

/// A counter that wraps at 2^64 keeps step with one that does not.
proof fn lemma_wrapping_step(n: int)
    ensures
        (n % 0x1_0000_0000_0000_0000 + 1) % 0x1_0000_0000_0000_0000 == (n + 1)
            % 0x1_0000_0000_0000_0000,
{
}

/// Numbers less than 2^64 apart do not wrap to the same.
proof fn lemma_wrapped_apart(m: int, n: int)
    requires
        m < n < m + 0x1_0000_0000_0000_0000,
    ensures
        m % 0x1_0000_0000_0000_0000 != n % 0x1_0000_0000_0000_0000,
{
}

/// Law: draw number `k` of a run gives the block whose number is `k` past the counter at
/// the start, and the node secret stays what it was.
#[verifier::spinoff_prover]
pub proof fn law_run_counts_up(states: Seq<KeyState>, blocks: Seq<Seq<u8>>, k: int)
    requires
        is_run(states, blocks),
        0 <= k <= blocks.len(),
    ensures
        states[k].counter == (states[0].counter + k) % 0x1_0000_0000_0000_0000,
        states[k].node_secret == states[0].node_secret,
        k < blocks.len() ==> blocks[k] == random_block(
            ((states[0].counter + k) % 0x1_0000_0000_0000_0000) as u64,
        ),
    decreases k,
{
    if k > 0 {
        law_run_counts_up(states, blocks, k - 1);
        assert(drawn(states[k - 1], states[k - 1 + 1], blocks[k - 1]));
        lemma_wrapping_step(states[0].counter + k - 1);
    }
    if k < blocks.len() {
        assert(drawn(states[k], states[k + 1], blocks[k]));
    }
}

/// Law: no block comes twice in a run of up to 2^64 draws.
#[verifier::spinoff_prover]
pub proof fn law_draws_differ(states: Seq<KeyState>, blocks: Seq<Seq<u8>>, i: int, j: int)
    requires
        is_run(states, blocks),
        0 <= i < j < blocks.len(),
        j - i < 0x1_0000_0000_0000_0000,
    ensures
        blocks[i] != blocks[j],
{
    law_run_counts_up(states, blocks, i);
    law_run_counts_up(states, blocks, j);
    lemma_wrapped_apart(states[0].counter + i, states[0].counter + j);
    if blocks[i] == blocks[j] {
        law_blocks_differ(states[i].counter, states[j].counter);
    }
}

/// Law: drawing random bytes changes neither the secret keys nor any shared secret.
pub proof fn law_draw_keeps_secrets(
    before: KeyState,
    after: KeyState,
    block: Seq<u8>,
    recipient: Recipient,
    point: Seq<u8>,
    tweak: Option<Seq<u8>>,
)
    requires
        drawn(before, after, block),
    ensures
        secret_for(after, recipient) == secret_for(before, recipient),
        shared_with(after, recipient, point, tweak) == shared_with(before, recipient, point, tweak),
{
}

/// Law: all recipients have the same secret key and the same shared secrets.
pub proof fn law_recipients_alike(
    state: KeyState,
    a: Recipient,
    b: Recipient,
    point: Seq<u8>,
    tweak: Option<Seq<u8>>,
)
    ensures
        secret_for(state, a) == secret_for(state, b),
        shared_with(state, a, point, tweak) == shared_with(state, b, point, tweak),
{
}

/// Law: a shared secret is refused if and only if there is a tweak and it is zero.
pub proof fn law_refused_iff_zero_tweak(
    state: KeyState,
    recipient: Recipient,
    point: Seq<u8>,
    tweak: Option<Seq<u8>>,
)
    ensures
        shared_with(state, recipient, point, tweak) is None <==> (tweak matches Some(factor)
            && bytes::be_value(factor) == 0),
{
}

/// Law: a tweak of one is no tweak.
pub proof fn law_tweak_by_one(
    state: KeyState,
    recipient: Recipient,
    point: Seq<u8>,
    one: Seq<u8>,
)
    requires
        curve::is_secret_key(state.node_secret),
        curve::is_scalar(one),
        bytes::be_value(one) == 1,
    ensures
        shared_with(state, recipient, point, Some(one)) == shared_with(
            state,
            recipient,
            point,
            None,
        ),
{
    let secret = state.node_secret;
    assert((bytes::be_value(secret) * 1) % curve::curve_order() == bytes::be_value(secret));
    bytes::lemma_bytes_of_value(secret);
}

/// Law: whoever the recipient, the secret key is the one that the provider holds, and
/// without a tweak the shared secret is that of this key and the very point given.
pub proof fn law_untweaked_uses_node_secret(state: KeyState, recipient: Recipient, point: Seq<u8>)
    ensures
        secret_for(state, recipient) == state.node_secret,
        tweaked(state.node_secret, None) == Some(state.node_secret),
        shared_with(state, recipient, point, None) == Some(
            curve::ecdh_output(point, state.node_secret),
        ),
{
}

/// Law: every tweak but zero multiplies the secret key, modulo the curve order.
pub proof fn law_tweak_multiplies(secret: Seq<u8>, factor: Seq<u8>)
    requires
        bytes::be_value(factor) != 0,
    ensures
        tweaked(secret, Some(factor)) matches Some(key) && key.len() == 32 && bytes::be_value(key)
            == (bytes::be_value(secret) * bytes::be_value(factor)) % curve::curve_order(),
{
    curve::law_product_of_scalars(secret, factor);
}

/// Law: under a tweak the shared secret is that of the point given and of the secret key
/// that is the product of the node's and the tweak.
pub proof fn law_shared_under_tweak(
    state: KeyState,
    recipient: Recipient,
    point: Seq<u8>,
    factor: Seq<u8>,
    key: Seq<u8>,
)
    requires
        bytes::be_value(factor) != 0,
        key.len() == 32,
        bytes::be_value(key) == (bytes::be_value(state.node_secret) * bytes::be_value(factor))
            % curve::curve_order(),
    ensures
        shared_with(state, recipient, point, Some(factor)) == Some(curve::ecdh_output(point, key)),
{
    curve::law_product_of_scalars(state.node_secret, factor);
}

/// Law: one tweak after another is the tweak by their product, in whatever order.
pub proof fn law_tweaks_compose(secret: Seq<u8>, a: Seq<u8>, b: Seq<u8>)
    requires
        bytes::be_value(a) != 0,
        bytes::be_value(b) != 0,
    ensures
        tweaked(tweaked(secret, Some(a))->Some_0, Some(b)) matches Some(key) && bytes::be_value(key)
            == (bytes::be_value(secret) * bytes::be_value(a) * bytes::be_value(b))
            % curve::curve_order(),
        tweaked(tweaked(secret, Some(a))->Some_0, Some(b)) == tweaked(
            tweaked(secret, Some(b))->Some_0,
            Some(a),
        ),
{
    let n = curve::curve_order() as int;
    let s = bytes::be_value(secret) as int;
    let x = bytes::be_value(a) as int;
    let y = bytes::be_value(b) as int;
    curve::law_product_of_scalars(secret, a);
    curve::law_product_of_scalars(secret, b);
    curve::law_product_of_scalars(curve::scalar_product(secret, a), b);
    curve::law_product_of_scalars(curve::scalar_product(secret, b), a);
    vstd::arithmetic::div_mod::lemma_mul_mod_noop_left(s * x, y, n);
    vstd::arithmetic::div_mod::lemma_mul_mod_noop_left(s * y, x, n);
    assert(s * x * y == s * y * x) by (nonlinear_arith);
}

} // verus!
