//! A messenger is run on what the target delivers, and its log is looked at.
use std::collections::HashMap;
use std::io::Cursor;
use std::sync::Mutex;

use bitcoin::bech32::u5;
use bitcoin::blockdata::script::Script;
use bitcoin::secp256k1::ecdh::SharedSecret;
use bitcoin::secp256k1::ecdsa::RecoverableSignature;
use bitcoin::secp256k1::{PublicKey, Scalar, Secp256k1, SecretKey};

use lightning::chain::keysinterface::{
    InMemorySigner, KeyMaterial, KeysInterface, KeysManager, Recipient,
};
use lightning::ln::features::InitFeatures;
use lightning::ln::msgs::{self, DecodeError, OnionMessageHandler};
use lightning::ln::script::ShutdownScript;
use lightning::onion_message::{Destination, OnionMessenger};
use lightning::util::events::OnionMessageProvider;
use lightning::util::logger::{Logger, Record};
use lightning::util::ser::{Readable, Writeable};

use onion_message_target::curve;
use onion_message_target::keys;
use onion_message_target::target::do_test;

struct TrackingLogger {
    /// (module, message) -> count
    lines: Mutex<HashMap<(String, String), usize>>,
}

impl Logger for TrackingLogger {
    fn log(&self, record: &Record) {
        // The record's debug form ends in two quoted strings: the module and the file.
        let debug = format!("{:?}", record);
        let module = debug.rsplit('"').nth(3).unwrap();
        let line = (module.to_string(), format!("{}", record.args));
        *self.lines.lock().unwrap().entry(line).or_insert(0) += 1;
    }
}

impl TrackingLogger {
    fn new() -> TrackingLogger {
        TrackingLogger { lines: Mutex::new(HashMap::new()) }
    }

    fn count(&self, message: &str) -> Option<usize> {
        let line = ("lightning::onion_message::messenger".to_string(), message.to_string());
        self.lines.lock().unwrap().get(&line).copied()
    }
}

struct Keys(Mutex<keys::KeyProvider>);

fn recipient_of(recipient: Recipient) -> keys::Recipient {
    match recipient {
        Recipient::Node => keys::Recipient::Node,
        Recipient::PhantomNode => keys::Recipient::PhantomNode,
    }
}

impl KeysInterface for Keys {
    type Signer = InMemorySigner;

    fn get_node_secret(&self, recipient: Recipient) -> Result<SecretKey, ()> {
        let secret = self.0.lock().unwrap().get_node_secret(recipient_of(recipient))?;
        Ok(SecretKey::from_slice(&secret.secret_bytes()).unwrap())
    }

    fn ecdh(
        &self,
        recipient: Recipient,
        other_key: &PublicKey,
        tweak: Option<&Scalar>,
    ) -> Result<SharedSecret, ()> {
        let point = curve::PublicKey::from_bytes(&other_key.serialize()).unwrap();
        let factor = tweak.map(|t| curve::Scalar::from_be_bytes(&t.to_be_bytes()).unwrap());
        let provider = self.0.lock().unwrap();
        let shared = provider.ecdh(recipient_of(recipient), &point, factor.as_ref())?;
        Ok(SharedSecret::from_bytes(shared.secret_bytes()))
    }

    fn get_inbound_payment_key_material(&self) -> KeyMaterial {
        unreachable!()
    }

    fn get_destination_script(&self) -> Script {
        unreachable!()
    }

    fn get_shutdown_scriptpubkey(&self) -> ShutdownScript {
        unreachable!()
    }

    fn get_channel_signer(&self, _inbound: bool, _channel_value_satoshis: u64) -> InMemorySigner {
        unreachable!()
    }

    fn get_secure_random_bytes(&self) -> [u8; 32] {
        self.0.lock().unwrap().get_secure_random_bytes()
    }

    fn read_chan_signer(&self, _data: &[u8]) -> Result<InMemorySigner, DecodeError> {
        unreachable!()
    }

    fn sign_invoice(
        &self,
        _hrp_bytes: &[u8],
        _invoice_data: &[u5],
        _recipient: Recipient,
    ) -> Result<RecoverableSignature, ()> {
        unreachable!()
    }
}

/// Lets a messenger handle what the target makes of `data`.
fn handle(data: &[u8], logger: &TrackingLogger) {
    if let Some(delivery) = do_test(data) {
        let msg: msgs::OnionMessage =
            Readable::read(&mut Cursor::new(delivery.message.encode())).unwrap();
        let peer = PublicKey::from_slice(&delivery.peer.serialize()).unwrap();
        let keys_manager = Keys(Mutex::new(delivery.keys));
        OnionMessenger::new(&keys_manager, logger).handle_onion_message(&peer, &msg);
    }
}

fn public_key(secret: u8) -> PublicKey {
    let mut bytes = [0; 32];
    bytes[31] = secret;
    PublicKey::from_secret_key(&Secp256k1::new(), &SecretKey::from_slice(&bytes).unwrap())
}

/// The message that a node sends to the target's node, whose secret key is two, to be
/// passed along `intermediate_nodes` to `destination`.
fn sent(intermediate_nodes: &[PublicKey], destination: PublicKey) -> Vec<u8> {
    let sender_keys = KeysManager::new(&[42; 32], 1, 2);
    let sender_logger = TrackingLogger::new();
    let sender = OnionMessenger::new(&sender_keys, &sender_logger);
    let mut features = InitFeatures::empty();
    features.set_onion_messages_optional();
    let init = msgs::Init { features, remote_network_address: None };
    sender.peer_connected(&public_key(2), &init);
    sender.send_onion_message(intermediate_nodes, Destination::Node(destination), None).unwrap();
    sender.next_onion_message_for_peer(public_key(2)).unwrap().encode()
}

#[test]
fn a_message_for_the_node_is_received() {
    let data = sent(&[], public_key(2));
    assert_eq!(data.len(), 1401);
    let logger = TrackingLogger::new();
    handle(&data, &logger);
    assert_eq!(
        logger.count("Received an onion message with path_id: None and no reply_path"),
        Some(1)
    );
}

#[test]
fn a_message_for_a_stranger_is_dropped() {
    let data = sent(&[public_key(2)], public_key(3));
    let logger = TrackingLogger::new();
    handle(&data, &logger);
    let expected = format!(
        "Dropping forwarded onion message to disconnected peer {:?}",
        public_key(3)
    );
    assert_eq!(logger.count(&expected), Some(1));
}

#[test]
fn a_message_that_was_tampered_with_is_reported() {
    let mut data = sent(&[], public_key(2));
    data[100] ^= 1;
    let logger = TrackingLogger::new();
    handle(&data, &logger);
    let lines = logger.lines.lock().unwrap();
    assert!(lines
        .keys()
        .any(|(_, text)| text.starts_with("Errored decoding onion message packet")));
    assert!(!lines.keys().any(|(_, text)| text.starts_with("Received")));
}

#[test]
fn bytes_that_are_no_message_are_passed_over() {
    let logger = TrackingLogger::new();
    handle(&[], &logger);
    handle(&[0; 2000], &logger);
    assert!(logger.lines.lock().unwrap().is_empty());
}

const RECEIVED: &str = "Received an onion message with path_id: None and no reply_path";
const FORWARDED: &str = "Forwarding an onion message to peer \
    020000000000000000000000000000000000000000000000000000000000000003";

/// Runs a messenger on a message of 1401 bytes that starts with `head` and whose
/// authentication code starts with `code`, the rest being zeroes. It is made for the stub
/// that stands for the curve in the `fuzzing` configuration: there it must be logged as
/// `line` once, and elsewhere, where its points are no public keys, it is passed over.
fn check_stub_message(head: &str, code: u8, line: &str) {
    let mut data = hex::decode(head).unwrap();
    data.resize(1401, 0);
    data[1401 - 32] = code;
    let logger = TrackingLogger::new();
    handle(&data, &logger);
    if PublicKey::from_slice(&data[..33]).is_ok() {
        assert_eq!(logger.count(line), Some(1));
    } else {
        assert!(logger.lines.lock().unwrap().is_empty());
    }
}

#[test]
fn test_no_onion_message_breakage() {
    check_stub_message(
        "020000000000000000000000000000000000000000000000000000000000000e0105560002000000\
         0000000000000000000000000000000000000000000000000000000e0112041095",
        0x93,
        RECEIVED,
    );
    check_stub_message(
        "020000000000000000000000000000000000000000000000000000000000000e0105560002000000\
         0000000000000000000000000000000000000000000000000000000e013504330421020000000000\
         00000000000000000000000000000000000000000000000000000395000000000000000000000000\
         00000058000000000000000000000000000000000000000000000000000000000000001204105e",
        0xb3,
        FORWARDED,
    );
    check_stub_message(
        "020000000000000000000000000000000000000000000000000000000000000e0105560002000000\
         0000000000000000000000000000000000000000000000000000000e013504330421020000000000\
         00000000000000000000000000000000000000000000000000000395000000000000000000000000\
         00000053000000000000000000000000000000000000000000000000000000000000005804560421\
         02000000000000000000000000000000000000000000000000000000000000000408210200000000\
         00000000000000000000000000000000000000000000000000000e015e0000000000000000000000\
         000000006b0000000000000000000000000000000000000000000000000000000000000035043304\
         210200000000000000000000000000000000000000000000000000000000000000054b0000000000\
         00000000000000000000e80000000000000000000000000000000000000000000000000000000000\
         0000120410ee",
        0xb3,
        FORWARDED,
    );
    check_stub_message(
        "020000000000000000000000000000000000000000000000000000000000000e0105560002000000\
         0000000000000000000000000000000000000000000000000000000e013504330421020000000000\
         00000000000000000000000000000000000000000000000000000395000000000000000000000000\
         0000007f000000000000000000000000000000000000000000000000000000000000003504330421\
         0200000000000000000000000000000000000000000000000000000000000000045e000000000000\
         0000000000000000004c000000000000000000000000000000000000000000000000000000000000\
         001204104a",
        0xb3,
        FORWARDED,
    );
}
