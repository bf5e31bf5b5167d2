use cosmrs::proto::traits::MessageExt;
use orga::call::Call as CallTrait;
use orga::encoding::{Decode, Encode, EncodingError};
use orga::error::Error;
use orga::migrate::{MigrateFrom, MigrateInto};
use orga::plugins::sdk_compat::sdk::{
    AminoTx, Coin, Fee, Msg, ProtobufTx, PubKey, SignDoc, Signature, SignerKey, Tx, TxCodec,
};
use orga::plugins::sdk_compat::{
    classify, flagged_length, Call, ConvertSdkTx, Envelope, SdkCompatPlugin, MAX_CALL_SIZE,
    NATIVE_CALL_FLAG,
};
use serde_json::Value;
use std::marker::PhantomData;

/// The codec of the JSON encoding, written with `serde_json`.
struct Codec;

fn text(v: &Value) -> Result<String, String> {
    v.as_str().map(|s| s.to_string()).ok_or_else(|| "expected a string".to_string())
}

fn field<'a>(v: &'a Value, name: &str) -> Result<&'a Value, String> {
    v.get(name).ok_or_else(|| format!("missing field {}", name))
}

fn list<'a>(v: &'a Value) -> Result<&'a Vec<Value>, String> {
    v.as_array().ok_or_else(|| "expected an array".to_string())
}

fn coin_from(v: &Value) -> Result<Coin, String> {
    Ok(Coin { amount: text(field(v, "amount")?)?, denom: text(field(v, "denom")?)? })
}

fn fee_from(v: &Value) -> Result<Fee, String> {
    let mut amount = vec![];
    for c in list(field(v, "amount")?)? {
        amount.push(coin_from(c)?);
    }
    Ok(Fee { amount, gas: text(field(v, "gas")?)? })
}

fn msg_from(v: &Value) -> Result<Msg, String> {
    Ok(Msg { type_: text(field(v, "type")?)?, value: field(v, "value")?.to_string() })
}

fn signature_from(v: &Value) -> Result<Signature, String> {
    let key = field(v, "pub_key")?;
    Ok(Signature {
        pub_key: PubKey { type_: text(field(key, "type")?)?, value: text(field(key, "value")?)? },
        signature: text(field(v, "signature")?)?,
        type_: match v.get("type") {
            Some(Value::Null) | None => None,
            Some(t) => Some(text(t)?),
        },
    })
}

fn object(fields: Vec<(&str, Value)>) -> Value {
    let mut map = serde_json::Map::new();
    for (name, value) in fields {
        map.insert(name.to_string(), value);
    }
    Value::Object(map)
}

fn string(s: &str) -> Value {
    Value::String(s.to_string())
}

fn fee_to(fee: &Fee) -> Value {
    let coins = fee
        .amount
        .iter()
        .map(|c| object(vec![("amount", string(&c.amount)), ("denom", string(&c.denom))]))
        .collect();
    object(vec![("amount", Value::Array(coins)), ("gas", string(&fee.gas))])
}

fn msgs_to(msgs: &[Msg]) -> Result<Value, String> {
    let mut out = vec![];
    for m in msgs {
        let value: Value = serde_json::from_str(&m.value).map_err(|e| e.to_string())?;
        out.push(object(vec![("type", string(&m.type_)), ("value", value)]));
    }
    Ok(Value::Array(out))
}

impl TxCodec for Codec {
    fn amino_from_bytes(&self, bytes: &[u8]) -> Result<AminoTx, String> {
        let v: Value = serde_json::from_slice(bytes).map_err(|e| e.to_string())?;
        let mut msg = vec![];
        for m in list(field(&v, "msg")?)? {
            msg.push(msg_from(m)?);
        }
        let mut signatures = vec![];
        for s in list(field(&v, "signatures")?)? {
            signatures.push(signature_from(s)?);
        }
        Ok(AminoTx {
            msg,
            fee: fee_from(field(&v, "fee")?)?,
            memo: text(field(&v, "memo")?)?,
            signatures,
        })
    }

    fn amino_to_bytes(&self, tx: &AminoTx) -> Result<Vec<u8>, String> {
        let signatures = tx
            .signatures
            .iter()
            .map(|s| {
                object(vec![
                    (
                        "pub_key",
                        object(vec![
                            ("type", string(&s.pub_key.type_)),
                            ("value", string(&s.pub_key.value)),
                        ]),
                    ),
                    ("signature", string(&s.signature)),
                    ("type", s.type_.as_deref().map(string).unwrap_or(Value::Null)),
                ])
            })
            .collect();
        let v = object(vec![
            ("msg", msgs_to(&tx.msg)?),
            ("fee", fee_to(&tx.fee)),
            ("memo", string(&tx.memo)),
            ("signatures", Value::Array(signatures)),
        ]);
        serde_json::to_vec(&v).map_err(|e| e.to_string())
    }

    fn sign_doc_to_bytes(&self, doc: &SignDoc) -> Result<Vec<u8>, String> {
        let v = object(vec![
            ("account_number", string(&doc.account_number)),
            ("chain_id", string(&doc.chain_id)),
            ("fee", fee_to(&doc.fee)),
            ("memo", string(&doc.memo)),
            ("msgs", msgs_to(&doc.msgs)?),
            ("sequence", string(&doc.sequence)),
        ]);
        serde_json::to_vec(&v).map_err(|e| e.to_string())
    }
}

/// A native call: one byte to add to a counter.
#[derive(Debug, PartialEq, Eq, Clone, Copy)]
struct Add(u8);

impl Encode for Add {
    fn encoding_length(&self) -> Result<usize, EncodingError> {
        Ok(1)
    }

    fn encode_into(&self, dest: &mut Vec<u8>) -> Result<(), EncodingError> {
        dest.push(self.0);
        Ok(())
    }
}

impl Decode for Add {
    fn decode(bytes: &[u8]) -> Result<Self, EncodingError> {
        match bytes {
            [b] => Ok(Add(*b)),
            [] => Err(EncodingError::UnexpectedEof),
            _ => Err(EncodingError::UnexpectedByte(bytes[1])),
        }
    }
}

fn key_text(fill: u8, len: usize) -> String {
    base64::encode(vec![fill; len])
}

fn amino_tx(signatures: Vec<Signature>) -> AminoTx {
    AminoTx {
        msg: vec![Msg { type_: "cosmos-sdk/MsgSend".to_string(), value: "{\"to\":\"b\"}".to_string() }],
        fee: Fee {
            amount: vec![Coin { amount: "1".to_string(), denom: "unom".to_string() }],
            gas: "200".to_string(),
        },
        memo: "hi".to_string(),
        signatures,
    }
}

fn signed(pub_key: &str, signature: &str, type_: Option<&str>) -> Signature {
    Signature {
        pub_key: PubKey { type_: "tendermint/PubKeySecp256k1".to_string(), value: pub_key.to_string() },
        signature: signature.to_string(),
        type_: type_.map(|t| t.to_string()),
    }
}

fn protobuf_tx() -> ProtobufTx {
    ProtobufTx {
        body_bytes: vec![1, 2],
        auth_info_bytes: vec![3],
        signer_keys: vec![SignerKey::Single(vec![2; 33])],
        signatures: vec![vec![9; 64], vec![8; 64]],
    }
}

#[test]
fn envelope_is_told_by_size_and_first_byte() {
    assert_eq!(classify(&[]), Err(EncodingError::UnexpectedEof));
    assert_eq!(classify(&[NATIVE_CALL_FLAG, 1]), Ok(Envelope::Native));
    assert_eq!(classify(b"{}"), Ok(Envelope::Amino));
    assert_eq!(classify(&[10, 0]), Ok(Envelope::Protobuf));
    assert_eq!(classify(&vec![NATIVE_CALL_FLAG; MAX_CALL_SIZE]), Ok(Envelope::Native));
    assert_eq!(
        classify(&vec![NATIVE_CALL_FLAG; MAX_CALL_SIZE + 1]),
        Err(EncodingError::UnexpectedByte(0))
    );
}

#[test]
fn an_envelope_that_is_too_large_is_rejected_before_decoding() {
    for first in [NATIVE_CALL_FLAG, b'{', 10u8] {
        let mut bytes = vec![first; MAX_CALL_SIZE + 1];
        bytes[1] = 1;
        let r = Call::<Add>::decode(&Codec, &bytes);
        assert!(matches!(r, Err(EncodingError::UnexpectedByte(0))));
        let r = Tx::decode(&Codec, &bytes);
        assert_eq!(r, Err(EncodingError::UnexpectedByte(0)));
    }
}

#[test]
fn an_empty_envelope_is_rejected() {
    assert!(matches!(Call::<Add>::decode(&Codec, &[]), Err(EncodingError::UnexpectedEof)));
    assert_eq!(Tx::decode(&Codec, &[]), Err(EncodingError::UnexpectedByte(0)));
}

#[test]
fn native_call_round_trip() {
    let call = Call::Native(Add(7));
    let mut bytes = vec![];
    call.encode_into(&Codec, &mut bytes).unwrap();
    assert_eq!(bytes, vec![0xff, 7]);
    assert_eq!(call.encoding_length(&Codec), Ok(2));
    match Call::<Add>::decode(&Codec, &bytes) {
        Ok(Call::Native(add)) => assert_eq!(add, Add(7)),
        other => panic!("unexpected result {:?}", other),
    }
    assert!(matches!(
        Call::<Add>::decode(&Codec, &[0xff, 1, 2]),
        Err(EncodingError::UnexpectedByte(2))
    ));
}

#[test]
fn amino_round_trip() {
    let tx = amino_tx(vec![signed(&key_text(2, 33), &key_text(9, 64), Some("sdk"))]);
    let call: Call<Add> = Call::Sdk(Tx::Amino(tx.clone()));
    let mut bytes = vec![];
    call.encode_into(&Codec, &mut bytes).unwrap();
    assert_eq!(bytes[0], b'{');
    assert_eq!(call.encoding_length(&Codec), Ok(bytes.len()));
    match Call::<Add>::decode(&Codec, &bytes) {
        Ok(Call::Sdk(Tx::Amino(back))) => assert_eq!(back, tx),
        other => panic!("unexpected result {:?}", other),
    }
}

#[test]
fn broken_json_is_an_unexpected_brace() {
    assert_eq!(Tx::decode(&Codec, b"{not json"), Err(EncodingError::UnexpectedByte(123)));
    assert!(matches!(
        Call::<Add>::decode(&Codec, b"{\"msg\":[]}"),
        Err(EncodingError::UnexpectedByte(123))
    ));
}

#[test]
fn protobuf_round_trip() {
    let key = cosmrs::crypto::secp256k1::SigningKey::from_slice(&[1u8; 32]).unwrap();
    let body = cosmrs::tx::Body::new(Vec::<cosmrs::Any>::new(), "memo", 0u32);
    let fee = cosmrs::tx::Fee::from_amount_and_gas(
        cosmrs::Coin::new(5, "unom").unwrap(),
        100u64,
    );
    let auth_info =
        cosmrs::tx::SignerInfo::single_direct(Some(key.public_key()), 3).auth_info(fee);
    let chain_id = "foo".parse().unwrap();
    let doc = cosmrs::tx::SignDoc::new(&body, &auth_info, &chain_id, 0).unwrap();
    let sign_bytes = doc.clone().into_bytes().unwrap();
    let bytes = doc.sign(&key).unwrap().to_bytes().unwrap();

    let tx = match Call::<Add>::decode(&Codec, &bytes) {
        Ok(Call::Sdk(tx)) => tx,
        other => panic!("unexpected result {:?}", other),
    };
    assert!(matches!(tx, Tx::Protobuf(_)));
    assert_eq!(tx.sender_pubkey().unwrap().to_vec(), key.public_key().to_bytes());
    assert_eq!(tx.signature().unwrap().len(), 64);
    assert_eq!(tx.sig_type(), Ok(None));
    assert_eq!(tx.sign_bytes(&Codec, "foo".to_string(), 3), Ok(sign_bytes));

    let mut again = vec![];
    tx.encode_into(&Codec, &mut again).unwrap();
    assert_eq!(again, bytes);
    assert_eq!(tx.encoding_length(&Codec), Ok(bytes.len()));
    assert_eq!(Tx::decode(&Codec, &again), Ok(tx));
}

#[test]
fn broken_protobuf_is_invalid_data() {
    assert!(matches!(
        Tx::decode(&Codec, &[10, 200, 1]),
        Err(EncodingError::InvalidData(_))
    ));
}

#[test]
fn an_encoding_that_is_too_large_is_not_written() {
    let mut tx = protobuf_tx();
    tx.body_bytes = vec![0; MAX_CALL_SIZE];
    let mut dest = vec![1, 2, 3];
    assert_eq!(
        Tx::Protobuf(tx).encode_into(&Codec, &mut dest),
        Err(EncodingError::UnexpectedByte(0))
    );
    assert_eq!(dest, vec![1, 2, 3]);
}

#[test]
fn amino_sender_pubkey_is_the_decoded_key() {
    let mut key = vec![3u8; 33];
    key[0] = 2;
    key[32] = 250;
    let tx = Tx::Amino(amino_tx(vec![
        signed(&base64::encode(&key), &key_text(9, 64), None),
        signed(&key_text(7, 33), &key_text(6, 64), None),
    ]));
    assert_eq!(tx.sender_pubkey().unwrap().to_vec(), key);
    assert_eq!(tx.signature().unwrap().to_vec(), vec![9u8; 64]);
}

#[test]
fn sender_pubkey_errors() {
    let none = Tx::Amino(amino_tx(vec![]));
    assert_eq!(none.sender_pubkey(), Err(Error::App("No signatures provided".to_string())));
    assert_eq!(none.signature(), Err(Error::App("No signatures provided".to_string())));
    assert_eq!(none.sig_type(), Err(Error::App("No signatures provided".to_string())));

    let short = Tx::Amino(amino_tx(vec![signed(&key_text(2, 32), &key_text(9, 63), None)]));
    assert_eq!(
        short.sender_pubkey(),
        Err(Error::Signer("Public key must have 33 bytes".to_string()))
    );
    assert_eq!(
        short.signature(),
        Err(Error::Signer("Signature must have 64 bytes".to_string()))
    );

    let garbled = Tx::Amino(amino_tx(vec![signed("***", "???", None)]));
    assert!(matches!(garbled.sender_pubkey(), Err(Error::App(_))));
    assert!(matches!(garbled.signature(), Err(Error::App(_))));

    let mut tx = protobuf_tx();
    tx.signer_keys = vec![];
    tx.signatures = vec![];
    let tx = Tx::Protobuf(tx);
    assert_eq!(tx.sender_pubkey(), Err(Error::App("No auth info provided".to_string())));
    assert_eq!(tx.signature(), Err(Error::App("No signatures provided".to_string())));

    let mut tx = protobuf_tx();
    tx.signer_keys = vec![SignerKey::Missing];
    assert_eq!(
        Tx::Protobuf(tx).sender_pubkey(),
        Err(Error::App("No public key provided".to_string()))
    );
    let mut tx = protobuf_tx();
    tx.signer_keys = vec![SignerKey::Other, SignerKey::Single(vec![2; 33])];
    assert_eq!(
        Tx::Protobuf(tx).sender_pubkey(),
        Err(Error::App("Invalid public key".to_string()))
    );
}

#[test]
fn protobuf_sender_pubkey_and_signature_are_the_first() {
    let tx = Tx::Protobuf(protobuf_tx());
    assert_eq!(tx.sender_pubkey().unwrap().to_vec(), vec![2u8; 33]);
    assert_eq!(tx.signature().unwrap().to_vec(), vec![9u8; 64]);
}

#[test]
fn sig_type_is_that_of_the_first_signature() {
    let tx = Tx::Amino(amino_tx(vec![
        signed(&key_text(2, 33), &key_text(9, 64), Some("sdk")),
        signed(&key_text(2, 33), &key_text(9, 64), Some("other")),
    ]));
    assert_eq!(tx.sig_type(), Ok(Some("sdk")));
    let tx = Tx::Amino(amino_tx(vec![signed(&key_text(2, 33), &key_text(9, 64), None)]));
    assert_eq!(tx.sig_type(), Ok(None));
}

#[test]
fn amino_sign_doc_has_the_fields_of_the_transaction() {
    let tx = amino_tx(vec![]);
    let doc = tx.sign_doc("foo".to_string(), 1234567890123);
    assert_eq!(doc.account_number, "0");
    assert_eq!(doc.chain_id, "foo");
    assert_eq!(doc.fee, tx.fee);
    assert_eq!(doc.memo, "hi");
    assert_eq!(doc.msgs, tx.msg);
    assert_eq!(doc.sequence, "1234567890123");
    assert_eq!(tx.sign_doc("foo".to_string(), 0).sequence, "0");
    assert_eq!(tx.sign_doc("foo".to_string(), u64::MAX).sequence, "18446744073709551615");
}

#[test]
fn amino_sign_bytes_are_the_json_of_the_sign_doc() {
    let tx = Tx::Amino(amino_tx(vec![]));
    let bytes = tx.sign_bytes(&Codec, "foo".to_string(), 7).unwrap();
    assert_eq!(
        String::from_utf8(bytes).unwrap(),
        "{\"account_number\":\"0\",\"chain_id\":\"foo\",\"fee\":{\"amount\":[{\"amount\":\"1\",\"denom\":\"unom\"}],\"gas\":\"200\"},\"memo\":\"hi\",\"msgs\":[{\"type\":\"cosmos-sdk/MsgSend\",\"value\":{\"to\":\"b\"}}],\"sequence\":\"7\"}"
    );
}

#[test]
fn protobuf_sign_bytes_are_the_encoded_sign_doc() {
    let tx = Tx::Protobuf(protobuf_tx());
    assert_eq!(
        tx.sign_bytes(&Codec, "foo".to_string(), 99),
        Ok(vec![0x0a, 0x02, 0x01, 0x02, 0x12, 0x01, 0x03, 0x1a, 0x03, b'f', b'o', b'o'])
    );
}

/// A layer that adds what it is called with, and converts a transaction into the
/// number of its signatures.
struct Adder {
    total: u8,
}

impl CallTrait for Adder {
    type Call = Add;

    fn call(&mut self, call: Add) -> Result<(), Error> {
        match self.total.checked_add(call.0) {
            Some(total) => {
                self.total = total;
                Ok(())
            }
            None => Err(Error::Call("Overflow".to_string())),
        }
    }
}

impl ConvertSdkTx for Adder {
    type Output = Add;

    fn convert(&self, msg: &Tx) -> Result<Add, Error> {
        match msg {
            Tx::Amino(tx) => Ok(Add(tx.signatures.len() as u8)),
            Tx::Protobuf(_) => Err(Error::App("Unsupported".to_string())),
        }
    }
}

#[test]
fn the_plugin_converts_transactions_and_passes_native_calls() {
    let mut plugin: SdkCompatPlugin<(), Adder> =
        SdkCompatPlugin { symbol: PhantomData, inner: Adder { total: 1 } };
    plugin.call(Call::Native(Add(4))).unwrap();
    assert_eq!(plugin.inner.total, 5);
    let two = amino_tx(vec![
        signed(&key_text(2, 33), &key_text(9, 64), None),
        signed(&key_text(2, 33), &key_text(9, 64), None),
    ]);
    plugin.call(Call::Sdk(Tx::Amino(two))).unwrap();
    assert_eq!(plugin.inner.total, 7);
    assert_eq!(
        plugin.call(Call::Sdk(Tx::Protobuf(protobuf_tx()))),
        Err(Error::App("Unsupported".to_string()))
    );
    assert_eq!(plugin.call(Call::Native(Add(250))), Err(Error::Call("Overflow".to_string())));
    assert_eq!(plugin.inner.total, 7);
}


/// A layer in an older form: it holds its total in a byte.
struct OldAdder {
    total: u8,
}

impl MigrateFrom<OldAdder> for Adder {
    fn migrate_from(other: OldAdder) -> Result<Self, Error> {
        match other.total {
            255 => Err(Error::App("Total is not known".to_string())),
            total => Ok(Adder { total }),
        }
    }
}

#[test]
fn the_plugin_migrates_with_its_inner_layer() {
    let old: SdkCompatPlugin<u8, OldAdder> =
        SdkCompatPlugin { symbol: PhantomData, inner: OldAdder { total: 9 } };
    let new: SdkCompatPlugin<u16, Adder> = old.migrate_into().unwrap();
    assert_eq!(new.inner.total, 9);
    let old: SdkCompatPlugin<u8, OldAdder> =
        SdkCompatPlugin { symbol: PhantomData, inner: OldAdder { total: 255 } };
    let failed: Result<SdkCompatPlugin<u16, Adder>, Error> =
        SdkCompatPlugin::migrate_from(old);
    assert_eq!(failed.err(), Some(Error::App("Total is not known".to_string())));
}

#[test]
fn the_flag_byte_adds_one_to_the_length() {
    assert_eq!(flagged_length(Ok(0)), Ok(1));
    assert_eq!(flagged_length(Ok(41)), Ok(42));
    assert_eq!(flagged_length(Ok(usize::MAX)), Err(EncodingError::UnencodableVariant));
    assert_eq!(
        flagged_length(Err(EncodingError::UnexpectedByte(3))),
        Err(EncodingError::UnexpectedByte(3))
    );
}

/// A native call of a given number of zero bytes.
struct Blob(usize);

impl Encode for Blob {
    fn encoding_length(&self) -> Result<usize, EncodingError> {
        Ok(self.0)
    }

    fn encode_into(&self, dest: &mut Vec<u8>) -> Result<(), EncodingError> {
        dest.extend(std::iter::repeat(0).take(self.0));
        Ok(())
    }
}

/// A native call that writes one byte and then fails.
struct Broken;

impl Encode for Broken {
    fn encoding_length(&self) -> Result<usize, EncodingError> {
        Err(EncodingError::UnencodableVariant)
    }

    fn encode_into(&self, dest: &mut Vec<u8>) -> Result<(), EncodingError> {
        dest.push(1);
        Err(EncodingError::UnencodableVariant)
    }
}

#[test]
fn a_native_call_that_is_too_large_is_not_written() {
    let mut dest = vec![1, 2, 3];
    assert_eq!(
        Call::Native(Blob(MAX_CALL_SIZE)).encode_into(&Codec, &mut dest),
        Err(EncodingError::UnexpectedByte(0))
    );
    assert_eq!(dest, vec![1, 2, 3]);

    assert_eq!(Call::Native(Blob(MAX_CALL_SIZE - 1)).encode_into(&Codec, &mut dest), Ok(()));
    assert_eq!(dest.len(), 3 + MAX_CALL_SIZE);
    assert_eq!(&dest[..5], &[1, 2, 3, NATIVE_CALL_FLAG, 0]);
    assert!(matches!(Call::<Add>::decode(&Codec, &dest[3..]), Err(_)));
}

#[test]
fn a_native_call_that_fails_leaves_the_destination() {
    let mut dest = vec![4];
    assert_eq!(
        Call::Native(Broken).encode_into(&Codec, &mut dest),
        Err(EncodingError::UnencodableVariant)
    );
    assert_eq!(dest, vec![4]);
}

#[test]
fn amino_sign_bytes_of_an_empty_transaction() {
    let tx = Tx::Amino(AminoTx {
        msg: vec![],
        fee: Fee { amount: vec![], gas: "0".to_string() },
        memo: "".to_string(),
        signatures: vec![],
    });
    let expected = "{\"account_number\":\"0\",\"chain_id\":\"foo\",\"fee\":{\"amount\":[],\"gas\":\"0\"},\"memo\":\"\",\"msgs\":[],\"sequence\":\"1\"}";
    assert_eq!(tx.sign_bytes(&Codec, "foo".to_string(), 1), Ok(expected.as_bytes().to_vec()));
}

#[test]
fn the_protobuf_encoding_is_that_of_the_raw_transaction() {
    let tx = protobuf_tx();
    let raw = cosmrs::proto::cosmos::tx::v1beta1::TxRaw {
        body_bytes: tx.body_bytes.clone(),
        auth_info_bytes: tx.auth_info_bytes.clone(),
        signatures: tx.signatures.clone(),
    };
    let expected = raw.to_bytes().unwrap();
    assert_eq!(tx.to_bytes(), expected);
    let mut dest = vec![7];
    Tx::Protobuf(tx.clone()).encode_into(&Codec, &mut dest).unwrap();
    assert_eq!(dest[0], 7);
    assert_eq!(&dest[1..], &expected[..]);
    assert_eq!(Tx::Protobuf(tx).encoding_length(&Codec), Ok(expected.len()));
}

#[test]
fn a_decoded_protobuf_transaction_holds_the_parts_that_were_encoded() {
    let key = cosmrs::crypto::secp256k1::SigningKey::from_slice(&[3u8; 32]).unwrap();
    let body = cosmrs::tx::Body::new(Vec::<cosmrs::Any>::new(), "note", 9u32);
    let fee = cosmrs::tx::Fee::from_amount_and_gas(cosmrs::Coin::new(1, "unom").unwrap(), 7u64);
    let auth_info =
        cosmrs::tx::SignerInfo::single_direct(Some(key.public_key()), 0).auth_info(fee);
    let raw = cosmrs::proto::cosmos::tx::v1beta1::TxRaw {
        body_bytes: body.clone().into_bytes().unwrap(),
        auth_info_bytes: auth_info.clone().into_bytes().unwrap(),
        signatures: vec![vec![5; 64]],
    };
    let bytes = raw.to_bytes().unwrap();
    match Tx::decode(&Codec, &bytes) {
        Ok(Tx::Protobuf(tx)) => {
            assert_eq!(tx.body_bytes, raw.body_bytes);
            assert_eq!(tx.auth_info_bytes, raw.auth_info_bytes);
            assert_eq!(tx.signer_keys, vec![SignerKey::Single(key.public_key().to_bytes())]);
            assert_eq!(tx.signatures, vec![vec![5; 64]]);
        },
        other => panic!("unexpected result {:?}", other),
    }
}
