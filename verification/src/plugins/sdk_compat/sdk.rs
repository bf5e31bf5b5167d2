//! Foreign transactions, in their two encodings: JSON and Protocol Buffers.

use crate::encoding::EncodingError;
use crate::error::Error;
use crate::plugins::sdk_compat::MAX_CALL_SIZE;
use crate::store::mapstore::copy_bytes;
use crate::text;
use vstd::prelude::*;

verus! {

/// An amount of one denomination.
#[derive(Clone, Debug, PartialEq, Eq)]
pub struct Coin {
    pub amount: String,
    pub denom: String,
}

/// The fee that a transaction offers.
#[derive(Clone, Debug, PartialEq, Eq)]
pub struct Fee {
    pub amount: Vec<Coin>,
    pub gas: String,
}

/// A public key in text form: the key itself is in `value`, in base64.
#[derive(Clone, Debug, PartialEq, Eq)]
pub struct PubKey {
    pub type_: String,
    pub value: String,
}

/// A signature, in base64, with the key that made it.
#[derive(Clone, Debug, PartialEq, Eq)]
pub struct Signature {
    pub pub_key: PubKey,
    pub signature: String,
    pub type_: Option<String>,
}

/// A message of a transaction: its type, and its body as JSON text.
#[derive(Clone, Debug, PartialEq, Eq)]
pub struct Msg {
    pub type_: String,
    pub value: String,
}

/// A transfer of coins.
#[derive(Clone, Debug)]
pub struct MsgSend {
    pub from_address: String,
    pub to_address: String,
    pub amount: Vec<Coin>,
}

/// A delegation to a validator.
#[derive(Clone, Debug)]
pub struct MsgDelegate {
    pub delegator_address: String,
    pub validator_address: String,
    pub amount: Option<Coin>,
}

/// A move of a delegation from one validator to another.
#[derive(Clone, Debug)]
pub struct MsgBeginRedelegate {
    pub delegator_address: String,
    pub validator_src_address: String,
    pub validator_dst_address: String,
    pub amount: Option<Coin>,
}

/// The withdrawal of a delegation.
#[derive(Clone, Debug)]
pub struct MsgUndelegate {
    pub delegator_address: String,
    pub validator_address: String,
    pub amount: Option<Coin>,
}

/// A transaction in the JSON encoding.
#[derive(Clone, Debug, PartialEq, Eq)]
pub struct AminoTx {
    pub msg: Vec<Msg>,
    pub fee: Fee,
    pub memo: String,
    pub signatures: Vec<Signature>,
}

/// What the signer of a transaction in the JSON encoding signs.
#[derive(Clone, Debug, PartialEq, Eq)]
pub struct SignDoc {
    pub account_number: String,
    pub chain_id: String,
    pub fee: Fee,
    pub memo: String,
    pub msgs: Vec<Msg>,
    pub sequence: String,
}

/// The public key of one signer of a transaction in the Protocol Buffers encoding.
#[derive(Clone, Debug, PartialEq, Eq)]
pub enum SignerKey {
    /// The signer gave no key.
    Missing,
    /// The signer gave one key: these are its bytes.
    Single(Vec<u8>),
    /// The signer gave something else than one key.
    Other,
}

/// A transaction in the Protocol Buffers encoding, as far as this library reads it: the
/// bytes of its body and of its signing data, the keys of its signers, and its
/// signatures.
#[derive(Clone, Debug, PartialEq, Eq)]
pub struct ProtobufTx {
    pub body_bytes: Vec<u8>,
    pub auth_info_bytes: Vec<u8>,
    pub signer_keys: Vec<SignerKey>,
    pub signatures: Vec<Vec<u8>>,
}

/// A foreign transaction.
#[derive(Clone, Debug, PartialEq, Eq)]
pub enum Tx {
    Amino(AminoTx),
    Protobuf(ProtobufTx),
}

/// The decoder and the encoders of the JSON encoding.
pub trait TxCodec {
    /// Reads a transaction from its JSON text.
    fn amino_from_bytes(&self, bytes: &[u8]) -> (r: Result<AminoTx, String>);

    /// Writes a transaction as JSON text.
    fn amino_to_bytes(&self, tx: &AminoTx) -> (r: Result<Vec<u8>, String>);

    /// Writes what a signer signs as JSON text.
    fn sign_doc_to_bytes(&self, doc: &SignDoc) -> (r: Result<Vec<u8>, String>);
}

/// The number of bytes of a public key.
pub const PUBKEY_LENGTH: usize = 33;

/// The number of bytes of a signature.
pub const SIGNATURE_LENGTH: usize = 64;

/// The first byte of a transaction in the JSON encoding: an opening brace.
pub const JSON_OPEN: u8 = 0x7b;

/// The bytes that the base64 text `text` stands for; `None` where the text is not valid
/// base64.
pub uninterp spec fn base64_decoded(text: Seq<char>) -> Option<Seq<u8>>;

/// The Protocol Buffers encoding of the data that the signer of a transaction signs:
/// the body bytes, the signing data, the chain id and the account number. `None` where
/// the encoder fails.
pub uninterp spec fn proto_sign_doc_bytes(
    body_bytes: Seq<u8>,
    auth_info_bytes: Seq<u8>,
    chain_id: Seq<char>,
    account_number: u64,
) -> Option<Seq<u8>>;

/// What the decoder of the Protocol Buffers encoding reads from `bytes`: the bytes of
/// the body and of the signing data, the keys of the signers and the signatures of the
/// transaction; `None` where the bytes are no transaction.
pub uninterp spec fn protobuf_tx_decoded(bytes: Seq<u8>) -> Option<
    (Seq<u8>, Seq<u8>, Seq<SignerKey>, Seq<Seq<u8>>),
>;

/// The Protocol Buffers encoding of a transaction with the given body bytes, signing
/// data and signatures.
pub uninterp spec fn protobuf_tx_bytes(
    body_bytes: Seq<u8>,
    auth_info_bytes: Seq<u8>,
    signatures: Seq<Seq<u8>>,
) -> Seq<u8>;

/// The error of `base64::decode`.
#[verifier::external_type_specification]
#[verifier::external_body]
pub struct ExBase64DecodeError(base64::DecodeError);

/// The error of the `cosmrs` crate.
#[verifier::external_type_specification]
#[verifier::external_body]
pub struct ExErrorReport(cosmrs::ErrorReport);

/// Calls `base64::decode`, which decodes standard base64 with padding. The contract
/// gives the decoded bytes the name `base64_decoded` and says that the call fails
/// exactly where that name has no bytes: the result depends on the text alone. The
/// function panics only on a text within three bytes of the greatest length that the
/// machine can count, which no text in memory has.
#[verifier::external_body]
fn base64_decode(text: &str) -> (r: Result<Vec<u8>, base64::DecodeError>)
    ensures
        match r {
            Ok(bytes) => base64_decoded(text@) == Some(bytes@),
            Err(_) => base64_decoded(text@) is None,
        },
{
    base64::decode(text)
}

/// The text of an error of `base64::decode`, as its `Display` writes it. Nothing is
/// claimed of the text.
#[verifier::external_body]
fn base64_error_text(e: &base64::DecodeError) -> (text: String) {
    e.to_string()
}

/// Calls `cosmrs::tx::SignDoc::into_bytes` on a signing document with the given fields.
/// The contract gives the encoding the name `proto_sign_doc_bytes`: the result depends
/// on the four fields alone.
#[verifier::external_body]
fn encode_proto_sign_doc(
    body_bytes: Vec<u8>,
    auth_info_bytes: Vec<u8>,
    chain_id: String,
    account_number: u64,
) -> (r: Result<Vec<u8>, cosmrs::ErrorReport>)
    ensures
        match r {
            Ok(bytes) => proto_sign_doc_bytes(
                body_bytes@,
                auth_info_bytes@,
                chain_id@,
                account_number,
            ) == Some(bytes@),
            Err(_) => proto_sign_doc_bytes(body_bytes@, auth_info_bytes@, chain_id@, account_number)
                is None,
        },
{
    cosmrs::tx::SignDoc { body_bytes, auth_info_bytes, chain_id, account_number }.into_bytes()
}

/// Calls `cosmrs::Tx::from_bytes` and takes from the transaction what this library
/// reads of it: the body and the signing data in their encoding (`into_bytes`), for each
/// signer whether it gave no key, one key (with the bytes of the key, `to_bytes`) or
/// something else, and the signatures. The contract gives these parts the name
/// `protobuf_tx_decoded` and says that the call fails exactly where that name has
/// nothing: the result depends on the bytes alone. Encoding what was decoded does not
/// panic: it writes into a buffer that grows, and a key that the decoder has accepted
/// is of a kind that the encoder writes.
#[verifier::external_body]
fn decode_protobuf_tx(bytes: &[u8]) -> (r: Result<ProtobufTx, cosmrs::ErrorReport>)
    ensures
        match r {
            Ok(tx) => protobuf_tx_decoded(bytes@) == Some(tx.parts()),
            Err(_) => protobuf_tx_decoded(bytes@) is None,
        },
{
    let tx = cosmrs::Tx::from_bytes(bytes)?;
    let keys = tx.auth_info.signer_infos.iter().map(
        |signer| match &signer.public_key {
            None => SignerKey::Missing,
            Some(cosmrs::tx::SignerPublicKey::Single(key)) => SignerKey::Single(key.to_bytes()),
            Some(_) => SignerKey::Other,
        },
    );
    let signer_keys = keys.collect();
    let (body_bytes, auth_info_bytes) = (tx.body.into_bytes()?, tx.auth_info.into_bytes()?);
    Ok(ProtobufTx { body_bytes, auth_info_bytes, signer_keys, signatures: tx.signatures })
}

/// Calls `encode_to_vec` of `prost::Message` on a raw transaction of `cosmrs` with the
/// given fields. The contract gives the encoding the name `protobuf_tx_bytes`: the
/// result depends on the three fields alone.
#[verifier::external_body]
fn encode_protobuf_tx(body_bytes: Vec<u8>, auth_info_bytes: Vec<u8>, signatures: Vec<Vec<u8>>) -> (r:
    Vec<u8>)
    ensures
        r@ == protobuf_tx_bytes(body_bytes@, auth_info_bytes@, signatures_view(signatures@)),
{
    cosmrs::proto::traits::Message::encode_to_vec(
        &cosmrs::proto::cosmos::tx::v1beta1::TxRaw { body_bytes, auth_info_bytes, signatures },
    )
}

/// The text of an error of the `cosmrs` crate, as its `Display` writes it. Nothing is
/// claimed of the text.
#[verifier::external_body]
fn report_text(e: &cosmrs::ErrorReport) -> (text: String) {
    e.to_string()
}

/// The signatures `signatures`, each as its bytes.
pub open spec fn signatures_view(signatures: Seq<Vec<u8>>) -> Seq<Seq<u8>> {
    signatures.map_values(|s: Vec<u8>| s@)
}

/// A copy of the signatures `signatures`.
pub fn copy_signatures(signatures: &Vec<Vec<u8>>) -> (copy: Vec<Vec<u8>>)
    ensures
        signatures_view(copy@) == signatures_view(signatures@),
{
    let mut copy: Vec<Vec<u8>> = Vec::new();
    let mut i: usize = 0;
    while i < signatures.len()
        invariant
            i <= signatures.len(),
            copy@.len() == i,
            forall|j: int| 0 <= j < i ==> (#[trigger] copy@[j])@ == signatures@[j]@,
        decreases signatures.len() - i,
    {
        copy.push(copy_bytes(&signatures[i]));
        i = i + 1;
    }
    assert(signatures_view(copy@) =~= signatures_view(signatures@));
    copy
}

impl ProtobufTx {
    /// The parts of the transaction: the bytes of its body and of its signing data, the
    /// keys of its signers, and its signatures.
    pub open spec fn parts(self) -> (Seq<u8>, Seq<u8>, Seq<SignerKey>, Seq<Seq<u8>>) {
        (
            self.body_bytes@,
            self.auth_info_bytes@,
            self.signer_keys@,
            signatures_view(self.signatures@),
        )
    }

    /// The encoding of the transaction.
    pub open spec fn encoding(self) -> Seq<u8> {
        protobuf_tx_bytes(
            self.body_bytes@,
            self.auth_info_bytes@,
            signatures_view(self.signatures@),
        )
    }

    /// Writes the transaction in the Protocol Buffers encoding.
    pub fn to_bytes(&self) -> (bytes: Vec<u8>)
        ensures
            bytes@ == self.encoding(),
    {
        encode_protobuf_tx(
            copy_bytes(&self.body_bytes),
            copy_bytes(&self.auth_info_bytes),
            copy_signatures(&self.signatures),
        )
    }
}

impl Coin {
    /// The coin as a pair of texts: amount and denomination.
    pub open spec fn view(&self) -> (Seq<char>, Seq<char>) {
        (self.amount@, self.denom@)
    }

    /// A copy of the coin.
    pub fn copy(&self) -> (c: Self)
        ensures
            c@ == self@,
    {
        Coin { amount: self.amount.clone(), denom: self.denom.clone() }
    }
}

impl Fee {
    /// The fee as its coins and its gas.
    pub open spec fn view(&self) -> (Seq<(Seq<char>, Seq<char>)>, Seq<char>) {
        (self.amount@.map_values(|c: Coin| c@), self.gas@)
    }

    /// A copy of the fee.
    pub fn copy(&self) -> (f: Self)
        ensures
            f@ == self@,
    {
        let mut amount: Vec<Coin> = Vec::new();
        let mut i: usize = 0;
        while i < self.amount.len()
            invariant
                i <= self.amount.len(),
                amount@.len() == i,
                forall|j: int| 0 <= j < i ==> (#[trigger] amount@[j])@ == self.amount@[j]@,
            decreases self.amount.len() - i,
        {
            amount.push(self.amount[i].copy());
            i = i + 1;
        }
        let f = Fee { amount, gas: self.gas.clone() };
        assert(f@.0 =~= self@.0);
        f
    }
}

impl Msg {
    /// The message as a pair of texts: type and body.
    pub open spec fn view(&self) -> (Seq<char>, Seq<char>) {
        (self.type_@, self.value@)
    }

    /// A copy of the message.
    pub fn copy(&self) -> (m: Self)
        ensures
            m@ == self@,
    {
        Msg { type_: self.type_.clone(), value: self.value.clone() }
    }
}

/// The messages `msgs`, each as a pair of texts.
pub open spec fn msgs_view(msgs: Seq<Msg>) -> Seq<(Seq<char>, Seq<char>)> {
    msgs.map_values(|m: Msg| m@)
}

/// A copy of the messages `msgs`.
pub fn copy_msgs(msgs: &Vec<Msg>) -> (copy: Vec<Msg>)
    ensures
        msgs_view(copy@) == msgs_view(msgs@),
{
    let mut copy: Vec<Msg> = Vec::new();
    let mut i: usize = 0;
    while i < msgs.len()
        invariant
            i <= msgs.len(),
            copy@.len() == i,
            forall|j: int| 0 <= j < i ==> (#[trigger] copy@[j])@ == msgs@[j]@,
        decreases msgs.len() - i,
    {
        copy.push(msgs[i].copy());
        i = i + 1;
    }
    assert(msgs_view(copy@) =~= msgs_view(msgs@));
    copy
}

impl SignDoc {
    /// Whether this is what the signer of `tx` signs on the chain `chain_id` with the
    /// nonce `nonce`: account number 0, the chain id, the fee, the memo and the messages
    /// of the transaction, and the nonce in decimal as the sequence.
    pub open spec fn signs(&self, tx: AminoTx, chain_id: Seq<char>, nonce: u64) -> bool {
        &&& self.account_number@ == "0"@
        &&& self.chain_id@ == chain_id
        &&& self.fee@ == tx.fee@
        &&& self.memo@ == tx.memo@
        &&& msgs_view(self.msgs@) == msgs_view(tx.msg@)
        &&& self.sequence@ == text::decimal_digits(nonce as nat)
    }
}

/// The signatures of a transaction are not signed: two transactions with the same
/// messages, fee and memo have the same signing documents, whatever their signatures.
pub proof fn lemma_signatures_are_not_signed(
    a: AminoTx,
    b: AminoTx,
    doc: SignDoc,
    chain_id: Seq<char>,
    nonce: u64,
)
    requires
        msgs_view(a.msg@) == msgs_view(b.msg@),
        a.fee@ == b.fee@,
        a.memo@ == b.memo@,
    ensures
        doc.signs(a, chain_id, nonce) == doc.signs(b, chain_id, nonce),
{
}

/// The chain id and the nonce are signed: a document is the signing document of a
/// transaction on one chain and with one nonce only.
pub proof fn lemma_chain_and_nonce_are_signed(
    tx: AminoTx,
    doc: SignDoc,
    chain_id: Seq<char>,
    nonce: u64,
    other_chain_id: Seq<char>,
    other_nonce: u64,
)
    requires
        doc.signs(tx, chain_id, nonce),
        doc.signs(tx, other_chain_id, other_nonce),
    ensures
        chain_id == other_chain_id,
        nonce == other_nonce,
{
    text::lemma_decimal_injective(nonce as nat, other_nonce as nat);
}

impl AminoTx {
    /// What the signer of the transaction signs on the chain `chain_id` with the nonce
    /// `nonce`.
    pub fn sign_doc(&self, chain_id: String, nonce: u64) -> (doc: SignDoc)
        ensures
            doc.signs(*self, chain_id@, nonce),
    {
        SignDoc {
            account_number: String::from_str("0"),
            chain_id,
            fee: self.fee.copy(),
            memo: self.memo.clone(),
            msgs: copy_msgs(&self.msg),
            sequence: text::decimal(nonce),
        }
    }
}

/// `r` is an error of the application that carries `text`.
pub open spec fn app_error<T>(r: Result<T, Error>, text: Seq<char>) -> bool {
    r is Err && r->Err_0 is App && r->Err_0.detail() == text
}

/// `r` is an error of the signer that carries `text`.
pub open spec fn signer_error<T>(r: Result<T, Error>, text: Seq<char>) -> bool {
    r is Err && r->Err_0 is Signer && r->Err_0.detail() == text
}

/// What becomes of the bytes `bytes` that are to be a public key: the key, where there
/// are 33 of them; else an error.
pub open spec fn pubkey_of(bytes: Seq<u8>, r: Result<[u8; 33], Error>) -> bool {
    if bytes.len() == PUBKEY_LENGTH {
        r is Ok && r.unwrap()@ == bytes
    } else {
        signer_error(r, "Public key must have 33 bytes"@)
    }
}

/// What becomes of the bytes `bytes` that are to be a signature: the signature, where
/// there are 64 of them; else an error.
pub open spec fn signature_of(bytes: Seq<u8>, r: Result<[u8; 64], Error>) -> bool {
    if bytes.len() == SIGNATURE_LENGTH {
        r is Ok && r.unwrap()@ == bytes
    } else {
        signer_error(r, "Signature must have 64 bytes"@)
    }
}

/// Makes a public key of `bytes`.
pub fn pubkey_from_bytes(bytes: &Vec<u8>) -> (r: Result<[u8; 33], Error>)
    ensures
        pubkey_of(bytes@, r),
{
    if bytes.len() != PUBKEY_LENGTH {
        return Err(Error::Signer(String::from_str("Public key must have 33 bytes")));
    }
    let mut key = [0u8;33];
    let mut i: usize = 0;
    while i < PUBKEY_LENGTH
        invariant
            i <= PUBKEY_LENGTH,
            bytes.len() == PUBKEY_LENGTH,
            forall|j: int| 0 <= j < i ==> key@[j] == bytes@[j],
        decreases PUBKEY_LENGTH - i,
    {
        key[i] = bytes[i];
        i = i + 1;
    }
    assert(key@ =~= bytes@);
    Ok(key)
}

/// Makes a signature of `bytes`.
pub fn signature_from_bytes(bytes: &Vec<u8>) -> (r: Result<[u8; 64], Error>)
    ensures
        signature_of(bytes@, r),
{
    if bytes.len() != SIGNATURE_LENGTH {
        return Err(Error::Signer(String::from_str("Signature must have 64 bytes")));
    }
    let mut sig = [0u8;64];
    let mut i: usize = 0;
    while i < SIGNATURE_LENGTH
        invariant
            i <= SIGNATURE_LENGTH,
            bytes.len() == SIGNATURE_LENGTH,
            forall|j: int| 0 <= j < i ==> sig@[j] == bytes@[j],
        decreases SIGNATURE_LENGTH - i,
    {
        sig[i] = bytes[i];
        i = i + 1;
    }
    assert(sig@ =~= bytes@);
    Ok(sig)
}

/// Decodes the base64 text `text`; the error of the decoder becomes an error of the
/// application.
fn decode_base64(text: &str) -> (r: Result<Vec<u8>, Error>)
    ensures
        match base64_decoded(text@) {
            Some(bytes) => r is Ok && r.unwrap()@ == bytes,
            None => r is Err && r->Err_0 is App,
        },
{
    match base64_decode(text) {
        Ok(bytes) => Ok(bytes),
        Err(e) => Err(Error::App(base64_error_text(&e))),
    }
}

/// What becomes of the outcome `outcome` of the JSON decoder: the transaction that it
/// has read, or the error of an opening brace that begins no transaction.
pub open spec fn amino_outcome(outcome: Result<AminoTx, String>) -> Result<Tx, EncodingError> {
    match outcome {
        Ok(tx) => Ok(Tx::Amino(tx)),
        Err(_) => Err(EncodingError::UnexpectedByte(JSON_OPEN)),
    }
}

/// What becomes of the outcome `outcome` of the Protocol Buffers decoder: the
/// transaction that it has read, or the error of data that is not valid, with the text
/// of the decoder.
pub open spec fn protobuf_outcome(outcome: Result<ProtobufTx, String>) -> Result<
    Tx,
    EncodingError,
> {
    match outcome {
        Ok(tx) => Ok(Tx::Protobuf(tx)),
        Err(e) => Err(EncodingError::InvalidData(e)),
    }
}

/// What `Tx::decode` makes of the outcome `outcome` of the JSON decoder.
pub fn amino_decoded(outcome: Result<AminoTx, String>) -> (r: Result<Tx, EncodingError>)
    ensures
        r == amino_outcome(outcome),
{
    match outcome {
        Ok(tx) => Ok(Tx::Amino(tx)),
        Err(_) => Err(EncodingError::UnexpectedByte(JSON_OPEN)),
    }
}

/// What `Tx::decode` makes of the outcome `outcome` of the Protocol Buffers decoder.
pub fn protobuf_decoded(outcome: Result<ProtobufTx, String>) -> (r: Result<Tx, EncodingError>)
    ensures
        r == protobuf_outcome(outcome),
{
    match outcome {
        Ok(tx) => Ok(Tx::Protobuf(tx)),
        Err(e) => Err(EncodingError::InvalidData(e)),
    }
}

/// What becomes of the outcome `outcome` of the JSON encoder of what a signer signs: the
/// bytes that it has written, or its text as an error of the application.
pub open spec fn signed_outcome(outcome: Result<Vec<u8>, String>) -> Result<Vec<u8>, Error> {
    match outcome {
        Ok(bytes) => Ok(bytes),
        Err(e) => Err(Error::App(e)),
    }
}

/// Appends the encoding `bytes` of a transaction to `dest`, unless it is longer than a
/// call may be.
pub fn append_encoded(bytes: Vec<u8>, dest: &mut Vec<u8>) -> (r: Result<(), EncodingError>)
    ensures
        bytes.len() > MAX_CALL_SIZE ==> r == Err::<(), EncodingError>(
            EncodingError::UnexpectedByte(0),
        ) && final(dest)@ == old(dest)@,
        bytes.len() <= MAX_CALL_SIZE ==> r is Ok && final(dest)@ == old(dest)@ + bytes@,
{
    if bytes.len() > MAX_CALL_SIZE {
        return Err(EncodingError::UnexpectedByte(0));
    }
    let mut bytes = bytes;
    dest.append(&mut bytes);
    Ok(())
}

/// The length of an encoding, given what the encoder has returned: the number of its
/// bytes, or the error of a transaction that cannot be written.
pub open spec fn length_of(out: Result<Vec<u8>, String>) -> Result<usize, EncodingError> {
    match out {
        Ok(bytes) => Ok(bytes.len()),
        Err(_) => Err(EncodingError::UnexpectedByte(0)),
    }
}

/// What becomes of the bytes `before` of a destination, and what is returned, given what
/// the encoder has returned: an encoding that is no longer than a call may be is
/// appended; for a longer one, and where the encoder has failed, the destination stays
/// and the result is an error.
pub open spec fn appended(
    out: Result<Vec<u8>, String>,
    before: Seq<u8>,
    after: Seq<u8>,
    r: Result<(), EncodingError>,
) -> bool {
    match out {
        Ok(bytes) => if bytes.len() <= MAX_CALL_SIZE {
            r is Ok && after == before + bytes@
        } else {
            r == Err::<(), EncodingError>(EncodingError::UnexpectedByte(0)) && after == before
        },
        Err(_) => r == Err::<(), EncodingError>(EncodingError::UnexpectedByte(0)) && after
            == before,
    }
}

impl Tx {
    /// Whether `out` is the encoding of the transaction: what the codec `codec` has
    /// returned for a transaction in the JSON encoding, and the bytes of the Protocol
    /// Buffers encoding for one in that encoding.
    pub open spec fn encoded_by<C: TxCodec>(self, codec: &C, out: Result<Vec<u8>, String>) -> bool {
        match self {
            Tx::Amino(tx) => call_ensures(C::amino_to_bytes, (codec, &tx), out),
            Tx::Protobuf(tx) => out is Ok && out.unwrap()@ == tx.encoding(),
        }
    }

    /// The number of bytes of the transaction's encoding: the length of what the codec
    /// writes for it.
    pub fn encoding_length<C: TxCodec>(&self, codec: &C) -> (r: Result<usize, EncodingError>)
        ensures
            exists|out: Result<Vec<u8>, String>|
                #[trigger] self.encoded_by(codec, out) && r == length_of(out),
    {
        match self {
            Tx::Amino(tx) => {
                let out = codec.amino_to_bytes(tx);
                assert(self.encoded_by(codec, out));
                match out {
                    Ok(bytes) => Ok(bytes.len()),
                    Err(_) => Err(EncodingError::UnexpectedByte(0)),
                }
            },
            Tx::Protobuf(tx) => {
                let bytes = tx.to_bytes();
                assert(self.encoded_by(codec, Ok::<Vec<u8>, String>(bytes)));
                Ok(bytes.len())
            },
        }
    }

    /// Appends the encoding of the transaction, as the codec writes it, to `dest`. An
    /// encoding that is longer than a call may be is refused, and `dest` stays as it is.
    pub fn encode_into<C: TxCodec>(&self, codec: &C, dest: &mut Vec<u8>) -> (r: Result<
        (),
        EncodingError,
    >)
        ensures
            exists|out: Result<Vec<u8>, String>|
                #[trigger] self.encoded_by(codec, out) && appended(
                    out,
                    old(dest)@,
                    final(dest)@,
                    r,
                ),
    {
        let out = match self {
            Tx::Amino(tx) => codec.amino_to_bytes(tx),
            Tx::Protobuf(tx) => Ok(tx.to_bytes()),
        };
        assert(self.encoded_by(codec, out));
        match out {
            Ok(bytes) => append_encoded(bytes, dest),
            Err(_) => Err(EncodingError::UnexpectedByte(0)),
        }
    }

    /// What `decode` returns for the bytes `bytes` with the codec `codec`: an error for
    /// bytes that are none or more than a call may have; for bytes that begin with an
    /// opening brace, what the JSON decoder of the codec has read from them, or the
    /// error of that brace where it has failed; for any other bytes, the transaction with
    /// the parts that the Protocol Buffers decoder reads from them, or the error of
    /// data that is not valid.
    pub open spec fn decoded<C: TxCodec>(
        codec: &C,
        bytes: &[u8],
        r: Result<Tx, EncodingError>,
    ) -> bool {
        if bytes@.len() > MAX_CALL_SIZE || bytes@.len() == 0 {
            r == Err::<Tx, EncodingError>(EncodingError::UnexpectedByte(0))
        } else if bytes@[0] == JSON_OPEN {
            exists|outcome: Result<AminoTx, String>|
                #[trigger] call_ensures(C::amino_from_bytes, (codec, bytes), outcome) && r
                    == amino_outcome(outcome)
        } else {
            match protobuf_tx_decoded(bytes@) {
                Some(parts) => r is Ok && r.unwrap() is Protobuf && r.unwrap()->Protobuf_0.parts()
                    == parts,
                None => r is Err && r->Err_0 is InvalidData,
            }
        }
    }

    /// Reads a transaction from the whole of `bytes`: nothing that is empty or longer
    /// than a call may be; JSON where the first byte is an opening brace; else Protocol
    /// Buffers.
    pub fn decode<C: TxCodec>(codec: &C, bytes: &[u8]) -> (r: Result<Tx, EncodingError>)
        ensures
            Self::decoded(codec, bytes, r),
    {
        if bytes.len() > MAX_CALL_SIZE || bytes.len() == 0 {
            return Err(EncodingError::UnexpectedByte(0));
        }
        if bytes[0] == JSON_OPEN {
            return amino_decoded(codec.amino_from_bytes(bytes));
        }
        let outcome = match decode_protobuf_tx(bytes) {
            Ok(tx) => Ok(tx),
            Err(e) => Err(report_text(&e)),
        };
        protobuf_decoded(outcome)
    }

    /// What `sign_bytes` returns for the transaction on the chain `chain_id` with the
    /// nonce `nonce`. For a transaction in the JSON encoding: what the codec `codec`
    /// writes for the document that the signer signs, or the text of its error as an
    /// error of the application. For one in the Protocol Buffers encoding: the encoding
    /// of the signing document of its body and signing data, the chain id and the
    /// account number 0, or an error of the application where the encoder fails.
    pub open spec fn signed_by<C: TxCodec>(
        self,
        codec: &C,
        chain_id: Seq<char>,
        nonce: u64,
        r: Result<Vec<u8>, Error>,
    ) -> bool {
        match self {
            Tx::Amino(tx) => exists|doc: SignDoc, outcome: Result<Vec<u8>, String>|
                #![trigger call_ensures(C::sign_doc_to_bytes, (codec, &doc), outcome)]
                doc.signs(tx, chain_id, nonce) && call_ensures(
                    C::sign_doc_to_bytes,
                    (codec, &doc),
                    outcome,
                ) && r == signed_outcome(outcome),
            Tx::Protobuf(tx) => match proto_sign_doc_bytes(
                tx.body_bytes@,
                tx.auth_info_bytes@,
                chain_id,
                0,
            ) {
                Some(bytes) => r is Ok && r.unwrap()@ == bytes,
                None => r is Err && r->Err_0 is App,
            },
        }
    }

    /// The bytes that the signer of the transaction signs on the chain `chain_id` with
    /// the nonce `nonce`.
    pub fn sign_bytes<C: TxCodec>(&self, codec: &C, chain_id: String, nonce: u64) -> (r: Result<
        Vec<u8>,
        Error,
    >)
        ensures
            self.signed_by(codec, chain_id@, nonce, r),
            r is Err ==> r->Err_0 is App,
    {
        match self {
            Tx::Amino(tx) => {
                let doc = tx.sign_doc(chain_id, nonce);
                let outcome = codec.sign_doc_to_bytes(&doc);
                match outcome {
                    Ok(bytes) => Ok(bytes),
                    Err(e) => Err(Error::App(e)),
                }
            },
            Tx::Protobuf(tx) => {
                match encode_proto_sign_doc(
                    copy_bytes(&tx.body_bytes),
                    copy_bytes(&tx.auth_info_bytes),
                    chain_id,
                    0,
                ) {
                    Ok(bytes) => Ok(bytes),
                    Err(e) => Err(Error::App(report_text(&e))),
                }
            },
        }
    }

    /// What `sender_pubkey` returns for the transaction.
    pub open spec fn pubkey_result(self, r: Result<[u8; 33], Error>) -> bool {
        match self {
            Tx::Amino(tx) => if tx.signatures@.len() == 0 {
                app_error(r, "No signatures provided"@)
            } else {
                match base64_decoded(tx.signatures@[0].pub_key.value@) {
                    Some(bytes) => pubkey_of(bytes, r),
                    None => r is Err && r->Err_0 is App,
                }
            },
            Tx::Protobuf(tx) => if tx.signer_keys@.len() == 0 {
                app_error(r, "No auth info provided"@)
            } else {
                match tx.signer_keys@[0] {
                    SignerKey::Missing => app_error(r, "No public key provided"@),
                    SignerKey::Other => app_error(r, "Invalid public key"@),
                    SignerKey::Single(bytes) => pubkey_of(bytes@, r),
                }
            },
        }
    }

    /// The public key of the first signer of the transaction.
    pub fn sender_pubkey(&self) -> (r: Result<[u8; 33], Error>)
        ensures
            self.pubkey_result(r),
    {
        match self {
            Tx::Amino(tx) => {
                if tx.signatures.len() == 0 {
                    return Err(Error::App(String::from_str("No signatures provided")));
                }
                let bytes = match decode_base64(tx.signatures[0].pub_key.value.as_str()) {
                    Ok(bytes) => bytes,
                    Err(e) => {
                        return Err(e);
                    },
                };
                pubkey_from_bytes(&bytes)
            },
            Tx::Protobuf(tx) => {
                if tx.signer_keys.len() == 0 {
                    return Err(Error::App(String::from_str("No auth info provided")));
                }
                match &tx.signer_keys[0] {
                    SignerKey::Missing => Err(
                        Error::App(String::from_str("No public key provided")),
                    ),
                    SignerKey::Other => Err(Error::App(String::from_str("Invalid public key"))),
                    SignerKey::Single(bytes) => pubkey_from_bytes(bytes),
                }
            },
        }
    }

    /// What `signature` returns for the transaction.
    pub open spec fn signature_result(self, r: Result<[u8; 64], Error>) -> bool {
        match self {
            Tx::Amino(tx) => if tx.signatures@.len() == 0 {
                app_error(r, "No signatures provided"@)
            } else {
                match base64_decoded(tx.signatures@[0].signature@) {
                    Some(bytes) => signature_of(bytes, r),
                    None => r is Err && r->Err_0 is App,
                }
            },
            Tx::Protobuf(tx) => if tx.signatures@.len() == 0 {
                app_error(r, "No signatures provided"@)
            } else {
                signature_of(tx.signatures@[0]@, r)
            },
        }
    }

    /// The first signature of the transaction.
    pub fn signature(&self) -> (r: Result<[u8; 64], Error>)
        ensures
            self.signature_result(r),
    {
        match self {
            Tx::Amino(tx) => {
                if tx.signatures.len() == 0 {
                    return Err(Error::App(String::from_str("No signatures provided")));
                }
                let bytes = match decode_base64(tx.signatures[0].signature.as_str()) {
                    Ok(bytes) => bytes,
                    Err(e) => {
                        return Err(e);
                    },
                };
                signature_from_bytes(&bytes)
            },
            Tx::Protobuf(tx) => {
                if tx.signatures.len() == 0 {
                    return Err(Error::App(String::from_str("No signatures provided")));
                }
                signature_from_bytes(&tx.signatures[0])
            },
        }
    }

    /// The type that the first signature of the transaction names, if it names one. A
    /// transaction in the Protocol Buffers encoding names none.
    pub fn sig_type(&self) -> (r: Result<Option<&str>, Error>)
        ensures
            match *self {
                Tx::Amino(tx) => if tx.signatures@.len() == 0 {
                    app_error(r, "No signatures provided"@)
                } else {
                    r is Ok && match tx.signatures@[0].type_ {
                        Some(t) => r.unwrap() is Some && r.unwrap().unwrap()@ == t@,
                        None => r.unwrap() is None,
                    }
                },
                Tx::Protobuf(_) => r is Ok && r.unwrap() is None,
            },
    {
        match self {
            Tx::Amino(tx) => {
                if tx.signatures.len() == 0 {
                    return Err(Error::App(String::from_str("No signatures provided")));
                }
                match &tx.signatures[0].type_ {
                    Some(t) => Ok(Some(t.as_str())),
                    None => Ok(None),
                }
            },
            Tx::Protobuf(_) => Ok(None),
        }
    }
}

} // verus!
