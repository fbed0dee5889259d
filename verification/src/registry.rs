//! The node registry's reply: ABI-encoded bytes that the `ethers` crate
//! decodes and that are read here into node records; and the call that asks
//! for them.

use ethers::abi::{ParamType, Token};
use vstd::prelude::*;
use vstd::string::*;
use vstd::utf8::*;

use crate::records::{node_records, NodeInfo, NodeRecord};
use crate::text::{append_hex, hex};

verus! {

/// The kinds of ABI values that the registry's reply is made of.
#[derive(Debug, PartialEq, Eq)]
pub enum AbiKind {
    /// A text.
    Text,
    /// An unsigned integer of the given width in bits.
    Uint(usize),
    /// A 20-byte account address.
    Address,
    /// A sequence of values of one kind, of any length.
    Array(Box<AbiKind>),
    /// A fixed group of values, each of its own kind.
    Tuple(Vec<AbiKind>),
}

/// What an `AbiKind` holds.
pub enum KindModel {
    Text,
    Uint(nat),
    Address,
    Array(Box<KindModel>),
    Tuple(Seq<KindModel>),
}

impl AbiKind {
    /// What the kind holds.
    pub open spec fn model(&self) -> KindModel
        decreases self,
    {
        match self {
            AbiKind::Text => KindModel::Text,
            AbiKind::Uint(bits) => KindModel::Uint(*bits as nat),
            AbiKind::Address => KindModel::Address,
            AbiKind::Array(item) => KindModel::Array(Box::new(item.model())),
            AbiKind::Tuple(parts) => KindModel::Tuple(
                Seq::new(
                    parts@.len(),
                    |i: int|
                        if 0 <= i < parts@.len() {
                            parts@[i].model()
                        } else {
                            KindModel::Text
                        },
                ),
            ),
        }
    }
}

impl View for AbiKind {
    type V = KindModel;

    open spec fn view(&self) -> KindModel {
        self.model()
    }
}

/// A decoded ABI value, as far as this crate reads it.
#[derive(Debug, PartialEq, Eq)]
pub enum AbiValue {
    /// A text.
    Text(String),
    /// An unsigned integer of up to 256 bits, in four 64-bit words, the
    /// least significant first.
    Uint([u64; 4]),
    /// A 20-byte account address.
    Address([u8; 20]),
    /// A sequence of values, of any length.
    Array(Vec<AbiValue>),
    /// A fixed group of values.
    Tuple(Vec<AbiValue>),
    /// A value of any other kind.
    Other,
}

/// What an `AbiValue` holds.
pub enum ValueModel {
    Text(Seq<char>),
    Uint(nat),
    Address(Seq<u8>),
    Array(Seq<ValueModel>),
    Tuple(Seq<ValueModel>),
    Other,
}

/// The number that four 64-bit words stand for, the least significant
/// first.
pub open spec fn words_value(words: Seq<u64>) -> nat {
    (words[0] + words[1] * 0x1_0000_0000_0000_0000 + words[2]
        * 0x1_0000_0000_0000_0000_0000_0000_0000_0000 + words[3]
        * 0x1_0000_0000_0000_0000_0000_0000_0000_0000_0000_0000_0000_0000) as nat
}

impl AbiValue {
    /// What the value holds.
    pub open spec fn model(&self) -> ValueModel
        decreases self,
    {
        match self {
            AbiValue::Text(text) => ValueModel::Text(text@),
            AbiValue::Uint(words) => ValueModel::Uint(words_value(words@)),
            AbiValue::Address(bytes) => ValueModel::Address(bytes@),
            AbiValue::Array(items) => ValueModel::Array(
                Seq::new(
                    items@.len(),
                    |i: int|
                        if 0 <= i < items@.len() {
                            items@[i].model()
                        } else {
                            ValueModel::Other
                        },
                ),
            ),
            AbiValue::Tuple(fields) => ValueModel::Tuple(
                Seq::new(
                    fields@.len(),
                    |i: int|
                        if 0 <= i < fields@.len() {
                            fields@[i].model()
                        } else {
                            ValueModel::Other
                        },
                ),
            ),
            AbiValue::Other => ValueModel::Other,
        }
    }
}

impl View for AbiValue {
    type V = ValueModel;

    open spec fn view(&self) -> ValueModel {
        self.model()
    }
}

/// What a list of kinds holds, in order.
pub open spec fn kind_models(kinds: Seq<AbiKind>) -> Seq<KindModel> {
    Seq::new(kinds.len(), |i: int| kinds[i]@)
}

/// What a list of values holds, in order.
pub open spec fn value_models(values: Seq<AbiValue>) -> Seq<ValueModel> {
    Seq::new(values.len(), |i: int| values[i]@)
}

/// The reply of the registry could not be read.
#[derive(Debug, Clone, Copy, PartialEq, Eq, Structural)]
pub struct InvalidReply;

/// The text of an account address: `0x`, then its bytes in hexadecimal
/// notation.
pub open spec fn address_text(bytes: Seq<u8>) -> Seq<char> {
    "0x"@ + hex(bytes)
}

/// The node that a value describes: a tuple that begins with a text, an
/// unsigned integer that fits 32 bits and an address gives the node at that
/// address, on the port that the low 16 bits of the integer name, for that
/// wallet. Any other value describes no node.
pub open spec fn node_of(value: ValueModel) -> Option<NodeRecord> {
    match value {
        ValueModel::Tuple(fields) if fields.len() >= 3 => match (fields[0], fields[1], fields[2]) {
            (ValueModel::Text(ip), ValueModel::Uint(port), ValueModel::Address(wallet))
                if port <= u32::MAX => Some(
                NodeRecord { ip, port: (port % 0x1_0000) as u16, wallet: address_text(wallet) },
            ),
            _ => None,
        },
        _ => None,
    }
}

/// The nodes that a list of values describes, in order; values that
/// describe no node are passed over.
pub open spec fn nodes_of(values: Seq<ValueModel>) -> Seq<NodeRecord>
    decreases values.len(),
{
    if values.len() == 0 {
        Seq::empty()
    } else {
        match node_of(values.last()) {
            Some(node) => nodes_of(values.drop_last()).push(node),
            None => nodes_of(values.drop_last()),
        }
    }
}

/// The nodes of a decoded reply: those that its first value lists, if that
/// value is an array; none otherwise.
pub open spec fn nodes_in_reply(values: Seq<ValueModel>) -> Seq<NodeRecord> {
    if values.len() > 0 && values[0] is Array {
        nodes_of(values[0]->Array_0)
    } else {
        Seq::empty()
    }
}

/// A number in four words fits 32 bits exactly where its three high words
/// are zero and its low word fits; it is then its low word.
proof fn lemma_words_value(words: Seq<u64>)
    requires
        words.len() == 4,
    ensures
        words_value(words) <= u32::MAX <==> words[1] == 0 && words[2] == 0 && words[3] == 0
            && words[0] <= u32::MAX,
        words_value(words) <= u32::MAX ==> words_value(words) == words[0],
{
}

/// Writes the text of an account address.
pub fn write_address(bytes: &[u8; 20]) -> (text: String)
    ensures
        text@ == address_text(bytes@),
{
    let mut text = String::from_str("0x");
    append_hex(&mut text, bytes.as_slice());
    text
}

/// Reads the node that `value` describes.
pub fn read_node(value: &AbiValue) -> (node: Option<NodeInfo>)
    ensures
        match node {
            Some(n) => node_of(value@) == Some(n@),
            None => node_of(value@) is None,
        },
{
    match value {
        AbiValue::Tuple(fields) => {
            if fields.len() < 3 {
                return None;
            }
            proof {
                let models = value@->Tuple_0;
                assert(models.len() == fields@.len());
                assert(models[0] == fields@[0].model());
                assert(models[1] == fields@[1].model());
                assert(models[2] == fields@[2].model());
            }
            match (&fields[0], &fields[1], &fields[2]) {
                (AbiValue::Text(ip), AbiValue::Uint(port), AbiValue::Address(wallet)) => {
                    proof {
                        lemma_words_value(port@);
                    }
                    if port[1] != 0 || port[2] != 0 || port[3] != 0 || port[0] > 0xffff_ffff {
                        return None;
                    }
                    let low: u64 = port[0];
                    assert(low as u16 == low % 0x1_0000) by (bit_vector);
                    Some(
                        NodeInfo {
                            ip: ip.clone(),
                            port: #[verifier::truncate]
                            (low as u16),
                            wallet: write_address(wallet),
                        },
                    )
                },
                _ => None,
            }
        },
        _ => None,
    }
}

/// Reads the nodes of a decoded reply.
pub fn nodes_from_values(values: &Vec<AbiValue>) -> (nodes: Vec<NodeInfo>)
    ensures
        node_records(nodes@) == nodes_in_reply(value_models(values@)),
{
    let mut nodes: Vec<NodeInfo> = Vec::new();
    if values.len() == 0 {
        assert(node_records(nodes@) =~= Seq::empty());
        return nodes;
    }
    match &values[0] {
        AbiValue::Array(items) => {
            let ghost models = value_models(items@);
            assert(values@[0]@->Array_0 =~= models);
            assert(models.take(0) =~= Seq::empty());
            assert(node_records(nodes@) =~= nodes_of(models.take(0)));
            let mut i: usize = 0;
            while i < items.len()
                invariant
                    i <= items.len(),
                    models == value_models(items@),
                    node_records(nodes@) == nodes_of(models.take(i as int)),
                decreases items.len() - i,
            {
                let ghost before = nodes@;
                let read = read_node(&items[i]);
                proof {
                    assert(models.take(i + 1).drop_last() =~= models.take(i as int));
                    assert(models.take(i + 1).last() == items@[i as int]@);
                }
                match read {
                    Some(node) => {
                        nodes.push(node);
                        assert(node_records(nodes@) =~= node_records(before).push(node@));
                    },
                    None => {},
                }
                i += 1;
            }
            assert(models.take(items@.len() as int) =~= models);
        },
        _ => {
            assert(node_records(nodes@) =~= Seq::empty());
        },
    }
    nodes
}

/// `ethers::abi::ParamType`, the kind of an ABI value as the decoder takes
/// it.
#[verifier::external_type_specification]
#[verifier::external_body]
pub struct ExParamType(ParamType);

/// `ethers::abi::Token`, a decoded ABI value as the decoder gives it.
#[verifier::external_type_specification]
#[verifier::external_body]
pub struct ExToken(Token);

/// `ethers::abi::Error`, the failure of a decoding.
#[verifier::external_type_specification]
#[verifier::external_body]
pub struct ExAbiError(ethers::abi::Error);

/// Builds the `ParamType` of a kind, variant for variant.
#[verifier::external_body]
fn param_type_of(kind: &AbiKind) -> ParamType {
    match kind {
        AbiKind::Text => ParamType::String,
        AbiKind::Uint(bits) => ParamType::Uint(*bits),
        AbiKind::Address => ParamType::Address,
        AbiKind::Array(item) => ParamType::Array(Box::new(param_type_of(item))),
        AbiKind::Tuple(parts) => ParamType::Tuple(parts.iter().map(param_type_of).collect()),
    }
}

/// Takes the fields out of a `Token`, variant for variant: the text of a
/// `String`, the four words of a `Uint`, the twenty bytes of an `Address`,
/// the items of an `Array` and of a `Tuple`. A token of another variant is
/// kept as `Other`.
#[verifier::external_body]
fn value_of(token: &Token) -> AbiValue {
    match token {
        Token::String(text) => AbiValue::Text(text.clone()),
        Token::Uint(number) => AbiValue::Uint(number.0),
        Token::Address(address) => AbiValue::Address(address.0),
        Token::Array(items) => AbiValue::Array(items.iter().map(value_of).collect()),
        Token::Tuple(fields) => AbiValue::Tuple(fields.iter().map(value_of).collect()),
        _ => AbiValue::Other,
    }
}

/// What `ethers::abi::decode` reads out of `data` as values of the given
/// kinds, or `None` where it fails.
pub uninterp spec fn abi_decoded(kinds: Seq<KindModel>, data: Seq<u8>) -> Option<Seq<ValueModel>>;

/// The kinds of the registry's reply: one array of tuples, each a text (the
/// address of the node), an unsigned integer of 16 bits (its port) and an
/// account address (its wallet).
pub open spec fn node_list_kinds() -> Seq<KindModel> {
    seq![
        KindModel::Array(
            Box::new(
                KindModel::Tuple(seq![KindModel::Text, KindModel::Uint(16), KindModel::Address]),
            ),
        ),
    ]
}

/// `ethers::abi::decode`, asked for values of the kinds of the registry's
/// reply. The outcome is a function of the kinds and the bytes alone, and is
/// named `abi_decoded`. With these kinds every item that the decoder reads
/// takes up room in the data, so its work is bounded by their length. It
/// computes positions in `usize` from numbers that it reads out of the data;
/// in 64 bits these sums cannot overflow, and only there is the call made.
#[verifier::external_body]
fn decode_values(
    kinds: &Vec<AbiKind>,
    data: &[u8],
) -> (decoded: Result<Vec<AbiValue>, ethers::abi::Error>)
    requires
        usize::BITS == 64,
        kind_models(kinds@) == node_list_kinds(),
    ensures
        match decoded {
            Ok(values) => abi_decoded(kind_models(kinds@), data@) == Some(value_models(values@)),
            Err(_) => abi_decoded(kind_models(kinds@), data@) is None,
        },
{
    let types: Vec<ParamType> = kinds.iter().map(param_type_of).collect();
    let tokens = ethers::abi::decode(&types, data)?;
    Ok(tokens.iter().map(value_of).collect())
}

/// The nodes that a reply of the registry lists, or `None` where the reply
/// cannot be decoded. On a target whose `usize` is narrower than 64 bits no
/// reply is decoded.
pub open spec fn nodes_in_bytes(data: Seq<u8>) -> Option<Seq<NodeRecord>> {
    if usize::BITS == 64 {
        match abi_decoded(node_list_kinds(), data) {
            Some(values) => Some(nodes_in_reply(values)),
            None => None,
        }
    } else {
        None
    }
}

/// Decodes a reply of the registry into the nodes that it lists.
pub fn decode_nodes_from_bytes(data: &[u8]) -> (nodes: Result<Vec<NodeInfo>, InvalidReply>)
    ensures
        match nodes {
            Ok(list) => nodes_in_bytes(data@) == Some(node_records(list@)),
            Err(_) => nodes_in_bytes(data@) is None,
        },
{
    if usize::BITS != 64 {
        return Err(InvalidReply);
    }
    let mut fields: Vec<AbiKind> = Vec::new();
    fields.push(AbiKind::Text);
    fields.push(AbiKind::Uint(16));
    fields.push(AbiKind::Address);
    let tuple = AbiKind::Tuple(fields);
    proof {
        reveal_with_fuel(AbiKind::model, 2);
        assert(tuple@->Tuple_0 =~= seq![KindModel::Text, KindModel::Uint(16), KindModel::Address]);
    }
    let array = AbiKind::Array(Box::new(tuple));
    assert(array@ == KindModel::Array(Box::new(tuple@)));
    let mut kinds: Vec<AbiKind> = Vec::new();
    kinds.push(array);
    assert(kind_models(kinds@) =~= node_list_kinds());
    match decode_values(&kinds, data) {
        Ok(values) => Ok(nodes_from_values(&values)),
        Err(_) => Err(InvalidReply),
    }
}

/// The Keccak-256 digest of `bytes`, as `ethers::utils::keccak256` computes
/// it.
pub uninterp spec fn keccak256_digest(bytes: Seq<u8>) -> Seq<u8>;

/// `ethers::utils::keccak256`. The digest is a function of the bytes alone,
/// and is named `keccak256_digest`.
#[verifier::external_body]
fn keccak256(bytes: &[u8]) -> (digest: [u8; 32])
    ensures
        digest@ == keccak256_digest(bytes@),
{
    ethers::utils::keccak256(bytes)
}

/// The selector of a contract function: the first four bytes of the
/// digest of its signature.
pub open spec fn selector_of(signature: Seq<char>) -> Seq<u8> {
    keccak256_digest(encode_utf8(signature)).subrange(0, 4)
}

/// The first four bytes of a digest.
pub fn selector_from_digest(digest: &[u8; 32]) -> (selector: Vec<u8>)
    ensures
        selector@ == digest@.subrange(0, 4),
{
    let mut selector: Vec<u8> = Vec::new();
    selector.push(digest[0]);
    selector.push(digest[1]);
    selector.push(digest[2]);
    selector.push(digest[3]);
    assert(selector@ =~= digest@.subrange(0, 4));
    selector
}

/// The selector of the contract function with the given signature.
pub fn function_selector(signature: &str) -> (selector: Vec<u8>)
    ensures
        selector@ == selector_of(signature@),
{
    let digest = keccak256(signature.as_bytes());
    selector_from_digest(&digest)
}

/// The data of the call that asks the registry for its nodes: the selector
/// of `getNodes()`, without arguments.
pub fn get_nodes_call_data() -> (data: Vec<u8>)
    ensures
        data@ == selector_of("getNodes()"@),
{
    function_selector("getNodes()")
}

} // verus!
