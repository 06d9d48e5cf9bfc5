use vstd::prelude::*;
use crate::frame::{frame, framed};
use crate::timestamp::{Timestamp, be_bytes, packed, to_be_bytes};
use crate::update::{UpdateType, update_code};

verus! {

/// A MessagePack value, as the push protocol uses them.
#[derive(Debug)]
pub enum MsgValue {
    Nil,
    Int(i64),
    Str(String),
    Array(Vec<MsgValue>),
    Pairs(Vec<(MsgValue, MsgValue)>),
    Ext(i8, Vec<u8>),
}

/// The mathematical content of a `MsgValue`.
pub enum MsgModel {
    Nil,
    Int(int),
    Str(Seq<char>),
    Array(Seq<MsgModel>),
    Pairs(Seq<(MsgModel, MsgModel)>),
    Ext(int, Seq<u8>),
}

broadcast use vstd::std_specs::vec::axiom_vec_decreases_to_view, vstd::seq::axiom_seq_index_decreases;

impl MsgValue {
    pub open spec fn model(&self) -> MsgModel
        decreases self,
    {
        match self {
            MsgValue::Nil => MsgModel::Nil,
            MsgValue::Int(n) => MsgModel::Int(*n as int),
            MsgValue::Str(s) => MsgModel::Str(s@),
            MsgValue::Array(items) => MsgModel::Array(
                Seq::new(
                    items@.len(),
                    |i: int|
                        if 0 <= i < items@.len() {
                            items@[i].model()
                        } else {
                            MsgModel::Nil
                        },
                ),
            ),
            MsgValue::Pairs(pairs) => MsgModel::Pairs(
                Seq::new(
                    pairs@.len(),
                    |i: int|
                        if 0 <= i < pairs@.len() {
                            (pairs@[i].0.model(), pairs@[i].1.model())
                        } else {
                            (MsgModel::Nil, MsgModel::Nil)
                        },
                ),
            ),
            MsgValue::Ext(t, b) => MsgModel::Ext(*t as int, b@),
        }
    }
}


#[verifier::external_type_specification]
#[verifier::external_body]
pub struct ExRmpvValue(rmpv::Value);

/// The bytes of the MessagePack encoding of a value.
pub uninterp spec fn msgpack_of(v: MsgModel) -> Seq<u8>;

/// Relies on rmpv's `From` impls and `Value` variants: builds, one node for
/// one node, the rmpv value that holds the same tree.
#[verifier::external_body]
fn to_rmpv(v: &MsgValue) -> rmpv::Value {
    match v {
        MsgValue::Nil => rmpv::Value::Nil,
        MsgValue::Int(n) => rmpv::Value::from(*n),
        MsgValue::Str(s) => rmpv::Value::from(s.as_str()),
        MsgValue::Array(items) => rmpv::Value::Array(items.iter().map(to_rmpv).collect()),
        MsgValue::Pairs(ps) => rmpv::Value::Map(ps.iter().map(|p| (to_rmpv(&p.0), to_rmpv(&p.1))).collect()),
        MsgValue::Ext(t, b) => rmpv::Value::Ext(*t, b.clone()),
    }
}

/// Relies on rmpv::encode::write_value: the MessagePack encoding of the value;
/// writing into a `Vec<u8>` cannot fail.
#[verifier::external_body]
fn encode_msgpack(v: &MsgValue) -> (r: Vec<u8>)
    ensures
        r@ == msgpack_of(v.model()),
{
    let mut buf: Vec<u8> = Vec::new();
    rmpv::encode::write_value(&mut buf, &to_rmpv(v)).expect("writing to a Vec<u8> does not fail");
    buf
}

/// Encodes a value and puts its length prefix in front: one frame of the push
/// protocol.
pub fn serialize(val: &MsgValue) -> (r: Vec<u8>)
    ensures
        r@ == framed(msgpack_of(val.model())),
{
    let buf = encode_msgpack(val);
    frame(buf)
}

/// The extension code of the MessagePack timestamp type.
pub const TIMESTAMP_EXT: i8 = -1;

/// A timestamp as a MessagePack value: the 64-bit timestamp word, big-endian,
/// under the timestamp extension code.
pub open spec fn date_model(date: Timestamp) -> MsgModel {
    MsgModel::Ext(-1, be_bytes(packed(date.seconds, date.nanos)))
}

/// The MessagePack value of a timestamp.
pub fn serialize_date(date: Timestamp) -> (r: MsgValue)
    ensures
        r.model() == date_model(date),
{
    MsgValue::Ext(TIMESTAMP_EXT, to_be_bytes(date.pack()))
}

/// A string or nil, as the optional value it stands for.
pub open spec fn option_model(o: Option<Seq<char>>) -> MsgModel {
    match o {
        Some(s) => MsgModel::Str(s),
        None => MsgModel::Nil,
    }
}

/// The MessagePack value of an optional string: the string, or nil.
pub fn convert_option(option: Option<String>) -> (r: MsgValue)
    ensures
        r.model() == option_model(
            match option {
                Some(s) => Some(s@),
                None => None,
            },
        ),
{
    match option {
        Some(a) => MsgValue::Str(a),
        None => MsgValue::Nil,
    }
}

/// The invocation that carries an update to the client:
/// `[1, [], nil, "ReceiveMessage", [{"ContextId": "app_id", "Type": code, "Payload": payload}]]`.
pub open spec fn update_message(payload: Seq<(MsgModel, MsgModel)>, code: int) -> MsgModel {
    MsgModel::Array(
        seq![
            MsgModel::Int(1),
            MsgModel::Array(seq![]),
            MsgModel::Nil,
            MsgModel::Str("ReceiveMessage"@),
            MsgModel::Array(
                seq![
                    MsgModel::Pairs(
                        seq![
                            (MsgModel::Str("ContextId"@), MsgModel::Str("app_id"@)),
                            (MsgModel::Str("Type"@), MsgModel::Int(code)),
                            (MsgModel::Str("Payload"@), MsgModel::Pairs(payload)),
                        ],
                    ),
                ],
            ),
        ],
    )
}

/// The keep-alive message `[6]`.
pub open spec fn ping_message() -> MsgModel {
    MsgModel::Array(seq![MsgModel::Int(6)])
}

/// The model of a list of values.
pub open spec fn items_model(items: Seq<MsgValue>) -> Seq<MsgModel> {
    Seq::new(items.len(), |i: int| items[i].model())
}

/// The model of a list of key/value pairs.
pub open spec fn pairs_model(pairs: Seq<(MsgValue, MsgValue)>) -> Seq<(MsgModel, MsgModel)> {
    Seq::new(pairs.len(), |i: int| (pairs[i].0.model(), pairs[i].1.model()))
}

pub(crate) fn text(s: &str) -> (r: MsgValue)
    ensures
        r.model() == MsgModel::Str(s@),
{
    MsgValue::Str(s.to_string())
}

fn array(items: Vec<MsgValue>) -> (r: MsgValue)
    ensures
        r.model() == MsgModel::Array(items_model(items@)),
{
    let r = MsgValue::Array(items);
    assert(r.model().arrow_Array_0() =~= items_model(items@));
    r
}

fn pairs(ps: Vec<(MsgValue, MsgValue)>) -> (r: MsgValue)
    ensures
        r.model() == MsgModel::Pairs(pairs_model(ps@)),
{
    let r = MsgValue::Pairs(ps);
    assert(r.model().arrow_Pairs_0() =~= pairs_model(ps@));
    r
}

/// The frame that carries an update of kind `ut` with the given payload.
pub fn create_update(payload: Vec<(MsgValue, MsgValue)>, ut: UpdateType) -> (r: Vec<u8>)
    ensures
        r@ == framed(msgpack_of(update_message(pairs_model(payload@), update_code(ut)))),
{
    let ghost pm = pairs_model(payload@);
    let fields = vec![
        (text("ContextId"), text("app_id")),
        (text("Type"), MsgValue::Int(ut.code() as i64)),
        (text("Payload"), pairs(payload)),
    ];
    assert(pairs_model(fields@) =~= seq![
        (MsgModel::Str("ContextId"@), MsgModel::Str("app_id"@)),
        (MsgModel::Str("Type"@), MsgModel::Int(update_code(ut))),
        (MsgModel::Str("Payload"@), MsgModel::Pairs(pm)),
    ]);
    let envelope = pairs(fields);
    let args = vec![envelope];
    assert(items_model(args@) =~= seq![envelope.model()]);
    let args = array(args);
    let empty = array(Vec::new());
    assert(items_model(Seq::<MsgValue>::empty()) =~= Seq::<MsgModel>::empty());
    let items = vec![MsgValue::Int(1), empty, MsgValue::Nil, text("ReceiveMessage"), args];
    assert(items_model(items@) =~= update_message(pm, update_code(ut)).arrow_Array_0());
    let value = array(items);
    serialize(&value)
}

/// The keep-alive frame.
pub fn create_ping() -> (r: Vec<u8>)
    ensures
        r@ == framed(msgpack_of(ping_message())),
{
    let items = vec![MsgValue::Int(6)];
    assert(items_model(items@) =~= seq![MsgModel::Int(6)]);
    let value = array(items);
    serialize(&value)
}

} // verus!
