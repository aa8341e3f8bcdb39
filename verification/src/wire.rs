//! The byte format of persisted records.
//!
//! A record is a run of fields. A field is one tag byte, the length of its
//! payload as eight bytes, least significant first, and the payload. A reader
//! passes over a field whose tag it does not know, and takes the default for
//! a field that is not there; a writer leaves out a field that holds its
//! default. So a record written with more fields, or with fewer, is still read.
//!
//! The slots of a record are numbered from one, and slot `n` is written with
//! tag `n`. A slot holds a number, a flag, a text, an optional text or a list
//! of identifiers.

use vstd::bytes::{
    lemma_auto_spec_u64_to_from_le_bytes, spec_u64_from_le_bytes, spec_u64_to_le_bytes,
    u64_from_le_bytes, u64_to_le_bytes,
};
use vstd::prelude::*;
use vstd::slice::slice_subrange;
use vstd::utf8::{decode_utf8, encode_utf8, valid_utf8};

verus! {

/// `String::from_utf8`: the text that `bytes` encode in UTF-8, or `None`
/// where they are not valid UTF-8.
#[verifier::external_body]
pub(crate) fn text_from_utf8(bytes: Vec<u8>) -> (text: Option<String>)
    ensures
        match text {
            Some(read) => valid_utf8(bytes@) && read@ == decode_utf8(bytes@),
            None => !valid_utf8(bytes@),
        },
{
    match String::from_utf8(bytes) {
        Ok(text) => Some(text),
        Err(_) => None,
    }
}

/// The bytes of one field.
pub open spec fn field_bytes(tag: u8, payload: Seq<u8>) -> Seq<u8> {
    seq![tag] + spec_u64_to_le_bytes(payload.len() as u64) + payload
}

/// The length that the field at the start of `bytes` announces for its payload.
pub open spec fn first_len(bytes: Seq<u8>) -> int {
    spec_u64_from_le_bytes(bytes.subrange(1, 9)) as int
}

/// Whether `bytes` begin with a whole field.
pub open spec fn has_field(bytes: Seq<u8>) -> bool {
    bytes.len() >= 9 && first_len(bytes) <= bytes.len() - 9
}

/// The tag of the field at the start of `bytes`.
pub open spec fn first_tag(bytes: Seq<u8>) -> u8 {
    bytes[0]
}

/// The payload of the field at the start of `bytes`.
pub open spec fn first_payload(bytes: Seq<u8>) -> Seq<u8> {
    bytes.subrange(9, 9 + first_len(bytes))
}

/// What follows the field at the start of `bytes`.
pub open spec fn after_first(bytes: Seq<u8>) -> Seq<u8> {
    bytes.skip(9 + first_len(bytes))
}

/// Reads `bytes` as a run of fields and hands each to `step`, which takes the
/// value read so far, the tag and the payload. The result is the value after
/// the last field; `None` where the bytes end inside a field or `step`
/// refuses one.
pub open spec fn fold_fields<A>(
    step: spec_fn(A, u8, Seq<u8>) -> Option<A>,
    acc: A,
    bytes: Seq<u8>,
) -> Option<A>
    decreases bytes.len(),
{
    if bytes.len() == 0 {
        Some(acc)
    } else if !has_field(bytes) {
        None
    } else {
        match step(acc, first_tag(bytes), first_payload(bytes)) {
            Some(next) => fold_fields(step, next, after_first(bytes)),
            None => None,
        }
    }
}

/// A field that was written is read back as it was, and what follows it is left.
pub proof fn lemma_first_of_field(tag: u8, payload: Seq<u8>, rest: Seq<u8>)
    requires
        payload.len() <= u64::MAX,
    ensures
        has_field(field_bytes(tag, payload) + rest),
        first_tag(field_bytes(tag, payload) + rest) == tag,
        first_payload(field_bytes(tag, payload) + rest) == payload,
        after_first(field_bytes(tag, payload) + rest) == rest,
        field_bytes(tag, payload).len() == 9 + payload.len(),
{
    lemma_auto_spec_u64_to_from_le_bytes();
    let length = spec_u64_to_le_bytes(payload.len() as u64);
    let bytes = field_bytes(tag, payload) + rest;
    assert(bytes.subrange(1, 9) =~= length);
    assert(bytes.subrange(9, 9 + payload.len() as int) =~= payload);
    assert(bytes.skip(9 + payload.len() as int) =~= rest);
}

/// Reading a field and what follows it is one step and the reading of the rest.
pub proof fn lemma_fold_field<A>(
    step: spec_fn(A, u8, Seq<u8>) -> Option<A>,
    acc: A,
    tag: u8,
    payload: Seq<u8>,
    rest: Seq<u8>,
)
    requires
        payload.len() <= u64::MAX,
    ensures
        fold_fields(step, acc, field_bytes(tag, payload) + rest) == (match step(acc, tag, payload) {
            Some(next) => fold_fields(step, next, rest),
            None => None,
        }),
{
    lemma_first_of_field(tag, payload, rest);
}

/// A field that is cut short is no field: bytes that end inside the first
/// field are not read.
pub proof fn lemma_cut_inside_field<A>(
    step: spec_fn(A, u8, Seq<u8>) -> Option<A>,
    acc: A,
    tag: u8,
    payload: Seq<u8>,
    rest: Seq<u8>,
    cut: int,
)
    requires
        payload.len() <= u64::MAX,
        0 < cut < 9 + payload.len(),
    ensures
        fold_fields(step, acc, (field_bytes(tag, payload) + rest).take(cut)) is None,
{
    lemma_auto_spec_u64_to_from_le_bytes();
    let kept = (field_bytes(tag, payload) + rest).take(cut);
    if cut >= 9 {
        assert(kept.subrange(1, 9) =~= spec_u64_to_le_bytes(payload.len() as u64));
    }
}

/// Bytes that are cut after the first field are read as that field and what
/// is left of the rest.
pub proof fn lemma_cut_after_field<A>(
    step: spec_fn(A, u8, Seq<u8>) -> Option<A>,
    acc: A,
    tag: u8,
    payload: Seq<u8>,
    rest: Seq<u8>,
    cut: int,
)
    requires
        payload.len() <= u64::MAX,
        9 + payload.len() <= cut <= 9 + payload.len() + rest.len(),
    ensures
        fold_fields(step, acc, (field_bytes(tag, payload) + rest).take(cut)) == (match step(
            acc,
            tag,
            payload,
        ) {
            Some(next) => fold_fields(step, next, rest.take(cut - 9 - payload.len())),
            None => None,
        }),
{
    lemma_auto_spec_u64_to_from_le_bytes();
    let left = rest.take(cut - 9 - payload.len());
    assert((field_bytes(tag, payload) + rest).take(cut) =~= field_bytes(tag, payload) + left);
    lemma_fold_field(step, acc, tag, payload, left);
}

/// Finds the field that begins at `pos`: its tag, and where its payload begins
/// and ends. `None` where the bytes end inside the field.
pub fn read_field(bytes: &[u8], pos: usize) -> (field: Option<(u8, usize, usize)>)
    requires
        pos < bytes@.len(),
    ensures
        match field {
            Some((tag, start, end)) => {
                &&& has_field(bytes@.skip(pos as int))
                &&& tag == first_tag(bytes@.skip(pos as int))
                &&& pos < start <= end <= bytes@.len()
                &&& bytes@.subrange(start as int, end as int) == first_payload(
                    bytes@.skip(pos as int),
                )
                &&& bytes@.skip(end as int) == after_first(bytes@.skip(pos as int))
            },
            None => !has_field(bytes@.skip(pos as int)),
        },
{
    let ghost tail = bytes@.skip(pos as int);
    let len = bytes.len();
    if len - pos < 9 {
        return None;
    }
    let tag = bytes[pos];
    let announced = u64_from_le_bytes(slice_subrange(bytes, pos + 1, pos + 9));
    assert(bytes@.subrange(pos + 1, pos + 9) =~= tail.subrange(1, 9));
    let room = len - pos - 9;
    if announced > room as u64 {
        return None;
    }
    let start = pos + 9;
    let end = start + announced as usize;
    assert(bytes@.subrange(start as int, end as int) =~= first_payload(tail));
    assert(bytes@.skip(end as int) =~= after_first(tail));
    Some((tag, start, end))
}

/// Writes `bytes` at the end of `out`.
pub fn append_bytes(out: &mut Vec<u8>, bytes: &[u8])
    ensures
        final(out)@ == old(out)@ + bytes@,
{
    let mut i: usize = 0;
    while i < bytes.len()
        invariant
            i <= bytes@.len(),
            out@ == old(out)@ + bytes@.take(i as int),
        decreases bytes.len() - i,
    {
        out.push(bytes[i]);
        assert(bytes@.take(i + 1) =~= bytes@.take(i as int).push(bytes@[i as int]));
        i = i + 1;
    }
    assert(bytes@.take(bytes@.len() as int) =~= bytes@);
}

/// Writes one field at the end of `out`.
pub fn write_field(out: &mut Vec<u8>, tag: u8, payload: &[u8])
    ensures
        final(out)@ == old(out)@ + field_bytes(tag, payload@),
        payload@.len() <= u64::MAX,
{
    out.push(tag);
    let length = u64_to_le_bytes(payload.len() as u64);
    append_bytes(out, length.as_slice());
    append_bytes(out, payload);
    assert(out@ =~= old(out)@ + field_bytes(tag, payload@));
}

/// What a slot of a record holds.
#[derive(Clone, Copy, Debug, PartialEq, Eq, Structural)]
pub enum SlotKind {
    Number,
    Flag,
    Text,
    OptionalText,
    Ids,
}

/// The value of one slot.
#[derive(Debug, PartialEq, Eq)]
pub enum Value {
    Number(u64),
    Flag(bool),
    Text(String),
    OptionalText(Option<String>),
    Ids(Vec<u64>),
}

/// What the value of a slot is, with its texts and lists as sequences.
pub enum ValueView {
    Number(u64),
    Flag(bool),
    Text(Seq<char>),
    OptionalText(Option<Seq<char>>),
    Ids(Seq<u64>),
}

impl View for Value {
    type V = ValueView;

    open spec fn view(&self) -> ValueView {
        match self {
            Value::Number(number) => ValueView::Number(*number),
            Value::Flag(flag) => ValueView::Flag(*flag),
            Value::Text(text) => ValueView::Text(text@),
            Value::OptionalText(text) => ValueView::OptionalText(crate::entity::text_view(*text)),
            Value::Ids(ids) => ValueView::Ids(ids@),
        }
    }
}

impl ValueView {
    /// The kind of slot that holds such a value.
    pub open spec fn kind(self) -> SlotKind {
        match self {
            ValueView::Number(_) => SlotKind::Number,
            ValueView::Flag(_) => SlotKind::Flag,
            ValueView::Text(_) => SlotKind::Text,
            ValueView::OptionalText(_) => SlotKind::OptionalText,
            ValueView::Ids(_) => SlotKind::Ids,
        }
    }

    /// The payload that the value is written as.
    pub open spec fn payload(self) -> Seq<u8> {
        match self {
            ValueView::Number(number) => spec_u64_to_le_bytes(number),
            ValueView::Flag(flag) => seq![if flag { 1u8 } else { 0u8 }],
            ValueView::Text(text) => encode_utf8(text),
            ValueView::OptionalText(text) => match text {
                Some(text) => encode_utf8(text),
                None => Seq::empty(),
            },
            ValueView::Ids(ids) => ids_bytes(ids),
        }
    }

    /// Whether the value is the default of its kind, which is not written.
    pub open spec fn is_default(self) -> bool {
        self == default_value(self.kind())
    }
}

/// The value of a slot that was not written: zero, false, the empty text, no
/// text, the empty list.
pub open spec fn default_value(kind: SlotKind) -> ValueView {
    match kind {
        SlotKind::Number => ValueView::Number(0),
        SlotKind::Flag => ValueView::Flag(false),
        SlotKind::Text => ValueView::Text(Seq::empty()),
        SlotKind::OptionalText => ValueView::OptionalText(None),
        SlotKind::Ids => ValueView::Ids(Seq::empty()),
    }
}

/// The bytes of a list of identifiers: eight bytes each, least significant first.
pub open spec fn ids_bytes(ids: Seq<u64>) -> Seq<u8>
    decreases ids.len(),
{
    if ids.len() == 0 {
        Seq::empty()
    } else {
        spec_u64_to_le_bytes(ids[0]) + ids_bytes(ids.skip(1))
    }
}

/// The list of identifiers that `bytes` hold; `None` where their number is no
/// multiple of eight.
pub open spec fn ids_from(bytes: Seq<u8>) -> Option<Seq<u64>>
    decreases bytes.len(),
{
    if bytes.len() == 0 {
        Some(Seq::empty())
    } else if bytes.len() < 8 {
        None
    } else {
        match ids_from(bytes.skip(8)) {
            Some(rest) => Some(seq![spec_u64_from_le_bytes(bytes.take(8))] + rest),
            None => None,
        }
    }
}

/// A list of identifiers that was written is read back as it was.
pub proof fn lemma_ids_round_trip(ids: Seq<u64>)
    ensures
        ids_from(ids_bytes(ids)) == Some(ids),
        ids_bytes(ids).len() == 8 * ids.len(),
    decreases ids.len(),
{
    lemma_auto_spec_u64_to_from_le_bytes();
    if ids.len() > 0 {
        lemma_ids_round_trip(ids.skip(1));
        let bytes = ids_bytes(ids);
        assert(bytes.take(8) =~= spec_u64_to_le_bytes(ids[0]));
        assert(bytes.skip(8) =~= ids_bytes(ids.skip(1)));
        assert(seq![ids[0]] + ids.skip(1) =~= ids);
    }
}

/// The value that `payload` holds for a slot of `kind`; `None` where the
/// payload is not one of that kind.
pub open spec fn value_from(kind: SlotKind, payload: Seq<u8>) -> Option<ValueView> {
    match kind {
        SlotKind::Number => if payload.len() == 8 {
            Some(ValueView::Number(spec_u64_from_le_bytes(payload)))
        } else {
            None
        },
        SlotKind::Flag => if payload.len() == 1 && payload[0] <= 1 {
            Some(ValueView::Flag(payload[0] == 1))
        } else {
            None
        },
        SlotKind::Text => if valid_utf8(payload) {
            Some(ValueView::Text(decode_utf8(payload)))
        } else {
            None
        },
        SlotKind::OptionalText => if valid_utf8(payload) {
            Some(ValueView::OptionalText(Some(decode_utf8(payload))))
        } else {
            None
        },
        SlotKind::Ids => match ids_from(payload) {
            Some(ids) => Some(ValueView::Ids(ids)),
            None => None,
        },
    }
}

/// A value that was written, and so is not the default, is read back as it was.
pub proof fn lemma_value_round_trip(value: ValueView)
    requires
        !value.is_default(),
    ensures
        value_from(value.kind(), value.payload()) == Some(value),
{
    broadcast use {vstd::utf8::encode_utf8_valid_utf8, vstd::utf8::encode_utf8_decode_utf8};

    lemma_auto_spec_u64_to_from_le_bytes();
    match value {
        ValueView::Ids(ids) => {
            lemma_ids_round_trip(ids);
        },
        _ => {},
    }
}

/// What one field does to the slots read so far: a field of slot `n` puts its
/// value there, and a field of no slot is passed over.
pub open spec fn record_step(schema: Seq<SlotKind>) -> spec_fn(Seq<ValueView>, u8, Seq<u8>) -> Option<
    Seq<ValueView>,
> {
    |slots: Seq<ValueView>, tag: u8, payload: Seq<u8>|
        if 1 <= tag <= schema.len() {
            match value_from(schema[tag - 1], payload) {
                Some(value) => Some(slots.update(tag - 1, value)),
                None => None,
            }
        } else {
            Some(slots)
        }
}

/// The slots of a record of which nothing was written.
pub open spec fn defaults(schema: Seq<SlotKind>) -> Seq<ValueView> {
    Seq::new(schema.len(), |i: int| default_value(schema[i]))
}

/// The slots that `bytes` hold for a record with the slots of `schema`;
/// `None` where the bytes are no run of fields, or a field of a slot does not
/// hold a value of its kind.
pub open spec fn decoded_record(schema: Seq<SlotKind>, bytes: Seq<u8>) -> Option<Seq<ValueView>> {
    fold_fields(record_step(schema), defaults(schema), bytes)
}

/// The bytes of slot `index`: nothing for a default, else the field.
pub open spec fn slot_bytes(values: Seq<ValueView>, index: int) -> Seq<u8> {
    if values[index].is_default() {
        Seq::empty()
    } else {
        field_bytes((index + 1) as u8, values[index].payload())
    }
}

/// The bytes of the slots from `from` on.
pub open spec fn record_bytes_from(values: Seq<ValueView>, from: int) -> Seq<u8>
    decreases values.len() - from,
{
    if from < 0 || from >= values.len() {
        Seq::empty()
    } else {
        slot_bytes(values, from) + record_bytes_from(values, from + 1)
    }
}

/// The bytes of a record.
pub open spec fn record_bytes(values: Seq<ValueView>) -> Seq<u8> {
    record_bytes_from(values, 0)
}

/// Whether `values` are the slots of a record of `schema`.
pub open spec fn conforms(values: Seq<ValueView>, schema: Seq<SlotKind>) -> bool {
    values.len() == schema.len() && forall|i: int|
        0 <= i < values.len() ==> (#[trigger] values[i]).kind() == schema[i]
}

/// Whether a record can be written: it has at most 255 slots, and the length
/// of each payload fits in 64 bits.
pub open spec fn encodable(values: Seq<ValueView>) -> bool {
    values.len() <= 255 && forall|i: int|
        0 <= i < values.len() ==> (#[trigger] values[i]).payload().len() <= u64::MAX
}

/// The slots after the first `done` were read: those as written, the others
/// at their defaults.
pub open spec fn partly_read(values: Seq<ValueView>, schema: Seq<SlotKind>, done: int) -> Seq<ValueView> {
    Seq::new(
        schema.len(),
        |i: int|
            if i < done {
                values[i]
            } else {
                default_value(schema[i])
            },
    )
}

/// Reading the fields of the slots from `done` on completes the record.
pub proof fn lemma_record_round_trip_from(values: Seq<ValueView>, schema: Seq<SlotKind>, done: int)
    requires
        conforms(values, schema),
        encodable(values),
        0 <= done <= values.len(),
    ensures
        fold_fields(
            record_step(schema),
            partly_read(values, schema, done),
            record_bytes_from(values, done),
        ) == Some(values),
    decreases values.len() - done,
{
    let here = partly_read(values, schema, done);
    if done == values.len() {
        assert(here =~= values);
    } else {
        let rest = record_bytes_from(values, done + 1);
        let next = partly_read(values, schema, done + 1);
        lemma_record_round_trip_from(values, schema, done + 1);
        if values[done].is_default() {
            assert(next =~= here);
            assert(record_bytes_from(values, done) =~= rest);
        } else {
            let tag = (done + 1) as u8;
            lemma_value_round_trip(values[done]);
            lemma_fold_field(record_step(schema), here, tag, values[done].payload(), rest);
            assert(here.update(done, values[done]) =~= next);
        }
    }
}

/// A record that was written is read back as it was.
pub proof fn lemma_record_round_trip(values: Seq<ValueView>, schema: Seq<SlotKind>)
    requires
        conforms(values, schema),
        encodable(values),
    ensures
        decoded_record(schema, record_bytes(values)) == Some(values),
{
    lemma_record_round_trip_from(values, schema, 0);
    assert(partly_read(values, schema, 0) =~= defaults(schema));
}

/// A record of which nothing was written holds the default in every slot.
pub proof fn lemma_absent_fields_are_defaults(schema: Seq<SlotKind>)
    ensures
        decoded_record(schema, Seq::empty()) == Some(defaults(schema)),
{
}

/// A field whose tag is the number of no slot is passed over: the record
/// reads as it does without the field.
pub proof fn lemma_unknown_field_is_passed_over(
    schema: Seq<SlotKind>,
    slots: Seq<ValueView>,
    tag: u8,
    payload: Seq<u8>,
    rest: Seq<u8>,
)
    requires
        tag == 0 || tag > schema.len(),
        payload.len() <= u64::MAX,
    ensures
        fold_fields(record_step(schema), slots, field_bytes(tag, payload) + rest) == fold_fields(
            record_step(schema),
            slots,
            rest,
        ),
{
    lemma_fold_field(record_step(schema), slots, tag, payload, rest);
}

/// Of two fields of one slot, the later one is read: the record reads as it
/// does with the later field alone, where the earlier one holds a value of
/// the slot's kind.
pub proof fn lemma_later_field_wins(
    schema: Seq<SlotKind>,
    slots: Seq<ValueView>,
    tag: u8,
    earlier: Seq<u8>,
    later: Seq<u8>,
    rest: Seq<u8>,
)
    requires
        1 <= tag <= schema.len(),
        slots.len() == schema.len(),
        earlier.len() <= u64::MAX,
        later.len() <= u64::MAX,
        value_from(schema[tag - 1], earlier) is Some,
    ensures
        fold_fields(
            record_step(schema),
            slots,
            field_bytes(tag, earlier) + (field_bytes(tag, later) + rest),
        ) == fold_fields(record_step(schema), slots, field_bytes(tag, later) + rest),
{
    let step = record_step(schema);
    let first = value_from(schema[tag - 1], earlier).unwrap();
    lemma_fold_field(step, slots, tag, earlier, field_bytes(tag, later) + rest);
    lemma_fold_field(step, slots.update(tag - 1, first), tag, later, rest);
    lemma_fold_field(step, slots, tag, later, rest);
    match value_from(schema[tag - 1], later) {
        Some(second) => {
            assert(slots.update(tag - 1, first).update(tag - 1, second) =~= slots.update(
                tag - 1,
                second,
            ));
        },
        None => {},
    }
}

/// The views of a list of values.
pub open spec fn value_views(values: Seq<Value>) -> Seq<ValueView> {
    Seq::new(values.len(), |i: int| values[i]@)
}

/// The bytes of a list of identifiers.
fn encode_ids(ids: &Vec<u64>) -> (bytes: Vec<u8>)
    ensures
        bytes@ == ids_bytes(ids@),
{
    let mut bytes: Vec<u8> = Vec::new();
    let mut i: usize = 0;
    assert(ids@.skip(0) =~= ids@);
    assert(bytes@ + ids_bytes(ids@) =~= ids_bytes(ids@));
    while i < ids.len()
        invariant
            i <= ids@.len(),
            bytes@ + ids_bytes(ids@.skip(i as int)) == ids_bytes(ids@),
        decreases ids.len() - i,
    {
        let one = u64_to_le_bytes(ids[i]);
        proof {
            let tail = ids@.skip(i as int);
            assert(tail.skip(1) =~= ids@.skip(i + 1));
            assert(tail[0] == ids@[i as int]);
            assert((bytes@ + one@) + ids_bytes(ids@.skip(i + 1)) =~= bytes@ + ids_bytes(tail));
        }
        append_bytes(&mut bytes, one.as_slice());
        i = i + 1;
    }
    assert(ids@.skip(ids@.len() as int) =~= Seq::<u64>::empty());
    assert(bytes@ + Seq::<u8>::empty() =~= bytes@);
    bytes
}

/// The list of identifiers that `bytes` hold.
fn decode_ids(bytes: &[u8]) -> (ids: Option<Vec<u64>>)
    ensures
        match ids {
            Some(ids) => ids_from(bytes@) == Some(ids@),
            None => ids_from(bytes@) is None,
        },
{
    let mut ids: Vec<u64> = Vec::new();
    let mut pos: usize = 0;
    assert(bytes@.skip(0) =~= bytes@);
    while pos < bytes.len()
        invariant
            pos <= bytes@.len(),
            ids_from(bytes@) == (match ids_from(bytes@.skip(pos as int)) {
                Some(rest) => Some(ids@ + rest),
                None => None,
            }),
        decreases bytes.len() - pos,
    {
        let ghost tail = bytes@.skip(pos as int);
        if bytes.len() - pos < 8 {
            return None;
        }
        let id = u64_from_le_bytes(slice_subrange(bytes, pos, pos + 8));
        proof {
            assert(bytes@.subrange(pos as int, pos + 8) =~= tail.take(8));
            assert(tail.skip(8) =~= bytes@.skip(pos + 8));
            match ids_from(bytes@.skip(pos + 8)) {
                Some(rest) => {
                    assert(ids@ + (seq![id] + rest) =~= ids@.push(id) + rest);
                },
                None => {},
            }
        }
        ids.push(id);
        pos = pos + 8;
    }
    assert(bytes@.skip(bytes@.len() as int) =~= Seq::<u8>::empty());
    assert(ids@ + Seq::<u64>::empty() =~= ids@);
    Some(ids)
}

/// A copy of `bytes`.
pub fn copy_bytes(bytes: &[u8]) -> (copy: Vec<u8>)
    ensures
        copy@ == bytes@,
{
    let mut copy: Vec<u8> = Vec::new();
    append_bytes(&mut copy, bytes);
    assert(copy@ =~= bytes@);
    copy
}

/// The payload that `value` is written as.
fn encode_value(value: &Value) -> (payload: Vec<u8>)
    ensures
        payload@ == value@.payload(),
{
    match value {
        Value::Number(number) => u64_to_le_bytes(*number),
        Value::Flag(flag) => {
            let mut payload: Vec<u8> = Vec::new();
            payload.push(if *flag { 1u8 } else { 0u8 });
            assert(payload@ =~= value@.payload());
            payload
        },
        Value::Text(text) => copy_bytes(text.as_str().as_bytes()),
        Value::OptionalText(text) => match text {
            Some(text) => copy_bytes(text.as_str().as_bytes()),
            None => Vec::new(),
        },
        Value::Ids(ids) => encode_ids(ids),
    }
}

/// Whether `value` is the default of its kind.
fn holds_default(value: &Value) -> (default: bool)
    ensures
        default == value@.is_default(),
{
    match value {
        Value::Number(number) => *number == 0,
        Value::Flag(flag) => !*flag,
        Value::Text(text) => {
            let empty = text.as_str().unicode_len() == 0;
            assert(empty == (text@ =~= Seq::<char>::empty()));
            empty
        },
        Value::OptionalText(text) => text.is_none(),
        Value::Ids(ids) => {
            let empty = ids.len() == 0;
            assert(empty == (ids@ =~= Seq::<u64>::empty()));
            empty
        },
    }
}

/// The value that `payload` holds for a slot of `kind`.
fn decode_value(kind: SlotKind, payload: &[u8]) -> (value: Option<Value>)
    ensures
        match value {
            Some(value) => value_from(kind, payload@) == Some(value@),
            None => value_from(kind, payload@) is None,
        },
{
    match kind {
        SlotKind::Number => {
            if payload.len() == 8 {
                Some(Value::Number(u64_from_le_bytes(payload)))
            } else {
                None
            }
        },
        SlotKind::Flag => {
            if payload.len() == 1 && payload[0] <= 1 {
                Some(Value::Flag(payload[0] == 1))
            } else {
                None
            }
        },
        SlotKind::Text => match text_from_utf8(copy_bytes(payload)) {
            Some(text) => Some(Value::Text(text)),
            None => None,
        },
        SlotKind::OptionalText => match text_from_utf8(copy_bytes(payload)) {
            Some(text) => Some(Value::OptionalText(Some(text))),
            None => None,
        },
        SlotKind::Ids => match decode_ids(payload) {
            Some(ids) => Some(Value::Ids(ids)),
            None => None,
        },
    }
}

/// The default of a slot of `kind`.
fn make_default(kind: SlotKind) -> (value: Value)
    ensures
        value@ == default_value(kind),
{
    match kind {
        SlotKind::Number => Value::Number(0),
        SlotKind::Flag => Value::Flag(false),
        SlotKind::Text => Value::Text(String::new()),
        SlotKind::OptionalText => Value::OptionalText(None),
        SlotKind::Ids => Value::Ids(Vec::new()),
    }
}

/// Writes a record at the end of `out`: the field of every slot that does not
/// hold its default, in the order of the slots.
pub fn encode_record(values: &Vec<Value>, out: &mut Vec<u8>)
    requires
        values@.len() <= 255,
    ensures
        final(out)@ == old(out)@ + record_bytes(value_views(values@)),
        encodable(value_views(values@)),
{
    let ghost views = value_views(values@);
    let mut i: usize = 0;
    assert(out@ + record_bytes_from(views, 0) =~= old(out)@ + record_bytes(views));
    while i < values.len()
        invariant
            i <= values@.len() <= 255,
            views == value_views(values@),
            out@ + record_bytes_from(views, i as int) == old(out)@ + record_bytes(views),
            forall|j: int| 0 <= j < i ==> (#[trigger] views[j]).payload().len() <= u64::MAX,
        decreases values.len() - i,
    {
        let ghost before = out@;
        let payload = encode_value(&values[i]);
        let size = payload.len();
        assert(views[i as int] == values@[i as int]@);
        assert(views[i as int].payload().len() == size);
        if !holds_default(&values[i]) {
            write_field(out, (i + 1) as u8, payload.as_slice());
        }
        proof {
            assert(views[i as int] == values@[i as int]@);
            assert(out@ == before + slot_bytes(views, i as int));
            assert((before + slot_bytes(views, i as int)) + record_bytes_from(views, i + 1)
                =~= before + record_bytes_from(views, i as int));
        }
        i = i + 1;
    }
    assert(out@ + Seq::<u8>::empty() =~= out@);
}

/// Reads `bytes` as a record with the slots of `schema`. `None` where the
/// bytes are no run of fields, or a field of a slot does not hold a value of
/// its kind.
pub fn decode_record(schema: &Vec<SlotKind>, bytes: &[u8]) -> (values: Option<Vec<Value>>)
    requires
        schema@.len() <= 255,
    ensures
        match values {
            Some(values) => decoded_record(schema@, bytes@) == Some(value_views(values@)),
            None => decoded_record(schema@, bytes@) is None,
        },
{
    let mut slots: Vec<Value> = Vec::new();
    let mut i: usize = 0;
    while i < schema.len()
        invariant
            i <= schema@.len(),
            slots@.len() == i,
            forall|j: int| 0 <= j < i ==> (#[trigger] slots@[j])@ == default_value(schema@[j]),
        decreases schema.len() - i,
    {
        slots.push(make_default(schema[i]));
        i = i + 1;
    }
    assert(value_views(slots@) =~= defaults(schema@));
    let mut pos: usize = 0;
    assert(bytes@.skip(0) =~= bytes@);
    while pos < bytes.len()
        invariant
            pos <= bytes@.len(),
            schema@.len() <= 255,
            slots@.len() == schema@.len(),
            decoded_record(schema@, bytes@) == fold_fields(
                record_step(schema@),
                value_views(slots@),
                bytes@.skip(pos as int),
            ),
        decreases bytes.len() - pos,
    {
        let (tag, start, end) = match read_field(bytes, pos) {
            Some(field) => field,
            None => {
                return None;
            },
        };
        if 1 <= tag && (tag as usize) <= schema.len() {
            let slot = (tag - 1) as usize;
            let ghost before = value_views(slots@);
            match decode_value(schema[slot], slice_subrange(bytes, start, end)) {
                Some(value) => {
                    slots.set(slot, value);
                    assert(value_views(slots@) =~= before.update(slot as int, value@));
                },
                None => {
                    return None;
                },
            }
        }
        pos = end;
    }
    assert(bytes@.skip(bytes@.len() as int) =~= Seq::<u8>::empty());
    Some(slots)
}

} // verus!
