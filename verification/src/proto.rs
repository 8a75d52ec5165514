//! The protobuf wire format, as far as the messages here need it.
//!
//! A message is read as the list of its fields; what a known tag means is left
//! to the message types.

use prost::encoding::{DecodeContext, WireType};
use vstd::prelude::*;

use crate::wire;

verus! {

// ---------------- Variable-length integers ----------------

/// `x` in groups of seven bits, least significant first; every byte but the
/// last has its high bit set.
pub open spec fn varint(x: nat) -> Seq<u8>
    decreases x,
{
    if x < 128 {
        seq![x as u8]
    } else {
        seq![(x % 128 + 128) as u8] + varint(x / 128)
    }
}

/// Reads the groups of a variable-length integer from the `i`th on: the value
/// of these groups and the bytes behind them. There are at most ten groups,
/// and the tenth holds a single bit.
pub open spec fn read_groups(s: Seq<u8>, i: int) -> Option<(nat, Seq<u8>)>
    decreases 10 - i,
{
    if s.len() == 0 || i >= 10 || (i == 9 && s[0] >= 2) {
        None
    } else if s[0] < 128 {
        Some((s[0] as nat, s.skip(1)))
    } else {
        match read_groups(s.skip(1), i + 1) {
            None => None,
            Some((high, rest)) => Some(((s[0] - 128) as nat + 128 * high, rest)),
        }
    }
}

/// Reads a variable-length integer: its value and the bytes behind it.
pub open spec fn read_varint(s: Seq<u8>) -> Option<(nat, Seq<u8>)> {
    read_groups(s, 0)
}

/// What the value of the groups from the `i`th on stays below.
pub open spec fn groups_bound(i: int) -> nat
    decreases 10 - i,
{
    if i >= 9 {
        2
    } else {
        128 * groups_bound(i + 1)
    }
}

proof fn lemma_groups_bound(i: int)
    requires
        0 <= i <= 9,
    ensures
        2 <= groups_bound(i) <= 0x1_0000_0000_0000_0000,
        groups_bound(0) == 0x1_0000_0000_0000_0000,
{
    reveal_with_fuel(groups_bound, 11);
    assert(groups_bound(9) == 2);
    assert(groups_bound(8) == 128 * groups_bound(9));
    assert(groups_bound(7) == 128 * groups_bound(8));
    assert(groups_bound(6) == 128 * groups_bound(7));
    assert(groups_bound(5) == 128 * groups_bound(6));
    assert(groups_bound(4) == 128 * groups_bound(5));
    assert(groups_bound(3) == 128 * groups_bound(4));
    assert(groups_bound(2) == 128 * groups_bound(3));
    assert(groups_bound(1) == 128 * groups_bound(2));
    assert(groups_bound(0) == 128 * groups_bound(1));
}

proof fn lemma_groups_value(s: Seq<u8>, i: int)
    requires
        0 <= i,
    ensures
        read_groups(s, i) matches Some((v, rest)) ==> v < groups_bound(i) && rest.len() < s.len(),
    decreases 10 - i,
{
    if s.len() == 0 || i >= 10 || (i == 9 && s[0] >= 2) {
    } else if s[0] < 128 {
        if i < 9 {
            lemma_groups_bound(i + 1);
        }
    } else {
        lemma_groups_value(s.skip(1), i + 1);
    }
}

proof fn lemma_groups_round_trip(x: nat, rest: Seq<u8>, i: int)
    requires
        0 <= i <= 9,
        x < groups_bound(i),
    ensures
        read_groups(varint(x) + rest, i) == Some((x, rest)),
    decreases x,
{
    let s = varint(x) + rest;
    if x < 128 {
        assert(s.skip(1) =~= rest);
    } else {
        assert(i < 9);
        assert(s.skip(1) =~= varint(x / 128) + rest);
        lemma_groups_round_trip(x / 128, rest, i + 1);
    }
}

/// A written integer is read back, with what follows it.
pub proof fn varint_round_trip(x: nat, rest: Seq<u8>)
    requires
        x < 0x1_0000_0000_0000_0000,
    ensures
        read_varint(varint(x) + rest) == Some((x, rest)),
        varint(x).len() > 0,
{
    lemma_groups_bound(0);
    lemma_groups_round_trip(x, rest, 0);
}

/// Appends `x` as a variable-length integer.
pub fn push_varint(out: &mut Vec<u8>, x: u64)
    ensures
        final(out)@ == old(out)@ + varint(x as nat),
    decreases x,
{
    if x < 128 {
        out.push(x as u8);
    } else {
        out.push((x % 128 + 128) as u8);
        push_varint(out, x / 128);
    }
    assert(out@ =~= old(out)@ + varint(x as nat));
}

fn read_groups_exec(s: &[u8], i: u32) -> (r: Option<(u64, &[u8])>)
    ensures
        match r {
            Some((v, rest)) => read_groups(s@, i as int) == Some((v as nat, rest@)),
            None => read_groups(s@, i as int) is None,
        },
    decreases 10 - i,
{
    if s.len() == 0 || i >= 10 || (i == 9 && s[0] >= 2) {
        return None;
    }
    let rest = vstd::slice::slice_subrange(s, 1, s.len());
    assert(rest@ =~= s@.skip(1));
    if s[0] < 128 {
        return Some((s[0] as u64, rest));
    }
    match read_groups_exec(rest, i + 1) {
        None => None,
        Some((high, rest)) => {
            proof {
                lemma_groups_value(s@, i as int);
                lemma_groups_bound(i as int);
            }
            let low: u64 = (s[0] - 128) as u64;
            Some((low + 128 * high, rest))
        },
    }
}

/// Reads a variable-length integer: its value and the bytes behind it.
pub fn take_varint(s: &[u8]) -> (r: Option<(u64, &[u8])>)
    ensures
        match r {
            Some((v, rest)) => {
                &&& read_varint(s@) == Some((v as nat, rest@))
                &&& rest@.len() < s@.len()
            },
            None => read_varint(s@) is None,
        },
{
    proof {
        lemma_groups_value(s@, 0);
    }
    read_groups_exec(s, 0)
}

// ---------------- Fields ----------------

/// The value of a field, by its wire type.
pub enum FieldValue {
    Varint(u64),
    Fixed64(Vec<u8>),
    Bytes(Vec<u8>),
    Group,
    Fixed32(Vec<u8>),
}

/// A field of a message.
pub struct Field {
    pub tag: u32,
    pub value: FieldValue,
}

/// The contents of a [`FieldValue`].
#[verifier::ext_equal]
pub enum ValueModel {
    Varint(nat),
    Fixed64(Seq<u8>),
    Bytes(Seq<u8>),
    Group,
    Fixed32(Seq<u8>),
}

/// The contents of a [`Field`].
#[verifier::ext_equal]
pub struct FieldModel {
    pub tag: nat,
    pub value: ValueModel,
}

impl View for FieldValue {
    type V = ValueModel;

    open spec fn view(&self) -> ValueModel {
        match self {
            FieldValue::Varint(v) => ValueModel::Varint(*v as nat),
            FieldValue::Fixed64(b) => ValueModel::Fixed64(b@),
            FieldValue::Bytes(b) => ValueModel::Bytes(b@),
            FieldValue::Group => ValueModel::Group,
            FieldValue::Fixed32(b) => ValueModel::Fixed32(b@),
        }
    }
}

impl View for Field {
    type V = FieldModel;

    open spec fn view(&self) -> FieldModel {
        FieldModel { tag: self.tag as nat, value: self.value@ }
    }
}

/// The contents of a list of fields.
pub open spec fn views(fields: Seq<Field>) -> Seq<FieldModel> {
    fields.map_values(|f: Field| f@)
}

/// The bytes behind a group that was opened with the given tag, where it is well-formed.
pub uninterp spec fn group_rest(tag: nat, bytes: Seq<u8>) -> Option<Seq<u8>>;

/// Calls `prost::encoding::skip_field` on a group: the bytes left behind its
/// end, or nothing where the group is malformed, ends with another tag or nests
/// too deeply. Bytes are only consumed.
#[verifier::external_body]
fn skip_group(tag: u32, bytes: &[u8]) -> (r: Option<&[u8]>)
    ensures
        match r {
            Some(rest) => {
                &&& group_rest(tag as nat, bytes@) == Some(rest@)
                &&& rest@.len() <= bytes@.len()
            },
            None => group_rest(tag as nat, bytes@) is None,
        },
{
    let mut buf = bytes;
    match prost::encoding::skip_field(
        WireType::StartGroup,
        tag,
        &mut buf,
        DecodeContext::default(),
    ) {
        Ok(()) => Some(buf),
        Err(_) => None,
    }
}

/// Reads the value of a field of the given wire type, and the bytes behind it.
pub open spec fn read_value(wire: nat, tag: nat, s: Seq<u8>) -> Option<(ValueModel, Seq<u8>)> {
    if wire == 0 {
        match read_varint(s) {
            Some((v, rest)) => Some((ValueModel::Varint(v), rest)),
            None => None,
        }
    } else if wire == 1 {
        if s.len() < 8 {
            None
        } else {
            Some((ValueModel::Fixed64(s.take(8)), s.skip(8)))
        }
    } else if wire == 2 {
        match read_varint(s) {
            Some((n, rest)) => if rest.len() < n {
                None
            } else {
                Some((ValueModel::Bytes(rest.take(n as int)), rest.skip(n as int)))
            },
            None => None,
        }
    } else if wire == 3 {
        match group_rest(tag, s) {
            Some(rest) => Some((ValueModel::Group, rest)),
            None => None,
        }
    } else if wire == 5 {
        if s.len() < 4 {
            None
        } else {
            Some((ValueModel::Fixed32(s.take(4)), s.skip(4)))
        }
    } else {
        None
    }
}

/// Reads a field and the bytes behind it. In front of the value stands its key:
/// the tag, which is positive, and three bits of wire type, in 32 bits together.
pub open spec fn read_field(s: Seq<u8>) -> Option<(FieldModel, Seq<u8>)> {
    match read_varint(s) {
        None => None,
        Some((key, body)) => if key > u32::MAX || key / 8 == 0 {
            None
        } else {
            match read_value(key % 8, key / 8, body) {
                None => None,
                Some((value, rest)) => Some((FieldModel { tag: key / 8, value }, rest)),
            }
        },
    }
}

/// The fields of a message, where it is well-formed.
pub open spec fn fields_of(s: Seq<u8>) -> Option<Seq<FieldModel>>
    decreases s.len(),
{
    if s.len() == 0 {
        Some(Seq::empty())
    } else {
        match read_field(s) {
            None => None,
            Some((field, rest)) => if rest.len() >= s.len() {
                None
            } else {
                match fields_of(rest) {
                    None => None,
                    Some(fields) => Some(seq![field] + fields),
                }
            },
        }
    }
}

/// The bytes of a field.
pub open spec fn encoded_field(f: FieldModel) -> Seq<u8> {
    match f.value {
        ValueModel::Varint(v) => varint(f.tag * 8) + varint(v),
        ValueModel::Fixed64(b) => varint(f.tag * 8 + 1) + b,
        ValueModel::Bytes(b) => varint(f.tag * 8 + 2) + varint(b.len()) + b,
        ValueModel::Group => Seq::empty(),
        ValueModel::Fixed32(b) => varint(f.tag * 8 + 5) + b,
    }
}

/// The field can be written: its tag and its value have the size of their kind.
pub open spec fn writable(f: FieldModel) -> bool {
    &&& 1 <= f.tag < 0x2000_0000
    &&& match f.value {
        ValueModel::Varint(v) => v < 0x1_0000_0000_0000_0000,
        ValueModel::Fixed64(b) => b.len() == 8,
        ValueModel::Bytes(b) => b.len() < 0x1_0000_0000_0000_0000,
        ValueModel::Group => false,
        ValueModel::Fixed32(b) => b.len() == 4,
    }
}

/// The bytes of a list of fields.
pub open spec fn encoded_fields(fields: Seq<FieldModel>) -> Seq<u8>
    decreases fields.len(),
{
    if fields.len() == 0 {
        Seq::empty()
    } else {
        encoded_field(fields[0]) + encoded_fields(fields.drop_first())
    }
}

proof fn lemma_read_field(f: FieldModel, rest: Seq<u8>)
    requires
        writable(f),
    ensures
        read_field(encoded_field(f) + rest) == Some((f, rest)),
        encoded_field(f).len() > 0,
{
    let s = encoded_field(f) + rest;
    match f.value {
        ValueModel::Varint(v) => {
            assert(s =~= varint(f.tag * 8) + (varint(v) + rest));
            varint_round_trip(f.tag * 8, varint(v) + rest);
            varint_round_trip(v, rest);
        },
        ValueModel::Fixed64(b) => {
            assert(s =~= varint(f.tag * 8 + 1) + (b + rest));
            varint_round_trip(f.tag * 8 + 1, b + rest);
            assert((b + rest).take(8) =~= b);
            assert((b + rest).skip(8) =~= rest);
        },
        ValueModel::Bytes(b) => {
            assert(s =~= varint(f.tag * 8 + 2) + (varint(b.len()) + (b + rest)));
            varint_round_trip(f.tag * 8 + 2, varint(b.len()) + (b + rest));
            varint_round_trip(b.len(), b + rest);
            assert((b + rest).take(b.len() as int) =~= b);
            assert((b + rest).skip(b.len() as int) =~= rest);
        },
        ValueModel::Group => {},
        ValueModel::Fixed32(b) => {
            assert(s =~= varint(f.tag * 8 + 5) + (b + rest));
            varint_round_trip(f.tag * 8 + 5, b + rest);
            assert((b + rest).take(4) =~= b);
            assert((b + rest).skip(4) =~= rest);
        },
    }
}

/// The fields that were written are read back, in their order.
pub proof fn fields_round_trip(fields: Seq<FieldModel>)
    requires
        forall|i: int| 0 <= i < fields.len() ==> writable(#[trigger] fields[i]),
    ensures
        fields_of(encoded_fields(fields)) == Some(fields),
    decreases fields.len(),
{
    if fields.len() == 0 {
        assert(fields =~= Seq::empty());
    } else {
        let tail = fields.drop_first();
        fields_round_trip(tail);
        lemma_read_field(fields[0], encoded_fields(tail));
        assert(seq![fields[0]] + tail =~= fields);
    }
}

/// The bytes of two lists of fields stand one behind the other.
pub proof fn lemma_encoded_fields_concat(a: Seq<FieldModel>, b: Seq<FieldModel>)
    ensures
        encoded_fields(a + b) == encoded_fields(a) + encoded_fields(b),
    decreases a.len(),
{
    if a.len() == 0 {
        assert(a + b =~= b);
        assert(encoded_fields(a) + encoded_fields(b) =~= encoded_fields(b));
    } else {
        lemma_encoded_fields_concat(a.drop_first(), b);
        assert((a + b).drop_first() =~= a.drop_first() + b);
        assert(encoded_fields(a + b) =~= encoded_fields(a) + encoded_fields(b));
    }
}

/// Fields written one list after the other are the lists written as one.
pub proof fn lemma_appended(base: Seq<u8>, a: Seq<FieldModel>, b: Seq<FieldModel>)
    ensures
        base + encoded_fields(a) + encoded_fields(b) == base + encoded_fields(a + b),
{
    lemma_encoded_fields_concat(a, b);
    assert(base + encoded_fields(a) + encoded_fields(b) =~= base + encoded_fields(a + b));
}

/// The value of the last field with the given tag.
pub open spec fn last_value(fields: Seq<FieldModel>, tag: nat) -> Option<ValueModel>
    decreases fields.len(),
{
    if fields.len() == 0 {
        None
    } else if fields.last().tag == tag {
        Some(fields.last().value)
    } else {
        last_value(fields.drop_last(), tag)
    }
}

/// Every field with the given tag holds an integer.
pub open spec fn all_varints(fields: Seq<FieldModel>, tag: nat) -> bool {
    forall|i: int|
        0 <= i < fields.len() && (#[trigger] fields[i]).tag == tag ==> fields[i].value is Varint
}

/// Every field with the given tag holds a byte string.
pub open spec fn all_bytes(fields: Seq<FieldModel>, tag: nat) -> bool {
    forall|i: int|
        0 <= i < fields.len() && (#[trigger] fields[i]).tag == tag ==> fields[i].value is Bytes
}

/// The 32 low-order bits of the last integer with the given tag.
pub open spec fn uint32_of(fields: Seq<FieldModel>, tag: nat) -> Option<u32> {
    match last_value(fields, tag) {
        Some(ValueModel::Varint(v)) => Some((v % 0x1_0000_0000) as u32),
        _ => None,
    }
}

/// The last byte string with the given tag.
pub open spec fn bytes_of(fields: Seq<FieldModel>, tag: nat) -> Option<Seq<u8>> {
    match last_value(fields, tag) {
        Some(ValueModel::Bytes(b)) => Some(b),
        _ => None,
    }
}

/// An optional integer as a field list.
pub open spec fn uint32_field(tag: nat, value: Option<u32>) -> Seq<FieldModel> {
    match value {
        Some(v) => seq![FieldModel { tag, value: ValueModel::Varint(v as nat) }],
        None => Seq::empty(),
    }
}

/// An optional byte string as a field list.
pub open spec fn bytes_field(tag: nat, value: Option<Seq<u8>>) -> Seq<FieldModel> {
    match value {
        Some(b) => seq![FieldModel { tag, value: ValueModel::Bytes(b) }],
        None => Seq::empty(),
    }
}

/// A 64-bit integer of fixed length as a field list.
pub open spec fn fixed64_field(tag: nat, value: u64) -> Seq<FieldModel> {
    seq![FieldModel { tag, value: ValueModel::Fixed64(wire::le8(value as int)) }]
}

/// A later list takes precedence over an earlier one.
pub proof fn lemma_last_value_concat(a: Seq<FieldModel>, b: Seq<FieldModel>, tag: nat)
    ensures
        last_value(a + b, tag) == (if last_value(b, tag) is Some {
            last_value(b, tag)
        } else {
            last_value(a, tag)
        }),
    decreases b.len(),
{
    if b.len() == 0 {
        assert(a + b =~= a);
    } else {
        assert((a + b).last() == b.last());
        assert((a + b).drop_last() =~= a + b.drop_last());
        lemma_last_value_concat(a, b.drop_last(), tag);
    }
}

/// A list of at most one field has that field's value, under its tag.
pub proof fn lemma_last_value_single(field: Seq<FieldModel>, tag: nat)
    requires
        field.len() <= 1,
    ensures
        last_value(field, tag) == (if field.len() == 1 && field[0].tag == tag {
            Some(field[0].value)
        } else {
            None
        }),
{
    reveal_with_fuel(last_value, 3);
}

fn take_value(wire: u32, tag: u32, s: &[u8]) -> (r: Option<(FieldValue, &[u8])>)
    ensures
        match r {
            Some((value, rest)) => {
                &&& read_value(wire as nat, tag as nat, s@) == Some((value@, rest@))
                &&& rest@.len() <= s@.len()
            },
            None => read_value(wire as nat, tag as nat, s@) is None,
        },
{
    if wire == 0 {
        match take_varint(s) {
            Some((v, rest)) => Some((FieldValue::Varint(v), rest)),
            None => None,
        }
    } else if wire == 1 {
        if s.len() < 8 {
            return None;
        }
        let head = vstd::slice::slice_subrange(s, 0, 8);
        let rest = vstd::slice::slice_subrange(s, 8, s.len());
        assert(head@ =~= s@.take(8) && rest@ =~= s@.skip(8));
        Some((FieldValue::Fixed64(wire::to_vec(head)), rest))
    } else if wire == 2 {
        match take_varint(s) {
            Some((n, body)) => {
                if (body.len() as u64) < n {
                    return None;
                }
                let n: usize = n as usize;
                let head = vstd::slice::slice_subrange(body, 0, n);
                let rest = vstd::slice::slice_subrange(body, n, body.len());
                assert(head@ =~= body@.take(n as int) && rest@ =~= body@.skip(n as int));
                Some((FieldValue::Bytes(wire::to_vec(head)), rest))
            },
            None => None,
        }
    } else if wire == 3 {
        match skip_group(tag, s) {
            Some(rest) => Some((FieldValue::Group, rest)),
            None => None,
        }
    } else if wire == 5 {
        if s.len() < 4 {
            return None;
        }
        let head = vstd::slice::slice_subrange(s, 0, 4);
        let rest = vstd::slice::slice_subrange(s, 4, s.len());
        assert(head@ =~= s@.take(4) && rest@ =~= s@.skip(4));
        Some((FieldValue::Fixed32(wire::to_vec(head)), rest))
    } else {
        None
    }
}

fn take_field(s: &[u8]) -> (r: Option<(Field, &[u8])>)
    ensures
        match r {
            Some((field, rest)) => {
                &&& read_field(s@) == Some((field@, rest@))
                &&& rest@.len() < s@.len()
            },
            None => read_field(s@) is None,
        },
{
    match take_varint(s) {
        None => None,
        Some((key, body)) => {
            if key > 0xFFFF_FFFF || key / 8 == 0 {
                return None;
            }
            let tag: u32 = (key / 8) as u32;
            match take_value((key % 8) as u32, tag, body) {
                None => None,
                Some((value, rest)) => Some((Field { tag, value }, rest)),
            }
        },
    }
}

/// Reads the fields of a message, where it is well-formed.
pub fn take_fields(s: &[u8]) -> (r: Option<Vec<Field>>)
    ensures
        match r {
            Some(fields) => fields_of(s@) == Some(views(fields@)),
            None => fields_of(s@) is None,
        },
{
    let mut rest = s;
    let mut fields: Vec<Field> = Vec::new();
    proof {
        if let Some(tail) = fields_of(s@) {
            assert(views(fields@) + tail =~= tail);
        }
    }
    while rest.len() > 0
        invariant
            match fields_of(rest@) {
                Some(tail) => fields_of(s@) == Some(views(fields@) + tail),
                None => fields_of(s@) is None,
            },
        decreases rest@.len(),
    {
        let ghost before = fields@;
        match take_field(rest) {
            None => {
                return None;
            },
            Some((field, next)) => {
                proof {
                    if let Some(tail) = fields_of(next@) {
                        assert(views(before.push(field)) + tail =~= views(before) + (seq![field@]
                            + tail));
                    }
                }
                fields.push(field);
                rest = next;
            },
        }
    }
    proof {
        assert(rest@ =~= Seq::<u8>::empty());
        assert(views(fields@) + Seq::<FieldModel>::empty() =~= views(fields@));
    }
    Some(fields)
}

/// The 32 low-order bits of the last integer with the given tag, or `None`
/// where a field with the tag holds something else.
pub fn find_uint32(fields: &Vec<Field>, tag: u32) -> (r: Option<Option<u32>>)
    ensures
        match r {
            Some(value) => {
                &&& all_varints(views(fields@), tag as nat)
                &&& value == uint32_of(views(fields@), tag as nat)
            },
            None => !all_varints(views(fields@), tag as nat),
        },
{
    let mut found: Option<u32> = None;
    let mut i: usize = 0;
    assert(views(fields@).take(0) =~= Seq::<FieldModel>::empty());
    while i < fields.len()
        invariant
            i <= fields@.len(),
            all_varints(views(fields@).take(i as int), tag as nat),
            found == uint32_of(views(fields@).take(i as int), tag as nat),
        decreases fields@.len() - i,
    {
        let ghost head = views(fields@).take(i as int + 1);
        assert(head.drop_last() =~= views(fields@).take(i as int));
        assert(head.last() == fields@[i as int]@);
        if fields[i].tag == tag {
            match &fields[i].value {
                FieldValue::Varint(v) => {
                    found = Some((*v % 0x1_0000_0000) as u32);
                },
                _ => {
                    assert(views(fields@)[i as int].tag == tag as nat);
                    return None;
                },
            }
        }
        assert forall|j: int|
            0 <= j < head.len() && (#[trigger] head[j]).tag == tag as nat implies head[j].value
            is Varint by {
            if j < i {
                assert(head[j] == views(fields@).take(i as int)[j]);
            }
        }
        i += 1;
    }
    assert(views(fields@).take(i as int) =~= views(fields@));
    Some(found)
}

/// The last byte string with the given tag, or `None` where a field with the
/// tag holds something else.
pub fn find_bytes(fields: &Vec<Field>, tag: u32) -> (r: Option<Option<&Vec<u8>>>)
    ensures
        match r {
            Some(value) => {
                &&& all_bytes(views(fields@), tag as nat)
                &&& bytes_of(views(fields@), tag as nat) == match value {
                    Some(b) => Some(b@),
                    None => None,
                }
            },
            None => !all_bytes(views(fields@), tag as nat),
        },
{
    let mut found: Option<&Vec<u8>> = None;
    let mut i: usize = 0;
    assert(views(fields@).take(0) =~= Seq::<FieldModel>::empty());
    while i < fields.len()
        invariant
            i <= fields@.len(),
            all_bytes(views(fields@).take(i as int), tag as nat),
            bytes_of(views(fields@).take(i as int), tag as nat) == match found {
                Some(b) => Some(b@),
                None => None,
            },
        decreases fields@.len() - i,
    {
        let ghost head = views(fields@).take(i as int + 1);
        assert(head.drop_last() =~= views(fields@).take(i as int));
        assert(head.last() == fields@[i as int]@);
        if fields[i].tag == tag {
            match &fields[i].value {
                FieldValue::Bytes(b) => {
                    found = Some(b);
                },
                _ => {
                    assert(views(fields@)[i as int].tag == tag as nat);
                    return None;
                },
            }
        }
        assert forall|j: int|
            0 <= j < head.len() && (#[trigger] head[j]).tag == tag as nat implies head[j].value
            is Bytes by {
            if j < i {
                assert(head[j] == views(fields@).take(i as int)[j]);
            }
        }
        i += 1;
    }
    assert(views(fields@).take(i as int) =~= views(fields@));
    Some(found)
}

/// Appends an optional integer field.
pub fn push_uint32(out: &mut Vec<u8>, tag: u32, value: Option<u32>)
    requires
        1 <= tag < 0x2000_0000,
    ensures
        final(out)@ == old(out)@ + encoded_fields(uint32_field(tag as nat, value)),
{
    proof {
        reveal_with_fuel(encoded_fields, 2);
    }
    if let Some(v) = value {
        push_varint(out, tag as u64 * 8);
        push_varint(out, v as u64);
    }
    assert(out@ =~= old(out)@ + encoded_fields(uint32_field(tag as nat, value)));
}

/// Appends a 64-bit integer field of fixed length.
pub fn push_fixed64(out: &mut Vec<u8>, tag: u32, value: u64)
    requires
        1 <= tag < 0x2000_0000,
    ensures
        final(out)@ == old(out)@ + encoded_fields(fixed64_field(tag as nat, value)),
{
    proof {
        reveal_with_fuel(encoded_fields, 2);
    }
    push_varint(out, tag as u64 * 8 + 1);
    wire::push_le8(out, value);
    assert(out@ =~= old(out)@ + encoded_fields(fixed64_field(tag as nat, value)));
}

/// Appends an optional byte string field.
pub fn push_bytes(out: &mut Vec<u8>, tag: u32, value: Option<&[u8]>)
    requires
        1 <= tag < 0x2000_0000,
    ensures
        final(out)@ == old(out)@ + encoded_fields(
            bytes_field(
                tag as nat,
                match value {
                    Some(b) => Some(b@),
                    None => None,
                },
            ),
        ),
{
    proof {
        reveal_with_fuel(encoded_fields, 2);
    }
    if let Some(b) = value {
        push_varint(out, tag as u64 * 8 + 2);
        push_varint(out, b.len() as u64);
        wire::append_slice(out, b);
    }
    assert(out@ =~= old(out)@ + encoded_fields(
        bytes_field(
            tag as nat,
            match value {
                Some(b) => Some(b@),
                None => None,
            },
        ),
    ));
}

// ---------------- The sealed PQXDH message ----------------

/// The protobuf part of a sealed PQXDH message. Every field is optional on the wire.
pub struct SealedPqxdhMessage {
    pub pre_key_id: Option<u32>,
    pub signed_pre_key_id: Option<u32>,
    pub mlkem_pre_key_id: Option<u32>,
    pub ec_ephemeral: Option<Vec<u8>>,
    pub kem_ciphertext: Option<Vec<u8>>,
    pub inner_msg_ct: Option<Vec<u8>>,
    pub sealed_ciphertext: Option<Vec<u8>>,
}

/// The contents of a [`SealedPqxdhMessage`].
#[verifier::ext_equal]
pub struct SealedPqxdhModel {
    pub pre_key_id: Option<u32>,
    pub signed_pre_key_id: Option<u32>,
    pub mlkem_pre_key_id: Option<u32>,
    pub ec_ephemeral: Option<Seq<u8>>,
    pub kem_ciphertext: Option<Seq<u8>>,
    pub inner_msg_ct: Option<Seq<u8>>,
    pub sealed_ciphertext: Option<Seq<u8>>,
}

/// The contents of an optional vector.
pub open spec fn optional_vec(v: Option<Vec<u8>>) -> Option<Seq<u8>> {
    match v {
        Some(b) => Some(b@),
        None => None,
    }
}

impl View for SealedPqxdhMessage {
    type V = SealedPqxdhModel;

    open spec fn view(&self) -> SealedPqxdhModel {
        SealedPqxdhModel {
            pre_key_id: self.pre_key_id,
            signed_pre_key_id: self.signed_pre_key_id,
            mlkem_pre_key_id: self.mlkem_pre_key_id,
            ec_ephemeral: optional_vec(self.ec_ephemeral),
            kem_ciphertext: optional_vec(self.kem_ciphertext),
            inner_msg_ct: optional_vec(self.inner_msg_ct),
            sealed_ciphertext: optional_vec(self.sealed_ciphertext),
        }
    }
}

impl SealedPqxdhModel {
    /// The fields of the message, by tag.
    pub open spec fn fields(self) -> Seq<FieldModel> {
        uint32_field(1, self.pre_key_id) + uint32_field(2, self.signed_pre_key_id) + uint32_field(
            3,
            self.mlkem_pre_key_id,
        ) + bytes_field(4, self.ec_ephemeral) + bytes_field(5, self.kem_ciphertext) + bytes_field(
            6,
            self.inner_msg_ct,
        ) + bytes_field(7, self.sealed_ciphertext)
    }

    /// The bytes of the message.
    pub open spec fn encoded(self) -> Seq<u8> {
        encoded_fields(self.fields())
    }

    /// The message that a list of fields makes.
    pub open spec fn from_fields(fields: Seq<FieldModel>) -> SealedPqxdhModel {
        SealedPqxdhModel {
            pre_key_id: uint32_of(fields, 1),
            signed_pre_key_id: uint32_of(fields, 2),
            mlkem_pre_key_id: uint32_of(fields, 3),
            ec_ephemeral: bytes_of(fields, 4),
            kem_ciphertext: bytes_of(fields, 5),
            inner_msg_ct: bytes_of(fields, 6),
            sealed_ciphertext: bytes_of(fields, 7),
        }
    }

    /// The message in a byte string, where there is one.
    pub open spec fn decoded(s: Seq<u8>) -> Option<SealedPqxdhModel> {
        match fields_of(s) {
            None => None,
            Some(fields) => if all_varints(fields, 1) && all_varints(fields, 2) && all_varints(
                fields,
                3,
            ) && all_bytes(fields, 4) && all_bytes(fields, 5) && all_bytes(fields, 6) && all_bytes(
                fields,
                7,
            ) {
                Some(SealedPqxdhModel::from_fields(fields))
            } else {
                None
            },
        }
    }

    /// The byte strings are short enough for their lengths to be written.
    pub open spec fn writable(self) -> bool {
        &&& self.ec_ephemeral matches Some(b) ==> b.len() < 0x1_0000_0000_0000_0000
        &&& self.kem_ciphertext matches Some(b) ==> b.len() < 0x1_0000_0000_0000_0000
        &&& self.inner_msg_ct matches Some(b) ==> b.len() < 0x1_0000_0000_0000_0000
        &&& self.sealed_ciphertext matches Some(b) ==> b.len() < 0x1_0000_0000_0000_0000
    }
}

proof fn lemma_message_field(m: SealedPqxdhModel, tag: nat)
    requires
        1 <= tag <= 7,
    ensures
        last_value(m.fields(), tag) == (if tag == 1 {
            last_value(uint32_field(1, m.pre_key_id), 1)
        } else if tag == 2 {
            last_value(uint32_field(2, m.signed_pre_key_id), 2)
        } else if tag == 3 {
            last_value(uint32_field(3, m.mlkem_pre_key_id), 3)
        } else if tag == 4 {
            last_value(bytes_field(4, m.ec_ephemeral), 4)
        } else if tag == 5 {
            last_value(bytes_field(5, m.kem_ciphertext), 5)
        } else if tag == 6 {
            last_value(bytes_field(6, m.inner_msg_ct), 6)
        } else {
            last_value(bytes_field(7, m.sealed_ciphertext), 7)
        }),
{
    let f1 = uint32_field(1, m.pre_key_id);
    let f2 = uint32_field(2, m.signed_pre_key_id);
    let f3 = uint32_field(3, m.mlkem_pre_key_id);
    let f4 = bytes_field(4, m.ec_ephemeral);
    let f5 = bytes_field(5, m.kem_ciphertext);
    let f6 = bytes_field(6, m.inner_msg_ct);
    let f7 = bytes_field(7, m.sealed_ciphertext);
    lemma_last_value_concat(f1 + f2 + f3 + f4 + f5 + f6, f7, tag);
    lemma_last_value_concat(f1 + f2 + f3 + f4 + f5, f6, tag);
    lemma_last_value_concat(f1 + f2 + f3 + f4, f5, tag);
    lemma_last_value_concat(f1 + f2 + f3, f4, tag);
    lemma_last_value_concat(f1 + f2, f3, tag);
    lemma_last_value_concat(f1, f2, tag);
    lemma_last_value_single(f1, tag);
    lemma_last_value_single(f2, tag);
    lemma_last_value_single(f3, tag);
    lemma_last_value_single(f4, tag);
    lemma_last_value_single(f5, tag);
    lemma_last_value_single(f6, tag);
    lemma_last_value_single(f7, tag);
}

/// Every field can be written, and the message's tags hold their kinds.
spec fn shaped(fields: Seq<FieldModel>) -> bool {
    forall|i: int| 0 <= i < fields.len() ==> shaped_field(#[trigger] fields[i])
}

spec fn shaped_field(f: FieldModel) -> bool {
    &&& writable(f)
    &&& 1 <= f.tag <= 3 ==> f.value is Varint
    &&& 4 <= f.tag <= 7 ==> f.value is Bytes
}

proof fn lemma_shaped_concat(a: Seq<FieldModel>, b: Seq<FieldModel>)
    requires
        shaped(a),
        shaped(b),
    ensures
        shaped(a + b),
{
    assert forall|i: int| 0 <= i < (a + b).len() implies shaped_field(#[trigger] (a + b)[i]) by {
        if i < a.len() {
            assert(shaped_field(a[i]));
        } else {
            assert(shaped_field(b[i - a.len()]));
        }
    }
}

proof fn lemma_message_shaped(m: SealedPqxdhModel)
    requires
        m.writable(),
    ensures
        shaped(m.fields()),
{
    let f1 = uint32_field(1, m.pre_key_id);
    let f2 = uint32_field(2, m.signed_pre_key_id);
    let f3 = uint32_field(3, m.mlkem_pre_key_id);
    let f4 = bytes_field(4, m.ec_ephemeral);
    let f5 = bytes_field(5, m.kem_ciphertext);
    let f6 = bytes_field(6, m.inner_msg_ct);
    let f7 = bytes_field(7, m.sealed_ciphertext);
    lemma_shaped_concat(f1, f2);
    lemma_shaped_concat(f1 + f2, f3);
    lemma_shaped_concat(f1 + f2 + f3, f4);
    lemma_shaped_concat(f1 + f2 + f3 + f4, f5);
    lemma_shaped_concat(f1 + f2 + f3 + f4 + f5, f6);
    lemma_shaped_concat(f1 + f2 + f3 + f4 + f5 + f6, f7);
}

proof fn lemma_message_values(m: SealedPqxdhModel)
    ensures
        SealedPqxdhModel::from_fields(m.fields()) == m,
{
    lemma_message_field(m, 1);
    lemma_message_field(m, 2);
    lemma_message_field(m, 3);
    lemma_message_field(m, 4);
    lemma_message_field(m, 5);
    lemma_message_field(m, 6);
    lemma_message_field(m, 7);
    lemma_last_value_single(uint32_field(1, m.pre_key_id), 1);
    lemma_last_value_single(uint32_field(2, m.signed_pre_key_id), 2);
    lemma_last_value_single(uint32_field(3, m.mlkem_pre_key_id), 3);
    lemma_last_value_single(bytes_field(4, m.ec_ephemeral), 4);
    lemma_last_value_single(bytes_field(5, m.kem_ciphertext), 5);
    lemma_last_value_single(bytes_field(6, m.inner_msg_ct), 6);
    lemma_last_value_single(bytes_field(7, m.sealed_ciphertext), 7);
}

/// An encoded message is decoded to itself.
pub proof fn message_round_trip(m: SealedPqxdhModel)
    requires
        m.writable(),
    ensures
        SealedPqxdhModel::decoded(m.encoded()) == Some(m),
{
    lemma_message_shaped(m);
    lemma_message_values(m);
    let fields = m.fields();
    assert forall|i: int| 0 <= i < fields.len() implies writable(#[trigger] fields[i])
        && shaped_field(fields[i]) by {}
    fields_round_trip(fields);
}

/// A borrowed view of an optional vector.
fn as_optional_slice(v: &Option<Vec<u8>>) -> (r: Option<&[u8]>)
    ensures
        optional_vec(*v) == match r {
            Some(b) => Some(b@),
            None => None,
        },
{
    match v {
        Some(b) => Some(b.as_slice()),
        None => None,
    }
}

/// A copy of an optional borrowed vector.
fn to_optional_vec(v: Option<&Vec<u8>>) -> (r: Option<Vec<u8>>)
    ensures
        optional_vec(r) == match v {
            Some(b) => Some(b@),
            None => None,
        },
{
    match v {
        Some(b) => Some(wire::to_vec(b.as_slice())),
        None => None,
    }
}

impl SealedPqxdhMessage {
    /// Appends the bytes of the message.
    pub fn encode(&self, out: &mut Vec<u8>)
        ensures
            final(out)@ == old(out)@ + self@.encoded(),
    {
        let ghost base = out@;
        let ghost m = self@;
        let ghost f1 = uint32_field(1, m.pre_key_id);
        let ghost f2 = uint32_field(2, m.signed_pre_key_id);
        let ghost f3 = uint32_field(3, m.mlkem_pre_key_id);
        let ghost f4 = bytes_field(4, m.ec_ephemeral);
        let ghost f5 = bytes_field(5, m.kem_ciphertext);
        let ghost f6 = bytes_field(6, m.inner_msg_ct);
        let ghost f7 = bytes_field(7, m.sealed_ciphertext);
        push_uint32(out, 1, self.pre_key_id);
        push_uint32(out, 2, self.signed_pre_key_id);
        proof {
            lemma_appended(base, f1, f2);
        }
        push_uint32(out, 3, self.mlkem_pre_key_id);
        proof {
            lemma_appended(base, f1 + f2, f3);
        }
        push_bytes(out, 4, as_optional_slice(&self.ec_ephemeral));
        proof {
            lemma_appended(base, f1 + f2 + f3, f4);
        }
        push_bytes(out, 5, as_optional_slice(&self.kem_ciphertext));
        proof {
            lemma_appended(base, f1 + f2 + f3 + f4, f5);
        }
        push_bytes(out, 6, as_optional_slice(&self.inner_msg_ct));
        proof {
            lemma_appended(base, f1 + f2 + f3 + f4 + f5, f6);
        }
        push_bytes(out, 7, as_optional_slice(&self.sealed_ciphertext));
        proof {
            lemma_appended(base, f1 + f2 + f3 + f4 + f5 + f6, f7);
        }
    }

    /// The message in a byte string, where there is one. The last of several
    /// fields with a tag counts, and unknown tags are skipped.
    pub fn decode(bytes: &[u8]) -> (r: Option<Self>)
        ensures
            match r {
                Some(m) => SealedPqxdhModel::decoded(bytes@) == Some(m@),
                None => SealedPqxdhModel::decoded(bytes@) is None,
            },
    {
        let fields = match take_fields(bytes) {
            Some(fields) => fields,
            None => return None,
        };
        let pre_key_id: Option<u32> = match find_uint32(&fields, 1) {
            Some(v) => v,
            None => return None,
        };
        let signed_pre_key_id: Option<u32> = match find_uint32(&fields, 2) {
            Some(v) => v,
            None => return None,
        };
        let mlkem_pre_key_id: Option<u32> = match find_uint32(&fields, 3) {
            Some(v) => v,
            None => return None,
        };
        let ec_ephemeral = match find_bytes(&fields, 4) {
            Some(v) => to_optional_vec(v),
            None => return None,
        };
        let kem_ciphertext = match find_bytes(&fields, 5) {
            Some(v) => to_optional_vec(v),
            None => return None,
        };
        let inner_msg_ct = match find_bytes(&fields, 6) {
            Some(v) => to_optional_vec(v),
            None => return None,
        };
        let sealed_ciphertext = match find_bytes(&fields, 7) {
            Some(v) => to_optional_vec(v),
            None => return None,
        };
        Some(
            SealedPqxdhMessage {
                pre_key_id,
                signed_pre_key_id,
                mlkem_pre_key_id,
                ec_ephemeral,
                kem_ciphertext,
                inner_msg_ct,
                sealed_ciphertext,
            },
        )
    }
}

/// Each part of a message stands under its own number: the ids of the one-time,
/// the signed and the post-quantum pre-key under 1, 2 and 3, the ephemeral key
/// under 4, the ciphertext under 5, the sealed part under 6, and what it seals
/// beside under 7. Of a part that is absent nothing is written.
pub proof fn parts_stand_under_their_numbers(m: SealedPqxdhModel)
    requires
        m.writable(),
    ensures
        match fields_of(m.encoded()) {
            None => false,
            Some(fields) => {
                &&& last_value(fields, 1) == (match m.pre_key_id {
                    Some(id) => Some(ValueModel::Varint(id as nat)),
                    None => None,
                })
                &&& last_value(fields, 2) == (match m.signed_pre_key_id {
                    Some(id) => Some(ValueModel::Varint(id as nat)),
                    None => None,
                })
                &&& last_value(fields, 3) == (match m.mlkem_pre_key_id {
                    Some(id) => Some(ValueModel::Varint(id as nat)),
                    None => None,
                })
                &&& last_value(fields, 4) == (match m.ec_ephemeral {
                    Some(b) => Some(ValueModel::Bytes(b)),
                    None => None,
                })
                &&& last_value(fields, 5) == (match m.kem_ciphertext {
                    Some(b) => Some(ValueModel::Bytes(b)),
                    None => None,
                })
                &&& last_value(fields, 6) == (match m.inner_msg_ct {
                    Some(b) => Some(ValueModel::Bytes(b)),
                    None => None,
                })
                &&& last_value(fields, 7) == (match m.sealed_ciphertext {
                    Some(b) => Some(ValueModel::Bytes(b)),
                    None => None,
                })
            },
        },
{
    lemma_message_shaped(m);
    let fields = m.fields();
    assert forall|i: int| 0 <= i < fields.len() implies writable(#[trigger] fields[i])
        && shaped_field(fields[i]) by {}
    fields_round_trip(fields);
    lemma_message_field(m, 1);
    lemma_message_field(m, 2);
    lemma_message_field(m, 3);
    lemma_message_field(m, 4);
    lemma_message_field(m, 5);
    lemma_message_field(m, 6);
    lemma_message_field(m, 7);
    lemma_last_value_single(uint32_field(1, m.pre_key_id), 1);
    lemma_last_value_single(uint32_field(2, m.signed_pre_key_id), 2);
    lemma_last_value_single(uint32_field(3, m.mlkem_pre_key_id), 3);
    lemma_last_value_single(bytes_field(4, m.ec_ephemeral), 4);
    lemma_last_value_single(bytes_field(5, m.kem_ciphertext), 5);
    lemma_last_value_single(bytes_field(6, m.inner_msg_ct), 6);
    lemma_last_value_single(bytes_field(7, m.sealed_ciphertext), 7);
}

/// What is read of a message is what stands last under each number.
pub proof fn parts_are_read_under_their_numbers(bytes: Seq<u8>)
    ensures
        SealedPqxdhModel::decoded(bytes) matches Some(m) ==> match fields_of(bytes) {
            None => false,
            Some(fields) => {
                &&& match last_value(fields, 1) {
                    Some(ValueModel::Varint(v)) => m.pre_key_id matches Some(id) && id == v
                        % 0x1_0000_0000,
                    Some(_) => false,
                    None => m.pre_key_id is None,
                }
                &&& match last_value(fields, 2) {
                    Some(ValueModel::Varint(v)) => m.signed_pre_key_id matches Some(id) && id == v
                        % 0x1_0000_0000,
                    Some(_) => false,
                    None => m.signed_pre_key_id is None,
                }
                &&& match last_value(fields, 3) {
                    Some(ValueModel::Varint(v)) => m.mlkem_pre_key_id matches Some(id) && id == v
                        % 0x1_0000_0000,
                    Some(_) => false,
                    None => m.mlkem_pre_key_id is None,
                }
                &&& match last_value(fields, 4) {
                    Some(ValueModel::Bytes(b)) => m.ec_ephemeral == Some(b),
                    Some(_) => false,
                    None => m.ec_ephemeral is None,
                }
                &&& match last_value(fields, 5) {
                    Some(ValueModel::Bytes(b)) => m.kem_ciphertext == Some(b),
                    Some(_) => false,
                    None => m.kem_ciphertext is None,
                }
                &&& match last_value(fields, 6) {
                    Some(ValueModel::Bytes(b)) => m.inner_msg_ct == Some(b),
                    Some(_) => false,
                    None => m.inner_msg_ct is None,
                }
                &&& match last_value(fields, 7) {
                    Some(ValueModel::Bytes(b)) => m.sealed_ciphertext == Some(b),
                    Some(_) => false,
                    None => m.sealed_ciphertext is None,
                }
            },
        },
{
    if let Some(fields) = fields_of(bytes) {
        lemma_last_value_occurs(fields, 1);
        lemma_last_value_occurs(fields, 2);
        lemma_last_value_occurs(fields, 3);
        lemma_last_value_occurs(fields, 4);
        lemma_last_value_occurs(fields, 5);
        lemma_last_value_occurs(fields, 6);
        lemma_last_value_occurs(fields, 7);
    }
}

/// The last value under a number is the value of a field with that number, and
/// no later field has it.
pub proof fn lemma_last_value_occurs(fields: Seq<FieldModel>, tag: nat)
    ensures
        match last_value(fields, tag) {
            Some(value) => exists|i: int|
                {
                    &&& 0 <= i < fields.len()
                    &&& (#[trigger] fields[i]).tag == tag
                    &&& fields[i].value == value
                    &&& forall|j: int| i < j < fields.len() ==> (#[trigger] fields[j]).tag != tag
                },
            None => forall|i: int| 0 <= i < fields.len() ==> (#[trigger] fields[i]).tag != tag,
        },
    decreases fields.len(),
{
    if fields.len() > 0 && fields.last().tag != tag {
        let front = fields.drop_last();
        lemma_last_value_occurs(front, tag);
        assert forall|i: int| 0 <= i < front.len() implies fields[i] == front[i] by {}
        if let Some(value) = last_value(front, tag) {
            let i = choose|i: int|
                {
                    &&& 0 <= i < front.len()
                    &&& (#[trigger] front[i]).tag == tag
                    &&& front[i].value == value
                    &&& forall|j: int| i < j < front.len() ==> (#[trigger] front[j]).tag != tag
                };
            assert(fields[i].tag == tag && fields[i].value == value);
            assert forall|j: int| i < j < fields.len() implies (#[trigger] fields[j]).tag
                != tag by {
                if j < front.len() {
                    assert(front[j].tag != tag);
                }
            }
        } else {
            assert forall|i: int| 0 <= i < fields.len() implies (#[trigger] fields[i]).tag
                != tag by {
                if i < front.len() {
                    assert(front[i].tag != tag);
                }
            }
        }
    } else if fields.len() > 0 {
        assert(fields[fields.len() - 1].tag == tag);
    }
}

} // verus!
