//! The payload of a response: a type byte followed by the encoded value.
//!
//! A payload on its own is what [`Response::into_bytes`] gives and what a
//! response [`Context`] decodes. On the wire, [`super`]'s writers put the
//! payload's length, as four big-endian bytes, in front of it.
//!
//! [`Response::into_bytes`]: super::Response::into_bytes
//! [`Context`]: super::context::Context

use crate::codec::{be16, be32, be64, push_be16, push_be32, push_be64};
use crate::command::error::Error as DispatchError;
use crate::command::request::ParseError as RequestParseError;
use crate::state::dash::{byte_map_contents, byte_map_entries, byte_set_contents, byte_set_items};
use dashmap::{DashMap, DashSet};
use vstd::prelude::*;
use vstd::utf8::encode_utf8;

verus! {

/// The payload of a boolean.
pub open spec fn bool_payload(value: bool) -> Seq<u8> {
    seq![0u8, if value { 1u8 } else { 0u8 }]
}

/// The payload of a byte string: its length as four bytes, then the bytes.
pub open spec fn bytes_payload(value: Seq<u8>) -> Seq<u8> {
    seq![1u8] + be32(value.len() as u32) + value
}

/// The payload of a float, given by its bit pattern.
pub open spec fn float_payload(bits: u64) -> Seq<u8> {
    seq![2u8] + be64(bits)
}

/// The payload of an integer: its eight two's-complement bytes.
pub open spec fn int_payload(value: i64) -> Seq<u8> {
    seq![3u8] + be64(value as u64)
}

/// The items of a list, each as its length in four bytes and its bytes.
pub open spec fn list_items(items: Seq<Seq<u8>>) -> Seq<u8>
    decreases items.len(),
{
    if items.len() == 0 {
        Seq::empty()
    } else {
        list_items(items.drop_last()) + be32(items.last().len() as u32) + items.last()
    }
}

/// The payload of a list: its number of items as two bytes, then the items.
pub open spec fn list_payload(items: Seq<Seq<u8>>) -> Seq<u8> {
    seq![4u8] + be16(items.len() as u16) + list_items(items)
}

/// The entries of a map, each as its key's length in one byte, the key,
/// its value's length in four bytes and the value.
pub open spec fn map_items(entries: Seq<(Seq<u8>, Seq<u8>)>) -> Seq<u8>
    decreases entries.len(),
{
    if entries.len() == 0 {
        Seq::empty()
    } else {
        let (k, v) = entries.last();
        map_items(entries.drop_last()) + seq![k.len() as u8] + k + be32(v.len() as u32) + v
    }
}

/// The payload of a map listed as `entries`: the number of entries as two
/// bytes, then the entries.
pub open spec fn map_payload(entries: Seq<(Seq<u8>, Seq<u8>)>) -> Seq<u8> {
    seq![5u8] + be16(entries.len() as u16) + map_items(entries)
}

/// The items of a set, each as its length in two bytes and its bytes.
pub open spec fn set_items(items: Seq<Seq<u8>>) -> Seq<u8>
    decreases items.len(),
{
    if items.len() == 0 {
        Seq::empty()
    } else {
        set_items(items.drop_last()) + be16(items.last().len() as u16) + items.last()
    }
}

/// The payload of a set listed as `items`: the number of items as two
/// bytes, then the items.
pub open spec fn set_payload(items: Seq<Seq<u8>>) -> Seq<u8> {
    seq![6u8] + be16(items.len() as u16) + set_items(items)
}

/// The payload of a string: the length of its UTF-8 form as four bytes,
/// then that form.
pub open spec fn str_payload(value: Seq<char>) -> Seq<u8> {
    seq![7u8] + be32(encode_utf8(value).len() as u32) + encode_utf8(value)
}

/// The payload of a request's parse error.
pub open spec fn parse_error_payload(value: RequestParseError) -> Seq<u8> {
    seq![8u8, value.spec_code()]
}

/// The payload of a dispatch error.
pub open spec fn dispatch_error_payload(value: DispatchError) -> Seq<u8> {
    seq![9u8, value.spec_code()]
}

/// `entries` lists the map `m`: each key once, with its value.
pub open spec fn is_map_listing(entries: Seq<(Seq<u8>, Seq<u8>)>, m: Map<Seq<u8>, Seq<u8>>) -> bool {
    &&& entries.len() == m.len()
    &&& forall|i: int|
        0 <= i < entries.len() ==> m.contains_key(#[trigger] entries[i].0) && m[entries[i].0]
            == entries[i].1
    &&& forall|k: Seq<u8>| #[trigger]
        m.contains_key(k) ==> exists|i: int| 0 <= i < entries.len() && #[trigger] entries[i].0 == k
    &&& forall|i: int, j: int|
        0 <= i < j < entries.len() ==> #[trigger] entries[i].0 != #[trigger] entries[j].0
}

/// `items` lists the set `s`: each item once.
pub open spec fn is_set_listing(items: Seq<Seq<u8>>, s: Set<Seq<u8>>) -> bool {
    &&& items.len() == s.len()
    &&& forall|i: int| 0 <= i < items.len() ==> s.contains(#[trigger] items[i])
    &&& forall|k: Seq<u8>| #[trigger]
        s.contains(k) ==> exists|i: int| 0 <= i < items.len() && #[trigger] items[i] == k
    &&& forall|i: int, j: int| 0 <= i < j < items.len() ==> #[trigger] items[i] != #[trigger] items[j]
}

/// The byte strings of a list, as sequences.
pub open spec fn items_view(items: Seq<Vec<u8>>) -> Seq<Seq<u8>> {
    items.map_values(|x: Vec<u8>| x@)
}

/// The pairs of a map's listing, as sequences.
pub open spec fn entries_view(entries: Seq<(Vec<u8>, Vec<u8>)>) -> Seq<(Seq<u8>, Seq<u8>)> {
    entries.map_values(|e: (Vec<u8>, Vec<u8>)| (e.0@, e.1@))
}

/// Appends the bytes of `s`.
pub fn append_bytes(to: &mut Vec<u8>, s: &[u8])
    ensures
        final(to)@ == old(to)@ + s@,
{
    let mut i: usize = 0;
    while i < s.len()
        invariant
            i <= s@.len(),
            to@ == old(to)@ + s@.take(i as int),
        decreases s@.len() - i,
    {
        to.push(s[i]);
        assert(s@.take(i + 1) =~= s@.take(i as int).push(s@[i as int]));
        assert(to@ =~= old(to)@ + s@.take(i + 1));
        i = i + 1;
    }
    assert(s@.take(s@.len() as int) =~= s@);
}

/// The listing of a map, as the `dashmap` iteration gives it.
pub fn map_listing(value: &DashMap<Vec<u8>, Vec<u8>>) -> (r: Vec<(Vec<u8>, Vec<u8>)>)
    ensures
        is_map_listing(entries_view(r@), byte_map_contents(*value)),
{
    let r = byte_map_entries(value);
    let ghost es = entries_view(r@);
    let ghost m = byte_map_contents(*value);
    assert forall|k: Seq<u8>| #[trigger] m.contains_key(k) implies exists|i: int|
        0 <= i < es.len() && #[trigger] es[i].0 == k by {
        let i = choose|i: int| 0 <= i < r@.len() && #[trigger] r@[i].0@ == k;
        assert(es[i].0 == k);
    }
    assert forall|i: int, j: int| 0 <= i < j < es.len() implies #[trigger] es[i].0
        != #[trigger] es[j].0 by {
        assert(r@[i].0@ != r@[j].0@);
    }
    assert forall|i: int| 0 <= i < es.len() implies m.contains_key(#[trigger] es[i].0) && m[es[i].0]
        == es[i].1 by {
        assert(m.contains_key(r@[i].0@));
    }
    r
}

/// The listing of a set, as the `dashmap` iteration gives it.
pub fn set_listing(value: &DashSet<Vec<u8>>) -> (r: Vec<Vec<u8>>)
    ensures
        is_set_listing(items_view(r@), byte_set_contents(*value)),
{
    let r = byte_set_items(value);
    let ghost its = items_view(r@);
    let ghost s = byte_set_contents(*value);
    assert forall|k: Seq<u8>| #[trigger] s.contains(k) implies exists|i: int|
        0 <= i < its.len() && #[trigger] its[i] == k by {
        let i = choose|i: int| 0 <= i < r@.len() && #[trigger] r@[i]@ == k;
        assert(its[i] == k);
    }
    assert forall|i: int, j: int| 0 <= i < j < its.len() implies #[trigger] its[i]
        != #[trigger] its[j] by {
        assert(r@[i]@ != r@[j]@);
    }
    assert forall|i: int| 0 <= i < its.len() implies s.contains(#[trigger] its[i]) by {
        assert(s.contains(r@[i]@));
    }
    r
}

/// Appends the list items of `value`.
pub fn push_list_items(to: &mut Vec<u8>, value: &[Vec<u8>])
    ensures
        final(to)@ == old(to)@ + list_items(items_view(value@)),
{
    let mut i: usize = 0;
    while i < value.len()
        invariant
            i <= value@.len(),
            to@ == old(to)@ + list_items(items_view(value@.take(i as int))),
        decreases value@.len() - i,
    {
        let item = value[i].as_slice();
        push_be32(to, item.len() as u32);
        append_bytes(to, item);
        let ghost prev = items_view(value@.take(i as int));
        assert(items_view(value@.take(i + 1)) =~= prev.push(value@[i as int]@));
        assert(items_view(value@.take(i + 1)).drop_last() =~= prev);
        assert(to@ =~= old(to)@ + list_items(items_view(value@.take(i + 1))));
        i = i + 1;
    }
    assert(value@.take(value@.len() as int) =~= value@);
}

/// Appends the map entries of `entries`.
pub fn push_map_items(to: &mut Vec<u8>, entries: &[(Vec<u8>, Vec<u8>)])
    ensures
        final(to)@ == old(to)@ + map_items(entries_view(entries@)),
{
    let mut i: usize = 0;
    while i < entries.len()
        invariant
            i <= entries@.len(),
            to@ == old(to)@ + map_items(entries_view(entries@.take(i as int))),
        decreases entries@.len() - i,
    {
        let key = entries[i].0.as_slice();
        let value = entries[i].1.as_slice();
        to.push(key.len() as u8);
        append_bytes(to, key);
        push_be32(to, value.len() as u32);
        append_bytes(to, value);
        let ghost prev = entries_view(entries@.take(i as int));
        let ghost e = (entries@[i as int].0@, entries@[i as int].1@);
        assert(entries_view(entries@.take(i + 1)) =~= prev.push(e));
        assert(entries_view(entries@.take(i + 1)).drop_last() =~= prev);
        assert(to@ =~= old(to)@ + map_items(entries_view(entries@.take(i + 1))));
        i = i + 1;
    }
    assert(entries@.take(entries@.len() as int) =~= entries@);
}

/// Appends the set items of `items`.
pub fn push_set_items(to: &mut Vec<u8>, items: &[Vec<u8>])
    ensures
        final(to)@ == old(to)@ + set_items(items_view(items@)),
{
    let mut i: usize = 0;
    while i < items.len()
        invariant
            i <= items@.len(),
            to@ == old(to)@ + set_items(items_view(items@.take(i as int))),
        decreases items@.len() - i,
    {
        let item = items[i].as_slice();
        push_be16(to, item.len() as u16);
        append_bytes(to, item);
        let ghost prev = items_view(items@.take(i as int));
        assert(items_view(items@.take(i + 1)) =~= prev.push(items@[i as int]@));
        assert(items_view(items@.take(i + 1)).drop_last() =~= prev);
        assert(to@ =~= old(to)@ + set_items(items_view(items@.take(i + 1))));
        i = i + 1;
    }
    assert(items@.take(items@.len() as int) =~= items@);
}

/// The payload of a boolean.
pub fn write_bool(value: bool) -> (r: Vec<u8>)
    ensures
        r@ == bool_payload(value),
{
    let mut buf = Vec::new();
    buf.push(0u8);
    buf.push(if value { 1u8 } else { 0u8 });
    assert(buf@ =~= bool_payload(value));
    buf
}

/// The payload of a byte string.
pub fn write_bytes(value: &[u8]) -> (r: Vec<u8>)
    ensures
        r@ == bytes_payload(value@),
{
    let mut buf = Vec::new();
    buf.push(1u8);
    push_be32(&mut buf, value.len() as u32);
    append_bytes(&mut buf, value);
    assert(buf@ =~= bytes_payload(value@));
    buf
}

/// The payload of a dispatch error.
pub fn write_dispatch_error(value: DispatchError) -> (r: Vec<u8>)
    ensures
        r@ == dispatch_error_payload(value),
{
    let mut buf = Vec::new();
    buf.push(9u8);
    buf.push(value.as_u8());
    assert(buf@ =~= dispatch_error_payload(value));
    buf
}

/// The payload of a request's parse error.
pub fn write_parse_error(value: RequestParseError) -> (r: Vec<u8>)
    ensures
        r@ == parse_error_payload(value),
{
    let mut buf = Vec::new();
    buf.push(8u8);
    buf.push(value.as_u8());
    assert(buf@ =~= parse_error_payload(value));
    buf
}

/// The payload of a float, given by its bit pattern.
pub fn write_float(bits: u64) -> (r: Vec<u8>)
    ensures
        r@ == float_payload(bits),
{
    let mut buf = Vec::new();
    buf.push(2u8);
    push_be64(&mut buf, bits);
    assert(buf@ =~= float_payload(bits));
    buf
}

/// The payload of an integer.
pub fn write_int(value: i64) -> (r: Vec<u8>)
    ensures
        r@ == int_payload(value),
{
    let mut buf = Vec::new();
    buf.push(3u8);
    push_be64(&mut buf, value as u64);
    assert(buf@ =~= int_payload(value));
    buf
}

/// The payload of a list.
pub fn write_list(value: &[Vec<u8>]) -> (r: Vec<u8>)
    ensures
        r@ == list_payload(items_view(value@)),
{
    let mut buf = Vec::new();
    buf.push(4u8);
    push_be16(&mut buf, value.len() as u16);
    push_list_items(&mut buf, value);
    assert(buf@ =~= list_payload(items_view(value@)));
    buf
}

/// The payload of a map, its entries in the order that the map's iteration
/// visits them.
pub fn write_map(value: &DashMap<Vec<u8>, Vec<u8>>) -> (r: Vec<u8>)
    ensures
        exists|entries: Seq<(Seq<u8>, Seq<u8>)>|
            is_map_listing(entries, byte_map_contents(*value)) && r@ == map_payload(entries),
{
    let entries = map_listing(value);
    let mut buf = Vec::new();
    buf.push(5u8);
    push_be16(&mut buf, entries.len() as u16);
    push_map_items(&mut buf, entries.as_slice());
    assert(buf@ =~= map_payload(entries_view(entries@)));
    buf
}

/// The payload of a set, its items in the order that the set's iteration
/// visits them.
pub fn write_set(value: &DashSet<Vec<u8>>) -> (r: Vec<u8>)
    ensures
        exists|items: Seq<Seq<u8>>|
            is_set_listing(items, byte_set_contents(*value)) && r@ == set_payload(items),
{
    let items = set_listing(value);
    let mut buf = Vec::new();
    buf.push(6u8);
    push_be16(&mut buf, items.len() as u16);
    push_set_items(&mut buf, items.as_slice());
    assert(buf@ =~= set_payload(items_view(items@)));
    buf
}

/// The payload of a string.
pub fn write_str(value: &str) -> (r: Vec<u8>)
    ensures
        r@ == str_payload(value@),
{
    let bytes = value.as_bytes();
    let mut buf = Vec::new();
    buf.push(7u8);
    push_be32(&mut buf, bytes.len() as u32);
    append_bytes(&mut buf, bytes);
    assert(buf@ =~= str_payload(value@));
    buf
}

} // verus!
