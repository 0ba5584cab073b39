//! What decoding gives back of a written payload.

use super::context::{decode_payload, list_stage, map_stage, set_stage, Decoded};
use super::payload::{bytes_payload, is_map_listing, is_set_listing, list_items, list_payload, map_items, map_payload, set_items, set_payload, str_payload};
use super::{is_payload, ResponseView};
use crate::command::error::is_readable;
use crate::codec::{be16, be32, be64, lemma_be16_roundtrip, lemma_be32_roundtrip, lemma_be64_roundtrip, lemma_i64_u64_roundtrip};
use crate::state::value::ValueView;
use vstd::prelude::*;
use vstd::utf8::{encode_utf8, encode_utf8_decode_utf8, encode_utf8_valid_utf8};

verus! {

/// Every item's length fits the four bytes that hold it in a list.
pub open spec fn list_fits(items: Seq<Seq<u8>>) -> bool {
    &&& items.len() <= u16::MAX
    &&& forall|i: int| 0 <= i < items.len() ==> #[trigger] items[i].len() <= u32::MAX
}

/// Adding one more item to a list's items appends it.
proof fn lemma_list_items_take(items: Seq<Seq<u8>>, k: int)
    requires
        0 <= k < items.len(),
    ensures
        list_items(items.take(k + 1)) == list_items(items.take(k)) + be32(items[k].len() as u32)
            + items[k],
{
    assert(items.take(k + 1).drop_last() =~= items.take(k));
}

/// The items of the first `k` of a list begin the items of them all.
proof fn lemma_list_items_prefix(items: Seq<Seq<u8>>, k: int)
    requires
        0 <= k <= items.len(),
    ensures
        list_items(items.take(k)).len() <= list_items(items).len(),
        list_items(items).subrange(0, list_items(items.take(k)).len() as int) == list_items(
            items.take(k),
        ),
    decreases items.len() - k,
{
    if k == items.len() {
        assert(items.take(k) =~= items);
        assert(list_items(items).subrange(0, list_items(items).len() as int) =~= list_items(items));
    } else {
        lemma_list_items_prefix(items, k + 1);
        lemma_list_items_take(items, k);
        let a = list_items(items.take(k));
        let b = list_items(items.take(k + 1));
        assert(list_items(items).subrange(0, a.len() as int) =~= b.subrange(0, a.len() as int));
        assert(b.subrange(0, a.len() as int) =~= a);
    }
}

/// Decoding the items of a list payload from the `k`-th one on gives the
/// list.
proof fn lemma_list_stage(items: Seq<Seq<u8>>, p: Seq<u8>, k: int)
    requires
        list_fits(items),
        0 <= k < items.len(),
        p.len() >= 3,
        p.subrange(3, p.len() as int) == list_items(items),
    ensures
        list_stage(p, 3 + list_items(items.take(k)).len() as int, items.take(k), items.len() as u16)
            == Decoded::Concluded(ResponseView::Value(ValueView::List(items))),
    decreases items.len() - k,
{
    let l = list_items(items);
    let t0 = list_items(items.take(k));
    let t1 = list_items(items.take(k + 1));
    let idx: int = 3 + t0.len() as int;
    let len: int = items[k].len() as int;
    lemma_list_items_take(items, k);
    lemma_list_items_prefix(items, k + 1);
    assert(l.subrange(0, t1.len() as int) == t1);
    assert(p.subrange(idx, idx + 4) =~= be32(len as u32)) by {
        assert forall|i: int| 0 <= i < 4 implies #[trigger] p.subrange(idx, idx + 4)[i] == be32(
            len as u32,
        )[i] by {
            assert(p[idx + i] == l[t0.len() + i]);
            assert(l[t0.len() + i] == t1[t0.len() + i]);
        }
    }
    lemma_be32_roundtrip(len as u32);
    let end: int = idx + 4 + len;
    assert(p.subrange(idx + 4, end) =~= items[k]) by {
        assert forall|i: int| 0 <= i < len implies #[trigger] p.subrange(idx + 4, end)[i]
            == items[k][i] by {
            assert(p[idx + 4 + i] == l[t0.len() + 4 + i]);
            assert(l[t0.len() + 4 + i] == t1[t0.len() + 4 + i]);
        }
    }
    assert(items.take(k).push(items[k]) =~= items.take(k + 1));
    if k + 1 < items.len() {
        lemma_list_stage(items, p, k + 1);
    } else {
        assert(items.take(k + 1) =~= items);
    }
}

/// Every item's length fits the two bytes that hold it in a set, and the
/// number of items fits two bytes.
pub open spec fn set_fits(items: Seq<Seq<u8>>) -> bool {
    &&& items.len() <= u16::MAX
    &&& forall|i: int| 0 <= i < items.len() ==> #[trigger] items[i].len() <= u16::MAX
}

/// No item occurs twice.
pub open spec fn distinct(items: Seq<Seq<u8>>) -> bool {
    forall|i: int, j: int| 0 <= i < j < items.len() ==> #[trigger] items[i] != #[trigger] items[j]
}

/// The set of the items, added one after another.
pub open spec fn seq_set(items: Seq<Seq<u8>>) -> Set<Seq<u8>>
    decreases items.len(),
{
    if items.len() == 0 {
        Set::empty()
    } else {
        seq_set(items.drop_last()).insert(items.last())
    }
}

/// The set of the items holds exactly the items; it has one element for
/// each item when no item occurs twice.
proof fn lemma_seq_set(items: Seq<Seq<u8>>)
    ensures
        seq_set(items).finite(),
        forall|a: Seq<u8>| #[trigger]
            seq_set(items).contains(a) <==> exists|i: int| 0 <= i < items.len() && items[i] == a,
        distinct(items) ==> seq_set(items).len() == items.len(),
    decreases items.len(),
{
    if items.len() > 0 {
        let init = items.drop_last();
        lemma_seq_set(init);
        assert forall|a: Seq<u8>| #[trigger] seq_set(items).contains(a) implies exists|i: int|
            0 <= i < items.len() && items[i] == a by {
            if a != items.last() {
                let i = choose|i: int| 0 <= i < init.len() && init[i] == a;
                assert(items[i] == a);
            }
        }
        assert forall|a: Seq<u8>|
            (exists|i: int| 0 <= i < items.len() && items[i] == a) implies #[trigger] seq_set(
            items,
        ).contains(a) by {
            let i = choose|i: int| 0 <= i < items.len() && items[i] == a;
            if i < items.len() - 1 {
                assert(init[i] == a);
            }
        }
        if distinct(items) {
            assert(distinct(init)) by {
                assert forall|i: int, j: int| 0 <= i < j < init.len() implies #[trigger] init[i]
                    != #[trigger] init[j] by {
                    assert(items[i] != items[j]);
                }
            }
            assert(!seq_set(init).contains(items.last())) by {
                if seq_set(init).contains(items.last()) {
                    let i = choose|i: int| 0 <= i < init.len() && init[i] == items.last();
                    assert(items[i] != items[items.len() - 1]);
                }
            }
        }
    }
}

/// Adding one more item to a set's items appends it.
proof fn lemma_set_items_take(items: Seq<Seq<u8>>, k: int)
    requires
        0 <= k < items.len(),
    ensures
        set_items(items.take(k + 1)) == set_items(items.take(k)) + be16(items[k].len() as u16)
            + items[k],
        seq_set(items.take(k + 1)) == seq_set(items.take(k)).insert(items[k]),
{
    assert(items.take(k + 1).drop_last() =~= items.take(k));
}

/// The items of the first `k` of a set begin the items of them all.
proof fn lemma_set_items_prefix(items: Seq<Seq<u8>>, k: int)
    requires
        0 <= k <= items.len(),
    ensures
        set_items(items.take(k)).len() <= set_items(items).len(),
        set_items(items).subrange(0, set_items(items.take(k)).len() as int) == set_items(
            items.take(k),
        ),
    decreases items.len() - k,
{
    if k == items.len() {
        assert(items.take(k) =~= items);
        assert(set_items(items).subrange(0, set_items(items).len() as int) =~= set_items(items));
    } else {
        lemma_set_items_prefix(items, k + 1);
        lemma_set_items_take(items, k);
        let a = set_items(items.take(k));
        let b = set_items(items.take(k + 1));
        assert(set_items(items).subrange(0, a.len() as int) =~= b.subrange(0, a.len() as int));
        assert(b.subrange(0, a.len() as int) =~= a);
    }
}

/// Decoding the items of a set payload from the `k`-th one on gives the
/// set of all items.
proof fn lemma_set_stage(items: Seq<Seq<u8>>, p: Seq<u8>, k: int)
    requires
        set_fits(items),
        distinct(items),
        0 <= k < items.len(),
        p.len() >= 3,
        p.subrange(3, p.len() as int) == set_items(items),
    ensures
        set_stage(p, 3 + set_items(items.take(k)).len() as int, seq_set(items.take(k)), items.len() as u16)
            == Decoded::Concluded(ResponseView::Value(ValueView::ByteSet(seq_set(items)))),
    decreases items.len() - k,
{
    let l = set_items(items);
    let t0 = set_items(items.take(k));
    let t1 = set_items(items.take(k + 1));
    let idx: int = 3 + t0.len() as int;
    let len: int = items[k].len() as int;
    lemma_set_items_take(items, k);
    lemma_set_items_prefix(items, k + 1);
    assert(l.subrange(0, t1.len() as int) == t1);
    assert(p.subrange(idx, idx + 2) =~= be16(len as u16)) by {
        assert forall|i: int| 0 <= i < 2 implies #[trigger] p.subrange(idx, idx + 2)[i] == be16(
            len as u16,
        )[i] by {
            assert(p[idx + i] == l[t0.len() + i]);
            assert(l[t0.len() + i] == t1[t0.len() + i]);
        }
    }
    lemma_be16_roundtrip(len as u16);
    let end: int = idx + 2 + len;
    assert(p.subrange(idx + 2, end) =~= items[k]) by {
        assert forall|i: int| 0 <= i < len implies #[trigger] p.subrange(idx + 2, end)[i]
            == items[k][i] by {
            assert(p[idx + 2 + i] == l[t0.len() + 2 + i]);
            assert(l[t0.len() + 2 + i] == t1[t0.len() + 2 + i]);
        }
    }
    let next = items.take(k + 1);
    assert(distinct(next)) by {
        assert forall|i: int, j: int| 0 <= i < j < next.len() implies #[trigger] next[i]
            != #[trigger] next[j] by {
            assert(items[i] != items[j]);
        }
    }
    lemma_seq_set(next);
    if k + 1 < items.len() {
        lemma_set_stage(items, p, k + 1);
    } else {
        assert(next =~= items);
    }
}

/// Every key's length fits its one byte and every value's length its four
/// bytes in a map, and the number of entries fits two bytes.
pub open spec fn map_fits(entries: Seq<(Seq<u8>, Seq<u8>)>) -> bool {
    &&& entries.len() <= u16::MAX
    &&& forall|i: int|
        0 <= i < entries.len() ==> #[trigger] entries[i].0.len() <= u8::MAX && entries[i].1.len()
            <= u32::MAX
}

/// No key occurs twice.
pub open spec fn distinct_keys(entries: Seq<(Seq<u8>, Seq<u8>)>) -> bool {
    forall|i: int, j: int|
        0 <= i < j < entries.len() ==> #[trigger] entries[i].0 != #[trigger] entries[j].0
}

/// The map of the entries, added one after another.
pub open spec fn seq_map(entries: Seq<(Seq<u8>, Seq<u8>)>) -> Map<Seq<u8>, Seq<u8>>
    decreases entries.len(),
{
    if entries.len() == 0 {
        Map::empty()
    } else {
        seq_map(entries.drop_last()).insert(entries.last().0, entries.last().1)
    }
}

/// The map of entries whose keys are distinct holds each entry and nothing
/// else, one key for each entry.
proof fn lemma_seq_map(entries: Seq<(Seq<u8>, Seq<u8>)>)
    requires
        distinct_keys(entries),
    ensures
        seq_map(entries).dom().finite(),
        seq_map(entries).len() == entries.len(),
        forall|k: Seq<u8>| #[trigger]
            seq_map(entries).contains_key(k) <==> exists|i: int|
                0 <= i < entries.len() && entries[i].0 == k,
        forall|i: int|
            0 <= i < entries.len() ==> #[trigger] seq_map(entries)[entries[i].0] == entries[i].1,
    decreases entries.len(),
{
    if entries.len() > 0 {
        let init = entries.drop_last();
        let last = entries.last();
        assert(distinct_keys(init)) by {
            assert forall|i: int, j: int| 0 <= i < j < init.len() implies #[trigger] init[i].0
                != #[trigger] init[j].0 by {
                assert(entries[i].0 != entries[j].0);
            }
        }
        lemma_seq_map(init);
        assert(!seq_map(init).contains_key(last.0)) by {
            if seq_map(init).contains_key(last.0) {
                let i = choose|i: int| 0 <= i < init.len() && init[i].0 == last.0;
                assert(entries[i].0 != entries[entries.len() - 1].0);
            }
        }
        assert(seq_map(entries).dom() =~= seq_map(init).dom().insert(last.0));
        assert forall|k: Seq<u8>| #[trigger] seq_map(entries).contains_key(k) implies exists|i: int|
            0 <= i < entries.len() && entries[i].0 == k by {
            if k != last.0 {
                let i = choose|i: int| 0 <= i < init.len() && init[i].0 == k;
                assert(entries[i].0 == k);
            }
        }
        assert forall|k: Seq<u8>|
            (exists|i: int| 0 <= i < entries.len() && entries[i].0 == k) implies #[trigger] seq_map(
            entries,
        ).contains_key(k) by {
            let i = choose|i: int| 0 <= i < entries.len() && entries[i].0 == k;
            if i < entries.len() - 1 {
                assert(init[i].0 == k);
            }
        }
        assert forall|i: int| 0 <= i < entries.len() implies #[trigger] seq_map(
            entries,
        )[entries[i].0] == entries[i].1 by {
            if i < entries.len() - 1 {
                assert(init[i] == entries[i]);
                assert(entries[i].0 != last.0);
                assert(seq_map(init)[init[i].0] == init[i].1);
            }
        }
    }
}

/// Adding one more entry to a map's entries appends it.
proof fn lemma_map_items_take(entries: Seq<(Seq<u8>, Seq<u8>)>, k: int)
    requires
        0 <= k < entries.len(),
    ensures
        map_items(entries.take(k + 1)) == map_items(entries.take(k)) + seq![
            entries[k].0.len() as u8,
        ] + entries[k].0 + be32(entries[k].1.len() as u32) + entries[k].1,
        seq_map(entries.take(k + 1)) == seq_map(entries.take(k)).insert(
            entries[k].0,
            entries[k].1,
        ),
{
    assert(entries.take(k + 1).drop_last() =~= entries.take(k));
}

/// The entries of the first `k` of a map begin the entries of them all.
proof fn lemma_map_items_prefix(entries: Seq<(Seq<u8>, Seq<u8>)>, k: int)
    requires
        0 <= k <= entries.len(),
    ensures
        map_items(entries.take(k)).len() <= map_items(entries).len(),
        map_items(entries).subrange(0, map_items(entries.take(k)).len() as int) == map_items(
            entries.take(k),
        ),
    decreases entries.len() - k,
{
    if k == entries.len() {
        assert(entries.take(k) =~= entries);
        assert(map_items(entries).subrange(0, map_items(entries).len() as int) =~= map_items(
            entries,
        ));
    } else {
        lemma_map_items_prefix(entries, k + 1);
        lemma_map_items_take(entries, k);
        let a = map_items(entries.take(k));
        let b = map_items(entries.take(k + 1));
        assert(map_items(entries).subrange(0, a.len() as int) =~= b.subrange(0, a.len() as int));
        assert(b.subrange(0, a.len() as int) =~= a);
    }
}

/// Decoding the entries of a map payload from the `k`-th one on gives the
/// map of all entries.
proof fn lemma_map_stage(entries: Seq<(Seq<u8>, Seq<u8>)>, p: Seq<u8>, k: int)
    requires
        map_fits(entries),
        distinct_keys(entries),
        0 <= k < entries.len(),
        p.len() >= 3,
        p.subrange(3, p.len() as int) == map_items(entries),
    ensures
        map_stage(
            p,
            3 + map_items(entries.take(k)).len() as int,
            seq_map(entries.take(k)),
            entries.len() as u16,
        ) == Decoded::Concluded(ResponseView::Value(ValueView::ByteMap(seq_map(entries)))),
    decreases entries.len() - k,
{
    let l = map_items(entries);
    let t0 = map_items(entries.take(k));
    let t1 = map_items(entries.take(k + 1));
    let o: int = t0.len() as int;
    let idx: int = 3 + o;
    let key = entries[k].0;
    let value = entries[k].1;
    let klen: int = key.len() as int;
    let vlen: int = value.len() as int;
    lemma_map_items_take(entries, k);
    lemma_map_items_prefix(entries, k + 1);
    assert(l.subrange(0, t1.len() as int) == t1);
    assert(p[idx] == klen) by {
        assert(p[idx] == l[o]);
        assert(l[o] == t1[o]);
    }
    assert(p.subrange(idx + 1, idx + 1 + klen) =~= key) by {
        assert forall|i: int| 0 <= i < klen implies #[trigger] p.subrange(idx + 1, idx + 1 + klen)[i]
            == key[i] by {
            assert(p[idx + 1 + i] == l[o + 1 + i]);
            assert(l[o + 1 + i] == t1[o + 1 + i]);
        }
    }
    let kv_end: int = idx + 1 + klen;
    assert(p.subrange(kv_end, kv_end + 4) =~= be32(vlen as u32)) by {
        assert forall|i: int| 0 <= i < 4 implies #[trigger] p.subrange(kv_end, kv_end + 4)[i]
            == be32(vlen as u32)[i] by {
            assert(p[kv_end + i] == l[o + 1 + klen + i]);
            assert(l[o + 1 + klen + i] == t1[o + 1 + klen + i]);
        }
    }
    lemma_be32_roundtrip(vlen as u32);
    let v_start: int = kv_end + 4;
    assert(p.subrange(v_start, v_start + vlen) =~= value) by {
        assert forall|i: int| 0 <= i < vlen implies #[trigger] p.subrange(v_start, v_start + vlen)[i]
            == value[i] by {
            assert(p[v_start + i] == l[o + 5 + klen + i]);
            assert(l[o + 5 + klen + i] == t1[o + 5 + klen + i]);
        }
    }
    let next = entries.take(k + 1);
    assert(distinct_keys(next)) by {
        assert forall|i: int, j: int| 0 <= i < j < next.len() implies #[trigger] next[i].0
            != #[trigger] next[j].0 by {
            assert(entries[i].0 != entries[j].0);
        }
    }
    lemma_seq_map(next);
    if k + 1 < entries.len() {
        lemma_map_stage(entries, p, k + 1);
    } else {
        assert(next =~= entries);
    }
}

/// Every length in a payload of the response fits the field that holds it,
/// and a dispatch error is one whose code is read back.
pub open spec fn payload_fits(r: ResponseView) -> bool {
    match r {
        ResponseView::Value(v) => match v {
            ValueView::Bytes(b) => b.len() <= u32::MAX,
            ValueView::List(l) => list_fits(l),
            ValueView::ByteMap(m) => m.len() <= u16::MAX && forall|k: Seq<u8>| #[trigger]
                m.contains_key(k) ==> k.len() <= u8::MAX && m[k].len() <= u32::MAX,
            ValueView::ByteSet(st) => st.len() <= u16::MAX && forall|k: Seq<u8>| #[trigger]
                st.contains(k) ==> k.len() <= u16::MAX,
            ValueView::String(st) => encode_utf8(st).len() <= u32::MAX,
            _ => true,
        },
        ResponseView::DispatchError(e) => is_readable(e),
        _ => true,
    }
}

proof fn lemma_decode_bytes(b: Seq<u8>, p: Seq<u8>)
    requires
        p == bytes_payload(b),
        b.len() <= u32::MAX,
    ensures
        decode_payload(p) == Decoded::Concluded(ResponseView::Value(ValueView::Bytes(b))),
{
    assert(p[0] == 1);
    lemma_be32_roundtrip(b.len() as u32);
    assert(p.subrange(1, 5) =~= be32(b.len() as u32));
    assert(p.subrange(5, 5 + b.len() as int) =~= b);
}

proof fn lemma_decode_scalar(v: ValueView, p: Seq<u8>)
    requires
        v is Boolean || v is Float || v is Integer,
        is_payload(ResponseView::Value(v), p),
    ensures
        decode_payload(p) == Decoded::Concluded(ResponseView::Value(v)),
{
    match v {
        ValueView::Boolean(b) => {
            assert(p[0] == 0);
        },
        ValueView::Float(bits) => {
            assert(p[0] == 2);
            lemma_be64_roundtrip(bits);
            assert(p.subrange(1, 9) =~= be64(bits));
        },
        ValueView::Integer(i) => {
            assert(p[0] == 3);
            lemma_be64_roundtrip(i as u64);
            lemma_i64_u64_roundtrip(i);
            assert(p.subrange(1, 9) =~= be64(i as u64));
        },
        _ => {},
    }
}

proof fn lemma_decode_list(l: Seq<Seq<u8>>, p: Seq<u8>)
    requires
        p == list_payload(l),
        list_fits(l),
    ensures
        decode_payload(p) == Decoded::Concluded(ResponseView::Value(ValueView::List(l))),
{
    assert(p[0] == 4);
    lemma_be16_roundtrip(l.len() as u16);
    assert(p.subrange(1, 3) =~= be16(l.len() as u16));
    if l.len() == 0 {
        assert(l =~= Seq::<Seq<u8>>::empty());
    } else {
        assert(p.subrange(3, p.len() as int) =~= list_items(l));
        assert(l.take(0) =~= Seq::<Seq<u8>>::empty());
        lemma_list_stage(l, p, 0);
    }
}

proof fn lemma_decode_map(m: Map<Seq<u8>, Seq<u8>>, es: Seq<(Seq<u8>, Seq<u8>)>, p: Seq<u8>)
    requires
        is_map_listing(es, m),
        p == map_payload(es),
        m.len() <= u16::MAX,
        forall|k: Seq<u8>| #[trigger]
            m.contains_key(k) ==> k.len() <= u8::MAX && m[k].len() <= u32::MAX,
    ensures
        decode_payload(p) == Decoded::Concluded(ResponseView::Value(ValueView::ByteMap(m))),
{
    assert(p[0] == 5);
    lemma_be16_roundtrip(es.len() as u16);
    assert(p.subrange(1, 3) =~= be16(es.len() as u16));
    if es.len() == 0 {
        assert(m =~= Map::<Seq<u8>, Seq<u8>>::empty());
    } else {
        assert(map_fits(es));
        assert(distinct_keys(es));
        assert(p.subrange(3, p.len() as int) =~= map_items(es));
        assert(es.take(0) =~= Seq::<(Seq<u8>, Seq<u8>)>::empty());
        lemma_map_stage(es, p, 0);
        lemma_seq_map(es);
        assert(seq_map(es) =~= m);
    }
}

proof fn lemma_decode_set(st: Set<Seq<u8>>, items: Seq<Seq<u8>>, p: Seq<u8>)
    requires
        is_set_listing(items, st),
        p == set_payload(items),
        st.len() <= u16::MAX,
        forall|k: Seq<u8>| #[trigger] st.contains(k) ==> k.len() <= u16::MAX,
    ensures
        decode_payload(p) == Decoded::Concluded(ResponseView::Value(ValueView::ByteSet(st))),
{
    assert(p[0] == 6);
    lemma_be16_roundtrip(items.len() as u16);
    assert(p.subrange(1, 3) =~= be16(items.len() as u16));
    lemma_seq_set(items);
    if items.len() == 0 {
        assert(st =~= Set::<Seq<u8>>::empty());
    } else {
        assert(set_fits(items));
        assert(distinct(items));
        assert(p.subrange(3, p.len() as int) =~= set_items(items));
        assert(items.take(0) =~= Seq::<Seq<u8>>::empty());
        lemma_set_stage(items, p, 0);
        assert(seq_set(items) =~= st);
    }
}

proof fn lemma_decode_string(st: Seq<char>, p: Seq<u8>)
    requires
        p == str_payload(st),
        encode_utf8(st).len() <= u32::MAX,
    ensures
        decode_payload(p) == Decoded::Concluded(ResponseView::Value(ValueView::String(st))),
{
    let enc = encode_utf8(st);
    assert(p[0] == 7);
    lemma_be32_roundtrip(enc.len() as u32);
    assert(p.subrange(1, 5) =~= be32(enc.len() as u32));
    encode_utf8_decode_utf8(st);
    encode_utf8_valid_utf8(st);
    if enc.len() == 0 {
        assert(enc =~= Seq::<u8>::empty());
        assert(st =~= Seq::<char>::empty());
    } else {
        assert(p.subrange(5, 5 + enc.len() as int) =~= enc);
    }
}

/// Decoding a written payload gives back the response it was written for,
/// whenever every length fits its field and a dispatch error's code is one
/// that is read back.
pub proof fn law_payload_decodes(r: ResponseView, p: Seq<u8>)
    requires
        is_payload(r, p),
        payload_fits(r),
    ensures
        decode_payload(p) == Decoded::Concluded(r),
{
    match r {
        ResponseView::DispatchError(e) => {
            assert(p[0] == 9);
        },
        ResponseView::ParseError(e) => {
            assert(p[0] == 8);
        },
        ResponseView::Value(v) => match v {
            ValueView::Bytes(b) => lemma_decode_bytes(b, p),
            ValueView::List(l) => lemma_decode_list(l, p),
            ValueView::ByteMap(m) => {
                let es = choose|es: Seq<(Seq<u8>, Seq<u8>)>|
                    is_map_listing(es, m) && p == map_payload(es);
                lemma_decode_map(m, es, p);
            },
            ValueView::ByteSet(st) => {
                let items = choose|items: Seq<Seq<u8>>|
                    is_set_listing(items, st) && p == set_payload(items);
                lemma_decode_set(st, items, p);
            },
            ValueView::String(st) => lemma_decode_string(st, p),
            _ => lemma_decode_scalar(v, p),
        },
    }
}

} // verus!
