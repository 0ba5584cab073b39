//! What the commands promise of one another and of the store.

use super::impls::{amount_of, concat_bytes, Append, Decrement, DecrementBy, Delete, Echo, Exists, Get, Increment, IncrementBy, Is, Length, Rename, SetValue};
use super::impls::increment_answer;
use super::request::RequestView;
use super::Dispatch;
use crate::hop::HopView;
use crate::state::value::ValueView;
use super::response::context::{decode_payload, Decoded};
use super::response::laws::{law_payload_decodes, payload_fits};
use super::response::{frame, is_payload, ResponseView};
use super::{effective_key_type, reply, wrote, Reply};
use crate::state::KeyType;
use vstd::prelude::*;

verus! {

/// After a key is set, getting it answers what setting it answered: the
/// value stored.
pub proof fn law_set_then_get(hop: HopView, set: RequestView, get: RequestView)
    requires
        SetValue::answer(hop, set).0 is Ok,
        get.key() == set.key(),
        get.key_type is None,
    ensures
        Get::answer(hop.with_state(SetValue::answer(hop, set).1), get).0 == SetValue::answer(
            hop,
            set,
        ).0,
{
}

/// After a delete, successful or not, the key is gone and every other key
/// keeps its value.
pub proof fn law_delete_removes(hop: HopView, req: RequestView, other: Seq<u8>)
    requires
        req.key() matches Some(k) && other != k,
        req.key_type is None,
    ensures
        !Delete::answer(hop, req).1.contains_key(req.key()->0),
        Delete::answer(hop, req).1.contains_key(other) == hop.state.contains_key(other),
        hop.state.contains_key(other) ==> Delete::answer(hop, req).1[other] == hop.state[other],
{
}

/// A successful rename moves the value from the old key to the new one and
/// leaves every other key as it was.
pub proof fn law_rename_moves(hop: HopView, req: RequestView, other: Seq<u8>)
    requires
        Rename::answer(hop, req).0 is Ok,
        req.arg(0) matches Some(from) && req.arg(1) matches Some(to) && other != from && other != to,
    ensures
        ({
            let from = req.arg(0)->0;
            let to = req.arg(1)->0;
            let after = Rename::answer(hop, req).1;
            &&& !after.contains_key(from)
            &&& after.contains_key(to)
            &&& after[to] == hop.state[from]
            &&& after.contains_key(other) == hop.state.contains_key(other)
            &&& hop.state.contains_key(other) ==> after[other] == hop.state[other]
        }),
{
}

/// Adding an amount to an integer key and then its negation gives the key
/// its integer back; the store is as it was.
pub proof fn law_increment_undone(state: Map<Seq<u8>, ValueView>, k: Seq<u8>, amount: i64)
    requires
        state.contains_key(k),
        state[k] is Integer,
    ensures
        increment_answer(increment_answer(state, k, amount).1, k, 0i64.wrapping_sub(amount)).1
            == state,
{
    let i = state[k]->Integer_0;
    let n = i.wrapping_add(amount);
    let back = n.wrapping_add(0i64.wrapping_sub(amount));
    assert(back == i) by (bit_vector)
        requires
            n == i.wrapping_add(amount),
            back == n.wrapping_add(0i64.wrapping_sub(amount)),
    ;
    assert(state.insert(k, ValueView::Integer(n)).insert(k, ValueView::Integer(back)) =~= state);
}

/// A command that fails leaves the store as it was.
pub proof fn law_failure_keeps_store(hop: HopView, req: RequestView)
    requires
        hop.dispatched(req).0 is Err,
    ensures
        hop.dispatched(req).1 == hop.state,
{
}

/// A reply that dispatching writes decodes, past its four length bytes,
/// to the reply itself, whenever every length fits its field and a
/// dispatch error's code is one that is read back.
pub proof fn law_reply_decodes(r: ResponseView, before: Seq<u8>, after: Seq<u8>)
    requires
        wrote(Reply::Response(r), before, after),
        payload_fits(r),
    ensures
        decode_payload(after.subrange(before.len() as int + 4, after.len() as int)) == Decoded::Concluded(
            r,
        ),
{
    let p = choose|p: Seq<u8>| #[trigger] is_payload(r, p) && after == before + frame(p);
    assert(after.subrange(before.len() as int + 4, after.len() as int) =~= p);
    law_payload_decodes(r, p);
}

/// Every argument from `start` up to `n` reads back; the argument list
/// from `start` then begins with them, in order, and holds exactly them when
/// `n` is the number of arguments.
proof fn lemma_arg_list_reads(req: RequestView, start: int, n: int)
    requires
        0 <= start <= n <= req.positions.len(),
        forall|j: int| start <= j < n ==> #[trigger] req.arg(j) is Some,
    ensures
        req.arg_list(start).len() >= n - start,
        n == req.positions.len() ==> req.arg_list(start).len() == n - start,
        forall|j: int| start <= j < n ==> req.arg_list(start)[j - start] == #[trigger] req.arg(j)->0,
    decreases n - start,
{
    if start < n {
        lemma_arg_list_reads(req, start + 1, n);
        assert(req.arg(start) is Some);
        let rest = req.arg_list(start + 1);
        assert(req.arg_list(start) == seq![req.arg(start)->0] + rest);
        assert forall|j: int| start <= j < n implies req.arg_list(start)[j - start]
            == #[trigger] req.arg(j)->0 by {
            if j > start {
                assert(rest[j - (start + 1)] == req.arg(j)->0);
                assert(req.arg_list(start)[j - start] == rest[j - (start + 1)]);
            }
        }
    }
}

/// Every argument of the request reads back.
pub open spec fn args_read(req: RequestView) -> bool {
    forall|j: int| 0 <= j < req.positions.len() ==> #[trigger] req.arg(j) is Some
}

/// Exists answers false as soon as one of the keys it is given, at any
/// position, is not in the store; the store is unchanged.
pub proof fn law_exists_false_on_missing_key(hop: HopView, req: RequestView, i: int)
    requires
        req.key_type is None,
        args_read(req),
        0 <= i < req.positions.len(),
        !hop.state.contains_key(req.arg(i)->0),
    ensures
        Exists::answer(hop, req) == (reply(ValueView::Boolean(false)), hop.state),
{
    lemma_arg_list_reads(req, 0, req.positions.len() as int);
    assert(req.arg(i) is Some);
    assert(req.arg_list(0)[i - 0] == req.arg(i)->0);
}

/// Exists answers true when every key it is given is in the store; the
/// store is unchanged.
pub proof fn law_exists_true_on_all_keys(hop: HopView, req: RequestView)
    requires
        req.key_type is None,
        req.positions.len() > 0,
        args_read(req),
        forall|j: int| 0 <= j < req.positions.len() ==> hop.state.contains_key(#[trigger] req.arg(j)->0),
    ensures
        Exists::answer(hop, req) == (reply(ValueView::Boolean(true)), hop.state),
{
    lemma_arg_list_reads(req, 0, req.positions.len() as int);
    let keys = req.arg_list(0);
    assert forall|i: int| 0 <= i < keys.len() implies hop.state.contains_key(#[trigger] keys[i]) by {
        assert(req.arg(i) is Some);
        assert(keys[i - 0] == req.arg(i)->0);
    }
}

/// Appending to a byte string keeps the old bytes first and puts the bytes
/// of the arguments after the key behind them; the new value is stored and
/// answered. With one argument after the key, the new value is the old
/// bytes followed by that argument.
pub proof fn law_append_bytes_extends(hop: HopView, req: RequestView, b: Seq<u8>)
    requires
        req.arg(0) matches Some(k) && hop.state.contains_key(k) && hop.state[k] == ValueView::Bytes(b),
        req.key_type is None || req.key_type == Some(KeyType::Bytes),
    ensures
        ({
            let k = req.arg(0)->0;
            let (a, after) = Append::answer(hop, req);
            exists|nb: Seq<u8>|
                {
                    &&& a == reply(ValueView::Bytes(nb))
                    &&& after == hop.state.insert(k, ValueView::Bytes(nb))
                    &&& nb.len() >= b.len()
                    &&& nb.subrange(0, b.len() as int) == b
                    &&& nb.subrange(b.len() as int, nb.len() as int) == concat_bytes(req.arg_list(1))
                    &&& (req.positions.len() == 2 && req.arg(1) is Some) ==> nb == b + req.arg(1)->0
                }
        }),
{
    let k = req.arg(0)->0;
    let c = concat_bytes(req.arg_list(1));
    let nb = b + c;
    assert(nb.subrange(0, b.len() as int) =~= b);
    assert(nb.subrange(b.len() as int, nb.len() as int) =~= c);
    if req.positions.len() == 2 && req.arg(1) is Some {
        let l = req.arg_list(1);
        assert(l == seq![req.arg(1)->0] + req.arg_list(2));
        assert(req.arg_list(2) =~= Seq::<Seq<u8>>::empty());
        assert(l =~= seq![req.arg(1)->0]);
        assert(l.drop_last() =~= Seq::<Seq<u8>>::empty());
        assert(concat_bytes(l.drop_last()) == Seq::<u8>::empty());
        assert(concat_bytes(l) == concat_bytes(l.drop_last()) + l.last());
        assert(concat_bytes(l) =~= req.arg(1)->0);
    }
    assert(Append::answer(hop, req).0 == reply(ValueView::Bytes(nb)));
}

/// Setting a key as a list stores the arguments after the key, each at its
/// place in the request, and answers that list.
pub proof fn law_set_list_in_order(hop: HopView, req: RequestView)
    requires
        req.key() matches Some(k) && effective_key_type(hop.state, req, k) == KeyType::List,
        req.positions.len() >= 2,
        args_read(req),
    ensures
        ({
            let k = req.key()->0;
            let (a, after) = SetValue::answer(hop, req);
            exists|l: Seq<Seq<u8>>|
                {
                    &&& a == reply(ValueView::List(l))
                    &&& after == hop.state.insert(k, ValueView::List(l))
                    &&& l.len() == req.positions.len() - 1
                    &&& forall|i: int| 0 <= i < l.len() ==> #[trigger] l[i] == req.arg(i + 1)->0
                }
        }),
{
    lemma_arg_list_reads(req, 1, req.positions.len() as int);
    assert(req.arg(1) is Some);
    let l = req.arg_list(1);
    assert forall|i: int| 0 <= i < l.len() implies #[trigger] l[i] == req.arg(i + 1)->0 by {
        assert(req.arg(i + 1) is Some);
        assert(l[(i + 1) - 1] == req.arg(i + 1)->0);
    }
    assert(SetValue::answer(hop, req) == (reply(ValueView::List(l)), hop.state.insert(
        req.key()->0,
        ValueView::List(l),
    )));
}

/// A successful delete answers the deleted key as a byte string, whatever
/// value the key held, and removes it.
pub proof fn law_delete_answers_key(hop: HopView, req: RequestView)
    requires
        req.key_type is None,
        req.key() matches Some(k) && hop.state.contains_key(k),
    ensures
        Delete::answer(hop, req) == (
            reply(ValueView::Bytes(req.key()->0)),
            hop.state.remove(req.key()->0),
        ),
{
}

/// Incrementing a key that holds an integer answers and stores that
/// integer plus one (wrapping at the bounds of `i64`); a free key becomes 1.
pub proof fn law_increment_adds_one(hop: HopView, req: RequestView)
    requires
        req.key() matches Some(k) && (!hop.state.contains_key(k) || hop.state[k] is Integer),
    ensures
        ({
            let k = req.key()->0;
            let n: i64 = if hop.state.contains_key(k) {
                hop.state[k]->Integer_0.wrapping_add(1)
            } else {
                1
            };
            Increment::answer(hop, req) == (
                reply(ValueView::Integer(n)),
                hop.state.insert(k, ValueView::Integer(n)),
            )
        }),
{
    let k = req.key()->0;
    if !hop.state.contains_key(k) {
        assert(0i64.wrapping_add(1) == 1i64) by (bit_vector);
    }
}

/// Is answers false as soon as one of the keys it is given, at any
/// position, is missing or holds a value of another type than the one
/// asked for, and true when every key holds a value of that type.
pub proof fn law_is_every_key(hop: HopView, req: RequestView, kt: KeyType)
    requires
        req.key_type == Some(kt),
        req.positions.len() > 0,
        args_read(req),
    ensures
        (exists|i: int|
            0 <= i < req.positions.len() && !(hop.state.contains_key(#[trigger] req.arg(i)->0)
                && hop.state[req.arg(i)->0].kind() == kt)) ==> Is::answer(hop, req) == (
            reply(ValueView::Boolean(false)),
            hop.state,
        ),
        (forall|i: int|
            0 <= i < req.positions.len() ==> hop.state.contains_key(#[trigger] req.arg(i)->0)
                && hop.state[req.arg(i)->0].kind() == kt) ==> Is::answer(hop, req) == (
            reply(ValueView::Boolean(true)),
            hop.state,
        ),
{
    lemma_arg_list_reads(req, 0, req.positions.len() as int);
    let keys = req.arg_list(0);
    if exists|i: int|
        0 <= i < req.positions.len() && !(hop.state.contains_key(#[trigger] req.arg(i)->0)
            && hop.state[req.arg(i)->0].kind() == kt) {
        let i = choose|i: int|
            0 <= i < req.positions.len() && !(hop.state.contains_key(#[trigger] req.arg(i)->0)
                && hop.state[req.arg(i)->0].kind() == kt);
        assert(keys[i - 0] == req.arg(i)->0);
    }
    if forall|i: int|
        0 <= i < req.positions.len() ==> hop.state.contains_key(#[trigger] req.arg(i)->0)
            && hop.state[req.arg(i)->0].kind() == kt {
        assert forall|i: int| 0 <= i < keys.len() implies hop.state.contains_key(#[trigger] keys[i])
            && hop.state[keys[i]].kind() == kt by {
            assert(req.arg(i) is Some);
            assert(keys[i - 0] == req.arg(i)->0);
        }
    }
}

/// Decrementing a key that holds an integer answers and stores that
/// integer minus one (wrapping at the bounds of `i64`); a free key becomes
/// -1.
pub proof fn law_decrement_subtracts_one(hop: HopView, req: RequestView)
    requires
        req.key() matches Some(k) && (!hop.state.contains_key(k) || hop.state[k] is Integer),
    ensures
        ({
            let k = req.key()->0;
            let n: i64 = if hop.state.contains_key(k) {
                hop.state[k]->Integer_0.wrapping_sub(1)
            } else {
                -1i64
            };
            Decrement::answer(hop, req) == (
                reply(ValueView::Integer(n)),
                hop.state.insert(k, ValueView::Integer(n)),
            )
        }),
{
    let k = req.key()->0;
    if hop.state.contains_key(k) {
        let i = hop.state[k]->Integer_0;
        assert(i.wrapping_add(-1i64) == i.wrapping_sub(1i64)) by (bit_vector);
    } else {
        assert(0i64.wrapping_add(-1i64) == -1i64) by (bit_vector);
    }
}

/// Incrementing a key that holds an integer by an amount answers and
/// stores their sum (wrapping at the bounds of `i64`), and decrementing it
/// by an amount their difference; a free key starts at zero.
pub proof fn law_increment_by_adds(hop: HopView, req: RequestView, amount: i64)
    requires
        req.key() matches Some(k) && (!hop.state.contains_key(k) || hop.state[k] is Integer),
        amount_of(req) == Some(amount),
    ensures
        ({
            let k = req.key()->0;
            let i: i64 = if hop.state.contains_key(k) {
                hop.state[k]->Integer_0
            } else {
                0
            };
            &&& IncrementBy::answer(hop, req) == (
                reply(ValueView::Integer(i.wrapping_add(amount))),
                hop.state.insert(k, ValueView::Integer(i.wrapping_add(amount))),
            )
            &&& DecrementBy::answer(hop, req) == (
                reply(ValueView::Integer(i.wrapping_sub(amount))),
                hop.state.insert(k, ValueView::Integer(i.wrapping_sub(amount))),
            )
        }),
{
    let k = req.key()->0;
    let i: i64 = if hop.state.contains_key(k) {
        hop.state[k]->Integer_0
    } else {
        0
    };
    assert(i.wrapping_add(0i64.wrapping_sub(amount)) == i.wrapping_sub(amount)) by (bit_vector);
}

/// Echo answers its arguments as a list, each at its place in the request,
/// and leaves the store as it was.
pub proof fn law_echo_answers_arguments(hop: HopView, req: RequestView)
    requires
        args_read(req),
    ensures
        exists|l: Seq<Seq<u8>>|
            {
                &&& Echo::answer(hop, req) == (reply(ValueView::List(l)), hop.state)
                &&& l.len() == req.positions.len()
                &&& forall|i: int| 0 <= i < l.len() ==> #[trigger] l[i] == req.arg(i)->0
            },
{
    lemma_arg_list_reads(req, 0, req.positions.len() as int);
    let l = req.arg_list(0);
    assert forall|i: int| 0 <= i < l.len() implies #[trigger] l[i] == req.arg(i)->0 by {
        assert(req.arg(i) is Some);
        assert(l[i - 0] == req.arg(i)->0);
    }
    assert(l.len() == req.positions.len());
    assert(Echo::answer(hop, req) == (reply(ValueView::List(l)), hop.state));
}

/// A successful rename answers the new key as a byte string.
pub proof fn law_rename_answers_new_key(hop: HopView, req: RequestView)
    requires
        Rename::answer(hop, req).0 is Ok,
    ensures
        req.arg(1) is Some,
        Rename::answer(hop, req).0 == reply(ValueView::Bytes(req.arg(1)->0)),
{
}

/// The length of a key that holds bytes, a list, a map, a set or a string
/// is the number of its bytes, items, entries or characters, and reading it
/// changes nothing.
pub proof fn law_length_counts(hop: HopView, req: RequestView)
    requires
        req.key() matches Some(k) && hop.state.contains_key(k) && (req.key_type is None
            || req.key_type == Some(hop.state[k].kind())),
        !(hop.state[req.key()->0] is Boolean || hop.state[req.key()->0] is Float
            || hop.state[req.key()->0] is Integer),
    ensures
        ({
            let v = hop.state[req.key()->0];
            let n: nat = match v {
                ValueView::Bytes(b) => b.len(),
                ValueView::List(l) => l.len(),
                ValueView::ByteMap(m) => m.len(),
                ValueView::ByteSet(st) => st.len(),
                ValueView::String(st) => st.len(),
                _ => 0,
            };
            Length::answer(hop, req) == (reply(ValueView::Integer(n as i64)), hop.state)
        }),
{
}

/// Appending to a list keeps the old items first, in their order, and puts
/// the arguments after the key behind them, each at its place in the
/// request; the new list is stored and answered.
pub proof fn law_append_list_extends(hop: HopView, req: RequestView, l: Seq<Seq<u8>>)
    requires
        req.arg(0) matches Some(k) && hop.state.contains_key(k) && hop.state[k] == ValueView::List(l),
        req.key_type is None || req.key_type == Some(KeyType::List),
        req.positions.len() >= 1,
        args_read(req),
    ensures
        ({
            let k = req.arg(0)->0;
            exists|nl: Seq<Seq<u8>>|
                {
                    &&& Append::answer(hop, req) == (
                        reply(ValueView::List(nl)),
                        hop.state.insert(k, ValueView::List(nl)),
                    )
                    &&& nl.len() == l.len() + req.positions.len() - 1
                    &&& forall|i: int| 0 <= i < l.len() ==> #[trigger] nl[i] == l[i]
                    &&& forall|j: int|
                        1 <= j < req.positions.len() ==> nl[l.len() + j - 1] == #[trigger] req.arg(
                            j,
                        )->0
                }
        }),
{
    lemma_arg_list_reads(req, 1, req.positions.len() as int);
    let args = req.arg_list(1);
    let nl = l + args;
    assert forall|j: int| 1 <= j < req.positions.len() implies nl[l.len() + j - 1]
        == #[trigger] req.arg(j)->0 by {
        assert(req.arg(j) is Some);
        assert(args[j - 1] == req.arg(j)->0);
    }
    assert(Append::answer(hop, req).0 == reply(ValueView::List(nl)));
}

} // verus!
