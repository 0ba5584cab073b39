//! What decoding gives back of what a builder writes.

use super::builder::{arg_positions, taken_over, BuilderView};
use super::context::{extends, parse_args, parse_request, Parsed};
use super::{command_byte, encode_args, encode_request, header, RequestView};
use crate::codec::{be32, from_be32, lemma_be32_roundtrip};
use crate::command::command_id::CommandId;
use crate::state::KeyType;
use vstd::prelude::*;

verus! {

/// The position of the last byte of each argument when the encoded
/// arguments start at `s`.
pub open spec fn enc_positions(s: int, args: Seq<Seq<u8>>) -> Seq<usize> {
    Seq::new(
        args.len(),
        |i: int| (s + encode_args(args.take(i)).len() + 3 + args[i].len()) as usize,
    )
}

/// Every argument's length fits the four bytes that hold it.
pub open spec fn lengths_fit(args: Seq<Seq<u8>>) -> bool {
    forall|i: int| 0 <= i < args.len() ==> #[trigger] args[i].len() <= u32::MAX
}

/// Encoding one more argument appends it.
proof fn lemma_encode_args_take(args: Seq<Seq<u8>>, i: int)
    requires
        0 <= i < args.len(),
    ensures
        encode_args(args.take(i + 1)) == encode_args(args.take(i)) + be32(args[i].len() as u32)
            + args[i],
{
    assert(args.take(i + 1).drop_last() =~= args.take(i));
}

/// The encoding of the first arguments begins the encoding of them all.
proof fn lemma_encode_args_prefix(args: Seq<Seq<u8>>, i: int)
    requires
        0 <= i <= args.len(),
    ensures
        encode_args(args.take(i)).len() <= encode_args(args).len(),
        encode_args(args).subrange(0, encode_args(args.take(i)).len() as int) == encode_args(
            args.take(i),
        ),
    decreases args.len() - i,
{
    if i == args.len() {
        assert(args.take(i) =~= args);
        assert(encode_args(args).subrange(0, encode_args(args).len() as int) =~= encode_args(args));
    } else {
        lemma_encode_args_prefix(args, i + 1);
        lemma_encode_args_take(args, i);
        let a = encode_args(args.take(i));
        let b = encode_args(args.take(i + 1));
        assert(encode_args(args).subrange(0, a.len() as int) =~= b.subrange(0, a.len() as int));
        assert(b.subrange(0, a.len() as int) =~= a);
    }
}

/// Decoding the encoded arguments finds each of them.
proof fn lemma_parse_encoded_args(b: Seq<u8>, s: int, args: Seq<Seq<u8>>, k: int)
    requires
        0 <= s,
        0 <= k <= args.len(),
        lengths_fit(args),
        s + encode_args(args).len() <= b.len(),
        b.subrange(s, s + encode_args(args).len()) == encode_args(args),
        args.len() <= usize::MAX,
        b.len() <= usize::MAX,
    ensures
        parse_args(b, s + encode_args(args.take(k)).len(), args.len() as int, enc_positions(
            s,
            args,
        ).take(k)) == Some(enc_positions(s, args)),
    decreases args.len() - k,
{
    let e = encode_args(args);
    let ps = enc_positions(s, args);
    if k == args.len() {
        assert(ps.take(k) =~= ps);
    } else {
        lemma_encode_args_prefix(args, k + 1);
        lemma_encode_args_take(args, k);
        let pre = encode_args(args.take(k));
        let idx: int = s + pre.len();
        let len: int = args[k].len() as int;
        let next = encode_args(args.take(k + 1));
        assert(next =~= pre + be32(len as u32) + args[k]);
        assert(e.subrange(0, next.len() as int) == next);
        assert(b.subrange(idx, idx + 4) =~= be32(len as u32)) by {
            assert forall|j: int| 0 <= j < 4 implies #[trigger] b.subrange(idx, idx + 4)[j] == be32(
                len as u32,
            )[j] by {
                assert(b.subrange(s, s + e.len())[pre.len() + j] == e[pre.len() + j]);
                assert(e.subrange(0, next.len() as int)[pre.len() + j] == next[pre.len() + j]);
            }
        }
        lemma_be32_roundtrip(len as u32);
        assert(from_be32(b.subrange(idx, idx + 4)) == len);
        assert(ps.take(k).push((idx + 3 + len) as usize) =~= ps.take(k + 1));
        lemma_parse_encoded_args(b, s, args, k + 1);
    }
}

/// The first byte of a request decodes to its command and to whether a key
/// type follows.
proof fn lemma_command_byte(c: CommandId, key_type: Option<KeyType>)
    ensures
        command_byte(c, key_type) & 0x7fu8 == c.spec_id(),
        (command_byte(c, key_type) & 0x80u8 != 0) == (key_type is Some),
{
    let id = c.spec_id();
    assert(id < 128);
    assert(((id + 128) as u8) & 0x7fu8 == id && ((id + 128) as u8) & 0x80u8 != 0) by (bit_vector)
        requires
            id < 128,
    ;
    assert(id & 0x7fu8 == id && id & 0x80u8 == 0) by (bit_vector)
        requires
            id < 128,
    ;
}

/// A request of a command that takes arguments, encoded with arguments
/// whose lengths fit their four length bytes, is decoded back, from any
/// buffer that begins with it, to its command, its key type and the
/// positions at which the builder places its arguments.
pub proof fn law_encoded_request_decodes(
    b: Seq<u8>,
    c: CommandId,
    key_type: Option<KeyType>,
    args: Seq<Seq<u8>>,
)
    requires
        !c.spec_is_simple(),
        args.len() <= 255,
        lengths_fit(args),
        extends(b, encode_request(c, key_type, args)),
        b.len() <= usize::MAX,
    ensures
        parse_request(b) == (Parsed::Complete {
            command_id: c,
            key_type,
            positions: enc_positions(header(c, key_type).len() as int + 1, args),
        }),
{
    let h = header(c, key_type);
    let enc = encode_request(c, key_type, args);
    let s: int = h.len() as int + 1;
    lemma_command_byte(c, key_type);
    crate::command::command_id::lemma_command_id_roundtrip(c);
    assert(b[0] == enc[0]) by {
        assert(b.subrange(0, enc.len() as int)[0] == b[0]);
    }
    assert(b[s - 1] == enc[s - 1]) by {
        assert(b.subrange(0, enc.len() as int)[s - 1] == b[s - 1]);
    }
    if key_type is Some {
        assert(b[1] == enc[1]) by {
            assert(b.subrange(0, enc.len() as int)[1] == b[1]);
        }
        crate::state::lemma_key_type_code_roundtrip(key_type.unwrap());
    }
    let e = encode_args(args);
    assert(b.subrange(s, s + e.len()) =~= e) by {
        assert forall|j: int| 0 <= j < e.len() implies #[trigger] b.subrange(s, s + e.len())[j]
            == e[j] by {
            assert(b.subrange(0, enc.len() as int)[s + j] == b[s + j]);
            assert(enc[s + j] == e[j]);
        }
    }
    lemma_parse_encoded_args(b, s, args, 0);
    assert(args.take(0) =~= Seq::<Seq<u8>>::empty());
    assert(enc_positions(s, args).take(0) =~= Seq::<usize>::empty());
}

/// The builder places each argument where decoding finds it.
pub proof fn lemma_builder_positions(base: int, args: Seq<Seq<u8>>)
    requires
        base == 0 || base == 1,
        base + 2 + encode_args(args).len() <= usize::MAX,
    ensures
        arg_positions(base, args) == enc_positions(base + 2, args),
    decreases args.len(),
{
    if args.len() > 0 {
        let n = args.len() - 1;
        lemma_encode_args_take(args, n);
        assert(args.drop_last() =~= args.take(n));
        assert(args.take(n + 1) =~= args);
        lemma_builder_positions(base, args.drop_last());
        assert(args.drop_last() =~= args.take(n));
        assert forall|i: int| 0 <= i < n implies #[trigger] args.drop_last().take(i) == args.take(i)
            by {
            assert(args.drop_last().take(i) =~= args.take(i));
        }
        if n > 0 {
            lemma_encode_args_take(args, n - 1);
            lemma_encode_args_prefix(args, n - 1);
        }
        assert(arg_positions(base, args) =~= enc_positions(base + 2, args));
    } else {
        assert(arg_positions(base, args) =~= enc_positions(base + 2, args));
    }
}

/// Each argument of an encoded request is read back from its position.
pub proof fn law_encoded_request_args(
    b: Seq<u8>,
    c: CommandId,
    key_type: Option<KeyType>,
    args: Seq<Seq<u8>>,
    i: int,
)
    requires
        !c.spec_is_simple(),
        lengths_fit(args),
        extends(b, encode_request(c, key_type, args)),
        b.len() <= usize::MAX,
        0 <= i < args.len(),
    ensures
        (RequestView {
            buf: b,
            command_id: c,
            key_type,
            positions: enc_positions(header(c, key_type).len() as int + 1, args),
        }).arg(i) == Some(args[i]),
{
    let h = header(c, key_type);
    let enc = encode_request(c, key_type, args);
    let s: int = h.len() as int + 1;
    let e = encode_args(args);
    let req = RequestView {
        buf: b,
        command_id: c,
        key_type,
        positions: enc_positions(s, args),
    };
    lemma_encode_args_prefix(args, i + 1);
    lemma_encode_args_take(args, i);
    let pre = encode_args(args.take(i));
    let next = encode_args(args.take(i + 1));
    let start: int = s + pre.len() + 4;
    let end: int = start + args[i].len();
    if i > 0 {
        lemma_encode_args_take(args, i - 1);
        assert(args.take(i).drop_last() =~= args.take(i - 1));
    }
    assert(req.arg_start(i) == start);
    assert(b.subrange(start, end) =~= args[i]) by {
        assert forall|j: int| 0 <= j < args[i].len() implies #[trigger] b.subrange(start, end)[j]
            == args[i][j] by {
            assert(b.subrange(0, enc.len() as int)[start + j] == b[start + j]);
            assert(enc[start + j] == e[pre.len() + 4 + j]);
            assert(e.subrange(0, next.len() as int)[pre.len() + 4 + j] == next[pre.len() + 4 + j]);
        }
    }
}

/// A built request of a command that takes arguments is its encoding, with
/// its arguments placed where decoding finds them.
pub proof fn law_builder_encodes(v: BuilderView)
    requires
        v.wf(),
        !v.command_id.spec_is_simple(),
        v.buf.len() <= usize::MAX,
    ensures
        v.buf == encode_request(v.command_id, v.key_type, v.args),
        v.positions == enc_positions(header(v.command_id, v.key_type).len() as int + 1, v.args),
{
    lemma_builder_positions(v.base(), v.args);
}

/// A request built with arguments whose lengths fit their four length
/// bytes, for a command that takes arguments, is decoded from any buffer
/// that begins with it to the built command, key type and positions, and
/// each built argument is read back from it.
pub proof fn law_built_request_roundtrip(v: BuilderView, b: Seq<u8>)
    requires
        v.wf(),
        !v.command_id.spec_is_simple(),
        lengths_fit(v.args),
        extends(b, v.buf),
        b.len() <= usize::MAX,
    ensures
        parse_request(b) == (Parsed::Complete {
            command_id: v.command_id,
            key_type: v.key_type,
            positions: v.positions,
        }),
        forall|i: int|
            0 <= i < v.args.len() ==> (#[trigger] (RequestView {
                buf: b,
                command_id: v.command_id,
                key_type: v.key_type,
                positions: v.positions,
            }).arg(i)) == Some(v.args[i]),
{
    law_builder_encodes(v);
    law_encoded_request_decodes(b, v.command_id, v.key_type, v.args);
    assert forall|i: int| 0 <= i < v.args.len() implies (#[trigger] (RequestView {
        buf: b,
        command_id: v.command_id,
        key_type: v.key_type,
        positions: v.positions,
    }).arg(i)) == Some(v.args[i]) by {
        law_encoded_request_args(b, v.command_id, v.key_type, v.args, i);
    }
}

/// The request that a builder builds.
pub open spec fn built_request(v: BuilderView) -> RequestView {
    RequestView {
        buf: v.buf,
        command_id: v.command_id,
        key_type: v.key_type,
        positions: v.positions,
    }
}

/// The arguments from `start` on, when each of them reads back.
proof fn lemma_arg_list(req: RequestView, args: Seq<Seq<u8>>, start: int)
    requires
        req.positions.len() == args.len(),
        0 <= start <= args.len(),
        forall|i: int| 0 <= i < args.len() ==> #[trigger] req.arg(i) == Some(args[i]),
    ensures
        req.arg_list(start) == args.subrange(start, args.len() as int),
    decreases args.len() - start,
{
    if start < args.len() {
        lemma_arg_list(req, args, start + 1);
        assert(seq![args[start]] + args.subrange(start + 1, args.len() as int) =~= args.subrange(
            start,
            args.len() as int,
        ));
    } else {
        assert(args.subrange(start, args.len() as int) =~= Seq::<Seq<u8>>::empty());
    }
}

/// A builder made again from the request that a builder built, for a
/// command that takes arguments and with arguments whose lengths fit their
/// four length bytes, is the builder that built it: a valid builder with
/// the request's command, key type and arguments is that builder.
pub proof fn law_builder_from_own_request(v: BuilderView, w: BuilderView)
    requires
        v.wf(),
        !v.command_id.spec_is_simple(),
        lengths_fit(v.args),
        v.buf.len() <= usize::MAX,
        w.wf(),
        w.command_id == built_request(v).command_id,
        w.key_type == built_request(v).key_type,
        w.args == built_request(v).arg_list(0).take(
            taken_over(built_request(v).arg_list(0).len() as int),
        ),
    ensures
        w == v,
{
    assert(extends(v.buf, v.buf)) by {
        assert(v.buf.subrange(0, v.buf.len() as int) =~= v.buf);
    }
    law_built_request_roundtrip(v, v.buf);
    let req = built_request(v);
    lemma_arg_list(req, v.args, 0);
    assert(v.args.subrange(0, v.args.len() as int) =~= v.args);
    assert(v.args.take(v.args.len() as int) =~= v.args);
    assert(w.args == v.args);
}

} // verus!
