//! The laws of the codec: what decoding gives back on what encoding
//! produced. The central theorem is the payload round trip — for every
//! well-typed value tree the decoder returns exactly the encoded value and
//! consumes exactly its bytes, whatever follows them in the stream — with
//! the terminator and forward-compatibility laws beside it.

use vstd::prelude::*;
use vstd::arithmetic::div_mod::lemma_fundamental_div_mod;
use vstd::utf8::{encode_utf8, encode_utf8_valid_utf8,
    encode_utf8_decode_utf8};
use crate::config::Config;
use crate::error::ErrorKind;
use crate::value::{ValueModel, vm_code, norm_code, known_code, is_number_code,
    lemma_norm_code, code_of_name, TYPE_NULL, TYPE_U8, TYPE_MAP, TYPE_STR, TYPE_RAW};
use crate::wire::{le16, le32, le64, tag_bytes, u16_at, u32_at, u64_at, enc_scalar,
    enc_strraw, enc_payload, enc_entries, enc_elems, enc_field, enc_args, enc_proto, dec_scalar,
    dec_strraw, dec_tag, dec_payload, dec_entries, dec_elems, dec_args, dec_field, dec_proto,
    is_terminator, assoc_put, find_key, lemma_find_key};

verus! {

/// Reading two little-endian bytes back gives the value written, whatever
/// follows them.
pub proof fn lemma_u16_roundtrip(v: u16, s: Seq<u8>)
    ensures
        u16_at(le16(v) + s, 0) == v,
{
    lemma_fundamental_div_mod(v as int, 256);
}

/// Reading four little-endian bytes back gives the value written.
pub proof fn lemma_u32_roundtrip(v: u32, s: Seq<u8>)
    ensures
        u32_at(le32(v) + s, 0) == v,
{
    lemma_fundamental_div_mod(v as int, 0x10000);
    lemma_fundamental_div_mod((v % 0x10000) as int, 256);
    lemma_fundamental_div_mod((v / 0x10000) as int, 256);
    assert((le32(v) + s)[0] == le16((v % 0x10000) as u16)[0]);
    assert((le32(v) + s)[1] == le16((v % 0x10000) as u16)[1]);
    assert((le32(v) + s)[2] == le16((v / 0x10000) as u16)[0]);
    assert((le32(v) + s)[3] == le16((v / 0x10000) as u16)[1]);
}

/// Reading eight little-endian bytes back gives the value written.
pub proof fn lemma_u64_roundtrip(v: u64, s: Seq<u8>)
    ensures
        u64_at(le64(v) + s, 0) == v,
{
    let lo = (v % 0x1_0000_0000) as u32;
    let hi = (v / 0x1_0000_0000) as u32;
    lemma_fundamental_div_mod(v as int, 0x1_0000_0000);
    assert(le64(v) + s =~= le32(lo) + (le32(hi) + s));
    lemma_u32_roundtrip(lo, le32(hi) + s);
    assert((le64(v) + s).skip(4) =~= le32(hi) + s);
    lemma_u32_roundtrip(hi, s);
    assert(u32_at(le64(v) + s, 4) == u32_at(le32(hi) + s, 0)) by {
        assert((le64(v) + s)[4] == (le32(hi) + s)[0]);
        assert((le64(v) + s)[5] == (le32(hi) + s)[1]);
        assert((le64(v) + s)[6] == (le32(hi) + s)[2]);
        assert((le64(v) + s)[7] == (le32(hi) + s)[3]);
    }
}

/// Reading a tag back gives the index and code written, whatever follows.
pub proof fn lemma_tag_roundtrip(index: u16, code: u16, s: Seq<u8>)
    ensures
        dec_tag(tag_bytes(index, code) + s) == Ok::<((u16, u16), int), ErrorKind>(
            ((index, code), 4),
        ),
        u16_at(tag_bytes(index, code) + s, 0) == index,
        u16_at(tag_bytes(index, code) + s, 2) == code,
        (tag_bytes(index, code) + s).len() >= 4,
        (tag_bytes(index, code) + s).skip(4) =~= s,
{
    lemma_fundamental_div_mod(index as int, 256);
    lemma_fundamental_div_mod(code as int, 256);
    assert((tag_bytes(index, code) + s)[2] == le16(code)[0]);
    assert((tag_bytes(index, code) + s)[3] == le16(code)[1]);
    assert((tag_bytes(index, code) + s)[0] == le16(index)[0]);
    assert((tag_bytes(index, code) + s)[1] == le16(index)[1]);
}

/// A scalar payload decodes back to the value encoded, whatever follows.
pub proof fn lemma_scalar_roundtrip(m: ValueModel, s: Seq<u8>)
    requires
        is_number_code(vm_code(m)),
    ensures
        dec_scalar(vm_code(m), enc_scalar(m) + s) == Ok::<(ValueModel, int), ErrorKind>(
            (m, enc_scalar(m).len() as int),
        ),
{
    let b = enc_scalar(m) + s;
    match m {
        ValueModel::U8(x) => {
            assert(b[0] == x);
        },
        ValueModel::I8(x) => {
            assert(b[0] == x as u8);
            assert((x as u8) as i8 == x) by (bit_vector);
        },
        ValueModel::U16(x) => {
            lemma_u16_roundtrip(x, s);
        },
        ValueModel::I16(x) => {
            assert(enc_scalar(m) == le16(x as u16));
            lemma_u16_roundtrip(x as u16, s);
            assert((x as u16) as i16 == x) by (bit_vector);
        },
        ValueModel::U32(x) => {
            lemma_u32_roundtrip(x, s);
        },
        ValueModel::I32(x) => {
            assert(enc_scalar(m) == le32(x as u32));
            lemma_u32_roundtrip(x as u32, s);
            assert((x as u32) as i32 == x) by (bit_vector);
        },
        ValueModel::F32(x) => {
            lemma_u32_roundtrip(x, s);
        },
        ValueModel::F64(x) => {
            lemma_u64_roundtrip(x, s);
        },
        _ => {},
    }
}

/// A string or blob payload decodes back to the value encoded, whatever
/// follows: strings of up to 65535 UTF-8 bytes and blobs of up to 65535
/// bytes round-trip exactly.
pub proof fn lemma_strraw_roundtrip(m: ValueModel, s: Seq<u8>)
    requires
        vm_code(m) == TYPE_STR || vm_code(m) == TYPE_RAW,
        enc_strraw(m) is Ok,
    ensures
        dec_strraw(vm_code(m), enc_strraw(m)->Ok_0 + s) == Ok::<(ValueModel, int), ErrorKind>(
            (m, enc_strraw(m)->Ok_0.len() as int),
        ),
{
    let payload = match m {
        ValueModel::Str(t) => encode_utf8(t),
        ValueModel::Raw(r) => r,
        _ => Seq::empty(),
    };
    let b = enc_strraw(m)->Ok_0 + s;
    lemma_u16_roundtrip(payload.len() as u16, payload + s);
    assert(b =~= le16(payload.len() as u16) + (payload + s));
    assert(u16_at(b, 0) == payload.len());
    assert(b.subrange(2, 2 + payload.len() as int) =~= payload);
    match m {
        ValueModel::Str(t) => {
            encode_utf8_valid_utf8(t);
            encode_utf8_decode_utf8(t);
        },
        _ => {},
    }
}

/// No two entries of a map share a key.
pub open spec fn distinct_keys(es: Seq<(Seq<char>, ValueModel)>) -> bool {
    forall|a: int, b: int| 0 <= a < b < es.len() ==> es[a].0 != es[b].0
}

/// What the round-trip theorem asks of a value under a schema: strings and
/// blobs fit the 16-bit length prefix; every map key is known to the schema,
/// declared with the value's own type, carried by a nonzero index that maps
/// back to the same key, and unique within its map; every sequence item is
/// of the declared element kind; and all of that recursively.
pub open spec fn rt_ok(cfg: Config, m: ValueModel) -> bool
    decreases m, 1int,
{
    match m {
        ValueModel::Null => true,
        ValueModel::U8(_) => true,
        ValueModel::I8(_) => true,
        ValueModel::U16(_) => true,
        ValueModel::I16(_) => true,
        ValueModel::U32(_) => true,
        ValueModel::I32(_) => true,
        ValueModel::F32(_) => true,
        ValueModel::F64(_) => true,
        ValueModel::Str(t) => encode_utf8(t).len() <= 0xFFFF,
        ValueModel::Raw(b) => b.len() <= 0xFFFF,
        ValueModel::Dict(es) => distinct_keys(es) && rt_entries_ok(cfg, es, 0),
        ValueModel::VecU8(items) => rt_items_ok(cfg, vm_code(m) - 20, items, 0),
        ValueModel::VecI8(items) => rt_items_ok(cfg, vm_code(m) - 20, items, 0),
        ValueModel::VecU16(items) => rt_items_ok(cfg, vm_code(m) - 20, items, 0),
        ValueModel::VecI16(items) => rt_items_ok(cfg, vm_code(m) - 20, items, 0),
        ValueModel::VecU32(items) => rt_items_ok(cfg, vm_code(m) - 20, items, 0),
        ValueModel::VecI32(items) => rt_items_ok(cfg, vm_code(m) - 20, items, 0),
        ValueModel::VecF32(items) => rt_items_ok(cfg, vm_code(m) - 20, items, 0),
        ValueModel::VecF64(items) => rt_items_ok(cfg, vm_code(m) - 20, items, 0),
        ValueModel::VecStr(items) => rt_items_ok(cfg, vm_code(m) - 20, items, 0),
        ValueModel::VecRaw(items) => rt_items_ok(cfg, vm_code(m) - 20, items, 0),
        ValueModel::VecMap(items) => rt_items_ok(cfg, vm_code(m) - 20, items, 0),
    }
}

/// The per-entry conditions of `rt_ok`, from position `i` on.
pub open spec fn rt_entries_ok(cfg: Config, es: Seq<(Seq<char>, ValueModel)>, i: int) -> bool
    decreases es, es.len() - i,
{
    if i < 0 || i >= es.len() {
        true
    } else {
        &&& match cfg.spec_field_by_name(es[i].0) {
            Some(f) => {
                &&& f.index != 0
                &&& code_of_name(f.pattern@) == vm_code(es[i].1)
                &&& match cfg.spec_index_name(f.index) {
                    Some(back) => back@ == es[i].0,
                    None => false,
                }
            },
            None => false,
        }
        &&& rt_ok(cfg, es[i].1)
        &&& rt_entries_ok(cfg, es, i + 1)
    }
}

/// The per-item conditions of `rt_ok`, from position `i` on.
pub open spec fn rt_items_ok(cfg: Config, ecode: int, items: Seq<ValueModel>, i: int) -> bool
    decreases items, items.len() - i,
{
    if i < 0 || i >= items.len() {
        true
    } else {
        &&& vm_code(items[i]) == ecode
        &&& rt_ok(cfg, items[i])
        &&& rt_items_ok(cfg, ecode, items, i + 1)
    }
}

/// The payload round trip: a well-typed value encodes successfully, and
/// decoding its bytes — whatever follows them — returns exactly that value
/// and consumes exactly its bytes. Scalar values (all representable
/// u8/i8/u16/i16/u32/i32 and float bit patterns), strings and blobs satisfy
/// `rt_ok` outright, so this covers their round trips with no side
/// conditions beyond the 16-bit length prefix.
pub proof fn lemma_payload_roundtrip(cfg: Config, m: ValueModel, s: Seq<u8>)
    requires
        rt_ok(cfg, m),
    ensures
        enc_payload(cfg, m) is Ok,
        dec_payload(cfg, vm_code(m), enc_payload(cfg, m)->Ok_0 + s) == Ok::<
            (ValueModel, int),
            ErrorKind,
        >((m, enc_payload(cfg, m)->Ok_0.len() as int)),
    decreases m, 1int,
{
    match m {
        ValueModel::Null => {
            assert(enc_payload(cfg, m)->Ok_0 + s =~= s);
        },
        ValueModel::Str(_) => {
            lemma_strraw_roundtrip(m, s);
        },
        ValueModel::Raw(_) => {
            lemma_strraw_roundtrip(m, s);
        },
        ValueModel::Dict(es) => {
            lemma_entries_roundtrip(cfg, es, 0, Seq::empty(), s);
            assert(Seq::empty() + es.subrange(0, es.len() as int) =~= es);
        },
        ValueModel::VecU8(items) => {
            lemma_elems_roundtrip(cfg, TYPE_U8, items, 0, Seq::empty(), s);
            assert(Seq::empty() + items.subrange(0, items.len() as int) =~= items);
        },
        ValueModel::VecI8(items) => {
            lemma_elems_roundtrip(cfg, 2, items, 0, Seq::empty(), s);
            assert(Seq::empty() + items.subrange(0, items.len() as int) =~= items);
        },
        ValueModel::VecU16(items) => {
            lemma_elems_roundtrip(cfg, 3, items, 0, Seq::empty(), s);
            assert(Seq::empty() + items.subrange(0, items.len() as int) =~= items);
        },
        ValueModel::VecI16(items) => {
            lemma_elems_roundtrip(cfg, 4, items, 0, Seq::empty(), s);
            assert(Seq::empty() + items.subrange(0, items.len() as int) =~= items);
        },
        ValueModel::VecU32(items) => {
            lemma_elems_roundtrip(cfg, 5, items, 0, Seq::empty(), s);
            assert(Seq::empty() + items.subrange(0, items.len() as int) =~= items);
        },
        ValueModel::VecI32(items) => {
            lemma_elems_roundtrip(cfg, 6, items, 0, Seq::empty(), s);
            assert(Seq::empty() + items.subrange(0, items.len() as int) =~= items);
        },
        ValueModel::VecF32(items) => {
            lemma_elems_roundtrip(cfg, 7, items, 0, Seq::empty(), s);
            assert(Seq::empty() + items.subrange(0, items.len() as int) =~= items);
        },
        ValueModel::VecF64(items) => {
            lemma_elems_roundtrip(cfg, 8, items, 0, Seq::empty(), s);
            assert(Seq::empty() + items.subrange(0, items.len() as int) =~= items);
        },
        ValueModel::VecStr(items) => {
            lemma_elems_roundtrip(cfg, TYPE_STR, items, 0, Seq::empty(), s);
            assert(Seq::empty() + items.subrange(0, items.len() as int) =~= items);
        },
        ValueModel::VecRaw(items) => {
            lemma_elems_roundtrip(cfg, TYPE_RAW, items, 0, Seq::empty(), s);
            assert(Seq::empty() + items.subrange(0, items.len() as int) =~= items);
        },
        ValueModel::VecMap(items) => {
            lemma_elems_roundtrip(cfg, TYPE_MAP, items, 0, Seq::empty(), s);
            assert(Seq::empty() + items.subrange(0, items.len() as int) =~= items);
        },
        _ => {
            lemma_scalar_roundtrip(m, s);
        },
    }
}

/// The map-entry round trip: decoding the encoded entries from position `i`
/// on extends the accumulator by exactly those entries, in order.
#[verifier::rlimit(100)]
#[verifier::spinoff_prover]
pub proof fn lemma_entries_roundtrip(
    cfg: Config,
    es: Seq<(Seq<char>, ValueModel)>,
    i: int,
    acc: Seq<(Seq<char>, ValueModel)>,
    s: Seq<u8>,
)
    requires
        0 <= i <= es.len(),
        rt_entries_ok(cfg, es, i),
        forall|a: int, b: int| i <= a < b < es.len() ==> es[a].0 != es[b].0,
        forall|a: int| i <= a < es.len() ==> find_key(acc, #[trigger] es[a].0, 0) == acc.len(),
    ensures
        enc_entries(cfg, es, i) is Ok,
        dec_entries(cfg, enc_entries(cfg, es, i)->Ok_0 + s, acc) == Ok::<
            (Seq<(Seq<char>, ValueModel)>, int),
            ErrorKind,
        >((acc + es.subrange(i, es.len() as int), enc_entries(cfg, es, i)->Ok_0.len() as int)),
    decreases es, es.len() - i,
{
    if i >= es.len() {
        lemma_tag_roundtrip(0, TYPE_NULL, s);
        lemma_norm_code(0);
        assert(acc + es.subrange(i, es.len() as int) =~= acc);
    } else {
        let name = es[i].0;
        let v = es[i].1;
        let f = cfg.spec_field_by_name(name)->Some_0;
        let dcode = code_of_name(f.pattern@);
        let pb = enc_payload(cfg, v)->Ok_0;
        let acc2 = acc.push((name, v));
        // the insertion appends: the key is absent from the accumulator
        lemma_find_key(acc, name, 0);
        assert(assoc_put(acc, name, v) == acc2);
        // keys of the remaining entries stay absent from the new accumulator
        assert forall|a: int| i + 1 <= a < es.len() implies find_key(
            acc2,
            #[trigger] es[a].0,
            0,
        ) == acc2.len() by {
            lemma_find_key(acc, es[a].0, 0);
            lemma_find_key(acc2, es[a].0, 0);
        }
        lemma_entries_roundtrip(cfg, es, i + 1, acc2, s);
        let rest = enc_entries(cfg, es, i + 1)->Ok_0;
        lemma_payload_roundtrip(cfg, v, rest + s);
        // the encoded bytes of this entry, and what decoding sees
        let bytes = enc_entries(cfg, es, i)->Ok_0;
        assert(bytes == tag_bytes(f.index, dcode) + pb + rest);
        lemma_tag_roundtrip(f.index, dcode, pb + (rest + s));
        assert(bytes + s =~= tag_bytes(f.index, dcode) + (pb + (rest + s)));
        lemma_norm_code(dcode);
        assert(known_code(dcode) || dcode == 0);
        assert(norm_code(dcode) == dcode);
        assert(!is_terminator(f.index, dcode));
        assert(enc_payload(cfg, v)->Ok_0 + (rest + s) =~= pb + (rest + s));
        assert(dec_payload(cfg, dcode, pb + (rest + s)) == Ok::<(ValueModel, int), ErrorKind>(
            (v, pb.len() as int),
        ));
        assert((pb + (rest + s)).skip(pb.len() as int) =~= rest + s);
        assert(enc_entries(cfg, es, i + 1)->Ok_0 + s =~= rest + s);
        assert(acc2 + es.subrange(i + 1, es.len() as int) =~= acc + es.subrange(
            i,
            es.len() as int,
        ));
    }
}

/// The sequence-item round trip: decoding the encoded items from position
/// `i` on extends the accumulator by exactly those items, in order.
#[verifier::rlimit(100)]
#[verifier::spinoff_prover]
pub proof fn lemma_elems_roundtrip(
    cfg: Config,
    ecode: u16,
    items: Seq<ValueModel>,
    i: int,
    acc: Seq<ValueModel>,
    s: Seq<u8>,
)
    requires
        0 <= i <= items.len(),
        TYPE_U8 <= ecode <= TYPE_MAP,
        rt_items_ok(cfg, ecode as int, items, i),
    ensures
        enc_elems(cfg, ecode, items, i) is Ok,
        dec_elems(cfg, ecode, enc_elems(cfg, ecode, items, i)->Ok_0 + s, acc) == Ok::<
            (Seq<ValueModel>, int),
            ErrorKind,
        >((
            acc + items.subrange(i, items.len() as int),
            enc_elems(cfg, ecode, items, i)->Ok_0.len() as int,
        )),
    decreases items, items.len() - i,
{
    if i >= items.len() {
        lemma_tag_roundtrip(0, TYPE_NULL, s);
        lemma_norm_code(0);
        assert(acc + items.subrange(i, items.len() as int) =~= acc);
    } else {
        let v = items[i];
        let pb = enc_payload(cfg, v)->Ok_0;
        let acc2 = acc.push(v);
        lemma_elems_roundtrip(cfg, ecode, items, i + 1, acc2, s);
        let rest = enc_elems(cfg, ecode, items, i + 1)->Ok_0;
        lemma_payload_roundtrip(cfg, v, rest + s);
        let bytes = enc_elems(cfg, ecode, items, i)->Ok_0;
        assert(bytes == tag_bytes(0, ecode) + pb + rest);
        lemma_tag_roundtrip(0, ecode, pb + (rest + s));
        assert(bytes + s =~= tag_bytes(0, ecode) + (pb + (rest + s)));
        lemma_norm_code(ecode);
        assert(!is_terminator(0, ecode));
        assert(enc_payload(cfg, v)->Ok_0 + (rest + s) =~= pb + (rest + s));
        assert(dec_payload(cfg, ecode, pb + (rest + s)) == Ok::<(ValueModel, int), ErrorKind>(
            (v, pb.len() as int),
        ));
        assert((pb + (rest + s)).skip(pb.len() as int) =~= rest + s);
        assert(enc_elems(cfg, ecode, items, i + 1)->Ok_0 + s =~= rest + s);
        assert(acc2 + items.subrange(i + 1, items.len() as int) =~= acc + items.subrange(
            i,
            items.len() as int,
        ));
    }
}

/// The positional-field round trip: a well-typed value other than null,
/// framed as (tag with index 0 and its own code + payload), decodes back to
/// itself; the null value's field is exactly the terminator tag, which
/// `dec_field` also reads back as the null value.
pub proof fn lemma_field_roundtrip(cfg: Config, m: ValueModel, s: Seq<u8>)
    requires
        rt_ok(cfg, m),
    ensures
        enc_field(cfg, m) is Ok,
        dec_field(cfg, enc_field(cfg, m)->Ok_0 + s) == Ok::<(ValueModel, int), ErrorKind>(
            (m, enc_field(cfg, m)->Ok_0.len() as int),
        ),
{
    let pb = enc_payload(cfg, m)->Ok_0;
    lemma_payload_roundtrip(cfg, m, s);
    lemma_tag_roundtrip(0, vm_code(m), pb + s);
    lemma_norm_code(vm_code(m));
    assert(enc_field(cfg, m)->Ok_0 + s =~= tag_bytes(0, vm_code(m)) + (pb + s));
    assert(enc_payload(cfg, m)->Ok_0 + s =~= pb + s);
}

/// The protocol-argument round trip, from position `i` on. No argument may
/// be the null value: its positional field would be the very terminator tag
/// that ends the list.
#[verifier::rlimit(100)]
#[verifier::spinoff_prover]
pub proof fn lemma_args_roundtrip(
    cfg: Config,
    args: Seq<ValueModel>,
    i: int,
    acc: Seq<ValueModel>,
    s: Seq<u8>,
)
    requires
        0 <= i <= args.len(),
        forall|a: int|
            i <= a < args.len() ==> rt_ok(cfg, #[trigger] args[a]) && vm_code(args[a])
                != TYPE_NULL,
    ensures
        enc_args(cfg, args, i) is Ok,
        dec_args(cfg, enc_args(cfg, args, i)->Ok_0 + s, acc) == Ok::<
            (Seq<ValueModel>, int),
            ErrorKind,
        >((acc + args.subrange(i, args.len() as int), enc_args(cfg, args, i)->Ok_0.len() as int)),
    decreases args.len() - i,
{
    if i >= args.len() {
        lemma_tag_roundtrip(0, TYPE_NULL, s);
        lemma_norm_code(0);
        assert(acc + args.subrange(i, args.len() as int) =~= acc);
    } else {
        let v = args[i];
        let pb = enc_payload(cfg, v)->Ok_0;
        let acc2 = acc.push(v);
        lemma_args_roundtrip(cfg, args, i + 1, acc2, s);
        let rest = enc_args(cfg, args, i + 1)->Ok_0;
        lemma_payload_roundtrip(cfg, v, rest + s);
        let bytes = enc_args(cfg, args, i)->Ok_0;
        assert(bytes == (tag_bytes(0, vm_code(v)) + pb) + rest);
        lemma_tag_roundtrip(0, vm_code(v), pb + (rest + s));
        assert(bytes + s =~= tag_bytes(0, vm_code(v)) + (pb + (rest + s)));
        lemma_norm_code(vm_code(v));
        assert(!is_terminator(0, vm_code(v)));
        assert(enc_payload(cfg, v)->Ok_0 + (rest + s) =~= pb + (rest + s));
        assert((pb + (rest + s)).skip(pb.len() as int) =~= rest + s);
        assert(enc_args(cfg, args, i + 1)->Ok_0 + s =~= rest + s);
        assert(acc2 + args.subrange(i + 1, args.len() as int) =~= acc + args.subrange(
            i,
            args.len() as int,
        ));
    }
}

/// The protocol round trip: a call whose name the schema declares, with
/// exactly the declared number of well-typed, non-null arguments, encodes
/// successfully and decodes back to the same name and arguments.
pub proof fn lemma_proto_roundtrip(cfg: Config, name: Seq<char>, args: Seq<ValueModel>, s: Seq<u8>)
    requires
        cfg.spec_proto_by_name(name) matches Some(p) && p.args@.len() == args.len(),
        encode_utf8(name).len() <= 0xFFFF,
        forall|a: int|
            0 <= a < args.len() ==> rt_ok(cfg, #[trigger] args[a]) && vm_code(args[a])
                != TYPE_NULL,
    ensures
        enc_proto(cfg, name, args) is Ok,
        dec_proto(cfg, enc_proto(cfg, name, args)->Ok_0 + s) == Ok::<
            ((Seq<char>, Seq<ValueModel>), int),
            ErrorKind,
        >(((name, args), enc_proto(cfg, name, args)->Ok_0.len() as int)),
{
    let nb = enc_strraw(ValueModel::Str(name))->Ok_0;
    let ab = enc_args(cfg, args, 0)->Ok_0;
    lemma_args_roundtrip(cfg, args, 0, Seq::empty(), s);
    lemma_strraw_roundtrip(ValueModel::Str(name), ab + s);
    assert(enc_proto(cfg, name, args)->Ok_0 + s =~= nb + (ab + s));
    assert((nb + (ab + s)).skip(nb.len() as int) =~= ab + s);
    assert(enc_args(cfg, args, 0)->Ok_0 + s =~= ab + s);
    assert(Seq::<ValueModel>::empty() + args.subrange(0, args.len() as int) =~= args);
}

/// Terminator symmetry: encoding an empty map, an empty sequence or an
/// empty protocol argument list produces exactly the four terminator bytes
/// and nothing else, and decoding exactly those bytes yields the empty
/// collection, consuming all four.
pub proof fn lemma_terminator_symmetry(cfg: Config, ecode: u16)
    ensures
        tag_bytes(0, TYPE_NULL) =~= seq![0u8, 0u8, 0u8, 0u8],
        enc_payload(cfg, ValueModel::Dict(Seq::empty())) == Ok::<Seq<u8>, ErrorKind>(
            tag_bytes(0, TYPE_NULL),
        ),
        enc_elems(cfg, ecode, Seq::empty(), 0) == Ok::<Seq<u8>, ErrorKind>(
            tag_bytes(0, TYPE_NULL),
        ),
        enc_args(cfg, Seq::empty(), 0) == Ok::<Seq<u8>, ErrorKind>(tag_bytes(0, TYPE_NULL)),
        dec_payload(cfg, TYPE_MAP, tag_bytes(0, TYPE_NULL)) == Ok::<(ValueModel, int), ErrorKind>(
            (ValueModel::Dict(Seq::empty()), 4),
        ),
        dec_elems(cfg, ecode, tag_bytes(0, TYPE_NULL), Seq::empty()) == Ok::<
            (Seq<ValueModel>, int),
            ErrorKind,
        >((Seq::empty(), 4)),
        dec_args(cfg, tag_bytes(0, TYPE_NULL), Seq::empty()) == Ok::<
            (Seq<ValueModel>, int),
            ErrorKind,
        >((Seq::empty(), 4)),
{
    let term = tag_bytes(0, TYPE_NULL);
    lemma_fundamental_div_mod(0, 256);
    assert(term =~= seq![0u8, 0u8, 0u8, 0u8]);
    assert(term + Seq::<u8>::empty() =~= term);
    lemma_tag_roundtrip(0, TYPE_NULL, Seq::empty());
    lemma_norm_code(0);
}

/// A map entry whose key the schema does not know contributes no bytes at
/// all: the encoding continues with the next entry, so the decoded map
/// simply lacks that key.
pub proof fn lemma_unknown_key_not_encoded(cfg: Config, es: Seq<(Seq<char>, ValueModel)>, i: int)
    requires
        0 <= i < es.len(),
        cfg.spec_field_by_name(es[i].0) is None,
    ensures
        enc_entries(cfg, es, i) == enc_entries(cfg, es, i + 1),
{
}

/// Forward compatibility: a field whose index the schema does not know is
/// skipped whole — its payload is consumed but discarded — and the rest of
/// the stream decodes exactly as if the field had not been there.
pub proof fn lemma_unknown_field_skipped(
    cfg: Config,
    index: u16,
    code: u16,
    payload: Seq<u8>,
    rest: Seq<u8>,
    m: ValueModel,
    acc: Seq<(Seq<char>, ValueModel)>,
)
    requires
        cfg.spec_index_name(index) is None,
        !is_terminator(index, norm_code(code)),
        dec_payload(cfg, norm_code(code), payload + rest) == Ok::<(ValueModel, int), ErrorKind>(
            (m, payload.len() as int),
        ),
    ensures
        dec_entries(cfg, tag_bytes(index, code) + payload + rest, acc) == (match dec_entries(
            cfg,
            rest,
            acc,
        ) {
            Ok((es, n)) => Ok::<(Seq<(Seq<char>, ValueModel)>, int), ErrorKind>(
                (es, 4 + payload.len() + n),
            ),
            Err(k) => Err(k),
        }),
{
    let b = tag_bytes(index, code) + payload + rest;
    lemma_tag_roundtrip(index, code, payload + rest);
    assert(b =~= tag_bytes(index, code) + (payload + rest));
    crate::wire::lemma_dec_payload_bounds(cfg, norm_code(code), payload + rest);
    assert((payload + rest).skip(payload.len() as int) =~= rest);
}

} // verus!
