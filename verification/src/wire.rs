//! The wire format, as mathematics: what byte sequence a value encodes to
//! under a schema, and what value (or error) a byte sequence decodes to.
//! The executable encoder and decoder are specified against, and the
//! round-trip laws proved about, exactly these functions.
//!
//! All multi-byte integers are little-endian. Every field is prefixed by a
//! four-byte tag (16-bit index, 16-bit type code); the tag with index 0 and
//! the null type code is the universal terminator of maps, sequences and
//! protocol argument lists.

use vstd::prelude::*;
use vstd::utf8::{encode_utf8, decode_utf8, valid_utf8};
use crate::config::Config;
use crate::error::ErrorKind;
use crate::value::{ValueModel, vm_code, vm_vec_of, norm_code, is_number_code, TYPE_NULL, TYPE_U8,
    TYPE_I8, TYPE_U16, TYPE_I16, TYPE_U32, TYPE_I32, TYPE_F32, TYPE_F64, TYPE_STR, TYPE_RAW,
    TYPE_MAP, TYPE_VEC_U8, TYPE_VEC_MAP, code_of_name};

verus! {

/// The two little-endian bytes of a 16-bit value.
pub open spec fn le16(v: u16) -> Seq<u8> {
    seq![(v % 256) as u8, (v / 256) as u8]
}

/// The four little-endian bytes of a 32-bit value.
pub open spec fn le32(v: u32) -> Seq<u8> {
    le16((v % 0x10000) as u16) + le16((v / 0x10000) as u16)
}

/// The eight little-endian bytes of a 64-bit value.
pub open spec fn le64(v: u64) -> Seq<u8> {
    le32((v % 0x1_0000_0000) as u32) + le32((v / 0x1_0000_0000) as u32)
}

/// The field tag: a 16-bit index followed by a 16-bit type code.
pub open spec fn tag_bytes(index: u16, code: u16) -> Seq<u8> {
    le16(index) + le16(code)
}

/// The 16-bit value of the two little-endian bytes at `off`.
pub open spec fn u16_at(b: Seq<u8>, off: int) -> u16 {
    (b[off] + 256 * b[off + 1]) as u16
}

/// The 32-bit value of the four little-endian bytes at `off`.
pub open spec fn u32_at(b: Seq<u8>, off: int) -> u32 {
    (b[off] + 256 * b[off + 1] + 0x10000 * b[off + 2] + 0x1000000 * b[off + 3]) as u32
}

/// The 64-bit value of the eight little-endian bytes at `off`.
pub open spec fn u64_at(b: Seq<u8>, off: int) -> u64 {
    (u32_at(b, off) + 0x1_0000_0000 * u64_at_high(b, off)) as u64
}

/// The high 32-bit half of the 64-bit value at `off`.
pub open spec fn u64_at_high(b: Seq<u8>, off: int) -> u32 {
    u32_at(b, off + 4)
}

/// The payload width in bytes of a fixed-width scalar type code.
pub open spec fn scalar_width(code: u16) -> int {
    if code == TYPE_U8 || code == TYPE_I8 {
        1
    } else if code == TYPE_U16 || code == TYPE_I16 {
        2
    } else if code == TYPE_U32 || code == TYPE_I32 || code == TYPE_F32 {
        4
    } else {
        8
    }
}

/// The tag-free little-endian payload of a scalar value (empty for
/// non-scalar values). Signed values travel as their two's-complement bits;
/// float values travel as their IEEE-754 bits.
pub open spec fn enc_scalar(m: ValueModel) -> Seq<u8> {
    match m {
        ValueModel::U8(x) => seq![x],
        ValueModel::I8(x) => seq![x as u8],
        ValueModel::U16(x) => le16(x),
        ValueModel::I16(x) => le16(x as u16),
        ValueModel::U32(x) => le32(x),
        ValueModel::I32(x) => le32(x as u32),
        ValueModel::F32(x) => le32(x),
        ValueModel::F64(x) => le64(x),
        _ => Seq::empty(),
    }
}

/// The length-prefixed payload of a string or blob: a 16-bit byte count,
/// then exactly that many bytes. A payload that does not fit the 16-bit
/// prefix is refused.
pub open spec fn enc_strraw(m: ValueModel) -> Result<Seq<u8>, ErrorKind> {
    let payload = match m {
        ValueModel::Str(s) => encode_utf8(s),
        ValueModel::Raw(b) => b,
        _ => Seq::empty(),
    };
    if payload.len() > 0xFFFF {
        Err(ErrorKind::BufferOverMaxError)
    } else {
        Ok(le16(payload.len() as u16) + payload)
    }
}

/// The payload bytes of a value under a schema, or the first error the
/// encoder meets. Map entries are framed by `enc_entries`, sequence items by
/// `enc_elems`; a null value has an empty payload.
pub open spec fn enc_payload(cfg: Config, m: ValueModel) -> Result<Seq<u8>, ErrorKind>
    decreases m, 0int,
{
    match m {
        ValueModel::Null => Ok(Seq::empty()),
        ValueModel::U8(_) => Ok(enc_scalar(m)),
        ValueModel::I8(_) => Ok(enc_scalar(m)),
        ValueModel::U16(_) => Ok(enc_scalar(m)),
        ValueModel::I16(_) => Ok(enc_scalar(m)),
        ValueModel::U32(_) => Ok(enc_scalar(m)),
        ValueModel::I32(_) => Ok(enc_scalar(m)),
        ValueModel::F32(_) => Ok(enc_scalar(m)),
        ValueModel::F64(_) => Ok(enc_scalar(m)),
        ValueModel::Str(_) => enc_strraw(m),
        ValueModel::Raw(_) => enc_strraw(m),
        ValueModel::Dict(es) => enc_entries(cfg, es, 0),
        ValueModel::VecU8(items) => enc_elems(cfg, TYPE_U8, items, 0),
        ValueModel::VecI8(items) => enc_elems(cfg, TYPE_I8, items, 0),
        ValueModel::VecU16(items) => enc_elems(cfg, TYPE_U16, items, 0),
        ValueModel::VecI16(items) => enc_elems(cfg, TYPE_I16, items, 0),
        ValueModel::VecU32(items) => enc_elems(cfg, TYPE_U32, items, 0),
        ValueModel::VecI32(items) => enc_elems(cfg, TYPE_I32, items, 0),
        ValueModel::VecF32(items) => enc_elems(cfg, TYPE_F32, items, 0),
        ValueModel::VecF64(items) => enc_elems(cfg, TYPE_F64, items, 0),
        ValueModel::VecStr(items) => enc_elems(cfg, TYPE_STR, items, 0),
        ValueModel::VecRaw(items) => enc_elems(cfg, TYPE_RAW, items, 0),
        ValueModel::VecMap(items) => enc_elems(cfg, TYPE_MAP, items, 0),
    }
}

/// The bytes of the map entries from position `i` on, each known entry as
/// (schema field tag + payload), unknown names silently skipped, closed by
/// the terminator tag. An entry whose value does not carry the field's
/// declared type is refused, since the tag records the declared type and
/// decoding follows the tag.
pub open spec fn enc_entries(
    cfg: Config,
    es: Seq<(Seq<char>, ValueModel)>,
    i: int,
) -> Result<Seq<u8>, ErrorKind>
    decreases es, es.len() - i,
{
    if i < 0 || i >= es.len() {
        Ok(tag_bytes(0, TYPE_NULL))
    } else {
        match cfg.spec_field_by_name(es[i].0) {
            None => enc_entries(cfg, es, i + 1),
            Some(f) => {
                let dcode = code_of_name(f.pattern@);
                if vm_code(es[i].1) != dcode {
                    Err(ErrorKind::TypeNotMatchError)
                } else {
                    match enc_payload(cfg, es[i].1) {
                        Err(k) => Err(k),
                        Ok(pb) => match enc_entries(cfg, es, i + 1) {
                            Err(k) => Err(k),
                            Ok(rest) => Ok(tag_bytes(f.index, dcode) + pb + rest),
                        },
                    }
                }
            },
        }
    }
}

/// The bytes of the sequence items from position `i` on, each as
/// (tag with index 0 and the declared element code + payload), closed by the
/// terminator tag. An item of any other kind is refused.
pub open spec fn enc_elems(
    cfg: Config,
    ecode: u16,
    items: Seq<ValueModel>,
    i: int,
) -> Result<Seq<u8>, ErrorKind>
    decreases items, items.len() - i,
{
    if i < 0 || i >= items.len() {
        Ok(tag_bytes(0, TYPE_NULL))
    } else if vm_code(items[i]) != ecode {
        Err(ErrorKind::TypeNotMatchError)
    } else {
        match enc_payload(cfg, items[i]) {
            Err(k) => Err(k),
            Ok(pb) => match enc_elems(cfg, ecode, items, i + 1) {
                Err(k) => Err(k),
                Ok(rest) => Ok(tag_bytes(0, ecode) + pb + rest),
            },
        }
    }
}

/// A positional field: a tag carrying index 0 and the value's own type code,
/// then the value's payload.
pub open spec fn enc_field(cfg: Config, m: ValueModel) -> Result<Seq<u8>, ErrorKind> {
    match enc_payload(cfg, m) {
        Err(k) => Err(k),
        Ok(pb) => Ok(tag_bytes(0, vm_code(m)) + pb),
    }
}

/// The bytes of the protocol arguments from position `i` on, each as a
/// positional field, closed by the terminator tag.
pub open spec fn enc_args(cfg: Config, args: Seq<ValueModel>, i: int) -> Result<
    Seq<u8>,
    ErrorKind,
>
    decreases args, args.len() - i,
{
    if i < 0 || i >= args.len() {
        Ok(tag_bytes(0, TYPE_NULL))
    } else {
        match enc_field(cfg, args[i]) {
            Err(k) => Err(k),
            Ok(fb) => match enc_args(cfg, args, i + 1) {
                Err(k) => Err(k),
                Ok(rest) => Ok(fb + rest),
            },
        }
    }
}

/// A protocol call: the length-prefixed name, the positional arguments, the
/// terminator. Unknown protocol names are refused with `MissingError`, an
/// argument count differing from the declaration with `TypeNotMatchError`.
pub open spec fn enc_proto(cfg: Config, name: Seq<char>, args: Seq<ValueModel>) -> Result<
    Seq<u8>,
    ErrorKind,
> {
    match cfg.spec_proto_by_name(name) {
        None => Err(ErrorKind::MissingError),
        Some(p) => {
            if p.args@.len() != args.len() {
                Err(ErrorKind::TypeNotMatchError)
            } else {
                match enc_strraw(ValueModel::Str(name)) {
                    Err(k) => Err(k),
                    Ok(nb) => match enc_args(cfg, args, 0) {
                        Err(k) => Err(k),
                        Ok(ab) => Ok(nb + ab),
                    },
                }
            }
        },
    }
}

/// Decodes a fixed-width scalar payload: the declared width of little-endian
/// bytes, or `NoLeftSpaceError` when fewer are available.
pub open spec fn dec_scalar(code: u16, b: Seq<u8>) -> Result<(ValueModel, int), ErrorKind> {
    if b.len() < scalar_width(code) {
        Err(ErrorKind::NoLeftSpaceError)
    } else if code == TYPE_U8 {
        Ok((ValueModel::U8(b[0]), 1))
    } else if code == TYPE_I8 {
        Ok((ValueModel::I8(b[0] as i8), 1))
    } else if code == TYPE_U16 {
        Ok((ValueModel::U16(u16_at(b, 0)), 2))
    } else if code == TYPE_I16 {
        Ok((ValueModel::I16(u16_at(b, 0) as i16), 2))
    } else if code == TYPE_U32 {
        Ok((ValueModel::U32(u32_at(b, 0)), 4))
    } else if code == TYPE_I32 {
        Ok((ValueModel::I32(u32_at(b, 0) as i32), 4))
    } else if code == TYPE_F32 {
        Ok((ValueModel::F32(u32_at(b, 0)), 4))
    } else {
        Ok((ValueModel::F64(u64_at(b, 0)), 8))
    }
}

/// Decodes a length-prefixed string or blob payload. A short prefix or a
/// short payload is `NoLeftSpaceError`; string bytes that are not valid
/// UTF-8 are `StringFormatError`.
pub open spec fn dec_strraw(code: u16, b: Seq<u8>) -> Result<(ValueModel, int), ErrorKind> {
    if b.len() < 2 {
        Err(ErrorKind::NoLeftSpaceError)
    } else {
        let n = u16_at(b, 0) as int;
        if b.len() - 2 < n {
            Err(ErrorKind::NoLeftSpaceError)
        } else {
            let payload = b.subrange(2, 2 + n);
            if code == TYPE_STR {
                if valid_utf8(payload) {
                    Ok((ValueModel::Str(decode_utf8(payload)), 2 + n))
                } else {
                    Err(ErrorKind::StringFormatError)
                }
            } else {
                Ok((ValueModel::Raw(payload), 2 + n))
            }
        }
    }
}

/// Reads a field tag: the 16-bit index and the raw 16-bit type code.
pub open spec fn dec_tag(b: Seq<u8>) -> Result<((u16, u16), int), ErrorKind> {
    if b.len() < 4 {
        Err(ErrorKind::NoLeftSpaceError)
    } else {
        Ok(((u16_at(b, 0), u16_at(b, 2)), 4))
    }
}

/// Whether a tag with the given index and normalized code is the universal
/// terminator.
pub open spec fn is_terminator(index: u16, code: u16) -> bool {
    index == 0 && code == TYPE_NULL
}

/// The first position at or after `i` whose key is `name`, or the length.
pub open spec fn find_key(
    acc: Seq<(Seq<char>, ValueModel)>,
    name: Seq<char>,
    i: int,
) -> int
    decreases acc.len() - i,
{
    if i < 0 || i >= acc.len() {
        acc.len() as int
    } else if acc[i].0 == name {
        i
    } else {
        find_key(acc, name, i + 1)
    }
}

/// Inserts `(name, m)`: replaces the first entry keyed `name`, or appends.
pub open spec fn assoc_put(
    acc: Seq<(Seq<char>, ValueModel)>,
    name: Seq<char>,
    m: ValueModel,
) -> Seq<(Seq<char>, ValueModel)> {
    let j = find_key(acc, name, 0);
    if j < acc.len() {
        acc.update(j, (name, m))
    } else {
        acc.push((name, m))
    }
}

/// Bounds of `find_key`.
pub proof fn lemma_find_key(acc: Seq<(Seq<char>, ValueModel)>, name: Seq<char>, i: int)
    requires
        0 <= i <= acc.len(),
    ensures
        i <= find_key(acc, name, i) <= acc.len(),
        find_key(acc, name, i) < acc.len() ==> acc[find_key(acc, name, i)].0 == name,
        forall|j: int| i <= j < find_key(acc, name, i) ==> acc[j].0 != name,
    decreases acc.len() - i,
{
    if i < acc.len() && acc[i].0 != name {
        lemma_find_key(acc, name, i + 1);
    }
}

/// Decodes the payload of the given (normalized) type code from the front of
/// `b`: how much is consumed and what value results, or the first error.
/// The null code has an empty payload and yields the null value.
pub open spec fn dec_payload(cfg: Config, code: u16, b: Seq<u8>) -> Result<
    (ValueModel, int),
    ErrorKind,
>
    decreases b.len(), 1int,
{
    if code == TYPE_NULL {
        Ok((ValueModel::Null, 0))
    } else if is_number_code(code) {
        dec_scalar(code, b)
    } else if code == TYPE_STR || code == TYPE_RAW {
        dec_strraw(code, b)
    } else if code == TYPE_MAP {
        match dec_entries(cfg, b, Seq::empty()) {
            Err(k) => Err(k),
            Ok((es, n)) => Ok((ValueModel::Dict(es), n)),
        }
    } else if TYPE_VEC_U8 <= code <= TYPE_VEC_MAP {
        let ecode = (code - 20) as u16;
        match dec_elems(cfg, ecode, b, Seq::empty()) {
            Err(k) => Err(k),
            Ok((items, n)) => Ok((vm_vec_of(ecode, items), n)),
        }
    } else {
        Err(ErrorKind::TypeNotMatchError)
    }
}

/// Decodes map entries until the terminator tag. A known index inserts the
/// decoded value under the index's field name (replacing an earlier entry
/// with the same name); an unknown index still decodes its payload in full
/// and discards it, which is what makes old schemas tolerate new fields.
pub open spec fn dec_entries(
    cfg: Config,
    b: Seq<u8>,
    acc: Seq<(Seq<char>, ValueModel)>,
) -> Result<(Seq<(Seq<char>, ValueModel)>, int), ErrorKind>
    decreases b.len(), 0int,
{
    if b.len() < 4 {
        Err(ErrorKind::NoLeftSpaceError)
    } else {
        let index = u16_at(b, 0);
        let code = norm_code(u16_at(b, 2));
        if is_terminator(index, code) {
            Ok((acc, 4))
        } else {
            let b2 = b.skip(4);
            match dec_payload(cfg, code, b2) {
                Err(k) => Err(k),
                Ok((m, n)) => {
                    let acc2 = match cfg.spec_index_name(index) {
                        Some(name) => assoc_put(acc, name@, m),
                        None => acc,
                    };
                    let b3 = if 0 <= n <= b2.len() {
                        b2.skip(n)
                    } else {
                        Seq::empty()
                    };
                    match dec_entries(cfg, b3, acc2) {
                        Err(k) => Err(k),
                        Ok((es, k2)) => Ok((es, 4 + n + k2)),
                    }
                },
            }
        }
    }
}

/// Decodes sequence items of the declared element code until the terminator
/// tag. An item tagged with any other code is refused.
pub open spec fn dec_elems(
    cfg: Config,
    ecode: u16,
    b: Seq<u8>,
    acc: Seq<ValueModel>,
) -> Result<(Seq<ValueModel>, int), ErrorKind>
    decreases b.len(), 0int,
{
    if b.len() < 4 {
        Err(ErrorKind::NoLeftSpaceError)
    } else {
        let index = u16_at(b, 0);
        let code = norm_code(u16_at(b, 2));
        if is_terminator(index, code) {
            Ok((acc, 4))
        } else if code != ecode {
            Err(ErrorKind::TypeNotMatchError)
        } else {
            let b2 = b.skip(4);
            match dec_payload(cfg, code, b2) {
                Err(k) => Err(k),
                Ok((m, n)) => {
                    let b3 = if 0 <= n <= b2.len() {
                        b2.skip(n)
                    } else {
                        Seq::empty()
                    };
                    match dec_elems(cfg, ecode, b3, acc.push(m)) {
                        Err(k) => Err(k),
                        Ok((items, k2)) => Ok((items, 4 + n + k2)),
                    }
                },
            }
        }
    }
}

/// Decodes protocol arguments until the terminator tag, collecting values
/// positionally whatever their kinds.
pub open spec fn dec_args(cfg: Config, b: Seq<u8>, acc: Seq<ValueModel>) -> Result<
    (Seq<ValueModel>, int),
    ErrorKind,
>
    decreases b.len(), 0int,
{
    if b.len() < 4 {
        Err(ErrorKind::NoLeftSpaceError)
    } else {
        let index = u16_at(b, 0);
        let code = norm_code(u16_at(b, 2));
        if is_terminator(index, code) {
            Ok((acc, 4))
        } else {
            let b2 = b.skip(4);
            match dec_payload(cfg, code, b2) {
                Err(k) => Err(k),
                Ok((m, n)) => {
                    let b3 = if 0 <= n <= b2.len() {
                        b2.skip(n)
                    } else {
                        Seq::empty()
                    };
                    match dec_args(cfg, b3, acc.push(m)) {
                        Err(k) => Err(k),
                        Ok((items, k2)) => Ok((items, 4 + n + k2)),
                    }
                },
            }
        }
    }
}

/// Decodes one tagged field: the terminator yields the null value, anything
/// else its payload by the tag's normalized type code.
pub open spec fn dec_field(cfg: Config, b: Seq<u8>) -> Result<(ValueModel, int), ErrorKind> {
    if b.len() < 4 {
        Err(ErrorKind::NoLeftSpaceError)
    } else {
        let index = u16_at(b, 0);
        let code = norm_code(u16_at(b, 2));
        if is_terminator(index, code) {
            Ok((ValueModel::Null, 4))
        } else {
            match dec_payload(cfg, code, b.skip(4)) {
                Err(k) => Err(k),
                Ok((m, n)) => Ok((m, 4 + n)),
            }
        }
    }
}

/// Decodes a protocol call: the length-prefixed name, then arguments until
/// the terminator. A name the schema does not declare, or an argument count
/// differing from the declaration, is `TypeNotMatchError`.
pub open spec fn dec_proto(cfg: Config, b: Seq<u8>) -> Result<
    ((Seq<char>, Seq<ValueModel>), int),
    ErrorKind,
> {
    match dec_strraw(TYPE_STR, b) {
        Err(k) => Err(k),
        Ok((nm, n)) => {
            let name = nm->Str_0;
            match dec_args(cfg, b.skip(n), Seq::empty()) {
                Err(k) => Err(k),
                Ok((args, k2)) => match cfg.spec_proto_by_name(name) {
                    None => Err(ErrorKind::TypeNotMatchError),
                    Some(p) => {
                        if p.args@.len() != args.len() {
                            Err(ErrorKind::TypeNotMatchError)
                        } else {
                            Ok(((name, args), n + k2))
                        }
                    },
                },
            }
        },
    }
}

/// Whatever any decoder consumes lies between 0 and the length of its input.
pub proof fn lemma_dec_payload_bounds(cfg: Config, code: u16, b: Seq<u8>)
    ensures
        dec_payload(cfg, code, b) matches Ok((m, n)) ==> 0 <= n <= b.len(),
    decreases b.len(), 1int,
{
    if code == TYPE_MAP {
        lemma_dec_entries_bounds(cfg, b, Seq::empty());
    } else if TYPE_VEC_U8 <= code <= TYPE_VEC_MAP {
        lemma_dec_elems_bounds(cfg, (code - 20) as u16, b, Seq::empty());
    }
}

/// Bounds for the map entry loop: at least the terminator is consumed.
pub proof fn lemma_dec_entries_bounds(
    cfg: Config,
    b: Seq<u8>,
    acc: Seq<(Seq<char>, ValueModel)>,
)
    ensures
        dec_entries(cfg, b, acc) matches Ok((es, n)) ==> 4 <= n <= b.len(),
    decreases b.len(), 0int,
{
    if b.len() >= 4 {
        let index = u16_at(b, 0);
        let code = norm_code(u16_at(b, 2));
        if !is_terminator(index, code) {
            let b2 = b.skip(4);
            lemma_dec_payload_bounds(cfg, code, b2);
            match dec_payload(cfg, code, b2) {
                Err(_) => {},
                Ok((m, n)) => {
                    let acc2 = match cfg.spec_index_name(index) {
                        Some(name) => assoc_put(acc, name@, m),
                        None => acc,
                    };
                    lemma_dec_entries_bounds(cfg, b2.skip(n), acc2);
                },
            }
        }
    }
}

/// Bounds for the sequence item loop.
pub proof fn lemma_dec_elems_bounds(cfg: Config, ecode: u16, b: Seq<u8>, acc: Seq<ValueModel>)
    ensures
        dec_elems(cfg, ecode, b, acc) matches Ok((items, n)) ==> 4 <= n <= b.len(),
    decreases b.len(), 0int,
{
    if b.len() >= 4 {
        let index = u16_at(b, 0);
        let code = norm_code(u16_at(b, 2));
        if !is_terminator(index, code) && code == ecode {
            let b2 = b.skip(4);
            lemma_dec_payload_bounds(cfg, code, b2);
            match dec_payload(cfg, code, b2) {
                Err(_) => {},
                Ok((m, n)) => {
                    lemma_dec_elems_bounds(cfg, ecode, b2.skip(n), acc.push(m));
                },
            }
        }
    }
}

/// Bounds for the protocol argument loop.
pub proof fn lemma_dec_args_bounds(cfg: Config, b: Seq<u8>, acc: Seq<ValueModel>)
    ensures
        dec_args(cfg, b, acc) matches Ok((items, n)) ==> 4 <= n <= b.len(),
    decreases b.len(), 0int,
{
    if b.len() >= 4 {
        let index = u16_at(b, 0);
        let code = norm_code(u16_at(b, 2));
        if !is_terminator(index, code) {
            let b2 = b.skip(4);
            lemma_dec_payload_bounds(cfg, code, b2);
            match dec_payload(cfg, code, b2) {
                Err(_) => {},
                Ok((m, n)) => {
                    lemma_dec_args_bounds(cfg, b2.skip(n), acc.push(m));
                },
            }
        }
    }
}

} // verus!
