//! The executable decoder: turns the tagged byte stream of `wire` back into
//! a value tree (or protocol call), consuming through a `Buffer`'s read
//! cursor. On an error the read cursor stops wherever the failure was met,
//! never past the end of the buffer, and nothing else of the buffer changes.

use vstd::prelude::*;
use vstd::utf8::{decode_utf8, valid_utf8};
use crate::buffer::Buffer;
use crate::config::{Config, Field};
use crate::error::{ErrorKind, RpError, RpResult};
use crate::value::{Value, ValueModel, vm_of, vm_of_entries, vm_of_list, lemma_vm_of_entries,
    lemma_vm_of_list, lemma_norm_code, is_number_code, code_of_name, name_of_code,
    norm_code, get_type_by_name, get_name_by_type, vm_vec_of, TYPE_NULL, TYPE_U8, TYPE_I8,
    TYPE_U16, TYPE_I16, TYPE_U32, TYPE_I32, TYPE_F32, TYPE_F64, TYPE_STR, TYPE_RAW, TYPE_MAP,
    TYPE_VEC_U8, TYPE_VEC_MAP};
use crate::wire::{u16_at, u64_at, dec_scalar, dec_strraw, dec_tag, dec_payload,
    dec_entries, dec_elems, dec_args, dec_field, dec_proto, is_terminator, assoc_put, find_key,
    lemma_find_key, lemma_dec_payload_bounds};

verus! {

/// What every decode call leaves alone: the bytes, the write cursor; and the
/// read cursor only moves forward, never past the end.
pub open spec fn dec_frame(pre: Buffer, post: Buffer) -> bool {
    &&& post.data@ == pre.data@
    &&& post.write_pos == pre.write_pos
    &&& pre.read_pos <= post.read_pos
    &&& post.wf()
}

/// Relies on `String::from_utf8` of std: it returns a string exactly when
/// the bytes are valid UTF-8, and that string's characters are the decoding
/// of those bytes.
#[verifier::external_body]
fn string_from_utf8(v: Vec<u8>) -> (r: Option<String>)
    ensures
        r is Some <==> valid_utf8(v@),
        r matches Some(s) ==> s@ == decode_utf8(v@),
{
    String::from_utf8(v).ok()
}

/// Reads exactly `n` bytes, or fails with `NoLeftSpaceError` after having
/// consumed whatever was left.
fn read_exact(buffer: &mut Buffer, n: usize) -> (r: RpResult<Vec<u8>>)
    requires
        old(buffer).wf(),
    ensures
        dec_frame(*old(buffer), *final(buffer)),
        old(buffer).rest().len() >= n ==> (r matches Ok(b) && b@ == old(buffer).rest().take(
            n as int,
        ) && final(buffer).read_pos == old(buffer).read_pos + n),
        old(buffer).rest().len() < n ==> (r matches Err(e) && e.kind()
            == ErrorKind::NoLeftSpaceError),
{
    let b = buffer.read_bytes(n);
    if b.len() < n {
        Err(RpError::new(ErrorKind::NoLeftSpaceError, "no left space to read"))
    } else {
        Ok(b)
    }
}

/// Decodes a fixed-width little-endian scalar of the given number type code.
pub fn decode_number(buffer: &mut Buffer, value_type: u16) -> (r: RpResult<Value>)
    requires
        old(buffer).wf(),
        is_number_code(value_type),
    ensures
        dec_frame(*old(buffer), *final(buffer)),
        match dec_scalar(value_type, old(buffer).rest()) {
            Ok((m, n)) => r matches Ok(v) && v@ == m && final(buffer).read_pos == old(buffer).read_pos + n,
            Err(k) => r matches Err(e) && e.kind() == k,
        },
{
    if value_type == TYPE_U8 {
        let b = match read_exact(buffer, 1) {
            Ok(b) => b,
            Err(e) => {
                return Err(e);
            },
        };
        Ok(Value::U8(b[0]))
    } else if value_type == TYPE_I8 {
        let b = match read_exact(buffer, 1) {
            Ok(b) => b,
            Err(e) => {
                return Err(e);
            },
        };
        Ok(Value::I8(b[0] as i8))
    } else if value_type == TYPE_U16 || value_type == TYPE_I16 {
        let b = match read_exact(buffer, 2) {
            Ok(b) => b,
            Err(e) => {
                return Err(e);
            },
        };
        let v: u16 = b[0] as u16 + b[1] as u16 * 256;
        if value_type == TYPE_U16 {
            Ok(Value::U16(v))
        } else {
            Ok(Value::I16(v as i16))
        }
    } else if value_type == TYPE_U32 || value_type == TYPE_I32 || value_type == TYPE_F32 {
        let b = match read_exact(buffer, 4) {
            Ok(b) => b,
            Err(e) => {
                return Err(e);
            },
        };
        let v: u32 = b[0] as u32 + b[1] as u32 * 256 + b[2] as u32 * 0x10000 + b[3] as u32
            * 0x1000000;
        if value_type == TYPE_U32 {
            Ok(Value::U32(v))
        } else if value_type == TYPE_I32 {
            Ok(Value::I32(v as i32))
        } else {
            Ok(Value::F32(v))
        }
    } else {
        let b = match read_exact(buffer, 8) {
            Ok(b) => b,
            Err(e) => {
                return Err(e);
            },
        };
        let lo: u32 = b[0] as u32 + b[1] as u32 * 256 + b[2] as u32 * 0x10000 + b[3] as u32
            * 0x1000000;
        let hi: u32 = b[4] as u32 + b[5] as u32 * 256 + b[6] as u32 * 0x10000 + b[7] as u32
            * 0x1000000;
        let v: u64 = lo as u64 + hi as u64 * 0x1_0000_0000;
        proof {
            assert(u64_at(old(buffer).rest(), 0) == v);
        }
        Ok(Value::F64(v))
    }
}

/// Decodes a length-prefixed string or blob: a 16-bit byte count, then the
/// bytes. A short prefix or payload fails with `NoLeftSpaceError`, string
/// bytes that are not valid UTF-8 with `StringFormatError`.
pub fn decode_str_raw(buffer: &mut Buffer, value_type: u16) -> (r: RpResult<Value>)
    requires
        old(buffer).wf(),
        value_type == TYPE_STR || value_type == TYPE_RAW,
    ensures
        dec_frame(*old(buffer), *final(buffer)),
        match dec_strraw(value_type, old(buffer).rest()) {
            Ok((m, n)) => r matches Ok(v) && v@ == m && final(buffer).read_pos == old(buffer).read_pos + n,
            Err(k) => r matches Err(e) && e.kind() == k,
        },
{
    let b = match read_exact(buffer, 2) {
        Ok(b) => b,
        Err(e) => {
            return Err(e);
        },
    };
    let len: u16 = b[0] as u16 + b[1] as u16 * 256;
    let payload = match read_exact(buffer, len as usize) {
        Ok(p) => p,
        Err(e) => {
            return Err(e);
        },
    };
    proof {
        assert(payload@ =~= old(buffer).rest().subrange(2, 2 + len as int));
    }
    if value_type == TYPE_STR {
        match string_from_utf8(payload) {
            Some(s) => Ok(Value::Str(s)),
            None => Err(RpError::new(ErrorKind::StringFormatError, "string format error")),
        }
    } else {
        Ok(Value::Raw(payload))
    }
}

/// Reads a field tag: the 16-bit index, then the 16-bit type code, which is
/// turned into its type name (unknown codes collapse to the null name).
pub fn read_field(buffer: &mut Buffer) -> (r: RpResult<Field>)
    requires
        old(buffer).wf(),
    ensures
        dec_frame(*old(buffer), *final(buffer)),
        match dec_tag(old(buffer).rest()) {
            Ok(((index, code), n)) => r matches Ok(f) && f.index == index && f.pattern@
                == name_of_code(code) && final(buffer).read_pos == old(buffer).read_pos + n,
            Err(k) => r matches Err(e) && e.kind() == k,
        },
{
    let b = match read_exact(buffer, 4) {
        Ok(b) => b,
        Err(e) => {
            return Err(e);
        },
    };
    let index: u16 = b[0] as u16 + b[1] as u16 * 256;
    let code: u16 = b[2] as u16 + b[3] as u16 * 256;
    Ok(Field { index, pattern: get_name_by_type(code).to_owned() })
}

/// Builds the sequence variant of the given element code over `items`.
fn make_vec_value(ecode: u16, items: Vec<Value>) -> (r: Value)
    requires
        TYPE_U8 <= ecode <= TYPE_MAP,
    ensures
        r@ == vm_vec_of(ecode, vm_of_list(items, 0)),
{
    if ecode == TYPE_U8 {
        Value::VecU8(items)
    } else if ecode == TYPE_I8 {
        Value::VecI8(items)
    } else if ecode == TYPE_U16 {
        Value::VecU16(items)
    } else if ecode == TYPE_I16 {
        Value::VecI16(items)
    } else if ecode == TYPE_U32 {
        Value::VecU32(items)
    } else if ecode == TYPE_I32 {
        Value::VecI32(items)
    } else if ecode == TYPE_F32 {
        Value::VecF32(items)
    } else if ecode == TYPE_F64 {
        Value::VecF64(items)
    } else if ecode == TYPE_STR {
        Value::VecStr(items)
    } else if ecode == TYPE_RAW {
        Value::VecRaw(items)
    } else {
        Value::VecMap(items)
    }
}

/// Inserts `(name, value)` into the entry list: replaces the first entry
/// with that key, or appends.
fn dict_put(entries: &mut Vec<(String, Value)>, name: String, value: Value)
    ensures
        vm_of_entries(*final(entries), 0) == assoc_put(
            vm_of_entries(*old(entries), 0),
            name@,
            vm_of(value),
        ),
{
    let ghost es0 = vm_of_entries(*old(entries), 0);
    proof {
        lemma_vm_of_entries(*old(entries), 0);
        lemma_find_key(es0, name@, 0);
    }
    let mut j: usize = 0;
    #[verifier::loop_isolation(false)]
    while j < entries.len()
        invariant
            0 <= j <= entries@.len(),
            entries@ == old(entries)@,
            find_key(es0, name@, 0) == find_key(es0, name@, j as int),
        decreases entries@.len() - j,
    {
        let pair = &entries[j];
        if pair.0 == name {
            proof {
                assert(es0[j as int].0 == name@);
                assert(find_key(es0, name@, j as int) == j);
            }
            entries.set(j, (name, value));
            proof {
                lemma_vm_of_entries(*entries, 0);
                assert(vm_of_entries(*entries, 0) =~= es0.update(j as int, (name@, vm_of(value))));
            }
            return ;
        }
        j = j + 1;
    }
    entries.push((name, value));
    proof {
        lemma_vm_of_entries(*entries, 0);
        assert(vm_of_entries(*entries, 0) =~= es0.push((name@, vm_of(value))));
    }
}

/// Decodes map entries until the terminator tag, inserting values whose
/// index the schema knows under the index's field name; the payload of an
/// unknown index is still decoded in full and discarded, so old schemas
/// tolerate fields added by newer ones.
pub fn decode_map(buffer: &mut Buffer, config: &Config) -> (r: RpResult<Value>)
    requires
        old(buffer).wf(),
    ensures
        dec_frame(*old(buffer), *final(buffer)),
        match dec_entries(*config, old(buffer).rest(), Seq::empty()) {
            Ok((es, n)) => r matches Ok(v) && v@ == ValueModel::Dict(es) && final(buffer).read_pos == old(buffer).read_pos + n,
            Err(k) => r matches Err(e) && e.kind() == k,
        },
    decreases old(buffer).data@.len() - old(buffer).read_pos, 0int,
{
    let mut entries: Vec<(String, Value)> = Vec::new();
    proof {
        assert(vm_of_entries(entries, 0) =~= Seq::<(Seq<char>, ValueModel)>::empty());
    }
    #[verifier::loop_isolation(false)]
    loop
        invariant
            buffer.wf(),
            buffer.data@ == old(buffer).data@,
            buffer.write_pos == old(buffer).write_pos,
            old(buffer).read_pos <= buffer.read_pos,
            dec_entries(*config, old(buffer).rest(), Seq::empty()) == (match dec_entries(
                *config,
                buffer.rest(),
                vm_of_entries(entries, 0),
            ) {
                Ok((es, n)) => Ok::<_, ErrorKind>(
                    (es, buffer.read_pos - old(buffer).read_pos + n),
                ),
                Err(k) => Err(k),
            }),
        decreases buffer.data@.len() - buffer.read_pos,
    {
        let ghost rest0 = buffer.rest();
        let field = match read_field(buffer) {
            Ok(f) => f,
            Err(e) => {
                return Err(e);
            },
        };
        let ghost rawcode = u16_at(rest0, 2);
        proof {
            assert(code_of_name(field.pattern@) == norm_code(rawcode));
            lemma_norm_code(rawcode);
            assert(buffer.rest() =~= rest0.skip(4));
        }
        if field.is_null_type() {
            proof {
                assert(is_terminator(u16_at(rest0, 0), norm_code(rawcode)));
            }
            return Ok(Value::Dict(entries));
        }
        proof {
            lemma_norm_code(rawcode);
            assert(!is_terminator(u16_at(rest0, 0), norm_code(rawcode)));
        }
        let sub_value = match decode_by_field(buffer, config, &field) {
            Ok(v) => v,
            Err(e) => {
                return Err(e);
            },
        };
        let ghost consumed = dec_payload(*config, norm_code(rawcode), rest0.skip(4))->Ok_0.1;
        proof {
            lemma_dec_payload_bounds(*config, norm_code(rawcode), rest0.skip(4));
            assert(buffer.rest() =~= rest0.skip(4).skip(consumed));
        }
        match config.get_field_index_name(&field.index) {
            None => {},
            Some(name) => {
                let owned = name.clone();
                dict_put(&mut entries, owned, sub_value);
            },
        }
    }
}

/// Decodes sequence items of the declared element code until the terminator
/// tag; an item tagged with any other code fails with `TypeNotMatchError`.
fn decode_elems(buffer: &mut Buffer, config: &Config, ecode: u16) -> (r: RpResult<Vec<Value>>)
    requires
        old(buffer).wf(),
    ensures
        dec_frame(*old(buffer), *final(buffer)),
        match dec_elems(*config, ecode, old(buffer).rest(), Seq::empty()) {
            Ok((ms, n)) => r matches Ok(items) && vm_of_list(items, 0) == ms && final(buffer).read_pos == old(buffer).read_pos + n,
            Err(k) => r matches Err(e) && e.kind() == k,
        },
    decreases old(buffer).data@.len() - old(buffer).read_pos, 0int,
{
    let mut items: Vec<Value> = Vec::new();
    proof {
        lemma_vm_of_list(items, 0);
        assert(vm_of_list(items, 0) =~= Seq::<ValueModel>::empty());
    }
    #[verifier::loop_isolation(false)]
    loop
        invariant
            buffer.wf(),
            buffer.data@ == old(buffer).data@,
            buffer.write_pos == old(buffer).write_pos,
            old(buffer).read_pos <= buffer.read_pos,
            dec_elems(*config, ecode, old(buffer).rest(), Seq::empty()) == (match dec_elems(
                *config,
                ecode,
                buffer.rest(),
                vm_of_list(items, 0),
            ) {
                Ok((ms, n)) => Ok::<_, ErrorKind>(
                    (ms, buffer.read_pos - old(buffer).read_pos + n),
                ),
                Err(k) => Err(k),
            }),
        decreases buffer.data@.len() - buffer.read_pos,
    {
        let ghost rest0 = buffer.rest();
        let ghost acc0 = vm_of_list(items, 0);
        let field = match read_field(buffer) {
            Ok(f) => f,
            Err(e) => {
                return Err(e);
            },
        };
        let ghost rawcode = u16_at(rest0, 2);
        proof {
            assert(code_of_name(field.pattern@) == norm_code(rawcode));
            lemma_norm_code(rawcode);
            assert(buffer.rest() =~= rest0.skip(4));
        }
        if field.is_null_type() {
            proof {
                assert(is_terminator(u16_at(rest0, 0), norm_code(rawcode)));
            }
            return Ok(items);
        }
        let code = get_type_by_name(field.pattern.as_str());
        if code != ecode {
            return Err(RpError::new(ErrorKind::TypeNotMatchError, "must match type"));
        }
        let sub_value = match decode_by_field(buffer, config, &field) {
            Ok(v) => v,
            Err(e) => {
                return Err(e);
            },
        };
        let ghost consumed = dec_payload(*config, norm_code(rawcode), rest0.skip(4))->Ok_0.1;
        proof {
            lemma_dec_payload_bounds(*config, norm_code(rawcode), rest0.skip(4));
            assert(buffer.rest() =~= rest0.skip(4).skip(consumed));
        }
        let ghost items0 = items;
        items.push(sub_value);
        proof {
            lemma_vm_of_list(items0, 0);
            lemma_vm_of_list(items, 0);
            assert(vm_of_list(items, 0) =~= acc0.push(vm_of(sub_value)));
        }
    }
}

/// Decodes one value by a field's declared type name: scalars, strings,
/// blobs, maps and sequences each by their own framing; the null type yields
/// the null value and consumes nothing; any other name is refused.
fn decode_by_field(buffer: &mut Buffer, config: &Config, field: &Field) -> (r: RpResult<Value>)
    requires
        old(buffer).wf(),
    ensures
        dec_frame(*old(buffer), *final(buffer)),
        match dec_payload(*config, code_of_name(field.pattern@), old(buffer).rest()) {
            Ok((m, n)) => r matches Ok(v) && v@ == m && final(buffer).read_pos == old(buffer).read_pos + n,
            Err(k) => r matches Err(e) && e.kind() == k,
        },
    decreases old(buffer).data@.len() - old(buffer).read_pos, 1int,
{
    let t = get_type_by_name(field.pattern.as_str());
    if t == TYPE_NULL {
        Ok(Value::Null)
    } else if t >= TYPE_U8 && t <= TYPE_F64 {
        decode_number(buffer, t)
    } else if t == TYPE_STR || t == TYPE_RAW {
        decode_str_raw(buffer, t)
    } else if t == TYPE_MAP {
        decode_map(buffer, config)
    } else if t >= TYPE_VEC_U8 && t <= TYPE_VEC_MAP {
        let ecode = t - 20;
        let items = match decode_elems(buffer, config, ecode) {
            Ok(items) => items,
            Err(e) => {
                return Err(e);
            },
        };
        Ok(make_vec_value(ecode, items))
    } else {
        Err(RpError::new(ErrorKind::TypeNotMatchError, "must match type"))
    }
}

/// Decodes one tagged field: the terminator tag yields the null value,
/// anything else its payload by the tag's type code.
pub fn decode_field(buffer: &mut Buffer, config: &Config) -> (r: RpResult<Value>)
    requires
        old(buffer).wf(),
    ensures
        dec_frame(*old(buffer), *final(buffer)),
        match dec_field(*config, old(buffer).rest()) {
            Ok((m, n)) => r matches Ok(v) && v@ == m && final(buffer).read_pos == old(buffer).read_pos + n,
            Err(k) => r matches Err(e) && e.kind() == k,
        },
{
    let ghost rest0 = old(buffer).rest();
    let field = match read_field(buffer) {
        Ok(f) => f,
        Err(e) => {
            return Err(e);
        },
    };
    let ghost rawcode = u16_at(rest0, 2);
    proof {
        assert(code_of_name(field.pattern@) == norm_code(rawcode));
        lemma_norm_code(rawcode);
        assert(buffer.rest() =~= rest0.skip(4));
    }
    if field.is_null_type() {
        return Ok(Value::Null);
    }
    decode_by_field(buffer, config, &field)
}

/// Decodes a protocol call: the length-prefixed name, then positional
/// fields until the terminator tag. A name the schema does not declare, or
/// an argument count differing from the declaration, fails with
/// `TypeNotMatchError`.
#[verifier::rlimit(100)]
#[verifier::spinoff_prover]
pub fn decode_proto(buffer: &mut Buffer, config: &Config) -> (r: RpResult<(String, Vec<Value>)>)
    requires
        old(buffer).wf(),
    ensures
        dec_frame(*old(buffer), *final(buffer)),
        match dec_proto(*config, old(buffer).rest()) {
            Ok(((name, ms), n)) => r matches Ok(p) && p.0@ == name && vm_of_list(p.1, 0) == ms
                && final(buffer).read_pos == old(buffer).read_pos + n,
            Err(k) => r matches Err(e) && e.kind() == k,
        },
{
    let ghost rest_start = old(buffer).rest();
    let name_value = match decode_str_raw(buffer, TYPE_STR) {
        Ok(v) => v,
        Err(e) => {
            return Err(e);
        },
    };
    let name = match name_value {
        Value::Str(s) => s,
        _ => unreached(),
    };
    let ghost name_len = dec_strraw(TYPE_STR, rest_start)->Ok_0.1;
    let ghost rest_args = rest_start.skip(name_len);
    proof {
        assert(buffer.rest() =~= rest_args);
    }
    let mut args: Vec<Value> = Vec::new();
    proof {
        lemma_vm_of_list(args, 0);
        assert(vm_of_list(args, 0) =~= Seq::<ValueModel>::empty());
    }
    let ghost args_base_pos = buffer.read_pos;
    #[verifier::loop_isolation(false)]
    loop
        invariant
            buffer.wf(),
            buffer.data@ == old(buffer).data@,
            buffer.write_pos == old(buffer).write_pos,
            args_base_pos <= buffer.read_pos,
            old(buffer).read_pos + name_len == args_base_pos,
            rest_args == old(buffer).rest().skip(name_len),
            dec_args(*config, rest_args, Seq::empty()) == (match dec_args(
                *config,
                buffer.rest(),
                vm_of_list(args, 0),
            ) {
                Ok((ms, n)) => Ok::<_, ErrorKind>((ms, buffer.read_pos - args_base_pos + n)),
                Err(k) => Err(k),
            }),
        decreases buffer.data@.len() - buffer.read_pos,
    {
        let ghost rest0 = buffer.rest();
        let ghost acc0 = vm_of_list(args, 0);
        let field = match read_field(buffer) {
            Ok(f) => f,
            Err(e) => {
                return Err(e);
            },
        };
        let ghost rawcode = u16_at(rest0, 2);
        proof {
            assert(code_of_name(field.pattern@) == norm_code(rawcode));
            lemma_norm_code(rawcode);
            assert(buffer.rest() =~= rest0.skip(4));
        }
        if field.is_null_type() {
            proof {
                assert(is_terminator(u16_at(rest0, 0), norm_code(rawcode)));
                lemma_vm_of_list(args, 0);
                assert(dec_args(*config, rest0, acc0) == Ok::<_, ErrorKind>((acc0, 4int)));
                assert(dec_args(*config, rest_args, Seq::empty()) == Ok::<_, ErrorKind>(
                    (acc0, buffer.read_pos - args_base_pos),
                ));
            }
            let proto = match config.get_proto_by_name(&name) {
                None => {
                    return Err(RpError::new(ErrorKind::TypeNotMatchError, "must match type"));
                },
                Some(p) => p,
            };
            if proto.args.len() != args.len() {
                return Err(RpError::new(ErrorKind::TypeNotMatchError, "must match type"));
            }
            return Ok((name, args));
        }
        let sub_value = match decode_by_field(buffer, config, &field) {
            Ok(v) => v,
            Err(e) => {
                return Err(e);
            },
        };
        let ghost consumed = dec_payload(*config, norm_code(rawcode), rest0.skip(4))->Ok_0.1;
        proof {
            lemma_dec_payload_bounds(*config, norm_code(rawcode), rest0.skip(4));
            assert(buffer.rest() =~= rest0.skip(4).skip(consumed));
        }
        let ghost args0 = args;
        args.push(sub_value);
        proof {
            lemma_vm_of_list(args0, 0);
            lemma_vm_of_list(args, 0);
            assert(vm_of_list(args, 0) =~= acc0.push(vm_of(sub_value)));
        }
    }
}

} // verus!
