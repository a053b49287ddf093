//! The executable encoder: turns a value tree (or protocol call) into the
//! tagged byte stream of `wire`, writing through a `Buffer`'s write cursor.
//!
//! Every encoder first builds the complete byte sequence and only then
//! writes it, so a failed encode leaves the buffer untouched and the first
//! error is propagated with nothing partial written.

use vstd::prelude::*;
use crate::buffer::{Buffer, store_bytes};
use crate::config::{Config, Field};
use crate::error::{ErrorKind, RpError, RpResult};
use crate::value::{Value, vm_code, vm_of, vm_of_entries, vm_of_list, lemma_vm_of_entries,
    lemma_vm_of_list, is_number_code, code_of_name, get_type_by_name, get_value_type,
    get_vec_elem_type, TYPE_NULL, TYPE_STR, TYPE_RAW};
use crate::wire::{le16, le32, le64, tag_bytes, enc_scalar, enc_strraw, enc_payload, enc_entries,
    enc_elems, enc_field, enc_args, enc_proto};

verus! {

/// `post` is `pre` with `bytes` written at the write cursor.
pub open spec fn wrote(pre: Buffer, post: Buffer, bytes: Seq<u8>) -> bool {
    &&& post.data@ == store_bytes(pre.data@, pre.write_pos as int, bytes)
    &&& post.write_pos == pre.write_pos + bytes.len()
    &&& post.read_pos == pre.read_pos
}

/// `post` is `pre`, untouched.
pub open spec fn untouched(pre: Buffer, post: Buffer) -> bool {
    &&& post.data@ == pre.data@
    &&& post.write_pos == pre.write_pos
    &&& post.read_pos == pre.read_pos
}

/// The two little-endian bytes of `v`.
fn u16_le_bytes(v: u16) -> (r: Vec<u8>)
    ensures
        r@ == le16(v),
{
    let mut r: Vec<u8> = Vec::new();
    r.push((v % 256) as u8);
    r.push((v / 256) as u8);
    proof {
        assert(r@ =~= le16(v));
    }
    r
}

/// The four little-endian bytes of `v`.
fn u32_le_bytes(v: u32) -> (r: Vec<u8>)
    ensures
        r@ == le32(v),
{
    let mut r = u16_le_bytes((v % 0x10000) as u16);
    let mut hi = u16_le_bytes((v / 0x10000) as u16);
    r.append(&mut hi);
    proof {
        assert(r@ =~= le32(v));
    }
    r
}

/// The eight little-endian bytes of `v`.
fn u64_le_bytes(v: u64) -> (r: Vec<u8>)
    ensures
        r@ == le64(v),
{
    let mut r = u32_le_bytes((v % 0x1_0000_0000) as u32);
    let mut hi = u32_le_bytes((v / 0x1_0000_0000) as u32);
    r.append(&mut hi);
    proof {
        assert(r@ =~= le64(v));
    }
    r
}

/// The four bytes of a field tag.
fn tag_le_bytes(index: u16, code: u16) -> (r: Vec<u8>)
    ensures
        r@ == tag_bytes(index, code),
{
    let mut r = u16_le_bytes(index);
    let mut c = u16_le_bytes(code);
    r.append(&mut c);
    proof {
        assert(r@ =~= tag_bytes(index, code));
    }
    r
}

/// The little-endian payload of a scalar value.
fn build_scalar(value: &Value) -> (r: Vec<u8>)
    requires
        is_number_code(vm_code(value@)),
    ensures
        r@ == enc_scalar(value@),
{
    match value {
        Value::U8(x) => {
            let mut r: Vec<u8> = Vec::new();
            r.push(*x);
            proof {
                assert(r@ =~= enc_scalar(value@));
            }
            r
        },
        Value::I8(x) => {
            let mut r: Vec<u8> = Vec::new();
            r.push(*x as u8);
            proof {
                assert(r@ =~= enc_scalar(value@));
            }
            r
        },
        Value::U16(x) => u16_le_bytes(*x),
        Value::I16(x) => u16_le_bytes(*x as u16),
        Value::U32(x) => u32_le_bytes(*x),
        Value::I32(x) => u32_le_bytes(*x as u32),
        Value::F32(x) => u32_le_bytes(*x),
        Value::F64(x) => u64_le_bytes(*x),
        _ => unreached(),
    }
}

/// The length-prefixed payload of a string or blob value.
fn build_strraw(value: &Value) -> (r: RpResult<Vec<u8>>)
    requires
        vm_code(value@) == TYPE_STR || vm_code(value@) == TYPE_RAW,
    ensures
        match enc_strraw(value@) {
            Ok(bytes) => r matches Ok(out) && out@ == bytes,
            Err(k) => r matches Err(e) && e.kind() == k,
        },
{
    match value {
        Value::Str(s) => {
            let payload = s.as_str().as_bytes();
            if payload.len() > 0xFFFF {
                return Err(RpError::new(ErrorKind::BufferOverMaxError, "payload too long"));
            }
            let mut out = u16_le_bytes(payload.len() as u16);
            let mut i: usize = 0;
            #[verifier::loop_isolation(false)]
            while i < payload.len()
                invariant
                    0 <= i <= payload@.len(),
                    out@ == le16(payload@.len() as u16) + payload@.subrange(0, i as int),
                decreases payload@.len() - i,
            {
                out.push(payload[i]);
                i = i + 1;
            }
            proof {
                assert(out@ =~= le16(payload@.len() as u16) + payload@);
            }
            Ok(out)
        },
        Value::Raw(b) => {
            if b.len() > 0xFFFF {
                return Err(RpError::new(ErrorKind::BufferOverMaxError, "payload too long"));
            }
            let mut out = u16_le_bytes(b.len() as u16);
            let mut i: usize = 0;
            #[verifier::loop_isolation(false)]
            while i < b.len()
                invariant
                    0 <= i <= b@.len(),
                    out@ == le16(b@.len() as u16) + b@.subrange(0, i as int),
                decreases b@.len() - i,
            {
                out.push(b[i]);
                i = i + 1;
            }
            proof {
                assert(out@ =~= le16(b@.len() as u16) + b@);
            }
            Ok(out)
        },
        _ => unreached(),
    }
}

/// Builds the payload bytes of a value under a schema, or the first error.
fn build_payload(cfg: &Config, value: &Value) -> (r: RpResult<Vec<u8>>)
    ensures
        match enc_payload(*cfg, value@) {
            Ok(bytes) => r matches Ok(out) && out@ == bytes,
            Err(k) => r matches Err(e) && e.kind() == k,
        },
    decreases value, 0int,
{
    match value {
        Value::Null => Ok(Vec::new()),
        Value::U8(_) => Ok(build_scalar(value)),
        Value::I8(_) => Ok(build_scalar(value)),
        Value::U16(_) => Ok(build_scalar(value)),
        Value::I16(_) => Ok(build_scalar(value)),
        Value::U32(_) => Ok(build_scalar(value)),
        Value::I32(_) => Ok(build_scalar(value)),
        Value::F32(_) => Ok(build_scalar(value)),
        Value::F64(_) => Ok(build_scalar(value)),
        Value::Str(_) => build_strraw(value),
        Value::Raw(_) => build_strraw(value),
        Value::Dict(entries) => build_entries(cfg, entries),
        Value::VecU8(items) => build_elems(cfg, get_vec_elem_type(value), items),
        Value::VecI8(items) => build_elems(cfg, get_vec_elem_type(value), items),
        Value::VecU16(items) => build_elems(cfg, get_vec_elem_type(value), items),
        Value::VecI16(items) => build_elems(cfg, get_vec_elem_type(value), items),
        Value::VecU32(items) => build_elems(cfg, get_vec_elem_type(value), items),
        Value::VecI32(items) => build_elems(cfg, get_vec_elem_type(value), items),
        Value::VecF32(items) => build_elems(cfg, get_vec_elem_type(value), items),
        Value::VecF64(items) => build_elems(cfg, get_vec_elem_type(value), items),
        Value::VecStr(items) => build_elems(cfg, get_vec_elem_type(value), items),
        Value::VecRaw(items) => build_elems(cfg, get_vec_elem_type(value), items),
        Value::VecMap(items) => build_elems(cfg, get_vec_elem_type(value), items),
    }
}

/// Builds the framed map entries followed by the terminator tag.
fn build_entries(cfg: &Config, entries: &Vec<(String, Value)>) -> (r: RpResult<Vec<u8>>)
    ensures
        match enc_entries(*cfg, vm_of_entries(*entries, 0), 0) {
            Ok(bytes) => r matches Ok(out) && out@ == bytes,
            Err(k) => r matches Err(e) && e.kind() == k,
        },
    decreases entries, 1int,
{
    let ghost es = vm_of_entries(*entries, 0);
    proof {
        lemma_vm_of_entries(*entries, 0);
    }
    let mut out: Vec<u8> = Vec::new();
    let mut i: usize = 0;
    #[verifier::loop_isolation(false)]
    while i < entries.len()
        invariant
            0 <= i <= entries@.len(),
            enc_entries(*cfg, es, 0) == (match enc_entries(*cfg, es, i as int) {
                Ok(rest) => Ok::<Seq<u8>, ErrorKind>(out@ + rest),
                Err(k) => Err(k),
            }),
        decreases entries@.len() - i,
    {
        let ghost out0 = out@;
        let pair = &entries[i];
        proof {
            assert(es[i as int] == (pair.0@, vm_of(pair.1)));
        }
        match cfg.get_field_by_name(&pair.0) {
            None => {},
            Some(field) => {
                let dcode = get_type_by_name(field.pattern.as_str());
                let vcode = get_value_type(&pair.1);
                if vcode != dcode {
                    return Err(RpError::new(ErrorKind::TypeNotMatchError, "must match type"));
                }
                let mut tag = tag_le_bytes(field.index, dcode);
                out.append(&mut tag);
                match build_payload(cfg, &pair.1) {
                    Err(e) => {
                        return Err(e);
                    },
                    Ok(mut pb) => {
                        let ghost pbv = pb@;
                        out.append(&mut pb);
                        proof {
                            let rest_res = enc_entries(*cfg, es, i + 1);
                            if rest_res is Ok {
                                let rest = rest_res->Ok_0;
                                assert(out@ + rest =~= out0 + (tag_bytes(field.index, dcode)
                                    + pbv + rest));
                            }
                        }
                    },
                }
            },
        }
        i = i + 1;
    }
    let mut term = tag_le_bytes(0, TYPE_NULL);
    out.append(&mut term);
    Ok(out)
}

/// Builds the framed sequence items followed by the terminator tag.
fn build_elems(cfg: &Config, ecode: u16, items: &Vec<Value>) -> (r: RpResult<Vec<u8>>)
    ensures
        match enc_elems(*cfg, ecode, vm_of_list(*items, 0), 0) {
            Ok(bytes) => r matches Ok(out) && out@ == bytes,
            Err(k) => r matches Err(e) && e.kind() == k,
        },
    decreases items, 1int,
{
    let ghost ms = vm_of_list(*items, 0);
    proof {
        lemma_vm_of_list(*items, 0);
    }
    let mut out: Vec<u8> = Vec::new();
    let mut i: usize = 0;
    #[verifier::loop_isolation(false)]
    while i < items.len()
        invariant
            0 <= i <= items@.len(),
            enc_elems(*cfg, ecode, ms, 0) == (match enc_elems(*cfg, ecode, ms, i as int) {
                Ok(rest) => Ok::<Seq<u8>, ErrorKind>(out@ + rest),
                Err(k) => Err(k),
            }),
        decreases items@.len() - i,
    {
        let ghost out0 = out@;
        let item = &items[i];
        proof {
            assert(ms[i as int] == vm_of(items@[i as int]));
        }
        let vcode = get_value_type(item);
        if vcode != ecode {
            return Err(RpError::new(ErrorKind::TypeNotMatchError, "must match type"));
        }
        let mut tag = tag_le_bytes(0, ecode);
        out.append(&mut tag);
        match build_payload(cfg, item) {
            Err(e) => {
                return Err(e);
            },
            Ok(mut pb) => {
                let ghost pbv = pb@;
                out.append(&mut pb);
                proof {
                    let rest_res = enc_elems(*cfg, ecode, ms, i + 1);
                    if rest_res is Ok {
                        let rest = rest_res->Ok_0;
                        assert(out@ + rest =~= out0 + (tag_bytes(0, ecode) + pbv + rest));
                    }
                }
            },
        }
        i = i + 1;
    }
    let mut term = tag_le_bytes(0, TYPE_NULL);
    out.append(&mut term);
    Ok(out)
}

/// Builds one positional field: a tag with index 0 and the value's own type
/// code, then the value's payload.
fn build_field(cfg: &Config, value: &Value) -> (r: RpResult<Vec<u8>>)
    ensures
        match enc_field(*cfg, value@) {
            Ok(bytes) => r matches Ok(out) && out@ == bytes,
            Err(k) => r matches Err(e) && e.kind() == k,
        },
{
    let code = get_value_type(value);
    let mut out = tag_le_bytes(0, code);
    match build_payload(cfg, value) {
        Err(e) => Err(e),
        Ok(mut pb) => {
            out.append(&mut pb);
            Ok(out)
        },
    }
}

/// Writes the tag-free little-endian payload of a scalar value. The caller
/// has already framed the value, so only its bytes are appended.
pub fn encode_number(buffer: &mut Buffer, value: &Value) -> (r: RpResult<()>)
    requires
        is_number_code(vm_code(value@)),
        old(buffer).write_pos + enc_scalar(value@).len() <= usize::MAX,
    ensures
        r is Ok,
        wrote(*old(buffer), *final(buffer), enc_scalar(value@)),
{
    let bytes = build_scalar(value);
    buffer.write(bytes.as_slice());
    Ok(())
}

/// Writes the length-prefixed payload of a string or blob value: a 16-bit
/// little-endian byte count, then the bytes, unpadded — the prefix counts
/// exactly the bytes that follow, which keeps the framing byte-reversible.
/// A payload longer than the 16-bit prefix can state fails with
/// `BufferOverMaxError` and writes nothing.
pub fn encode_str_raw(buffer: &mut Buffer, value: &Value) -> (r: RpResult<()>)
    requires
        vm_code(value@) == TYPE_STR || vm_code(value@) == TYPE_RAW,
        enc_strraw(value@) matches Ok(bytes) ==> old(buffer).write_pos + bytes.len()
            <= usize::MAX,
    ensures
        match enc_strraw(value@) {
            Ok(bytes) => r is Ok && wrote(*old(buffer), *final(buffer), bytes),
            Err(k) => (r matches Err(e) && e.kind() == k) && untouched(
                *old(buffer),
                *final(buffer),
            ),
        },
{
    match build_strraw(value) {
        Err(e) => Err(e),
        Ok(bytes) => {
            buffer.write(bytes.as_slice());
            Ok(())
        },
    }
}

/// Writes the payload of a map: for each entry whose name the schema knows,
/// the schema's field tag and the entry's payload (an entry whose value does
/// not carry the declared type fails with `TypeNotMatchError`); entries with
/// unknown names are silently skipped; then the terminator tag. A failed
/// encode writes nothing.
pub fn encode_map(buffer: &mut Buffer, config: &Config, value: &Value) -> (r: RpResult<()>)
    requires
        value@ is Dict,
        enc_payload(*config, value@) matches Ok(bytes) ==> old(buffer).write_pos + bytes.len()
            <= usize::MAX,
    ensures
        match enc_payload(*config, value@) {
            Ok(bytes) => r is Ok && wrote(*old(buffer), *final(buffer), bytes),
            Err(k) => (r matches Err(e) && e.kind() == k) && untouched(
                *old(buffer),
                *final(buffer),
            ),
        },
{
    match build_payload(config, value) {
        Err(e) => Err(e),
        Ok(bytes) => {
            buffer.write(bytes.as_slice());
            Ok(())
        },
    }
}

/// Writes the field tag of a schema field, if one was found: its index and
/// its declared type code. Returns whether a tag was written.
pub fn write_field(buffer: &mut Buffer, field: Option<&Field>) -> (r: RpResult<bool>)
    requires
        old(buffer).write_pos + 4 <= usize::MAX,
    ensures
        match field {
            Some(f) => r matches Ok(true) && wrote(
                *old(buffer),
                *final(buffer),
                tag_bytes(f.index, code_of_name(f.pattern@)),
            ),
            None => r matches Ok(false) && untouched(*old(buffer), *final(buffer)),
        },
{
    match field {
        None => Ok(false),
        Some(f) => {
            let code = get_type_by_name(f.pattern.as_str());
            let bytes = tag_le_bytes(f.index, code);
            buffer.write(bytes.as_slice());
            Ok(true)
        },
    }
}

/// Writes one value as a positional field: a tag carrying index 0 and the
/// value's own type code, then the value's payload. A failed encode writes
/// nothing.
pub fn encode_field(buffer: &mut Buffer, config: &Config, value: &Value) -> (r: RpResult<()>)
    requires
        enc_field(*config, value@) matches Ok(bytes) ==> old(buffer).write_pos + bytes.len()
            <= usize::MAX,
    ensures
        match enc_field(*config, value@) {
            Ok(bytes) => r is Ok && wrote(*old(buffer), *final(buffer), bytes),
            Err(k) => (r matches Err(e) && e.kind() == k) && untouched(
                *old(buffer),
                *final(buffer),
            ),
        },
{
    match build_field(config, value) {
        Err(e) => Err(e),
        Ok(bytes) => {
            buffer.write(bytes.as_slice());
            Ok(())
        },
    }
}

/// Writes a protocol call: the length-prefixed name, each argument as a
/// positional field, then the terminator tag. An unknown protocol name
/// fails with `MissingError`, an argument count differing from the schema's
/// declaration with `TypeNotMatchError`; a failed encode writes nothing.
pub fn encode_proto(buffer: &mut Buffer, config: &Config, name: &String, infos: Vec<Value>) -> (r:
    RpResult<()>)
    requires
        enc_proto(*config, name@, vm_of_list(infos, 0)) matches Ok(bytes) ==> old(buffer).write_pos + bytes.len() <= usize::MAX,
    ensures
        match enc_proto(*config, name@, vm_of_list(infos, 0)) {
            Ok(bytes) => r is Ok && wrote(*old(buffer), *final(buffer), bytes),
            Err(k) => (r matches Err(e) && e.kind() == k) && untouched(
                *old(buffer),
                *final(buffer),
            ),
        },
{
    let ghost args = vm_of_list(infos, 0);
    proof {
        lemma_vm_of_list(infos, 0);
    }
    let proto = match config.get_proto_by_name(name) {
        None => {
            return Err(RpError::new(ErrorKind::MissingError, "missing the name protocol"));
        },
        Some(p) => p,
    };
    if proto.args.len() != infos.len() {
        return Err(
            RpError::new(ErrorKind::TypeNotMatchError, "the data num not match protocol args num"),
        );
    }
    let name_bytes = name.as_str().as_bytes();
    if name_bytes.len() > 0xFFFF {
        return Err(RpError::new(ErrorKind::BufferOverMaxError, "payload too long"));
    }
    let mut out = u16_le_bytes(name_bytes.len() as u16);
    let mut i: usize = 0;
    #[verifier::loop_isolation(false)]
    while i < name_bytes.len()
        invariant
            0 <= i <= name_bytes@.len(),
            out@ == le16(name_bytes@.len() as u16) + name_bytes@.subrange(0, i as int),
        decreases name_bytes@.len() - i,
    {
        out.push(name_bytes[i]);
        i = i + 1;
    }
    proof {
        assert(out@ =~= le16(name_bytes@.len() as u16) + name_bytes@);
        assert(enc_strraw(crate::value::ValueModel::Str(name@)) == Ok::<Seq<u8>, ErrorKind>(
            out@,
        ));
    }
    let ghost name_enc = out@;
    let mut k: usize = 0;
    #[verifier::loop_isolation(false)]
    while k < infos.len()
        invariant
            0 <= k <= infos@.len(),
            enc_args(*config, args, 0) == (match enc_args(*config, args, k as int) {
                Ok(rest) => Ok::<Seq<u8>, ErrorKind>(out@.skip(name_enc.len() as int) + rest),
                Err(kk) => Err(kk),
            }),
            out@.take(name_enc.len() as int) == name_enc,
            out@.len() >= name_enc.len(),
        decreases infos@.len() - k,
    {
        let ghost out0 = out@;
        proof {
            assert(args[k as int] == vm_of(infos@[k as int]));
        }
        match build_field(config, &infos[k]) {
            Err(e) => {
                return Err(e);
            },
            Ok(mut fb) => {
                proof {
                    assert((out@ + fb@).take(name_enc.len() as int) =~= out@.take(
                        name_enc.len() as int,
                    ));
                    assert((out@ + fb@).skip(name_enc.len() as int) =~= out@.skip(
                        name_enc.len() as int,
                    ) + fb@);
                }
                let ghost fbv = fb@;
                out.append(&mut fb);
                proof {
                    let rest_res = enc_args(*config, args, k + 1);
                    if rest_res is Ok {
                        let rest = rest_res->Ok_0;
                        assert(out@.skip(name_enc.len() as int) + rest =~= out0.skip(
                            name_enc.len() as int,
                        ) + (fbv + rest));
                    }
                }
            },
        }
        k = k + 1;
    }
    let mut term = tag_le_bytes(0, TYPE_NULL);
    proof {
        assert((out@ + term@).skip(name_enc.len() as int) =~= out@.skip(name_enc.len() as int)
            + term@);
        assert((out@ + term@).take(name_enc.len() as int) =~= out@.take(name_enc.len() as int));
    }
    out.append(&mut term);
    proof {
        assert(out@ =~= name_enc + out@.skip(name_enc.len() as int));
    }
    buffer.write(out.as_slice());
    Ok(())
}

} // verus!
