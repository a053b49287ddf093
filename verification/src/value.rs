//! The tagged value union: every encodable datum, together with its stable
//! 16-bit type code and the name table used by schemas.
//!
//! Floating-point values are carried as their raw IEEE-754 bit patterns
//! (`F32` holds the 32 bits of an `f32`, `F64` the 64 bits of an `f64`), and
//! the wire format transports exactly those bits little-endian in both
//! directions, so float payloads round-trip bit-for-bit. Converting between a
//! native float and its bit pattern is the caller's concern.

use vstd::prelude::*;
use vstd::utf8::{encode_utf8_valid_utf8,
    encode_utf8_decode_utf8};

verus! {

pub const TYPE_NULL: u16 = 0;

pub const TYPE_U8: u16 = 1;

pub const TYPE_I8: u16 = 2;

pub const TYPE_U16: u16 = 3;

pub const TYPE_I16: u16 = 4;

pub const TYPE_U32: u16 = 5;

pub const TYPE_I32: u16 = 6;

pub const TYPE_F32: u16 = 7;

pub const TYPE_F64: u16 = 8;

pub const TYPE_STR: u16 = 9;

pub const TYPE_RAW: u16 = 10;

pub const TYPE_MAP: u16 = 11;

pub const TYPE_VEC_U8: u16 = 21;

pub const TYPE_VEC_I8: u16 = 22;

pub const TYPE_VEC_U16: u16 = 23;

pub const TYPE_VEC_I16: u16 = 24;

pub const TYPE_VEC_U32: u16 = 25;

pub const TYPE_VEC_I32: u16 = 26;

pub const TYPE_VEC_F32: u16 = 27;

pub const TYPE_VEC_F64: u16 = 28;

pub const TYPE_VEC_STR: u16 = 29;

pub const TYPE_VEC_RAW: u16 = 30;

pub const TYPE_VEC_MAP: u16 = 31;

pub const STR_TYPE_NULL: &'static str = "null";

pub const STR_TYPE_U8: &'static str = "u8";

pub const STR_TYPE_I8: &'static str = "i8";

pub const STR_TYPE_U16: &'static str = "u16";

pub const STR_TYPE_I16: &'static str = "i16";

pub const STR_TYPE_U32: &'static str = "u32";

pub const STR_TYPE_I32: &'static str = "i32";

pub const STR_TYPE_F32: &'static str = "f32";

pub const STR_TYPE_F64: &'static str = "f64";

pub const STR_TYPE_STR: &'static str = "str";

pub const STR_TYPE_RAW: &'static str = "raw";

pub const STR_TYPE_MAP: &'static str = "map";

pub const STR_TYPE_VEC_U8: &'static str = "u8[]";

pub const STR_TYPE_VEC_I8: &'static str = "i8[]";

pub const STR_TYPE_VEC_U16: &'static str = "u16[]";

pub const STR_TYPE_VEC_I16: &'static str = "i16[]";

pub const STR_TYPE_VEC_U32: &'static str = "u32[]";

pub const STR_TYPE_VEC_I32: &'static str = "i32[]";

pub const STR_TYPE_VEC_F32: &'static str = "f32[]";

pub const STR_TYPE_VEC_F64: &'static str = "f64[]";

pub const STR_TYPE_VEC_STR: &'static str = "str[]";

pub const STR_TYPE_VEC_RAW: &'static str = "raw[]";

pub const STR_TYPE_VEC_MAP: &'static str = "map[]";

/// Every encodable datum. A map holds string-keyed entries with unique keys;
/// each sequence variant holds a homogeneous ordered list whose elements must
/// all carry the variant's declared element kind (enforced at encode time).
#[derive(Debug, PartialEq)]
pub enum Value {
    Null,
    U8(u8),
    I8(i8),
    U16(u16),
    I16(i16),
    U32(u32),
    I32(i32),
    /// The raw IEEE-754 bit pattern of an `f32`.
    F32(u32),
    /// The raw IEEE-754 bit pattern of an `f64`.
    F64(u64),
    Str(String),
    Raw(Vec<u8>),
    /// The string-keyed map variant.
    Dict(Vec<(String, Value)>),
    VecU8(Vec<Value>),
    VecI8(Vec<Value>),
    VecU16(Vec<Value>),
    VecI16(Vec<Value>),
    VecU32(Vec<Value>),
    VecI32(Vec<Value>),
    VecF32(Vec<Value>),
    VecF64(Vec<Value>),
    VecStr(Vec<Value>),
    VecRaw(Vec<Value>),
    VecMap(Vec<Value>),
}

/// The mathematical shape of a `Value`: strings become character sequences,
/// byte vectors become byte sequences, maps become sequences of key-value
/// pairs and sequence variants become sequences of models.
pub enum ValueModel {
    Null,
    U8(u8),
    I8(i8),
    U16(u16),
    I16(i16),
    U32(u32),
    I32(i32),
    F32(u32),
    F64(u64),
    Str(Seq<char>),
    Raw(Seq<u8>),
    /// The string-keyed map variant.
    Dict(Seq<(Seq<char>, ValueModel)>),
    VecU8(Seq<ValueModel>),
    VecI8(Seq<ValueModel>),
    VecU16(Seq<ValueModel>),
    VecI16(Seq<ValueModel>),
    VecU32(Seq<ValueModel>),
    VecI32(Seq<ValueModel>),
    VecF32(Seq<ValueModel>),
    VecF64(Seq<ValueModel>),
    VecStr(Seq<ValueModel>),
    VecRaw(Seq<ValueModel>),
    VecMap(Seq<ValueModel>),
}

/// The model of a `Value`.
pub open spec fn vm_of(v: Value) -> ValueModel
    decreases v, 0int,
{
    match v {
        Value::Null => ValueModel::Null,
        Value::U8(x) => ValueModel::U8(x),
        Value::I8(x) => ValueModel::I8(x),
        Value::U16(x) => ValueModel::U16(x),
        Value::I16(x) => ValueModel::I16(x),
        Value::U32(x) => ValueModel::U32(x),
        Value::I32(x) => ValueModel::I32(x),
        Value::F32(x) => ValueModel::F32(x),
        Value::F64(x) => ValueModel::F64(x),
        Value::Str(s) => ValueModel::Str(s@),
        Value::Raw(b) => ValueModel::Raw(b@),
        Value::Dict(entries) => ValueModel::Dict(vm_of_entries(entries, 0)),
        Value::VecU8(items) => ValueModel::VecU8(vm_of_list(items, 0)),
        Value::VecI8(items) => ValueModel::VecI8(vm_of_list(items, 0)),
        Value::VecU16(items) => ValueModel::VecU16(vm_of_list(items, 0)),
        Value::VecI16(items) => ValueModel::VecI16(vm_of_list(items, 0)),
        Value::VecU32(items) => ValueModel::VecU32(vm_of_list(items, 0)),
        Value::VecI32(items) => ValueModel::VecI32(vm_of_list(items, 0)),
        Value::VecF32(items) => ValueModel::VecF32(vm_of_list(items, 0)),
        Value::VecF64(items) => ValueModel::VecF64(vm_of_list(items, 0)),
        Value::VecStr(items) => ValueModel::VecStr(vm_of_list(items, 0)),
        Value::VecRaw(items) => ValueModel::VecRaw(vm_of_list(items, 0)),
        Value::VecMap(items) => ValueModel::VecMap(vm_of_list(items, 0)),
    }
}

/// The models of the entries of a map, from position `i` on.
pub open spec fn vm_of_entries(entries: Vec<(String, Value)>, i: int) -> Seq<
    (Seq<char>, ValueModel),
>
    decreases entries, entries@.len() - i,
{
    if i < 0 || i >= entries@.len() {
        Seq::empty()
    } else {
        seq![(entries@[i].0@, vm_of(entries@[i].1))] + vm_of_entries(entries, i + 1)
    }
}

/// The models of the items of a sequence, from position `i` on.
pub open spec fn vm_of_list(items: Vec<Value>, i: int) -> Seq<ValueModel>
    decreases items, items@.len() - i,
{
    if i < 0 || i >= items@.len() {
        Seq::empty()
    } else {
        seq![vm_of(items@[i])] + vm_of_list(items, i + 1)
    }
}

impl View for Value {
    type V = ValueModel;

    open spec fn view(&self) -> ValueModel {
        vm_of(*self)
    }
}

/// Length and pointwise contents of `vm_of_entries`.
pub proof fn lemma_vm_of_entries(entries: Vec<(String, Value)>, i: int)
    requires
        0 <= i <= entries@.len(),
    ensures
        vm_of_entries(entries, i).len() == entries@.len() - i,
        forall|j: int|
            0 <= j < entries@.len() - i ==> vm_of_entries(entries, i)[j] == (
            entries@[i + j].0@,
            vm_of(entries@[i + j].1),
            ),
    decreases entries@.len() - i,
{
    if i < entries@.len() {
        lemma_vm_of_entries(entries, i + 1);
    }
}

/// Length and pointwise contents of `vm_of_list`.
pub proof fn lemma_vm_of_list(items: Vec<Value>, i: int)
    requires
        0 <= i <= items@.len(),
    ensures
        vm_of_list(items, i).len() == items@.len() - i,
        forall|j: int|
            0 <= j < items@.len() - i ==> vm_of_list(items, i)[j] == vm_of(items@[i + j]),
    decreases items@.len() - i,
{
    if i < items@.len() {
        lemma_vm_of_list(items, i + 1);
    }
}

/// The stable type code of a model value.
pub open spec fn vm_code(m: ValueModel) -> u16 {
    match m {
        ValueModel::Null => TYPE_NULL,
        ValueModel::U8(_) => TYPE_U8,
        ValueModel::I8(_) => TYPE_I8,
        ValueModel::U16(_) => TYPE_U16,
        ValueModel::I16(_) => TYPE_I16,
        ValueModel::U32(_) => TYPE_U32,
        ValueModel::I32(_) => TYPE_I32,
        ValueModel::F32(_) => TYPE_F32,
        ValueModel::F64(_) => TYPE_F64,
        ValueModel::Str(_) => TYPE_STR,
        ValueModel::Raw(_) => TYPE_RAW,
        ValueModel::Dict(_) => TYPE_MAP,
        ValueModel::VecU8(_) => TYPE_VEC_U8,
        ValueModel::VecI8(_) => TYPE_VEC_I8,
        ValueModel::VecU16(_) => TYPE_VEC_U16,
        ValueModel::VecI16(_) => TYPE_VEC_I16,
        ValueModel::VecU32(_) => TYPE_VEC_U32,
        ValueModel::VecI32(_) => TYPE_VEC_I32,
        ValueModel::VecF32(_) => TYPE_VEC_F32,
        ValueModel::VecF64(_) => TYPE_VEC_F64,
        ValueModel::VecStr(_) => TYPE_VEC_STR,
        ValueModel::VecRaw(_) => TYPE_VEC_RAW,
        ValueModel::VecMap(_) => TYPE_VEC_MAP,
    }
}

/// The element type code of a sequence model (the null code otherwise).
pub open spec fn vm_elem_code(m: ValueModel) -> u16 {
    match m {
        ValueModel::VecU8(_) => TYPE_U8,
        ValueModel::VecI8(_) => TYPE_I8,
        ValueModel::VecU16(_) => TYPE_U16,
        ValueModel::VecI16(_) => TYPE_I16,
        ValueModel::VecU32(_) => TYPE_U32,
        ValueModel::VecI32(_) => TYPE_I32,
        ValueModel::VecF32(_) => TYPE_F32,
        ValueModel::VecF64(_) => TYPE_F64,
        ValueModel::VecStr(_) => TYPE_STR,
        ValueModel::VecRaw(_) => TYPE_RAW,
        ValueModel::VecMap(_) => TYPE_MAP,
        _ => TYPE_NULL,
    }
}

/// The sequence variant with the given element code, holding `items`.
pub open spec fn vm_vec_of(ecode: u16, items: Seq<ValueModel>) -> ValueModel {
    if ecode == TYPE_U8 {
        ValueModel::VecU8(items)
    } else if ecode == TYPE_I8 {
        ValueModel::VecI8(items)
    } else if ecode == TYPE_U16 {
        ValueModel::VecU16(items)
    } else if ecode == TYPE_I16 {
        ValueModel::VecI16(items)
    } else if ecode == TYPE_U32 {
        ValueModel::VecU32(items)
    } else if ecode == TYPE_I32 {
        ValueModel::VecI32(items)
    } else if ecode == TYPE_F32 {
        ValueModel::VecF32(items)
    } else if ecode == TYPE_F64 {
        ValueModel::VecF64(items)
    } else if ecode == TYPE_STR {
        ValueModel::VecStr(items)
    } else if ecode == TYPE_RAW {
        ValueModel::VecRaw(items)
    } else if ecode == TYPE_MAP {
        ValueModel::VecMap(items)
    } else {
        ValueModel::Null
    }
}

/// The type code whose name is `s` (the null code for unknown names).
pub open spec fn code_of_name(s: Seq<char>) -> u16 {
    if s == STR_TYPE_NULL@ {
        TYPE_NULL
    } else if s == STR_TYPE_U8@ {
        TYPE_U8
    } else if s == STR_TYPE_I8@ {
        TYPE_I8
    } else if s == STR_TYPE_U16@ {
        TYPE_U16
    } else if s == STR_TYPE_I16@ {
        TYPE_I16
    } else if s == STR_TYPE_U32@ {
        TYPE_U32
    } else if s == STR_TYPE_I32@ {
        TYPE_I32
    } else if s == STR_TYPE_F32@ {
        TYPE_F32
    } else if s == STR_TYPE_F64@ {
        TYPE_F64
    } else if s == STR_TYPE_STR@ {
        TYPE_STR
    } else if s == STR_TYPE_RAW@ {
        TYPE_RAW
    } else if s == STR_TYPE_MAP@ {
        TYPE_MAP
    } else if s == STR_TYPE_VEC_U8@ {
        TYPE_VEC_U8
    } else if s == STR_TYPE_VEC_I8@ {
        TYPE_VEC_I8
    } else if s == STR_TYPE_VEC_U16@ {
        TYPE_VEC_U16
    } else if s == STR_TYPE_VEC_I16@ {
        TYPE_VEC_I16
    } else if s == STR_TYPE_VEC_U32@ {
        TYPE_VEC_U32
    } else if s == STR_TYPE_VEC_I32@ {
        TYPE_VEC_I32
    } else if s == STR_TYPE_VEC_F32@ {
        TYPE_VEC_F32
    } else if s == STR_TYPE_VEC_F64@ {
        TYPE_VEC_F64
    } else if s == STR_TYPE_VEC_STR@ {
        TYPE_VEC_STR
    } else if s == STR_TYPE_VEC_RAW@ {
        TYPE_VEC_RAW
    } else if s == STR_TYPE_VEC_MAP@ {
        TYPE_VEC_MAP
    } else {
        TYPE_NULL
    }
}

/// The name of a type code (the null name for unknown codes).
pub open spec fn name_of_code(code: u16) -> Seq<char> {
    if code == TYPE_U8 {
        STR_TYPE_U8@
    } else if code == TYPE_I8 {
        STR_TYPE_I8@
    } else if code == TYPE_U16 {
        STR_TYPE_U16@
    } else if code == TYPE_I16 {
        STR_TYPE_I16@
    } else if code == TYPE_U32 {
        STR_TYPE_U32@
    } else if code == TYPE_I32 {
        STR_TYPE_I32@
    } else if code == TYPE_F32 {
        STR_TYPE_F32@
    } else if code == TYPE_F64 {
        STR_TYPE_F64@
    } else if code == TYPE_STR {
        STR_TYPE_STR@
    } else if code == TYPE_RAW {
        STR_TYPE_RAW@
    } else if code == TYPE_MAP {
        STR_TYPE_MAP@
    } else if code == TYPE_VEC_U8 {
        STR_TYPE_VEC_U8@
    } else if code == TYPE_VEC_I8 {
        STR_TYPE_VEC_I8@
    } else if code == TYPE_VEC_U16 {
        STR_TYPE_VEC_U16@
    } else if code == TYPE_VEC_I16 {
        STR_TYPE_VEC_I16@
    } else if code == TYPE_VEC_U32 {
        STR_TYPE_VEC_U32@
    } else if code == TYPE_VEC_I32 {
        STR_TYPE_VEC_I32@
    } else if code == TYPE_VEC_F32 {
        STR_TYPE_VEC_F32@
    } else if code == TYPE_VEC_F64 {
        STR_TYPE_VEC_F64@
    } else if code == TYPE_VEC_STR {
        STR_TYPE_VEC_STR@
    } else if code == TYPE_VEC_RAW {
        STR_TYPE_VEC_RAW@
    } else if code == TYPE_VEC_MAP {
        STR_TYPE_VEC_MAP@
    } else {
        STR_TYPE_NULL@
    }
}

/// A wire code normalized through the name table: known codes stay
/// themselves, unknown codes collapse to the null code.
pub open spec fn norm_code(code: u16) -> u16 {
    code_of_name(name_of_code(code))
}

/// Whether `code` names one of the eight fixed-width scalar kinds.
pub open spec fn is_number_code(code: u16) -> bool {
    TYPE_U8 <= code <= TYPE_F64
}


/// Whether `code` is one of the type codes the format defines.
pub open spec fn known_code(code: u16) -> bool {
    TYPE_U8 <= code <= TYPE_MAP || TYPE_VEC_U8 <= code <= TYPE_VEC_MAP
}

/// Normalization through the name table: a known code stays itself, any
/// other code collapses to the null code, and only those collapse to it.
#[verifier::rlimit(100)]
pub proof fn lemma_norm_code(code: u16)
    ensures
        norm_code(code) == if known_code(code) {
            code
        } else {
            TYPE_NULL
        },
        (name_of_code(code) == STR_TYPE_NULL@) <==> !known_code(code),
{
    reveal_strlit("null");
    reveal_strlit("u8");
    reveal_strlit("i8");
    reveal_strlit("u16");
    reveal_strlit("i16");
    reveal_strlit("u32");
    reveal_strlit("i32");
    reveal_strlit("f32");
    reveal_strlit("f64");
    reveal_strlit("str");
    reveal_strlit("raw");
    reveal_strlit("map");
    reveal_strlit("u8[]");
    reveal_strlit("i8[]");
    reveal_strlit("u16[]");
    reveal_strlit("i16[]");
    reveal_strlit("u32[]");
    reveal_strlit("i32[]");
    reveal_strlit("f32[]");
    reveal_strlit("f64[]");
    reveal_strlit("str[]");
    reveal_strlit("raw[]");
    reveal_strlit("map[]");
    assert("null"@.len() == 4);
    assert("null"@[0] == 'n');
    assert("null"@[1] == 'u');
    assert("u8"@.len() == 2);
    assert("u8"@[0] == 'u');
    assert("u8"@[1] == '8');
    assert("i8"@.len() == 2);
    assert("i8"@[0] == 'i');
    assert("i8"@[1] == '8');
    assert("u16"@.len() == 3);
    assert("u16"@[0] == 'u');
    assert("u16"@[1] == '1');
    assert("i16"@.len() == 3);
    assert("i16"@[0] == 'i');
    assert("i16"@[1] == '1');
    assert("u32"@.len() == 3);
    assert("u32"@[0] == 'u');
    assert("u32"@[1] == '3');
    assert("i32"@.len() == 3);
    assert("i32"@[0] == 'i');
    assert("i32"@[1] == '3');
    assert("f32"@.len() == 3);
    assert("f32"@[0] == 'f');
    assert("f32"@[1] == '3');
    assert("f64"@.len() == 3);
    assert("f64"@[0] == 'f');
    assert("f64"@[1] == '6');
    assert("str"@.len() == 3);
    assert("str"@[0] == 's');
    assert("str"@[1] == 't');
    assert("raw"@.len() == 3);
    assert("raw"@[0] == 'r');
    assert("raw"@[1] == 'a');
    assert("map"@.len() == 3);
    assert("map"@[0] == 'm');
    assert("map"@[1] == 'a');
    assert("u8[]"@.len() == 4);
    assert("u8[]"@[0] == 'u');
    assert("u8[]"@[1] == '8');
    assert("i8[]"@.len() == 4);
    assert("i8[]"@[0] == 'i');
    assert("i8[]"@[1] == '8');
    assert("u16[]"@.len() == 5);
    assert("u16[]"@[0] == 'u');
    assert("u16[]"@[1] == '1');
    assert("i16[]"@.len() == 5);
    assert("i16[]"@[0] == 'i');
    assert("i16[]"@[1] == '1');
    assert("u32[]"@.len() == 5);
    assert("u32[]"@[0] == 'u');
    assert("u32[]"@[1] == '3');
    assert("i32[]"@.len() == 5);
    assert("i32[]"@[0] == 'i');
    assert("i32[]"@[1] == '3');
    assert("f32[]"@.len() == 5);
    assert("f32[]"@[0] == 'f');
    assert("f32[]"@[1] == '3');
    assert("f64[]"@.len() == 5);
    assert("f64[]"@[0] == 'f');
    assert("f64[]"@[1] == '6');
    assert("str[]"@.len() == 5);
    assert("str[]"@[0] == 's');
    assert("str[]"@[1] == 't');
    assert("raw[]"@.len() == 5);
    assert("raw[]"@[0] == 'r');
    assert("raw[]"@[1] == 'a');
    assert("map[]"@.len() == 5);
    assert("map[]"@[0] == 'm');
    assert("map[]"@[1] == 'a');
}

/// String equality, decided byte by byte.
pub fn str_eq(a: &str, b: &str) -> (r: bool)
    ensures
        r == (a@ == b@),
{
    let ab = a.as_bytes();
    let bb = b.as_bytes();
    proof {
        encode_utf8_valid_utf8(a@);
        encode_utf8_valid_utf8(b@);
        encode_utf8_decode_utf8(a@);
        encode_utf8_decode_utf8(b@);
    }
    if ab.len() != bb.len() {
        return false;
    }
    let mut i: usize = 0;
    #[verifier::loop_isolation(false)]
    while i < ab.len()
        invariant
            0 <= i <= ab@.len(),
            forall|j: int| 0 <= j < i ==> ab@[j] == bb@[j],
        decreases ab@.len() - i,
    {
        if ab[i] != bb[i] {
            return false;
        }
        i = i + 1;
    }
    proof {
        assert(ab@ =~= bb@);
    }
    true
}

impl From<u8> for Value {
    fn from(value: u8) -> (r: Value) {
        Value::U8(value)
    }
}

impl vstd::std_specs::convert::FromSpecImpl<u8> for Value {
    open spec fn obeys_from_spec() -> bool {
        true
    }

    open spec fn from_spec(value: u8) -> Value {
        Value::U8(value)
    }
}

impl From<i8> for Value {
    fn from(value: i8) -> (r: Value) {
        Value::I8(value)
    }
}

impl vstd::std_specs::convert::FromSpecImpl<i8> for Value {
    open spec fn obeys_from_spec() -> bool {
        true
    }

    open spec fn from_spec(value: i8) -> Value {
        Value::I8(value)
    }
}

impl From<u16> for Value {
    fn from(value: u16) -> (r: Value) {
        Value::U16(value)
    }
}

impl vstd::std_specs::convert::FromSpecImpl<u16> for Value {
    open spec fn obeys_from_spec() -> bool {
        true
    }

    open spec fn from_spec(value: u16) -> Value {
        Value::U16(value)
    }
}

impl From<i16> for Value {
    fn from(value: i16) -> (r: Value) {
        Value::I16(value)
    }
}

impl vstd::std_specs::convert::FromSpecImpl<i16> for Value {
    open spec fn obeys_from_spec() -> bool {
        true
    }

    open spec fn from_spec(value: i16) -> Value {
        Value::I16(value)
    }
}

impl From<u32> for Value {
    fn from(value: u32) -> (r: Value) {
        Value::U32(value)
    }
}

impl vstd::std_specs::convert::FromSpecImpl<u32> for Value {
    open spec fn obeys_from_spec() -> bool {
        true
    }

    open spec fn from_spec(value: u32) -> Value {
        Value::U32(value)
    }
}

impl From<i32> for Value {
    fn from(value: i32) -> (r: Value) {
        Value::I32(value)
    }
}

impl vstd::std_specs::convert::FromSpecImpl<i32> for Value {
    open spec fn obeys_from_spec() -> bool {
        true
    }

    open spec fn from_spec(value: i32) -> Value {
        Value::I32(value)
    }
}

impl From<String> for Value {
    fn from(value: String) -> (r: Value) {
        Value::Str(value)
    }
}

impl vstd::std_specs::convert::FromSpecImpl<String> for Value {
    open spec fn obeys_from_spec() -> bool {
        true
    }

    open spec fn from_spec(value: String) -> Value {
        Value::Str(value)
    }
}

impl From<Vec<u8>> for Value {
    fn from(value: Vec<u8>) -> (r: Value) {
        Value::Raw(value)
    }
}

impl vstd::std_specs::convert::FromSpecImpl<Vec<u8>> for Value {
    open spec fn obeys_from_spec() -> bool {
        true
    }

    open spec fn from_spec(value: Vec<u8>) -> Value {
        Value::Raw(value)
    }
}

impl From<Vec<(String, Value)>> for Value {
    fn from(value: Vec<(String, Value)>) -> (r: Value) {
        Value::Dict(value)
    }
}

impl vstd::std_specs::convert::FromSpecImpl<Vec<(String, Value)>> for Value {
    open spec fn obeys_from_spec() -> bool {
        true
    }

    open spec fn from_spec(value: Vec<(String, Value)>) -> Value {
        Value::Dict(value)
    }
}

/// The element type code a sequence value declares (the null code for
/// non-sequence values).
pub fn get_vec_elem_type(value: &Value) -> (r: u16)
    ensures
        r == vm_elem_code(value@),
{
    match value {
        Value::VecU8(_) => TYPE_U8,
        Value::VecI8(_) => TYPE_I8,
        Value::VecU16(_) => TYPE_U16,
        Value::VecI16(_) => TYPE_I16,
        Value::VecU32(_) => TYPE_U32,
        Value::VecI32(_) => TYPE_I32,
        Value::VecF32(_) => TYPE_F32,
        Value::VecF64(_) => TYPE_F64,
        Value::VecStr(_) => TYPE_STR,
        Value::VecRaw(_) => TYPE_RAW,
        Value::VecMap(_) => TYPE_MAP,
        _ => TYPE_NULL,
    }
}

/// The stable type code of a value.
pub fn get_value_type(value: &Value) -> (r: u16)
    ensures
        r == vm_code(value@),
{
    match value {
        Value::U8(_) => TYPE_U8,
        Value::I8(_) => TYPE_I8,
        Value::U16(_) => TYPE_U16,
        Value::I16(_) => TYPE_I16,
        Value::U32(_) => TYPE_U32,
        Value::I32(_) => TYPE_I32,
        Value::F32(_) => TYPE_F32,
        Value::F64(_) => TYPE_F64,
        Value::Str(_) => TYPE_STR,
        Value::Raw(_) => TYPE_RAW,
        Value::Dict(_) => TYPE_MAP,
        Value::VecU8(_) => TYPE_VEC_U8,
        Value::VecI8(_) => TYPE_VEC_I8,
        Value::VecU16(_) => TYPE_VEC_U16,
        Value::VecI16(_) => TYPE_VEC_I16,
        Value::VecU32(_) => TYPE_VEC_U32,
        Value::VecI32(_) => TYPE_VEC_I32,
        Value::VecF32(_) => TYPE_VEC_F32,
        Value::VecF64(_) => TYPE_VEC_F64,
        Value::VecStr(_) => TYPE_VEC_STR,
        Value::VecRaw(_) => TYPE_VEC_RAW,
        Value::VecMap(_) => TYPE_VEC_MAP,
        Value::Null => TYPE_NULL,
    }
}

/// The type code whose name is `name` (the null code for unknown names).
pub fn get_type_by_name(name: &str) -> (r: u16)
    ensures
        r == code_of_name(name@),
{
    if str_eq(name, STR_TYPE_NULL) {
        TYPE_NULL
    } else if str_eq(name, STR_TYPE_U8) {
        TYPE_U8
    } else if str_eq(name, STR_TYPE_I8) {
        TYPE_I8
    } else if str_eq(name, STR_TYPE_U16) {
        TYPE_U16
    } else if str_eq(name, STR_TYPE_I16) {
        TYPE_I16
    } else if str_eq(name, STR_TYPE_U32) {
        TYPE_U32
    } else if str_eq(name, STR_TYPE_I32) {
        TYPE_I32
    } else if str_eq(name, STR_TYPE_F32) {
        TYPE_F32
    } else if str_eq(name, STR_TYPE_F64) {
        TYPE_F64
    } else if str_eq(name, STR_TYPE_STR) {
        TYPE_STR
    } else if str_eq(name, STR_TYPE_RAW) {
        TYPE_RAW
    } else if str_eq(name, STR_TYPE_MAP) {
        TYPE_MAP
    } else if str_eq(name, STR_TYPE_VEC_U8) {
        TYPE_VEC_U8
    } else if str_eq(name, STR_TYPE_VEC_I8) {
        TYPE_VEC_I8
    } else if str_eq(name, STR_TYPE_VEC_U16) {
        TYPE_VEC_U16
    } else if str_eq(name, STR_TYPE_VEC_I16) {
        TYPE_VEC_I16
    } else if str_eq(name, STR_TYPE_VEC_U32) {
        TYPE_VEC_U32
    } else if str_eq(name, STR_TYPE_VEC_I32) {
        TYPE_VEC_I32
    } else if str_eq(name, STR_TYPE_VEC_F32) {
        TYPE_VEC_F32
    } else if str_eq(name, STR_TYPE_VEC_F64) {
        TYPE_VEC_F64
    } else if str_eq(name, STR_TYPE_VEC_STR) {
        TYPE_VEC_STR
    } else if str_eq(name, STR_TYPE_VEC_RAW) {
        TYPE_VEC_RAW
    } else if str_eq(name, STR_TYPE_VEC_MAP) {
        TYPE_VEC_MAP
    } else {
        TYPE_NULL
    }
}

/// The name of a type code (the null name for unknown codes).
pub fn get_name_by_type(index: u16) -> (r: &'static str)
    ensures
        r@ == name_of_code(index),
{
    if index == TYPE_U8 {
        STR_TYPE_U8
    } else if index == TYPE_I8 {
        STR_TYPE_I8
    } else if index == TYPE_U16 {
        STR_TYPE_U16
    } else if index == TYPE_I16 {
        STR_TYPE_I16
    } else if index == TYPE_U32 {
        STR_TYPE_U32
    } else if index == TYPE_I32 {
        STR_TYPE_I32
    } else if index == TYPE_F32 {
        STR_TYPE_F32
    } else if index == TYPE_F64 {
        STR_TYPE_F64
    } else if index == TYPE_STR {
        STR_TYPE_STR
    } else if index == TYPE_RAW {
        STR_TYPE_RAW
    } else if index == TYPE_MAP {
        STR_TYPE_MAP
    } else if index == TYPE_VEC_U8 {
        STR_TYPE_VEC_U8
    } else if index == TYPE_VEC_I8 {
        STR_TYPE_VEC_I8
    } else if index == TYPE_VEC_U16 {
        STR_TYPE_VEC_U16
    } else if index == TYPE_VEC_I16 {
        STR_TYPE_VEC_I16
    } else if index == TYPE_VEC_U32 {
        STR_TYPE_VEC_U32
    } else if index == TYPE_VEC_I32 {
        STR_TYPE_VEC_I32
    } else if index == TYPE_VEC_F32 {
        STR_TYPE_VEC_F32
    } else if index == TYPE_VEC_F64 {
        STR_TYPE_VEC_F64
    } else if index == TYPE_VEC_STR {
        STR_TYPE_VEC_STR
    } else if index == TYPE_VEC_RAW {
        STR_TYPE_VEC_RAW
    } else if index == TYPE_VEC_MAP {
        STR_TYPE_VEC_MAP
    } else {
        STR_TYPE_NULL
    }
}

} // verus!
