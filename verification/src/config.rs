//! The schema: an immutable mapping from field name to (index, type name),
//! from index back to field name, and from protocol name to its ordered,
//! typed argument list. Built once and only read afterwards.
//!
//! Mappings are kept as association lists in insertion order with lookup by
//! first match, so every lookup is a plain function of the construction
//! input; schemas with duplicate names or indices are the caller's
//! responsibility, as is an index of 0 on a non-null field.

use vstd::prelude::*;
use crate::value::str_eq;

verus! {

/// A field definition: a 16-bit wire index and the name of its declared type.
#[derive(Debug)]
pub struct Field {
    pub index: u16,
    pub pattern: String,
}

/// A protocol definition: its declared message type and the names of the
/// types of its ordered arguments.
#[derive(Debug)]
pub struct Proto {
    pub msg_type: String,
    pub args: Vec<String>,
}

/// The schema consumed by the encoder and the decoder.
#[derive(Debug)]
pub struct Config {
    pub field: Vec<(String, Field)>,
    pub proto: Vec<(String, Proto)>,
    pub index_field: Vec<(u16, String)>,
    pub msg_proto: Vec<(String, String)>,
}

impl Field {
    /// Whether this field is the reserved null-field sentinel shape: index 0
    /// and the null type name.
    pub open spec fn spec_is_null_type(&self) -> bool {
        self.index == 0 && self.pattern@ == crate::value::STR_TYPE_NULL@
    }

    /// The reserved null-field sentinel that terminates maps, sequences and
    /// protocol argument lists.
    pub fn new_null() -> (r: Field)
        ensures
            r.index == 0,
            r.pattern@ == crate::value::STR_TYPE_NULL@,
            r.spec_is_null_type(),
    {
        Field { index: 0, pattern: crate::value::STR_TYPE_NULL.to_owned() }
    }

    /// Whether this field is the null-field sentinel.
    pub fn is_null_type(&self) -> (r: bool)
        ensures
            r == self.spec_is_null_type(),
    {
        self.index == 0 && str_eq(crate::value::STR_TYPE_NULL, self.pattern.as_str())
    }

    /// A field with index 0 and the given type name.
    pub fn new(pattern: String) -> (r: Field)
        ensures
            r.index == 0,
            r.pattern == pattern,
    {
        Field { index: 0, pattern }
    }
}

/// First-match lookup of `key` in the string-keyed association list `s`,
/// starting at position `i`.
pub open spec fn assoc_str<T>(s: Seq<(String, T)>, key: Seq<char>, i: int) -> Option<T>
    decreases s.len() - i,
{
    if i < 0 || i >= s.len() {
        None
    } else if s[i].0@ == key {
        Some(s[i].1)
    } else {
        assoc_str(s, key, i + 1)
    }
}

/// First-match lookup of `key` in the index-keyed association list `s`,
/// starting at position `i`.
pub open spec fn assoc_idx<T>(s: Seq<(u16, T)>, key: u16, i: int) -> Option<T>
    decreases s.len() - i,
{
    if i < 0 || i >= s.len() {
        None
    } else if s[i].0 == key {
        Some(s[i].1)
    } else {
        assoc_idx(s, key, i + 1)
    }
}

impl Config {
    /// The field definition a name maps to, if any.
    pub open spec fn spec_field_by_name(&self, name: Seq<char>) -> Option<Field> {
        assoc_str(self.field@, name, 0)
    }

    /// The field name a wire index maps to, if any.
    pub open spec fn spec_index_name(&self, index: u16) -> Option<String> {
        assoc_idx(self.index_field@, index, 0)
    }

    /// The protocol definition a name maps to, if any.
    pub open spec fn spec_proto_by_name(&self, name: Seq<char>) -> Option<Proto> {
        assoc_str(self.proto@, name, 0)
    }

    /// The declared message type of a protocol, if any.
    pub open spec fn spec_msg_type(&self, name: Seq<char>) -> Option<String> {
        assoc_str(self.msg_proto@, name, 0)
    }

    /// A schema that knows no fields and no protocols.
    pub fn new_empty() -> (r: Config)
        ensures
            r.field@ == Seq::<(String, Field)>::empty(),
            r.proto@ == Seq::<(String, Proto)>::empty(),
            r.index_field@ == Seq::<(u16, String)>::empty(),
            r.msg_proto@ == Seq::<(String, String)>::empty(),
    {
        Config { field: Vec::new(), proto: Vec::new(), index_field: Vec::new(), msg_proto: Vec::new() }
    }

    /// Builds a schema from the two name-keyed mappings, deriving the
    /// index-to-name and protocol-to-message-type tables.
    pub fn new_from_map(field: Vec<(String, Field)>, proto: Vec<(String, Proto)>) -> (r: Config)
        ensures
            r.field@ == field@,
            r.proto@ == proto@,
            r.index_field@.len() == field@.len(),
            forall|j: int|
                0 <= j < field@.len() ==> #[trigger] r.index_field@[j].0 == field@[j].1.index
                    && r.index_field@[j].1@ == field@[j].0@,
            r.msg_proto@.len() == proto@.len(),
            forall|j: int|
                0 <= j < proto@.len() ==> #[trigger] r.msg_proto@[j].0@ == proto@[j].0@
                    && r.msg_proto@[j].1@ == proto@[j].1.msg_type@,
    {
        let mut index_field: Vec<(u16, String)> = Vec::new();
        let mut msg_proto: Vec<(String, String)> = Vec::new();
        let mut i: usize = 0;
        #[verifier::loop_isolation(false)]
        while i < field.len()
            invariant
                0 <= i <= field@.len(),
                index_field@.len() == i,
                forall|j: int|
                    0 <= j < i ==> #[trigger] index_field@[j].0 == field@[j].1.index
                        && index_field@[j].1@ == field@[j].0@,
            decreases field@.len() - i,
        {
            let pair = &field[i];
            index_field.push((pair.1.index, pair.0.clone()));
            i = i + 1;
        }
        let mut k: usize = 0;
        #[verifier::loop_isolation(false)]
        while k < proto.len()
            invariant
                0 <= k <= proto@.len(),
                msg_proto@.len() == k,
                forall|j: int|
                    0 <= j < k ==> #[trigger] msg_proto@[j].0@ == proto@[j].0@
                        && msg_proto@[j].1@ == proto@[j].1.msg_type@,
            decreases proto@.len() - k,
        {
            let pair = &proto[k];
            msg_proto.push((pair.0.clone(), pair.1.msg_type.clone()));
            k = k + 1;
        }
        Config { field, proto, index_field, msg_proto }
    }

    /// Looks a field definition up by name.
    pub fn get_field_by_name(&self, name: &String) -> (r: Option<&Field>)
        ensures
            match r {
                Some(f) => self.spec_field_by_name(name@) == Some(*f),
                None => self.spec_field_by_name(name@) is None,
            },
    {
        let mut i: usize = 0;
        #[verifier::loop_isolation(false)]
        while i < self.field.len()
            invariant
                0 <= i <= self.field@.len(),
                self.spec_field_by_name(name@) == assoc_str(self.field@, name@, i as int),
            decreases self.field@.len() - i,
        {
            let pair = &self.field[i];
            if pair.0 == *name {
                return Some(&pair.1);
            }
            i = i + 1;
        }
        None
    }

    /// Looks a field definition up by wire index: first the index-to-name
    /// table, then the name.
    pub fn get_field_by_index(&self, index: &u16) -> (r: Option<&Field>)
        ensures
            match self.spec_index_name(*index) {
                Some(name) => match r {
                    Some(f) => self.spec_field_by_name(name@) == Some(*f),
                    None => self.spec_field_by_name(name@) is None,
                },
                None => r is None,
            },
    {
        let name = match self.get_field_index_name(index) {
            Some(name) => name,
            None => {
                return None;
            },
        };
        self.get_field_by_name(name)
    }

    /// Looks a protocol definition up by name.
    pub fn get_proto_by_name(&self, name: &String) -> (r: Option<&Proto>)
        ensures
            match r {
                Some(p) => self.spec_proto_by_name(name@) == Some(*p),
                None => self.spec_proto_by_name(name@) is None,
            },
    {
        let mut i: usize = 0;
        #[verifier::loop_isolation(false)]
        while i < self.proto.len()
            invariant
                0 <= i <= self.proto@.len(),
                self.spec_proto_by_name(name@) == assoc_str(self.proto@, name@, i as int),
            decreases self.proto@.len() - i,
        {
            let pair = &self.proto[i];
            if pair.0 == *name {
                return Some(&pair.1);
            }
            i = i + 1;
        }
        None
    }

    /// Looks the field name of a wire index up.
    pub fn get_field_index_name(&self, index: &u16) -> (r: Option<&String>)
        ensures
            match r {
                Some(name) => self.spec_index_name(*index) == Some(*name),
                None => self.spec_index_name(*index) is None,
            },
    {
        let mut i: usize = 0;
        #[verifier::loop_isolation(false)]
        while i < self.index_field.len()
            invariant
                0 <= i <= self.index_field@.len(),
                self.spec_index_name(*index) == assoc_idx(self.index_field@, *index, i as int),
            decreases self.index_field@.len() - i,
        {
            let pair = &self.index_field[i];
            if pair.0 == *index {
                return Some(&pair.1);
            }
            i = i + 1;
        }
        None
    }

    /// Looks the declared message type of a protocol up.
    pub fn get_proto_msg_type(&self, name: &String) -> (r: Option<&String>)
        ensures
            match r {
                Some(t) => self.spec_msg_type(name@) == Some(*t),
                None => self.spec_msg_type(name@) is None,
            },
    {
        let mut i: usize = 0;
        #[verifier::loop_isolation(false)]
        while i < self.msg_proto.len()
            invariant
                0 <= i <= self.msg_proto@.len(),
                self.spec_msg_type(name@) == assoc_str(self.msg_proto@, name@, i as int),
            decreases self.msg_proto@.len() - i,
        {
            let pair = &self.msg_proto[i];
            if pair.0 == *name {
                return Some(&pair.1);
            }
            i = i + 1;
        }
        None
    }
}

} // verus!
