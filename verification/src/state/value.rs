//! The values that the engine stores.

use crate::state::dash::{byte_map_clone, byte_map_contents, byte_map_new, byte_set_clone, byte_set_contents, byte_set_new};
use crate::state::KeyType;
use dashmap::{DashMap, DashSet};
use vstd::prelude::*;
use vstd::std_specs::convert::FromSpecImpl;

verus! {

/// A stored value.
///
/// A float is held by its IEEE-754 bit pattern, which is what the engine
/// stores, sends and receives of it.
#[derive(Debug)]
pub enum Value {
    Boolean(bool),
    Bytes(Vec<u8>),
    Float(u64),
    Integer(i64),
    List(Vec<Vec<u8>>),
    ByteMap(DashMap<Vec<u8>, Vec<u8>>),
    ByteSet(DashSet<Vec<u8>>),
    String(String),
}

/// What a stored value is, mathematically.
pub enum ValueView {
    Boolean(bool),
    Bytes(Seq<u8>),
    Float(u64),
    Integer(i64),
    List(Seq<Seq<u8>>),
    ByteMap(Map<Seq<u8>, Seq<u8>>),
    ByteSet(Set<Seq<u8>>),
    String(Seq<char>),
}

/// The byte strings of a list, as sequences.
pub open spec fn list_view(l: Seq<Vec<u8>>) -> Seq<Seq<u8>> {
    l.map_values(|x: Vec<u8>| x@)
}

impl View for Value {
    type V = ValueView;

    open spec fn view(&self) -> ValueView {
        match self {
            Value::Boolean(b) => ValueView::Boolean(*b),
            Value::Bytes(b) => ValueView::Bytes(b@),
            Value::Float(f) => ValueView::Float(*f),
            Value::Integer(i) => ValueView::Integer(*i),
            Value::List(l) => ValueView::List(list_view(l@)),
            Value::ByteMap(m) => ValueView::ByteMap(byte_map_contents(*m)),
            Value::ByteSet(s) => ValueView::ByteSet(byte_set_contents(*s)),
            Value::String(s) => ValueView::String(s@),
        }
    }
}

impl From<bool> for Value {
    fn from(value: bool) -> (r: Value) {
        Value::Boolean(value)
    }
}

impl FromSpecImpl<bool> for Value {
    open spec fn obeys_from_spec() -> bool {
        true
    }

    open spec fn from_spec(value: bool) -> Value {
        Value::Boolean(value)
    }
}

impl From<Vec<u8>> for Value {
    fn from(value: Vec<u8>) -> (r: Value) {
        Value::Bytes(value)
    }
}

impl FromSpecImpl<Vec<u8>> for Value {
    open spec fn obeys_from_spec() -> bool {
        true
    }

    open spec fn from_spec(value: Vec<u8>) -> Value {
        Value::Bytes(value)
    }
}

impl From<i64> for Value {
    fn from(value: i64) -> (r: Value) {
        Value::Integer(value)
    }
}

impl FromSpecImpl<i64> for Value {
    open spec fn obeys_from_spec() -> bool {
        true
    }

    open spec fn from_spec(value: i64) -> Value {
        Value::Integer(value)
    }
}

impl From<Vec<Vec<u8>>> for Value {
    fn from(value: Vec<Vec<u8>>) -> (r: Value) {
        Value::List(value)
    }
}

impl FromSpecImpl<Vec<Vec<u8>>> for Value {
    open spec fn obeys_from_spec() -> bool {
        true
    }

    open spec fn from_spec(value: Vec<Vec<u8>>) -> Value {
        Value::List(value)
    }
}

impl From<DashMap<Vec<u8>, Vec<u8>>> for Value {
    fn from(value: DashMap<Vec<u8>, Vec<u8>>) -> (r: Value) {
        Value::ByteMap(value)
    }
}

impl FromSpecImpl<DashMap<Vec<u8>, Vec<u8>>> for Value {
    open spec fn obeys_from_spec() -> bool {
        true
    }

    open spec fn from_spec(value: DashMap<Vec<u8>, Vec<u8>>) -> Value {
        Value::ByteMap(value)
    }
}

impl From<DashSet<Vec<u8>>> for Value {
    fn from(value: DashSet<Vec<u8>>) -> (r: Value) {
        Value::ByteSet(value)
    }
}

impl FromSpecImpl<DashSet<Vec<u8>>> for Value {
    open spec fn obeys_from_spec() -> bool {
        true
    }

    open spec fn from_spec(value: DashSet<Vec<u8>>) -> Value {
        Value::ByteSet(value)
    }
}

impl From<String> for Value {
    fn from(value: String) -> (r: Value) {
        Value::String(value)
    }
}

impl FromSpecImpl<String> for Value {
    open spec fn obeys_from_spec() -> bool {
        true
    }

    open spec fn from_spec(value: String) -> Value {
        Value::String(value)
    }
}

/// A copy of a byte string.
pub fn copy_bytes(b: &[u8]) -> (r: Vec<u8>)
    ensures
        r@ == b@,
{
    vstd::slice::slice_to_vec(b)
}

/// A copy of a list of byte strings.
pub fn copy_list(l: &[Vec<u8>]) -> (r: Vec<Vec<u8>>)
    ensures
        list_view(r@) == list_view(l@),
{
    let mut r: Vec<Vec<u8>> = Vec::new();
    let mut i: usize = 0;
    while i < l.len()
        invariant
            i <= l@.len(),
            list_view(r@) == list_view(l@.take(i as int)),
        decreases l@.len() - i,
    {
        let item = copy_bytes(l[i].as_slice());
        assert(item@ == l@[i as int]@);
        r.push(item);
        assert(l@.take(i + 1) =~= l@.take(i as int).push(l@[i as int]));
        assert(list_view(r@) =~= list_view(l@.take(i as int)).push(item@));
        assert(list_view(l@.take(i + 1)) =~= list_view(l@.take(i as int)).push(l@[i as int]@));
        i = i + 1;
    }
    assert(l@.take(l@.len() as int) =~= l@);
    r
}

impl Value {
    /// The key type of a value.
    pub open spec fn spec_kind(&self) -> KeyType {
        match self {
            Value::Boolean(_) => KeyType::Boolean,
            Value::Bytes(_) => KeyType::Bytes,
            Value::Float(_) => KeyType::Float,
            Value::Integer(_) => KeyType::Integer,
            Value::List(_) => KeyType::List,
            Value::ByteMap(_) => KeyType::ByteMap,
            Value::ByteSet(_) => KeyType::ByteSet,
            Value::String(_) => KeyType::String,
        }
    }

    pub fn kind(&self) -> (r: KeyType)
        ensures
            r == self.spec_kind(),
            r == self@.kind(),
    {
        match self {
            Value::Boolean(_) => KeyType::Boolean,
            Value::Bytes(_) => KeyType::Bytes,
            Value::Float(_) => KeyType::Float,
            Value::Integer(_) => KeyType::Integer,
            Value::List(_) => KeyType::List,
            Value::ByteMap(_) => KeyType::ByteMap,
            Value::ByteSet(_) => KeyType::ByteSet,
            Value::String(_) => KeyType::String,
        }
    }

    /// A copy of the value.
    pub fn duplicate(&self) -> (r: Value)
        ensures
            r@ == self@,
    {
        match self {
            Value::Boolean(b) => Value::Boolean(*b),
            Value::Bytes(b) => Value::Bytes(copy_bytes(b.as_slice())),
            Value::Float(f) => Value::Float(*f),
            Value::Integer(i) => Value::Integer(*i),
            Value::List(l) => Value::List(copy_list(l.as_slice())),
            Value::ByteMap(m) => Value::ByteMap(byte_map_clone(m)),
            Value::ByteSet(s) => Value::ByteSet(byte_set_clone(s)),
            Value::String(s) => Value::String(s.clone()),
        }
    }

    /// The default boolean value, `false`.
    pub fn boolean() -> (r: Self)
        ensures
            r@ == ValueView::Boolean(false),
    {
        Value::Boolean(false)
    }

    pub fn as_boolean_ref(&self) -> (r: Option<&bool>)
        ensures
            match self {
                Value::Boolean(b) => r == Some(b),
                _ => r is None,
            },
    {
        match self {
            Value::Boolean(inner) => Some(inner),
            _ => None,
        }
    }

    pub fn as_boolean_mut(&mut self) -> (r: Option<&mut bool>)
        ensures
            match r {
                Some(b) => *old(self) == Value::Boolean(*b) && *final(self) == Value::Boolean(
                    *final(b),
                ),
                None => !(*old(self) is Boolean) && *final(self) == *old(self),
            },
    {
        match self {
            Value::Boolean(inner) => Some(inner),
            _ => None,
        }
    }

    pub fn is_boolean(&self) -> (r: bool)
        ensures
            r == (*self is Boolean),
    {
        matches!(self, Value::Boolean(_))
    }

    /// The default bytes value, empty.
    pub fn bytes() -> (r: Self)
        ensures
            r@ == ValueView::Bytes(Seq::empty()),
    {
        Value::Bytes(Vec::new())
    }

    pub fn as_bytes_ref(&self) -> (r: Option<&[u8]>)
        ensures
            match self {
                Value::Bytes(b) => r matches Some(s) && s@ == b@,
                _ => r is None,
            },
    {
        match self {
            Value::Bytes(inner) => Some(inner.as_slice()),
            _ => None,
        }
    }

    pub fn as_bytes_mut(&mut self) -> (r: Option<&mut Vec<u8>>)
        ensures
            match r {
                Some(b) => *old(self) == Value::Bytes(*b) && *final(self) == Value::Bytes(*final(b)),
                None => !(*old(self) is Bytes) && *final(self) == *old(self),
            },
    {
        match self {
            Value::Bytes(inner) => Some(inner),
            _ => None,
        }
    }

    pub fn is_bytes(&self) -> (r: bool)
        ensures
            r == (*self is Bytes),
    {
        matches!(self, Value::Bytes(_))
    }

    /// The default float value, positive zero.
    pub fn float() -> (r: Self)
        ensures
            r@ == ValueView::Float(0),
    {
        Value::Float(0)
    }

    pub fn as_float_ref(&self) -> (r: Option<&u64>)
        ensures
            match self {
                Value::Float(f) => r == Some(f),
                _ => r is None,
            },
    {
        match self {
            Value::Float(inner) => Some(inner),
            _ => None,
        }
    }

    pub fn as_float_mut(&mut self) -> (r: Option<&mut u64>)
        ensures
            match r {
                Some(f) => *old(self) == Value::Float(*f) && *final(self) == Value::Float(*final(f)),
                None => !(*old(self) is Float) && *final(self) == *old(self),
            },
    {
        match self {
            Value::Float(inner) => Some(inner),
            _ => None,
        }
    }

    pub fn is_float(&self) -> (r: bool)
        ensures
            r == (*self is Float),
    {
        matches!(self, Value::Float(_))
    }

    /// The default integer value, zero.
    pub fn integer() -> (r: Self)
        ensures
            r@ == ValueView::Integer(0),
    {
        Value::Integer(0)
    }

    pub fn as_integer_ref(&self) -> (r: Option<&i64>)
        ensures
            match self {
                Value::Integer(i) => r == Some(i),
                _ => r is None,
            },
    {
        match self {
            Value::Integer(inner) => Some(inner),
            _ => None,
        }
    }

    pub fn as_integer_mut(&mut self) -> (r: Option<&mut i64>)
        ensures
            match r {
                Some(i) => *old(self) == Value::Integer(*i) && *final(self) == Value::Integer(
                    *final(i),
                ),
                None => !(*old(self) is Integer) && *final(self) == *old(self),
            },
    {
        match self {
            Value::Integer(inner) => Some(inner),
            _ => None,
        }
    }

    pub fn is_integer(&self) -> (r: bool)
        ensures
            r == (*self is Integer),
    {
        matches!(self, Value::Integer(_))
    }

    /// The default list value, empty.
    pub fn list() -> (r: Self)
        ensures
            r@ == ValueView::List(Seq::empty()),
    {
        let r = Value::List(Vec::new());
        assert(list_view(Seq::<Vec<u8>>::empty()) =~= Seq::empty());
        r
    }

    pub fn as_list_ref(&self) -> (r: Option<&[Vec<u8>]>)
        ensures
            match self {
                Value::List(l) => r matches Some(s) && s@ == l@,
                _ => r is None,
            },
    {
        match self {
            Value::List(inner) => Some(inner.as_slice()),
            _ => None,
        }
    }

    pub fn as_list_mut(&mut self) -> (r: Option<&mut Vec<Vec<u8>>>)
        ensures
            match r {
                Some(l) => *old(self) == Value::List(*l) && *final(self) == Value::List(*final(l)),
                None => !(*old(self) is List) && *final(self) == *old(self),
            },
    {
        match self {
            Value::List(inner) => Some(inner),
            _ => None,
        }
    }

    pub fn is_list(&self) -> (r: bool)
        ensures
            r == (*self is List),
    {
        matches!(self, Value::List(_))
    }

    /// The default map value, empty.
    pub fn map() -> (r: Self)
        ensures
            r@ == ValueView::ByteMap(Map::empty()),
    {
        Value::ByteMap(byte_map_new())
    }

    pub fn as_map_ref(&self) -> (r: Option<&DashMap<Vec<u8>, Vec<u8>>>)
        ensures
            match self {
                Value::ByteMap(m) => r == Some(m),
                _ => r is None,
            },
    {
        match self {
            Value::ByteMap(inner) => Some(inner),
            _ => None,
        }
    }

    pub fn as_map_mut(&mut self) -> (r: Option<&mut DashMap<Vec<u8>, Vec<u8>>>)
        ensures
            match r {
                Some(m) => *old(self) == Value::ByteMap(*m) && *final(self) == Value::ByteMap(
                    *final(m),
                ),
                None => !(*old(self) is ByteMap) && *final(self) == *old(self),
            },
    {
        match self {
            Value::ByteMap(inner) => Some(inner),
            _ => None,
        }
    }

    pub fn is_map(&self) -> (r: bool)
        ensures
            r == (*self is ByteMap),
    {
        matches!(self, Value::ByteMap(_))
    }

    /// The default set value, empty.
    pub fn set() -> (r: Self)
        ensures
            r@ == ValueView::ByteSet(Set::empty()),
    {
        Value::ByteSet(byte_set_new())
    }

    pub fn as_set_ref(&self) -> (r: Option<&DashSet<Vec<u8>>>)
        ensures
            match self {
                Value::ByteSet(s) => r == Some(s),
                _ => r is None,
            },
    {
        match self {
            Value::ByteSet(inner) => Some(inner),
            _ => None,
        }
    }

    pub fn as_set_mut(&mut self) -> (r: Option<&mut DashSet<Vec<u8>>>)
        ensures
            match r {
                Some(s) => *old(self) == Value::ByteSet(*s) && *final(self) == Value::ByteSet(
                    *final(s),
                ),
                None => !(*old(self) is ByteSet) && *final(self) == *old(self),
            },
    {
        match self {
            Value::ByteSet(inner) => Some(inner),
            _ => None,
        }
    }

    pub fn is_set(&self) -> (r: bool)
        ensures
            r == (*self is ByteSet),
    {
        matches!(self, Value::ByteSet(_))
    }

    /// The default string value, empty.
    pub fn string() -> (r: Self)
        ensures
            r@ == ValueView::String(Seq::empty()),
    {
        Value::String(String::new())
    }

    pub fn as_string_ref(&self) -> (r: Option<&str>)
        ensures
            match self {
                Value::String(s) => r matches Some(t) && t@ == s@,
                _ => r is None,
            },
    {
        match self {
            Value::String(inner) => Some(inner.as_str()),
            _ => None,
        }
    }

    pub fn as_string_mut(&mut self) -> (r: Option<&mut String>)
        ensures
            match r {
                Some(s) => *old(self) == Value::String(*s) && *final(self) == Value::String(*final(s)),
                None => !(*old(self) is String) && *final(self) == *old(self),
            },
    {
        match self {
            Value::String(inner) => Some(inner),
            _ => None,
        }
    }

    /// Whether the value is a string.
    pub fn is_string(&self) -> (r: bool)
        ensures
            r == (*self is String),
    {
        matches!(self, Value::String(_))
    }
}

impl ValueView {
    /// The key type of a value.
    pub open spec fn kind(self) -> KeyType {
        match self {
            ValueView::Boolean(_) => KeyType::Boolean,
            ValueView::Bytes(_) => KeyType::Bytes,
            ValueView::Float(_) => KeyType::Float,
            ValueView::Integer(_) => KeyType::Integer,
            ValueView::List(_) => KeyType::List,
            ValueView::ByteMap(_) => KeyType::ByteMap,
            ValueView::ByteSet(_) => KeyType::ByteSet,
            ValueView::String(_) => KeyType::String,
        }
    }
}

} // verus!
