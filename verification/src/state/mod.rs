//! The engine's state: typed values stored by byte keys.

pub mod dash;
pub mod value;

pub use self::value::{Value, ValueView};

use self::dash::{store_contains_key, store_contents, store_get, store_insert, store_new, store_remove};
use dashmap::DashMap;
use vstd::prelude::*;

verus! {

/// A key of the store.
pub type Key = Vec<u8>;

/// The type of a stored value.
///
/// On the wire each key type is one byte (see [`KeyType::as_u8`]).
#[derive(Clone, Copy, Debug, PartialEq, Eq, Hash, Structural)]
pub enum KeyType {
    Bytes,
    Boolean,
    Float,
    Integer,
    String,
    List,
    ByteMap,
    ByteSet,
}

impl KeyType {
    pub open spec fn spec_code(self) -> u8 {
        match self {
            KeyType::Bytes => 0,
            KeyType::Boolean => 1,
            KeyType::Float => 2,
            KeyType::Integer => 3,
            KeyType::String => 4,
            KeyType::List => 5,
            KeyType::ByteMap => 6,
            KeyType::ByteSet => 7,
        }
    }

    pub open spec fn spec_from_u8(v: u8) -> Option<KeyType> {
        if v == 0 {
            Some(KeyType::Bytes)
        } else if v == 1 {
            Some(KeyType::Boolean)
        } else if v == 2 {
            Some(KeyType::Float)
        } else if v == 3 {
            Some(KeyType::Integer)
        } else if v == 4 {
            Some(KeyType::String)
        } else if v == 5 {
            Some(KeyType::List)
        } else if v == 6 {
            Some(KeyType::ByteMap)
        } else if v == 7 {
            Some(KeyType::ByteSet)
        } else {
            None
        }
    }

    /// The wire code of the key type.
    pub fn as_u8(self) -> (r: u8)
        ensures
            r == self.spec_code(),
    {
        match self {
            KeyType::Bytes => 0,
            KeyType::Boolean => 1,
            KeyType::Float => 2,
            KeyType::Integer => 3,
            KeyType::String => 4,
            KeyType::List => 5,
            KeyType::ByteMap => 6,
            KeyType::ByteSet => 7,
        }
    }

    /// The key type with the given wire code.
    pub fn try_from(v: u8) -> (r: Result<KeyType, ()>)
        ensures
            match KeyType::spec_from_u8(v) {
                Some(k) => r == Ok::<KeyType, ()>(k),
                None => r == Err::<KeyType, ()>(()),
            },
    {
        match v {
            0 => Ok(KeyType::Bytes),
            1 => Ok(KeyType::Boolean),
            2 => Ok(KeyType::Float),
            3 => Ok(KeyType::Integer),
            4 => Ok(KeyType::String),
            5 => Ok(KeyType::List),
            6 => Ok(KeyType::ByteMap),
            7 => Ok(KeyType::ByteSet),
            _ => Err(()),
        }
    }
}

/// Every key type is found again from its own wire code.
pub proof fn lemma_key_type_code_roundtrip(k: KeyType)
    ensures
        KeyType::spec_from_u8(k.spec_code()) == Some(k),
{
}

/// The prefix of the keys that the engine keeps for itself.
pub open spec fn internal_prefix() -> Seq<u8> {
    seq![95u8, 95u8, 104u8, 111u8, 112u8, 95u8, 95u8, 58u8]
}

/// Whether a key is one that the engine keeps for itself (it begins with
/// `__hop__:`); looking such a key up by [`State::key_ref`] or
/// [`State::key_or_insert_with`] is a programming error.
pub open spec fn is_internal_key(key: Seq<u8>) -> bool {
    key.len() >= 8 && key.take(8) == internal_prefix()
}

/// Whether a key is one that the engine keeps for itself.
pub fn internal_key(key: &[u8]) -> (r: bool)
    ensures
        r == is_internal_key(key@),
{
    let prefix: [u8; 8] = [95u8, 95u8, 104u8, 111u8, 112u8, 95u8, 95u8, 58u8];
    if key.len() < 8 {
        return false;
    }
    let mut i: usize = 0;
    while i < 8
        invariant
            key@.len() >= 8,
            i <= 8,
            prefix@ == internal_prefix(),
            forall|j: int| 0 <= j < i ==> key@[j] == internal_prefix()[j],
        decreases 8 - i,
    {
        if key[i] != prefix[i] {
            assert(key@.take(8)[i as int] != internal_prefix()[i as int]);
            return false;
        }
        i = i + 1;
    }
    assert(key@.take(8) =~= internal_prefix());
    true
}

/// The engine's key-value store.
#[derive(Debug)]
pub struct State {
    map: DashMap<Vec<u8>, Value>,
}

impl View for State {
    type V = Map<Seq<u8>, ValueView>;

    closed spec fn view(&self) -> Map<Seq<u8>, ValueView> {
        store_contents(self.map).map_values(|v: Value| v@)
    }
}

impl Default for State {
    /// An empty store.
    fn default() -> (r: Self)
        ensures
            r@ == Map::<Seq<u8>, ValueView>::empty(),
    {
        State::new()
    }
}

impl State {
    /// An empty store.
    pub fn new() -> (r: Self)
        ensures
            r@ == Map::<Seq<u8>, ValueView>::empty(),
    {
        let r = State { map: store_new() };
        assert(r@ =~= Map::<Seq<u8>, ValueView>::empty());
        r
    }

    /// Whether a key exists.
    pub fn contains_key(&self, key: &[u8]) -> (r: bool)
        ensures
            r == self@.contains_key(key@),
    {
        store_contains_key(&self.map, key)
    }

    /// Inserts a value by key, replacing and returning the existing value if
    /// the key was already taken.
    pub fn insert(&mut self, key: Vec<u8>, value: Value) -> (r: Option<Value>)
        ensures
            final(self)@ == old(self)@.insert(key@, value@),
            match r {
                Some(v) => old(self)@.contains_key(key@) && v@ == old(self)@[key@],
                None => !old(self)@.contains_key(key@),
            },
    {
        let ghost k = key@;
        let ghost v = value@;
        let r = store_insert(&mut self.map, key, value);
        assert(self@ =~= old(self)@.insert(k, v));
        r
    }

    /// Removes a value by key, returning both the owned key and value if
    /// present.
    pub fn remove(&mut self, key: &[u8]) -> (r: Option<(Vec<u8>, Value)>)
        ensures
            final(self)@ == old(self)@.remove(key@),
            match r {
                Some((k, v)) => old(self)@.contains_key(key@) && k@ == key@ && v@ == old(self)@[key@],
                None => !old(self)@.contains_key(key@),
            },
    {
        let r = store_remove(&mut self.map, key);
        assert(self@ =~= old(self)@.remove(key@));
        r
    }

    /// A copy of the value stored by key, if the key exists.
    pub fn key_ref(&self, key: &[u8]) -> (r: Option<Value>)
        requires
            !is_internal_key(key@),
        ensures
            match r {
                Some(v) => self@.contains_key(key@) && v@ == self@[key@],
                None => !self@.contains_key(key@),
            },
    {
        store_get(&self.map, key)
    }

    /// Makes sure that the key exists, inserting `default` under it if it
    /// doesn't, and answers a copy of the value that the key then holds.
    pub fn key_or_insert_with(&mut self, key: &[u8], default: Value) -> (r: Value)
        requires
            !is_internal_key(key@),
        ensures
            final(self)@ == if old(self)@.contains_key(key@) {
                old(self)@
            } else {
                old(self)@.insert(key@, default@)
            },
            final(self)@.contains_key(key@),
            r@ == final(self)@[key@],
    {
        match store_get(&self.map, key) {
            Some(v) => v,
            None => {
                let r = default.duplicate();
                self.insert(copy_key(key), default);
                r
            },
        }
    }

    /// The type of the value stored by key, if the key exists.
    pub fn key_type(&self, key: &[u8]) -> (r: Option<KeyType>)
        ensures
            match r {
                Some(k) => self@.contains_key(key@) && k == self@[key@].kind(),
                None => !self@.contains_key(key@),
            },
    {
        match store_get(&self.map, key) {
            Some(v) => Some(v.kind()),
            None => None,
        }
    }
}

/// An owned copy of a key.
pub fn copy_key(key: &[u8]) -> (r: Vec<u8>)
    ensures
        r@ == key@,
{
    vstd::slice::slice_to_vec(key)
}

} // verus!
