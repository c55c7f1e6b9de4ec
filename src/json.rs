//! The structured syntax-tree document the builder reads: a JSON value.
use vstd::prelude::*;

verus! {

#[derive(Debug)]
pub enum Json {
    Null,
    Bool(bool),
    /// A number that fits an `i64`.
    Int(i64),
    /// A non-negative integer above `i64::MAX`.
    UInt(u64),
    /// A number with a fraction or an exponent: the bit pattern of the
    /// IEEE-754 double it denotes, and its text.
    Float(u64, String),
    String(String),
    Array(Vec<Json>),
    /// Members in document order.
    Object(Vec<(String, Json)>),
}

/// The index of the first member named `key` at or after `i`, or -1.
pub open spec fn member_index(m: Seq<(String, Json)>, key: Seq<char>, i: int) -> int
    decreases m.len() - i,
    when 0 <= i <= m.len()
{
    if i == m.len() {
        -1
    } else if m[i].0@ == key {
        i
    } else {
        member_index(m, key, i + 1)
    }
}

/// The value of the first member named `key`, if `j` is an object that has one.
pub open spec fn get(j: Json, key: Seq<char>) -> Option<Json> {
    match j {
        Json::Object(m) => {
            let i: int = member_index(m@, key, 0);
            if 0 <= i < m@.len() {
                Some(m@[i].1)
            } else {
                None
            }
        },
        _ => None,
    }
}

/// The text of member `key`, if it is a string.
pub open spec fn get_str(j: Json, key: Seq<char>) -> Option<Seq<char>> {
    match get(j, key) {
        Some(Json::String(s)) => Some(s@),
        _ => None,
    }
}

/// The elements of member `key`, if it is an array.
pub open spec fn get_array(j: Json, key: Seq<char>) -> Option<Seq<Json>> {
    match get(j, key) {
        Some(Json::Array(v)) => Some(v@),
        _ => None,
    }
}

proof fn lemma_member_index(m: Seq<(String, Json)>, key: Seq<char>, i: int)
    requires
        0 <= i <= m.len(),
    ensures
        -1 <= member_index(m, key, i) < m.len(),
        member_index(m, key, i) >= 0 ==> member_index(m, key, i) >= i,
    decreases m.len() - i,
{
    if i < m.len() {
        lemma_member_index(m, key, i + 1);
    }
}

/// A member's value is smaller than the object that holds it.
pub proof fn lemma_get_decreases(j: Json, key: Seq<char>)
    ensures
        get(j, key) is Some ==> decreases_to!(j => get(j, key)->0),
{
    if let Json::Object(m) = j {
        lemma_member_index(m@, key, 0);
        let i: int = member_index(m@, key, 0);
        if 0 <= i < m@.len() {
            assert(decreases_to!(j => j->Object_0));
            assert(decreases_to!(m => m@));
            assert(decreases_to!(m@ => m@[i]));
            assert(decreases_to!(m@[i] => m@[i].1));
        }
    }
}

/// An array member's elements are smaller than the object that holds it.
pub proof fn lemma_get_array_decreases(j: Json, key: Seq<char>)
    ensures
        get_array(j, key) is Some ==> decreases_to!(j => get_array(j, key)->0),
{
    lemma_get_decreases(j, key);
    if let Some(Json::Array(v)) = get(j, key) {
        let a = get(j, key)->0;
        assert(decreases_to!(a => a->Array_0));
        assert(decreases_to!(v => v@));
    }
}

pub fn text_is(k: &String, key: &str) -> (r: bool)
    ensures
        r == (k@ == key@),
{
    let owned = String::from_str(key);
    k.eq(&owned)
}

impl Json {
    /// The value of the first member named `key`.
    pub fn get(&self, key: &str) -> (r: Option<&Json>)
        ensures
            match r {
                Some(v) => get(*self, key@) == Some(*v),
                None => get(*self, key@) is None,
            },
    {
        match self {
            Json::Object(m) => {
                let mut i: usize = 0;
                while i < m.len()
                    invariant
                        *self == Json::Object(*m),
                        i <= m@.len(),
                        member_index(m@, key@, 0) == member_index(m@, key@, i as int),
                    decreases m@.len() - i,
                {
                    if text_is(&m[i].0, key) {
                        assert(member_index(m@, key@, i as int) == i);
                        return Some(&m[i].1);
                    }
                    i += 1;
                }
                None
            },
            _ => None,
        }
    }

    /// The text of member `key`, if it is a string.
    pub fn get_str(&self, key: &str) -> (r: Option<&String>)
        ensures
            match r {
                Some(s) => get_str(*self, key@) == Some(s@),
                None => get_str(*self, key@) is None,
            },
    {
        match self.get(key) {
            Some(Json::String(s)) => Some(s),
            _ => None,
        }
    }

    /// The elements of member `key`, if it is an array.
    pub fn get_array(&self, key: &str) -> (r: Option<&Vec<Json>>)
        ensures
            match r {
                Some(v) => get_array(*self, key@) == Some(v@),
                None => get_array(*self, key@) is None,
            },
    {
        match self.get(key) {
            Some(Json::Array(v)) => Some(v),
            _ => None,
        }
    }
}

} // verus!
