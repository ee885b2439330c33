use vstd::prelude::*;
use crate::strutil::str_eq_string;

verus! {

/// The value of an attribute in a configuration element: the
/// configuration language distinguishes strings and booleans.
#[derive(Debug, Clone)]
pub enum AttributeValue {
    String(String),
    Bool(bool),
}

impl AttributeValue {
    pub fn as_str(&self) -> (r: Option<&str>)
        ensures
            self matches AttributeValue::String(s) ==> r matches Some(x) && x@ == s@,
            self is Bool ==> r is None,
    {
        match self {
            Self::String(s) => Some(s.as_str()),
            Self::Bool(_) => None,
        }
    }

    pub fn as_bool(&self) -> (r: Option<bool>)
        ensures
            self matches AttributeValue::Bool(b) ==> r == Some(*b),
            self is String ==> r is None,
    {
        match self {
            Self::String(_) => None,
            Self::Bool(b) => Some(*b),
        }
    }
}

/// The attributes of a configuration element, in the order they were
/// written; a key is looked up by its first occurrence.
#[derive(Debug, Clone)]
pub struct Attributes {
    pub entries: Vec<(String, AttributeValue)>,
}

/// First value bound to `key`, scanning from the front.
pub open spec fn find_attr(entries: Seq<(String, AttributeValue)>, key: Seq<char>) -> Option<
    AttributeValue,
>
    decreases entries.len(),
{
    if entries.len() == 0 {
        None
    } else if entries.first().0@ == key {
        Some(entries.first().1)
    } else {
        find_attr(entries.drop_first(), key)
    }
}

impl Attributes {
    pub open spec fn find_spec(self, key: Seq<char>) -> Option<AttributeValue> {
        find_attr(self.entries@, key)
    }

    /// Look a key up, first binding wins.
    pub fn find(&self, key: &str) -> (r: Option<&AttributeValue>)
        ensures
            match r {
                Some(v) => self.find_spec(key@) == Some(*v),
                None => self.find_spec(key@) is None,
            },
    {
        let mut i: usize = 0;
        proof {
            assert(self.entries@.skip(0) =~= self.entries@);
        }
        while i < self.entries.len()
            invariant
                0 <= i <= self.entries@.len(),
                find_attr(self.entries@.skip(i as int), key@) == find_attr(self.entries@, key@),
            decreases self.entries@.len() - i,
        {
            proof {
                assert(self.entries@.skip(i as int).first() == self.entries@[i as int]);
                assert(self.entries@.skip(i as int).drop_first() =~= self.entries@.skip(i + 1));
            }
            if str_eq_string(&self.entries[i].0, key) {
                return Some(&self.entries[i].1);
            }
            i += 1;
        }
        proof {
            assert(self.entries@.skip(self.entries@.len() as int).len() == 0);
        }
        None
    }

    /// The string bound to `key`, if the first binding is a string.
    pub fn find_str(&self, key: &str) -> (r: Option<String>)
        ensures
            match r {
                Some(v) => self.find_spec(key@) matches Some(AttributeValue::String(s)) && v@
                    == s@,
                None => !(self.find_spec(key@) matches Some(AttributeValue::String(_))),
            },
    {
        match self.find(key) {
            Some(AttributeValue::String(s)) => Some(s.clone()),
            _ => None,
        }
    }

    /// The boolean bound to `key`, if the first binding is a boolean.
    pub fn find_bool(&self, key: &str) -> (r: Option<bool>)
        ensures
            match r {
                Some(v) => self.find_spec(key@) == Some(AttributeValue::Bool(v)),
                None => !(self.find_spec(key@) matches Some(AttributeValue::Bool(_))),
            },
    {
        match self.find(key) {
            Some(AttributeValue::Bool(b)) => Some(*b),
            _ => None,
        }
    }
}

} // verus!
