//! The configuration record: one named, typed field per declared option.
use vstd::prelude::*;
use vstd::string::*;
use crate::value::{OptionValue, ValueModel};

verus! {

/// A configuration record, one field per option of the schema it was
/// built from, in declaration order.
#[derive(Clone, Debug)]
pub struct Config {
    pub(crate) names: Vec<String>,
    pub(crate) values: Vec<OptionValue>,
}

impl View for Config {
    type V = Seq<ValueModel>;

    open(crate) spec fn view(&self) -> Seq<ValueModel> {
        self.values@.map_values(|v: OptionValue| v@)
    }
}

/// The position of the first name at or after `i` equal to `name`.
pub open spec fn name_index(names: Seq<Seq<char>>, name: Seq<char>, i: int) -> Option<int>
    decreases names.len() - i,
{
    if i < 0 || i >= names.len() {
        None
    } else if names[i] == name {
        Some(i)
    } else {
        name_index(names, name, i + 1)
    }
}

impl Config {
    /// The value of the field called `name`, if the record has one.
    pub open(crate) spec fn field(&self, name: Seq<char>) -> Option<ValueModel> {
        match name_index(self.names(), name, 0) {
            Some(i) => if i < self@.len() {
                Some(self@[i])
            } else {
                None
            },
            None => None,
        }
    }

    /// The value of the field called `name`.
    pub fn get(&self, name: &str) -> (r: Option<&OptionValue>)
        ensures
            match r {
                Some(v) => self.field(name@) == Some(v@),
                None => self.field(name@) is None,
            },
    {
        let key = String::from_str(name);
        let n = self.names.len();
        let mut i: usize = 0;
        while i < n
            invariant
                n == self.names@.len(),
                i <= n,
                key@ == name@,
                name_index(self.names(), name@, 0) == name_index(self.names(), name@, i as int),
            decreases n - i,
        {
            if self.names[i].eq(&key) {
                if i < self.values.len() {
                    return Some(&self.values[i]);
                }
                return None;
            }
            i = i + 1;
        }
        None
    }

    /// The text held by the field called `name`, if it is a text field.
    pub fn text(&self, name: &str) -> (r: Option<&str>)
        ensures
            match r {
                Some(s) => self.field(name@) == Some(ValueModel::Text(s@)),
                None => !(self.field(name@) matches Some(ValueModel::Text(_))),
            },
    {
        match self.get(name) {
            Some(OptionValue::Text(s)) => Some(s.as_str()),
            _ => None,
        }
    }

    /// The number held by the field called `name`, if it is an integer field.
    pub fn integer(&self, name: &str) -> (r: Option<i32>)
        ensures
            match r {
                Some(n) => self.field(name@) == Some(ValueModel::Integer(n)),
                None => !(self.field(name@) matches Some(ValueModel::Integer(_))),
            },
    {
        match self.get(name) {
            Some(OptionValue::Integer(n)) => Some(*n),
            _ => None,
        }
    }

    /// The switch held by the field called `name`, if it is a flag field.
    pub fn flag(&self, name: &str) -> (r: Option<bool>)
        ensures
            match r {
                Some(b) => self.field(name@) == Some(ValueModel::Flag(b)),
                None => !(self.field(name@) matches Some(ValueModel::Flag(_))),
            },
    {
        match self.get(name) {
            Some(OptionValue::Flag(b)) => Some(*b),
            _ => None,
        }
    }

    /// The record's field names, in order.
    pub open(crate) spec fn names(&self) -> Seq<Seq<char>> {
        self.names@.map_values(|s: String| s@)
    }

    pub(crate) fn from_fields(names: Vec<String>, values: Vec<OptionValue>) -> (c: Config)
        ensures
            c.names() == names@.map_values(|s: String| s@),
            c@ == values@.map_values(|v: OptionValue| v@),
    {
        Config { names, values }
    }

    /// Overwrites the value of field `k`.
    pub(crate) fn set_value(&mut self, k: usize, v: OptionValue)
        requires
            k < old(self)@.len(),
        ensures
            final(self)@ == old(self)@.update(k as int, v@),
            final(self).names() == old(self).names(),
    {
        self.values.set(k, v);
        assert(self@ =~= old(self)@.update(k as int, v@));
    }

    /// The number of fields.
    pub fn len(&self) -> (n: usize)
        ensures
            n == self@.len(),
    {
        self.values.len()
    }
}

} // verus!
