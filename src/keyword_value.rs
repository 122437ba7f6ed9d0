use vstd::prelude::*;

use crate::text::{push_right_justified, right_justify};

verus! {

/// The least number of characters a rendered value takes; shorter values are
/// padded with spaces on the left.
pub const VALUE_WIDTH: usize = 12;

/// A `name : value` declaration. The value is kept as text whatever it means.
#[derive(Debug, Clone, PartialEq, PartialOrd, Eq, Ord)]
pub struct KeywordValue {
    pub order: usize,
    pub name: String,
    pub value: String,
}

/// The text of a `name : value` declaration.
pub open spec fn keyword_value_text(name: Seq<char>, value: Seq<char>) -> Seq<char> {
    name + " : "@ + right_justify(value, VALUE_WIDTH as nat)
}

impl KeywordValue {
    pub fn new(order: usize, name: String, value: String) -> (r: Self)
        ensures
            r == (KeywordValue { order, name, value }),
    {
        Self { order, name, value }
    }

    pub fn order(&self) -> (r: usize)
        ensures
            r == self.order,
    {
        self.order
    }

    pub fn name(&self) -> (r: &str)
        ensures
            r@ == self.name@,
    {
        self.name.as_str()
    }

    pub fn value(&self) -> (r: &str)
        ensures
            r@ == self.value@,
    {
        self.value.as_str()
    }

    pub fn set_value(&mut self, value: String)
        ensures
            final(self).value == value,
            final(self).order == old(self).order,
            final(self).name == old(self).name,
    {
        self.value = value;
    }

    /// The declaration as text: `name : value`, the value right-justified.
    pub fn to_string(&self) -> (r: String)
        ensures
            r@ == keyword_value_text(self.name@, self.value@),
    {
        let mut r = self.name.clone();
        r.append(" : ");
        push_right_justified(&mut r, self.value.as_str(), VALUE_WIDTH);
        r
    }

    /// A copy of the declaration.
    pub fn duplicate(&self) -> (r: Self)
        ensures
            r == *self,
    {
        KeywordValue { order: self.order, name: self.name.clone(), value: self.value.clone() }
    }
}

/// A keyword that stands alone, with no value: a directive.
#[derive(Debug, Clone, PartialEq, Eq, PartialOrd, Ord)]
pub struct SingleKeyword {
    pub order: usize,
    pub name: String,
}

impl SingleKeyword {
    pub fn new(order: usize, name: String) -> (r: Self)
        ensures
            r == (SingleKeyword { order, name }),
    {
        Self { order, name }
    }

    pub fn name(&self) -> (r: &str)
        ensures
            r@ == self.name@,
    {
        self.name.as_str()
    }

    pub fn order(&self) -> (r: usize)
        ensures
            r == self.order,
    {
        self.order
    }

    /// The keyword as text: its name.
    pub fn to_string(&self) -> (r: String)
        ensures
            r@ == self.name@,
    {
        self.name.clone()
    }

    /// A copy of the keyword.
    pub fn duplicate(&self) -> (r: Self)
        ensures
            r == *self,
    {
        SingleKeyword { order: self.order, name: self.name.clone() }
    }
}

} // verus!
