use vstd::prelude::*;

use crate::error::CellParseError;
use crate::text::{join, join_strings, strs_view};

verus! {

/// A named free-form section: the lines between `%BLOCK name` and
/// `%ENDBLOCK name`, kept as they were written.
#[derive(Debug, Clone, PartialEq, PartialOrd, Eq, Ord)]
pub struct Block {
    pub order: usize,
    pub name: String,
    pub values: Vec<String>,
}

/// The text of a block: its opening marker, its lines and its closing marker,
/// one per line; the lines are left out where they join to nothing.
pub open spec fn block_text(name: Seq<char>, values: Seq<Seq<char>>) -> Seq<char> {
    let head = "%BLOCK "@ + name;
    let body = join(values, "\n"@);
    let tail = "%ENDBLOCK "@ + name;
    if body.len() == 0 {
        head + "\n"@ + tail
    } else {
        head + "\n"@ + body + "\n"@ + tail
    }
}

impl Block {
    pub fn new(order: usize, name: String, values: Vec<String>) -> (r: Self)
        ensures
            r == (Block { order, name, values }),
    {
        Self { order, name, values }
    }

    pub fn order(&self) -> (r: usize)
        ensures
            r == self.order,
    {
        self.order
    }

    pub fn name(&self) -> (r: &str)
        ensures
            r@ == self.name@,
    {
        self.name.as_str()
    }

    pub fn values(&self) -> (r: &[String])
        ensures
            r@ == self.values@,
    {
        self.values.as_slice()
    }

    pub fn values_mut(&mut self) -> (r: &mut Vec<String>)
        ensures
            *r == old(self).values,
            final(self).order == old(self).order,
            final(self).name == old(self).name,
            final(self).values == *final(r),
    {
        &mut self.values
    }

    /// The block as text: `%BLOCK name`, its lines, `%ENDBLOCK name`, one per
    /// line.
    pub fn to_string(&self) -> (r: String)
        ensures
            r@ == block_text(self.name@, strs_view(self.values@)),
    {
        let body = join_strings(&self.values, "\n");
        let mut r = String::from_str("%BLOCK ");
        r.append(self.name.as_str());
        r.append("\n");
        if body.unicode_len() > 0 {
            r.append(body.as_str());
            r.append("\n");
        }
        r.append("%ENDBLOCK ");
        r.append(self.name.as_str());
        r
    }

    /// A copy of the block.
    pub fn duplicate(&self) -> (r: Self)
        ensures
            r.order == self.order,
            r.name == self.name,
            r.values@ == self.values@,
    {
        let values = self.values.clone();
        assert(values@ =~= self.values@);
        Block { order: self.order, name: self.name.clone(), values }
    }
}

/// Conversion between a block and a typed view of its contents: read a block
/// into the typed value to edit it, then turn it back into a block.
pub trait BlockIO {
    type Item;

    fn from_block(block: &Block) -> Result<Self::Item, CellParseError>;

    fn to_block(&self, order: usize) -> Block;
}

} // verus!
