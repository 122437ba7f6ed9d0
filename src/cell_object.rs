use vstd::prelude::*;

use crate::block::{block_text, Block};
use crate::keyword_value::{keyword_value_text, KeywordValue, SingleKeyword};
use crate::text::strs_view;

verus! {

/// One top-level element of a document.
#[derive(Debug, Clone, PartialEq)]
pub enum CELLObject {
    Block(Block),
    KeywordValue(KeywordValue),
    SingleKeyword(SingleKeyword),
}

/// What an element holds, with each string as its characters.
pub enum ObjectView {
    Block { order: usize, name: Seq<char>, values: Seq<Seq<char>> },
    KeywordValue { order: usize, name: Seq<char>, value: Seq<char> },
    SingleKeyword { order: usize, name: Seq<char> },
}

impl View for CELLObject {
    type V = ObjectView;

    open spec fn view(&self) -> ObjectView {
        match self {
            CELLObject::Block(b) => ObjectView::Block {
                order: b.order,
                name: b.name@,
                values: strs_view(b.values@),
            },
            CELLObject::KeywordValue(kv) => ObjectView::KeywordValue {
                order: kv.order,
                name: kv.name@,
                value: kv.value@,
            },
            CELLObject::SingleKeyword(k) => ObjectView::SingleKeyword { order: k.order, name: k.name@ },
        }
    }
}

/// The declaration index of an element.
pub open spec fn order_of(o: ObjectView) -> usize {
    match o {
        ObjectView::Block { order, .. } => order,
        ObjectView::KeywordValue { order, .. } => order,
        ObjectView::SingleKeyword { order, .. } => order,
    }
}

/// The name of an element, as it was written.
pub open spec fn name_of(o: ObjectView) -> Seq<char> {
    match o {
        ObjectView::Block { name, .. } => name,
        ObjectView::KeywordValue { name, .. } => name,
        ObjectView::SingleKeyword { name, .. } => name,
    }
}

/// The text of an element.
pub open spec fn object_text(o: ObjectView) -> Seq<char> {
    match o {
        ObjectView::Block { name, values, .. } => block_text(name, values),
        ObjectView::KeywordValue { name, value, .. } => keyword_value_text(name, value),
        ObjectView::SingleKeyword { name, .. } => name,
    }
}

impl CELLObject {
    pub fn order(&self) -> (r: usize)
        ensures
            r == order_of(self@),
    {
        match self {
            CELLObject::Block(block) => block.order(),
            CELLObject::KeywordValue(keyword_value) => keyword_value.order(),
            CELLObject::SingleKeyword(single_keyword) => single_keyword.order(),
        }
    }

    pub fn as_block(&self) -> (r: Option<&Block>)
        ensures
            *self is Block ==> r is Some && *r->Some_0 == self->Block_0,
            !(*self is Block) ==> r is None,
    {
        if let Self::Block(v) = self {
            Some(v)
        } else {
            None
        }
    }

    pub fn as_keyword_value(&self) -> (r: Option<&KeywordValue>)
        ensures
            *self is KeywordValue ==> r is Some && *r->Some_0 == self->KeywordValue_0,
            !(*self is KeywordValue) ==> r is None,
    {
        if let Self::KeywordValue(v) = self {
            Some(v)
        } else {
            None
        }
    }

    pub fn as_single_keyword(&self) -> (r: Option<&SingleKeyword>)
        ensures
            *self is SingleKeyword ==> r is Some && *r->Some_0 == self->SingleKeyword_0,
            !(*self is SingleKeyword) ==> r is None,
    {
        if let Self::SingleKeyword(v) = self {
            Some(v)
        } else {
            None
        }
    }

    /// The element as text, as its variant renders it.
    pub fn to_string(&self) -> (r: String)
        ensures
            r@ == object_text(self@),
    {
        match self {
            CELLObject::Block(block) => block.to_string(),
            CELLObject::KeywordValue(keyword_value) => keyword_value.to_string(),
            CELLObject::SingleKeyword(single_keyword) => single_keyword.to_string(),
        }
    }

    /// A copy of the element.
    pub fn duplicate(&self) -> (r: Self)
        ensures
            r@ == self@,
    {
        match self {
            CELLObject::Block(block) => {
                let copy = block.duplicate();
                assert(strs_view(copy.values@) =~= strs_view(block.values@));
                CELLObject::Block(copy)
            },
            CELLObject::KeywordValue(kv) => CELLObject::KeywordValue(kv.duplicate()),
            CELLObject::SingleKeyword(k) => CELLObject::SingleKeyword(k.duplicate()),
        }
    }
}

} // verus!
