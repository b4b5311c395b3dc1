//! The values that evaluation yields.
use vstd::prelude::*;

verus! {

/// A value.
#[derive(Debug, PartialEq)]
pub enum Object {
    Null,
    Integer(i64),
    Boolean(bool),
    String(String),
    List(Vec<Object>),
    /// A value on its way out of the block that returned it.
    Return(Box<Object>),
}

/// The mathematical value of an [`Object`].
pub enum SpecObject {
    Null,
    Integer(int),
    Boolean(bool),
    String(Seq<char>),
    List(Seq<SpecObject>),
    Return(Box<SpecObject>),
}

impl Object {
    /// The value of the object, part by part.
    pub open spec fn model(&self) -> SpecObject
        decreases self,
    {
        match self {
            Object::Null => SpecObject::Null,
            Object::Integer(value) => SpecObject::Integer(*value as int),
            Object::Boolean(value) => SpecObject::Boolean(*value),
            Object::String(text) => SpecObject::String(text@),
            Object::List(items) => SpecObject::List(
                Seq::new(
                    items.len() as nat,
                    |i: int|
                        if 0 <= i < items.len() {
                            items[i].model()
                        } else {
                            SpecObject::Null
                        },
                ),
            ),
            Object::Return(value) => SpecObject::Return(Box::new(value.model())),
        }
    }
}

impl View for Object {
    type V = SpecObject;

    open spec fn view(&self) -> SpecObject {
        self.model()
    }
}

impl DeepView for Object {
    type V = SpecObject;

    open spec fn deep_view(&self) -> SpecObject {
        self.model()
    }
}

} // verus!
