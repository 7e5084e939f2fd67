use vstd::prelude::*;

verus! {

/// The tag of a value.
#[derive(Clone, Copy, Debug, PartialEq, Eq, Structural)]
pub enum ObjectType {
    BooleanObj,
    StringLiteralObj,
    NumberLiteralObj,
    NilObj,
}

/// A truth value.
pub struct Boolean {
    pub value: bool,
}

/// A string value.
pub struct StringLiteral {
    pub value: String,
}

/// A number value, kept as its normalized literal text.
pub struct NumberLiteral {
    pub literal: String,
}

/// The absent value.
pub struct Nil {}

/// A value: one of its four forms.
pub enum Object {
    Boolean(Boolean),
    StringLiteral(StringLiteral),
    NumberLiteral(NumberLiteral),
    Nil(Nil),
}

/// A value as a mathematical value, with texts in place of strings.
pub enum ObjectView {
    Boolean(bool),
    StringLiteral(Seq<char>),
    NumberLiteral(Seq<char>),
    Nil,
}

impl ObjectView {
    /// The tag of the value.
    pub open spec fn obj_type(self) -> ObjectType {
        match self {
            ObjectView::Boolean(_) => ObjectType::BooleanObj,
            ObjectView::StringLiteral(_) => ObjectType::StringLiteralObj,
            ObjectView::NumberLiteral(_) => ObjectType::NumberLiteralObj,
            ObjectView::Nil => ObjectType::NilObj,
        }
    }

    /// The text that shows the value.
    pub open spec fn inspect(self) -> Seq<char> {
        match self {
            ObjectView::Boolean(value) => if value {
                "true"@
            } else {
                "false"@
            },
            ObjectView::StringLiteral(value) => value,
            ObjectView::NumberLiteral(literal) => literal,
            ObjectView::Nil => "nil"@,
        }
    }
}

impl View for Boolean {
    type V = ObjectView;

    open spec fn view(&self) -> ObjectView {
        ObjectView::Boolean(self.value)
    }
}

impl View for StringLiteral {
    type V = ObjectView;

    open spec fn view(&self) -> ObjectView {
        ObjectView::StringLiteral(self.value@)
    }
}

impl View for NumberLiteral {
    type V = ObjectView;

    open spec fn view(&self) -> ObjectView {
        ObjectView::NumberLiteral(self.literal@)
    }
}

impl View for Nil {
    type V = ObjectView;

    open spec fn view(&self) -> ObjectView {
        ObjectView::Nil
    }
}

impl View for Object {
    type V = ObjectView;

    open spec fn view(&self) -> ObjectView {
        match self {
            Object::Boolean(b) => b@,
            Object::StringLiteral(s) => s@,
            Object::NumberLiteral(n) => n@,
            Object::Nil(n) => n@,
        }
    }
}

impl Boolean {
    /// The tag of the value.
    pub fn obj_type(&self) -> (t: ObjectType)
        ensures
            t == ObjectType::BooleanObj,
    {
        ObjectType::BooleanObj
    }

    /// The text that shows the value.
    pub fn inspect(&self) -> (s: String)
        ensures
            s@ == self@.inspect(),
    {
        if self.value {
            "true".to_owned()
        } else {
            "false".to_owned()
        }
    }
}

impl StringLiteral {
    /// The tag of the value.
    pub fn obj_type(&self) -> (t: ObjectType)
        ensures
            t == ObjectType::StringLiteralObj,
    {
        ObjectType::StringLiteralObj
    }

    /// The text that shows the value.
    pub fn inspect(&self) -> (s: String)
        ensures
            s@ == self@.inspect(),
    {
        self.value.clone()
    }
}

impl NumberLiteral {
    /// The tag of the value.
    pub fn obj_type(&self) -> (t: ObjectType)
        ensures
            t == ObjectType::NumberLiteralObj,
    {
        ObjectType::NumberLiteralObj
    }

    /// The text that shows the value.
    pub fn inspect(&self) -> (s: String)
        ensures
            s@ == self@.inspect(),
    {
        self.literal.clone()
    }
}

impl Nil {
    /// The tag of the value.
    pub fn obj_type(&self) -> (t: ObjectType)
        ensures
            t == ObjectType::NilObj,
    {
        ObjectType::NilObj
    }

    /// The text that shows the value.
    pub fn inspect(&self) -> (s: String)
        ensures
            s@ == self@.inspect(),
    {
        "nil".to_owned()
    }
}

impl Object {
    /// The tag of the value.
    pub fn obj_type(&self) -> (t: ObjectType)
        ensures
            t == self@.obj_type(),
    {
        match self {
            Object::Boolean(b) => b.obj_type(),
            Object::StringLiteral(s) => s.obj_type(),
            Object::NumberLiteral(n) => n.obj_type(),
            Object::Nil(n) => n.obj_type(),
        }
    }

    /// The text that shows the value.
    pub fn inspect(&self) -> (s: String)
        ensures
            s@ == self@.inspect(),
    {
        match self {
            Object::Boolean(b) => b.inspect(),
            Object::StringLiteral(s) => s.inspect(),
            Object::NumberLiteral(n) => n.inspect(),
            Object::Nil(n) => n.inspect(),
        }
    }
}

} // verus!
