use vstd::prelude::*;

use crate::ast::Node;
use crate::text::str_eq;

verus! {

/// The type of a value, as a type annotation names it.
pub enum Type {
    Number,
    Float,
    Boolean,
    /// Known to be invalid.
    Error,
    /// Not known yet, but possibly valid.
    Unresolved(Node),
}

/// Which of the kinds of type a type is.
pub open spec fn type_kind(t: &Type) -> nat {
    match t {
        Type::Number => 0,
        Type::Float => 1,
        Type::Boolean => 2,
        Type::Error => 3,
        Type::Unresolved(_) => 4,
    }
}

impl Type {
    /// The type an annotation names: `number`, `float` or `boolean`.
    pub fn try_from_str(text: &str) -> (r: Option<Type>)
        ensures
            text@ == "number"@ ==> r matches Some(Type::Number),
            text@ == "float"@ ==> r matches Some(Type::Float),
            text@ == "boolean"@ ==> r matches Some(Type::Boolean),
            r is None <==> !(text@ == "number"@ || text@ == "float"@ || text@ == "boolean"@),
    {
        proof {
            reveal_strlit("number");
            reveal_strlit("float");
            reveal_strlit("boolean");
            assert("number"@.len() == 6);
            assert("float"@.len() == 5);
            assert("boolean"@.len() == 7);
        }
        if str_eq(text, "number") {
            Some(Type::Number)
        } else if str_eq(text, "float") {
            Some(Type::Float)
        } else if str_eq(text, "boolean") {
            Some(Type::Boolean)
        } else {
            None
        }
    }

    fn kind(&self) -> (r: u8)
        ensures
            r == type_kind(self),
    {
        match self {
            Type::Number => 0,
            Type::Float => 1,
            Type::Boolean => 2,
            Type::Error => 3,
            Type::Unresolved(_) => 4,
        }
    }
}

/// Two types are equal when they are of one kind; unresolved types are all equal.
impl PartialEq for Type {
    fn eq(&self, other: &Type) -> (r: bool) {
        self.kind() == other.kind()
    }
}

impl vstd::std_specs::cmp::PartialEqSpecImpl for Type {
    open spec fn obeys_eq_spec() -> bool {
        true
    }

    open spec fn eq_spec(&self, other: &Type) -> bool {
        type_kind(self) == type_kind(other)
    }
}

} // verus!
