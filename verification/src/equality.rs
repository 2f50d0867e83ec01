//! Equality of expressions: two expressions are equal where they denote the
//! same term.

use vstd::prelude::*;
use vstd::std_specs::cmp::PartialEqSpecImpl;
use crate::expr::Expr;

verus! {

/// Whether two byte payloads hold the same bytes.
fn same_bytes(a: &Vec<u8>, b: &Vec<u8>) -> (r: bool)
    ensures
        r == (a@ == b@),
{
    if a.len() != b.len() {
        return false;
    }
    let mut i: usize = 0;
    while i < a.len()
        invariant
            a@.len() == b@.len(),
            i <= a@.len(),
            forall|j: int| 0 <= j < i ==> a@[j] == b@[j],
        decreases a@.len() - i,
    {
        if a[i] != b[i] {
            return false;
        }
        i += 1;
    }
    assert(a@ =~= b@);
    true
}

impl PartialEq for Expr {
    fn eq(&self, other: &Expr) -> (r: bool)
        decreases self,
    {
        match self {
            Expr::Var(name) => match other {
                Expr::Var(other_name) => *name == *other_name,
                _ => false,
            },
            Expr::Lambda(parameter, body) => match other {
                Expr::Lambda(other_parameter, other_body) => *parameter == *other_parameter && (
                &**body).eq(&**other_body),
                _ => false,
            },
            Expr::App(function, argument) => match other {
                Expr::App(other_function, other_argument) => (&**function).eq(&**other_function)
                    && (&**argument).eq(&**other_argument),
                _ => false,
            },
            Expr::Sym(text) => match other {
                Expr::Sym(other_text) => *text == *other_text,
                _ => false,
            },
            Expr::S => match other {
                Expr::S => true,
                _ => false,
            },
            Expr::K => match other {
                Expr::K => true,
                _ => false,
            },
            Expr::I => match other {
                Expr::I => true,
                _ => false,
            },
            Expr::Muse(name, resonance) => match other {
                Expr::Muse(other_name, other_resonance) => *name == *other_name && *resonance
                    == *other_resonance,
                _ => false,
            },
            Expr::Quine(inner) => match other {
                Expr::Quine(other_inner) => (&**inner).eq(&**other_inner),
                _ => false,
            },
            Expr::DNA(bytes) => match other {
                Expr::DNA(other_bytes) => same_bytes(bytes, other_bytes),
                _ => false,
            },
        }
    }
}

impl PartialEqSpecImpl for Expr {
    open spec fn obeys_eq_spec() -> bool {
        true
    }

    open spec fn eq_spec(&self, other: &Expr) -> bool {
        self@ == other@
    }
}

} // verus!
