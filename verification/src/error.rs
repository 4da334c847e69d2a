//! What can go wrong.

use vstd::prelude::*;

verus! {

/// Why a program was refused.
#[derive(Debug)]
pub enum XError {
    /// The checker refused it.
    Type(String),
    /// The code generator could not lower it.
    Codegen(String),
}

/// The result of a compiler pass.
pub type XResult<T> = Result<T, XError>;

/// The mathematical value of an `XError`.
#[verifier::ext_equal]
pub enum Fault {
    Type(Seq<char>),
    Codegen(Seq<char>),
}

impl View for XError {
    type V = Fault;

    open spec fn view(&self) -> Fault {
        match self {
            XError::Type(m) => Fault::Type(m@),
            XError::Codegen(m) => Fault::Codegen(m@),
        }
    }
}

impl Fault {
    /// What is told to the user.
    pub open spec fn message(self) -> Seq<char> {
        match self {
            Fault::Type(m) => m,
            Fault::Codegen(m) => m,
        }
    }
}

impl XError {
    /// What is told to the user.
    pub fn message(&self) -> (r: String)
        ensures
            r@ == self@.message(),
    {
        match self {
            XError::Type(m) => m.clone(),
            XError::Codegen(m) => m.clone(),
        }
    }
}

/// A result with its value and its error taken by their views.
pub open spec fn outcome<T: View>(r: XResult<T>) -> Result<T::V, Fault> {
    match r {
        Ok(v) => Ok(v@),
        Err(e) => Err(e@),
    }
}

/// How `Debug` shows a string: in double quotes, with escapes inside.
pub uninterp spec fn debug_text(s: Seq<char>) -> Seq<char>;

/// Whether a text consists of ASCII letters, digits and underscores.
pub open spec fn is_word(s: Seq<char>) -> bool {
    forall|i: int|
        0 <= i < s.len() ==> {
            let c = #[trigger] s[i];
            ||| 'a' <= c <= 'z'
            ||| 'A' <= c <= 'Z'
            ||| '0' <= c <= '9'
            ||| c == '_'
        }
}

/// Calls `<str as std::fmt::Debug>::fmt` through `format!`. Claimed of it: what
/// it writes depends on the string alone, and a string of ASCII letters, digits
/// and underscores is written between double quotes without a change. How it
/// escapes other characters is left unsaid.
#[verifier::external_body]
pub(crate) fn debug_quoted(s: &str) -> (r: String)
    ensures
        r@ == debug_text(s@),
        is_word(s@) ==> r@ == "\""@ + s@ + "\""@,
{
    format!("{:?}", s)
}

} // verus!
