//! How types are written in C.

use vstd::prelude::*;

use crate::ast;
use crate::ast::TypeNode;
use crate::codegen::c::CGen;
use crate::codegen::model;
use crate::error;
use crate::error::{XError, XResult};
use crate::text;

verus! {

impl CGen {
    /// Whether an enum has a variant with a payload, and so becomes a tagged struct.
    pub(crate) fn enum_has_payload(&self, name: &str) -> (r: bool)
        ensures
            r == model::has_payload(self.decls(), name@),
    {
        match self.enum_payloads.get(name) {
            None => false,
            Some(payloads) => {
                let mut i: usize = 0;
                while i < payloads.list.len()
                    invariant
                        i <= payloads.list@.len(),
                        self.enum_payloads@.dom().contains(name@),
                        self.enum_payloads@[name@] == payloads@,
                        forall|j: int| 0 <= j < i ==> (#[trigger] payloads@[j]) is None,
                    decreases payloads.list@.len() - i,
                {
                    assert(payloads@[i as int] == model::payload_type(payloads.list@[i as int]));
                    if payloads.list[i].is_some() {
                        return true;
                    }
                    i += 1;
                }
                false
            },
        }
    }

    /// The constant in a type argument.
    pub(crate) fn const_type_arg_value<'a>(&self, ty: &'a TypeNode, label: &str) -> (r: XResult<
        &'a String,
    >)
        ensures
            error::outcome(r) == model::const_arg(ty@, label@),
    {
        match ty {
            TypeNode::ConstTypeArg { value } => Ok(value),
            TypeNode::TypeExpr { name, .. } => Err(
                XError::Codegen(
                    text::cat3(label, " must be a constant integer, got type ", name.as_str()),
                ),
            ),
        }
    }

    /// The C struct for a built-in generic type, if it is one.
    fn generic_type(&self, name: &str, args: &Vec<TypeNode>) -> (r: Option<XResult<String>>)
        ensures
            (match r {
                Some(x) => Some(error::outcome(x)),
                None => None,
            }) == model::generic_c(self.decls(), name@, ast::types_of(args@)),
        decreases args@, 0int,
    {
        if args.len() == 1 {
            assert(ast::types_of(args@)[0] == args@[0]@);
            let prefix: &str = if text::same(name, "Slice") {
                "Slice_"
            } else if text::same(name, "Option") {
                "Option_"
            } else if text::same(name, "Vec") {
                "Vec_"
            } else {
                return None;
            };
            proof {
                reveal_strlit("Slice");
                reveal_strlit("Option");
                reveal_strlit("Vec");
            }
            match self.known_suffix(&args[0]) {
                Ok(s) => Some(Ok(text::cat2(prefix, s.as_str()))),
                Err(e) => Some(Err(e)),
            }
        } else if args.len() == 2 {
            assert(ast::types_of(args@)[0] == args@[0]@);
            assert(ast::types_of(args@)[1] == args@[1]@);
            if text::same(name, "Array") {
                match self.known_suffix(&args[0]) {
                    Ok(s) => match self.const_type_arg_value(&args[1], "Array length") {
                        Ok(n) => Some(Ok(text::cat4("Array_", s.as_str(), "_", n.as_str()))),
                        Err(e) => Some(Err(e)),
                    },
                    Err(e) => Some(Err(e)),
                }
            } else if text::same(name, "Result") {
                match self.known_suffix(&args[0]) {
                    Ok(s) => match self.known_suffix(&args[1]) {
                        Ok(t) => Some(Ok(text::cat4("Result_", s.as_str(), "_", t.as_str()))),
                        Err(e) => Some(Err(e)),
                    },
                    Err(e) => Some(Err(e)),
                }
            } else {
                None
            }
        } else {
            None
        }
    }

    /// How a type without aliases appears inside the name of a generated C type.
    fn known_suffix(&self, ty: &TypeNode) -> (r: XResult<String>)
        ensures
            error::outcome(r) == model::known_suffix_c(self.decls(), ty@),
        decreases ty, 0int,
    {
        proof {
            ast::lemma_args(*ty);
        }
        match ty {
            TypeNode::ConstTypeArg { value } => Err(
                XError::Codegen(
                    text::cat2("unexpected const type argument in C type suffix: ", value.as_str()),
                ),
            ),
            TypeNode::TypeExpr { name, args } => if args.len() == 0 {
                let n: &str = name.as_str();
                if text::same(n, "i32") || text::same(n, "i64") || text::same(n, "f32")
                    || text::same(n, "f64") || text::same(n, "bool") || text::same(n, "String")
                    || text::same(n, "Str") || self.struct_names.contains(n)
                    || self.enum_names.contains(n) {
                    Ok(name.clone())
                } else {
                    Err(
                        XError::Codegen(
                            text::cat3(
                                "C backend does not support ",
                                n,
                                " as a generated type suffix yet",
                            ),
                        ),
                    )
                }
            } else {
                match self.generic_type(name.as_str(), args) {
                    Some(r) => r,
                    None => Err(
                        XError::Codegen(
                            text::cat3(
                                "C backend does not support ",
                                name.as_str(),
                                "<...> as a generated type suffix yet",
                            ),
                        ),
                    ),
                }
            },
        }
    }

    /// The C type for a type without arguments.
    fn plain_type(&self, name: &str) -> (r: XResult<String>)
        ensures
            error::outcome(r) == model::plain_c(self.decls(), name@),
    {
        if text::same(name, "i32") {
            Ok("int32_t".to_string())
        } else if text::same(name, "i64") {
            Ok("int64_t".to_string())
        } else if text::same(name, "f32") {
            Ok("float".to_string())
        } else if text::same(name, "f64") {
            Ok("double".to_string())
        } else if text::same(name, "bool") {
            Ok("bool".to_string())
        } else if text::same(name, "String") || text::same(name, "Str") {
            Ok("const char *".to_string())
        } else if self.struct_names.contains(name) {
            Ok(name.to_string())
        } else if self.enum_names.contains(name) {
            if self.enum_has_payload(name) {
                Ok(name.to_string())
            } else {
                Ok("int32_t".to_string())
            }
        } else {
            Err(XError::Codegen(text::cat2("C backend does not support type yet: ", name)))
        }
    }

    /// The C type for a type without aliases.
    fn known_type(&self, ty: &TypeNode) -> (r: XResult<String>)
        ensures
            error::outcome(r) == model::known_type_c(self.decls(), ty@),
    {
        proof {
            ast::lemma_args(*ty);
        }
        match ty {
            TypeNode::ConstTypeArg { value } => Err(
                XError::Codegen(
                    text::cat2(
                        "unexpected const type argument in C type position: ",
                        value.as_str(),
                    ),
                ),
            ),
            TypeNode::TypeExpr { name, args } => if args.len() == 0 {
                self.plain_type(name.as_str())
            } else {
                match self.generic_type(name.as_str(), args) {
                    Some(r) => r,
                    None => Err(
                        XError::Codegen(
                            text::cat3(
                                "C backend does not support generic type yet: ",
                                name.as_str(),
                                "<...>",
                            ),
                        ),
                    ),
                }
            },
        }
    }

    /// How a type appears inside the name of a generated C type.
    pub(crate) fn c_type_suffix(&self, ty: &TypeNode) -> (r: XResult<String>)
        ensures
            error::outcome(r) == model::suffix_c(self.decls(), ty@),
    {
        let meant = self.aliases.meaning(ty);
        self.known_suffix(&meant)
    }

    /// The C type for a type.
    pub(crate) fn c_type(&self, ty: &TypeNode) -> (r: XResult<String>)
        ensures
            error::outcome(r) == model::type_c(self.decls(), ty@),
    {
        let meant = self.aliases.meaning(ty);
        self.known_type(&meant)
    }
}

} // verus!
