//! Accessor emission: the exact lines a field's getter and putter become.
//! The shape follows one closed case analysis: instance vs. static, value
//! type vs. reference type, declaring type accessed by reference or not.
//! The offset literal is the adapter-supplied offset, never recomputed.
use vstd::prelude::*;

use crate::errors::CodegenError;
use crate::members::{CppFieldDecl, CppFieldImpl};
use crate::strutil::{hex_rep, u32_to_hex};

verus! {

/// `static ` ahead of a static member's accessor, nothing for instance.
pub open spec fn static_kw(f: CppFieldDecl) -> Seq<char> {
    if f.instance {
        Seq::empty()
    } else {
        "static "@
    }
}

/// `const ` ahead of a read-only reference-returning accessor.
pub open spec fn const_kw(f: CppFieldDecl) -> Seq<char> {
    if f.readonly {
        "const "@
    } else {
        Seq::empty()
    }
}

/// Whether the getter returns a reference rather than a copy: a value
/// type held by a declaring type that is itself accessed by reference.
pub open spec fn returns_reference(f: CppFieldDecl) -> bool {
    f.declaring_is_reference && f.is_value_type
}

/// What the instance accessor primitive is applied to.
pub open spec fn receiver(f: CppFieldDecl) -> Seq<char> {
    if f.declaring_is_reference {
        "instance"@
    } else {
        "this"@
    }
}

/// The getter's doc line.
pub open spec fn getter_doc_line(f: CppFieldDecl) -> Seq<char> {
    "/// @brief Field getter for "@ + f.name@
}

/// The getter's offset doc line, emitted for instance fields.
pub open spec fn getter_offset_doc_line(f: CppFieldDecl) -> Seq<char> {
    "/// @return value at offset 0x"@ + hex_rep(f.offset as int)
}

/// The getter's declared signature.
pub open spec fn getter_sig_line(f: CppFieldDecl) -> Seq<char> {
    if returns_reference(f) {
        static_kw(f) + const_kw(f) + f.ty@ + "& __get_"@ + f.name@ + "();"@
    } else {
        static_kw(f) + f.ty@ + " __get_"@ + f.name@ + "();"@
    }
}

/// The putter's doc line.
pub open spec fn putter_doc_line(f: CppFieldDecl) -> Seq<char> {
    "/// @brief Field putter for "@ + f.name@
}

/// The putter's offset doc line.
pub open spec fn putter_offset_doc_line(f: CppFieldDecl) -> Seq<char> {
    "/// @param value what to put at offset 0x"@ + hex_rep(f.offset as int)
}

/// The putter's declared signature.
pub open spec fn putter_sig_line(f: CppFieldDecl) -> Seq<char> {
    if returns_reference(f) {
        static_kw(f) + "void __put_"@ + f.name@ + "(const "@ + f.ty@ + "& value);"@
    } else {
        static_kw(f) + "void __put_"@ + f.name@ + "("@ + f.ty@ + " value);"@
    }
}

impl CppFieldDecl {
    /// The declared getter: doc lines, then the signature drawn from the
    /// accessor-shape table.
    pub fn write_field_getter(&self) -> (r: Vec<String>)
        ensures
            self.instance ==> r@.len() == 3 && r@[0]@ == getter_doc_line(*self) && r@[1]@
                == getter_offset_doc_line(*self) && r@[2]@ == getter_sig_line(*self),
            !self.instance ==> r@.len() == 2 && r@[0]@ == getter_doc_line(*self) && r@[1]@
                == getter_sig_line(*self),
    {
        let mut r: Vec<String> = Vec::new();
        let doc = String::from_str("/// @brief Field getter for ").concat(self.name.as_str());
        proof {
            assert(doc@ =~= getter_doc_line(*self));
        }
        r.push(doc);
        if self.instance {
            let off = String::from_str("/// @return value at offset 0x").concat(
                u32_to_hex(self.offset).as_str(),
            );
            proof {
                assert(off@ =~= getter_offset_doc_line(*self));
            }
            r.push(off);
        }
        let lead: String = if self.instance {
            String::new()
        } else {
            String::from_str("static ")
        };
        let sig: String = if self.declaring_is_reference && self.is_value_type {
            let lead = if self.readonly {
                lead.concat("const ")
            } else {
                lead
            };
            lead.concat(self.ty.as_str()).concat("& __get_").concat(self.name.as_str()).concat(
                "();",
            )
        } else {
            lead.concat(self.ty.as_str()).concat(" __get_").concat(self.name.as_str()).concat(
                "();",
            )
        };
        proof {
            assert(sig@ =~= getter_sig_line(*self));
        }
        r.push(sig);
        r
    }

    /// The declared putter. A field marked read-only is rejected with the
    /// declared error and nothing is emitted for it. The offset doc line
    /// is emitted for instance fields only: an offset is meaningful for
    /// nothing else.
    pub fn write_field_putter(&self) -> (r: Result<Vec<String>, CodegenError>)
        ensures
            r is Err <==> self.readonly,
            self.readonly ==> r == Err::<Vec<String>, CodegenError>(CodegenError::ReadonlyField),
            !self.readonly && self.instance ==> (r matches Ok(lines) && lines@.len() == 3
                && lines@[0]@ == putter_doc_line(*self) && lines@[1]@ == putter_offset_doc_line(
                *self,
            ) && lines@[2]@ == putter_sig_line(*self)),
            !self.readonly && !self.instance ==> (r matches Ok(lines) && lines@.len() == 2
                && lines@[0]@ == putter_doc_line(*self) && lines@[1]@ == putter_sig_line(*self)),
    {
        if self.readonly {
            return Err(CodegenError::ReadonlyField);
        }
        let mut r: Vec<String> = Vec::new();
        let doc = String::from_str("/// @brief Field putter for ").concat(self.name.as_str());
        proof {
            assert(doc@ =~= putter_doc_line(*self));
        }
        r.push(doc);
        if self.instance {
            let off = String::from_str("/// @param value what to put at offset 0x").concat(
                u32_to_hex(self.offset).as_str(),
            );
            proof {
                assert(off@ =~= putter_offset_doc_line(*self));
            }
            r.push(off);
        }
        let lead: String = if self.instance {
            String::new()
        } else {
            String::from_str("static ")
        };
        let sig: String = if self.declaring_is_reference && self.is_value_type {
            lead.concat("void __put_").concat(self.name.as_str()).concat("(const ").concat(
                self.ty.as_str(),
            ).concat("& value);")
        } else {
            lead.concat("void __put_").concat(self.name.as_str()).concat("(").concat(
                self.ty.as_str(),
            ).concat(" value);")
        };
        proof {
            assert(sig@ =~= putter_sig_line(*self));
        }
        r.push(sig);
        Ok(r)
    }
}

/// The implemented getter's signature line.
pub open spec fn getter_impl_sig_line(fi: CppFieldImpl) -> Seq<char> {
    let f = fi.field;
    if returns_reference(f) {
        const_kw(f) + f.ty@ + "& "@ + fi.klass_name@ + "::__get_"@ + f.name@ + "() {"@
    } else {
        f.ty@ + " "@ + fi.klass_name@ + "::__get_"@ + f.name@ + "() {"@
    }
}

/// The implemented getter's body line: the one accessor primitive the
/// shape table picks, carrying the field's exact offset or its name and
/// type-lookup call.
pub open spec fn getter_impl_body_line(fi: CppFieldImpl) -> Seq<char> {
    let f = fi.field;
    if f.is_value_type {
        if f.instance {
            "return getValueTypeInstance<"@ + f.ty@ + ", 0x"@ + hex_rep(f.offset as int) + ">("@
                + receiver(f) + ");"@
        } else {
            "return getValueTypeStatic<"@ + f.ty@ + ", \""@ + f.name@ + "\", "@ + f.classof_call@
                + ">();"@
        }
    } else {
        if f.instance {
            "return getReferenceTypeInstance<"@ + f.ty@ + ", 0x"@ + hex_rep(f.offset as int)
                + ">("@ + receiver(f) + ");"@
        } else {
            "return getReferenceTypeStatic<"@ + f.ty@ + ", \""@ + f.name@ + "\", "@
                + f.classof_call@ + ">();"@
        }
    }
}

/// The implemented putter's signature line.
pub open spec fn putter_impl_sig_line(fi: CppFieldImpl) -> Seq<char> {
    let f = fi.field;
    if returns_reference(f) {
        "void "@ + fi.klass_name@ + "::__put_"@ + f.name@ + "(const "@ + f.ty@ + "& value) {"@
    } else {
        "void "@ + fi.klass_name@ + "::__put_"@ + f.name@ + "("@ + f.ty@ + " value) {"@
    }
}

/// The implemented putter's body line.
pub open spec fn putter_impl_body_line(fi: CppFieldImpl) -> Seq<char> {
    let f = fi.field;
    if f.is_value_type {
        if f.instance {
            "setValueTypeInstance<"@ + f.ty@ + ", 0x"@ + hex_rep(f.offset as int) + ">("@
                + receiver(f) + ", value);"@
        } else {
            "setValueTypeStatic<"@ + f.ty@ + ", \""@ + f.name@ + "\", "@ + f.classof_call@
                + ">(value);"@
        }
    } else {
        if f.instance {
            "setReferenceTypeInstance<"@ + f.ty@ + ", 0x"@ + hex_rep(f.offset as int) + ">("@
                + receiver(f) + ", value);"@
        } else {
            "setReferenceTypeStatic<"@ + f.ty@ + ", \""@ + f.name@ + "\", "@ + f.classof_call@
                + ">(value);"@
        }
    }
}

impl CppFieldImpl {
    /// The implemented getter: signature, the accessor call, closing
    /// brace.
    pub fn write_field_getter(&self) -> (r: Vec<String>)
        ensures
            r@.len() == 3,
            r@[0]@ == getter_impl_sig_line(*self),
            r@[1]@ == getter_impl_body_line(*self),
            r@[2]@ == "}"@,
    {
        let f = &self.field;
        let mut r: Vec<String> = Vec::new();
        let sig: String = if f.declaring_is_reference && f.is_value_type {
            let lead = if f.readonly {
                String::from_str("const ")
            } else {
                String::new()
            };
            lead.concat(f.ty.as_str()).concat("& ").concat(self.klass_name.as_str()).concat(
                "::__get_",
            ).concat(f.name.as_str()).concat("() {")
        } else {
            f.ty.clone().concat(" ").concat(self.klass_name.as_str()).concat("::__get_").concat(
                f.name.as_str(),
            ).concat("() {")
        };
        proof {
            assert(sig@ =~= getter_impl_sig_line(*self));
        }
        r.push(sig);
        let recv: &str = if f.declaring_is_reference {
            "instance"
        } else {
            "this"
        };
        let body: String = if f.is_value_type {
            if f.instance {
                String::from_str("return getValueTypeInstance<").concat(f.ty.as_str()).concat(
                    ", 0x",
                ).concat(u32_to_hex(f.offset).as_str()).concat(">(").concat(recv).concat(");")
            } else {
                String::from_str("return getValueTypeStatic<").concat(f.ty.as_str()).concat(
                    ", \"",
                ).concat(f.name.as_str()).concat("\", ").concat(f.classof_call.as_str()).concat(
                    ">();",
                )
            }
        } else {
            if f.instance {
                String::from_str("return getReferenceTypeInstance<").concat(f.ty.as_str()).concat(
                    ", 0x",
                ).concat(u32_to_hex(f.offset).as_str()).concat(">(").concat(recv).concat(");")
            } else {
                String::from_str("return getReferenceTypeStatic<").concat(f.ty.as_str()).concat(
                    ", \"",
                ).concat(f.name.as_str()).concat("\", ").concat(f.classof_call.as_str()).concat(
                    ">();",
                )
            }
        };
        proof {
            assert(body@ =~= getter_impl_body_line(*self));
        }
        r.push(body);
        r.push(String::from_str("}"));
        r
    }

    /// The implemented putter. A field marked read-only is rejected with
    /// the declared error and nothing is emitted for it.
    pub fn write_field_putter(&self) -> (r: Result<Vec<String>, CodegenError>)
        ensures
            r is Err <==> self.field.readonly,
            self.field.readonly ==> r == Err::<Vec<String>, CodegenError>(
                CodegenError::ReadonlyField,
            ),
            !self.field.readonly ==> (r matches Ok(lines) && lines@.len() == 3 && lines@[0]@
                == putter_impl_sig_line(*self) && lines@[1]@ == putter_impl_body_line(*self)
                && lines@[2]@ == "}"@),
    {
        if self.field.readonly {
            return Err(CodegenError::ReadonlyField);
        }
        let f = &self.field;
        let mut r: Vec<String> = Vec::new();
        let sig: String = if f.declaring_is_reference && f.is_value_type {
            String::from_str("void ").concat(self.klass_name.as_str()).concat("::__put_").concat(
                f.name.as_str(),
            ).concat("(const ").concat(f.ty.as_str()).concat("& value) {")
        } else {
            String::from_str("void ").concat(self.klass_name.as_str()).concat("::__put_").concat(
                f.name.as_str(),
            ).concat("(").concat(f.ty.as_str()).concat(" value) {")
        };
        proof {
            assert(sig@ =~= putter_impl_sig_line(*self));
        }
        r.push(sig);
        let recv: &str = if f.declaring_is_reference {
            "instance"
        } else {
            "this"
        };
        let body: String = if f.is_value_type {
            if f.instance {
                String::from_str("setValueTypeInstance<").concat(f.ty.as_str()).concat(
                    ", 0x",
                ).concat(u32_to_hex(f.offset).as_str()).concat(">(").concat(recv).concat(
                    ", value);",
                )
            } else {
                String::from_str("setValueTypeStatic<").concat(f.ty.as_str()).concat(
                    ", \"",
                ).concat(f.name.as_str()).concat("\", ").concat(f.classof_call.as_str()).concat(
                    ">(value);",
                )
            }
        } else {
            if f.instance {
                String::from_str("setReferenceTypeInstance<").concat(f.ty.as_str()).concat(
                    ", 0x",
                ).concat(u32_to_hex(f.offset).as_str()).concat(">(").concat(recv).concat(
                    ", value);",
                )
            } else {
                String::from_str("setReferenceTypeStatic<").concat(f.ty.as_str()).concat(
                    ", \"",
                ).concat(f.name.as_str()).concat("\", ").concat(f.classof_call.as_str()).concat(
                    ">(value);",
                )
            }
        };
        proof {
            assert(body@ =~= putter_impl_body_line(*self));
        }
        r.push(body);
        r.push(String::from_str("}"));
        Ok(r)
    }
}

} // verus!
