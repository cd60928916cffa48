//! The smallest pieces of a declaration: identifiers, primitive types and
//! references to types.

use crate::model::{BuiltinType, DatatypeIdent, GenerateError, Id, IntRepr};
use vstd::prelude::*;
use vstd::string::*;

verus! {

impl Id {
    /// Whether the name is a word that the target language keeps for itself.
    pub open spec fn reserved(&self) -> bool {
        self@ == "in"@ || self@ == "type"@
    }

    /// The name as it is written where a field or a parameter is declared: a
    /// reserved word in its raw form, any other name as it is.
    pub open spec fn escaped(&self) -> Seq<char> {
        if self.reserved() {
            "r#"@ + self@
        } else {
            self@
        }
    }

    /// Whether the name is a reserved word of the target language.
    pub fn is_reserved(&self) -> (b: bool)
        ensures
            b == self.reserved(),
    {
        self.name == String::from_str("in") || self.name == String::from_str("type")
    }

    /// Appends the name, escaped where it is a reserved word.
    pub fn render(&self, src: &mut String)
        ensures
            final(src)@ == old(src)@ + self.escaped(),
    {
        if self.is_reserved() {
            src.append("r#");
        }
        src.append(self.as_str());
    }
}

/// The name that a written identifier denotes: a raw identifier denotes the
/// word behind its prefix.
pub open spec fn denoted(written: Seq<char>) -> Seq<char> {
    if written.len() >= 2 && written.take(2) == "r#"@ {
        written.skip(2)
    } else {
        written
    }
}

impl BuiltinType {
    /// The name of the fixed-width type that stands for the primitive.
    pub open spec fn text(&self) -> Seq<char> {
        match self {
            BuiltinType::String => "str"@,
            BuiltinType::U8 => "u8"@,
            BuiltinType::U16 => "u16"@,
            BuiltinType::U32 => "u32"@,
            BuiltinType::U64 => "u64"@,
            BuiltinType::S8 => "i8"@,
            BuiltinType::S16 => "i16"@,
            BuiltinType::S32 => "i32"@,
            BuiltinType::S64 => "i64"@,
            BuiltinType::F32 => "f32"@,
            BuiltinType::F64 => "f64"@,
        }
    }

    /// Appends the name of the fixed-width type that stands for the primitive.
    pub fn render(&self, src: &mut String)
        ensures
            final(src)@ == old(src)@ + self.text(),
    {
        match self {
            BuiltinType::String => src.append("str"),
            BuiltinType::U8 => src.append("u8"),
            BuiltinType::U16 => src.append("u16"),
            BuiltinType::U32 => src.append("u32"),
            BuiltinType::U64 => src.append("u64"),
            BuiltinType::S8 => src.append("i8"),
            BuiltinType::S16 => src.append("i16"),
            BuiltinType::S32 => src.append("i32"),
            BuiltinType::S64 => src.append("i64"),
            BuiltinType::F32 => src.append("f32"),
            BuiltinType::F64 => src.append("f64"),
        }
    }
}

impl IntRepr {
    /// The name of the unsigned integer type of this width.
    pub open spec fn text(&self) -> Seq<char> {
        match self {
            IntRepr::U8 => "u8"@,
            IntRepr::U16 => "u16"@,
            IntRepr::U32 => "u32"@,
            IntRepr::U64 => "u64"@,
        }
    }

    /// The number of bits of the representation.
    pub open spec fn width(&self) -> nat {
        match self {
            IntRepr::U8 => 8,
            IntRepr::U16 => 16,
            IntRepr::U32 => 32,
            IntRepr::U64 => 64,
        }
    }

    /// The number of bits of the representation.
    pub fn bits(&self) -> (n: usize)
        ensures
            n == self.width(),
    {
        match self {
            IntRepr::U8 => 8,
            IntRepr::U16 => 16,
            IntRepr::U32 => 32,
            IntRepr::U64 => 64,
        }
    }

    /// Appends the name of the unsigned integer type of this width.
    pub fn render(&self, src: &mut String)
        ensures
            final(src)@ == old(src)@ + self.text(),
    {
        match self {
            IntRepr::U8 => src.append("u8"),
            IntRepr::U16 => src.append("u16"),
            IntRepr::U32 => src.append("u32"),
            IntRepr::U64 => src.append("u64"),
        }
    }
}

impl DatatypeIdent {
    /// Whether the reference can be written as a type on its own: it holds
    /// no array, at any depth.
    pub open spec fn standalone(&self) -> bool
        decreases self,
    {
        match self {
            DatatypeIdent::Builtin(_) => true,
            DatatypeIdent::Array(_) => false,
            DatatypeIdent::Pointer(to) => to.standalone(),
            DatatypeIdent::ConstPointer(to) => to.standalone(),
            DatatypeIdent::Ident(_) => true,
        }
    }

    /// What stops the reference from being written as a type.
    pub open spec fn fault(&self) -> Option<GenerateError> {
        if self.standalone() {
            None
        } else {
            Some(GenerateError::StandaloneArray)
        }
    }

    /// The reference written as a type. An array has no such form.
    pub open spec fn text(&self) -> Seq<char>
        decreases self,
    {
        match self {
            DatatypeIdent::Builtin(builtin) => builtin.text(),
            DatatypeIdent::Array(_) => Seq::empty(),
            DatatypeIdent::Pointer(to) => "*mut "@ + to.text(),
            DatatypeIdent::ConstPointer(to) => "*const "@ + to.text(),
            DatatypeIdent::Ident(id) => "__wasi_"@ + id@ + "_t"@,
        }
    }

    /// Tells whether the reference can be written as a type.
    pub fn check(&self) -> (r: Result<(), GenerateError>)
        ensures
            r is Ok <==> self.fault() is None,
            r matches Err(e) ==> self.fault() == Some(e),
        decreases self,
    {
        match self {
            DatatypeIdent::Builtin(_) => Ok(()),
            DatatypeIdent::Array(_) => Err(GenerateError::StandaloneArray),
            DatatypeIdent::Pointer(to) => to.check(),
            DatatypeIdent::ConstPointer(to) => to.check(),
            DatatypeIdent::Ident(_) => Ok(()),
        }
    }

    /// Appends the reference written as a type.
    pub fn render(&self, src: &mut String)
        requires
            self.standalone(),
        ensures
            final(src)@ == old(src)@ + self.text(),
        decreases self,
    {
        match self {
            DatatypeIdent::Builtin(builtin) => builtin.render(src),
            DatatypeIdent::Array(_) => {},
            DatatypeIdent::Pointer(to) => {
                src.append("*mut ");
                to.render(src);
            },
            DatatypeIdent::ConstPointer(to) => {
                src.append("*const ");
                to.render(src);
            },
            DatatypeIdent::Ident(id) => {
                src.append("__wasi_");
                src.append(id.as_str());
                src.append("_t");
            },
        }
    }
}

/// A reserved word is written with the raw prefix and still denotes itself;
/// every other name that does not itself begin with the prefix is written,
/// and denoted, unchanged.
pub proof fn lemma_escaping_round_trips(id: Id)
    requires
        !(id@.len() >= 2 && id@.take(2) == "r#"@),
    ensures
        id.reserved() ==> id.escaped() == "r#"@ + id@,
        !id.reserved() ==> id.escaped() == id@,
        denoted(id.escaped()) == id@,
{
    reveal_strlit("r#");
    if id.reserved() {
        let written = "r#"@ + id@;
        assert(written.take(2) =~= "r#"@);
        assert(written.skip(2) =~= id@);
    }
}

} // verus!
