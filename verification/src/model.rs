//! The document model: named datatypes and modules of functions, as an
//! interface-definition parser hands them over.

use vstd::prelude::*;
use vstd::string::*;

verus! {

/// An identifier of the document.
#[derive(Debug, PartialEq, Eq)]
pub struct Id {
    pub name: String,
}

impl View for Id {
    type V = Seq<char>;

    open spec fn view(&self) -> Seq<char> {
        self.name@
    }
}

impl Id {
    /// The identifier with the given name.
    pub fn new(name: &str) -> (id: Id)
        ensures
            id@ == name@,
    {
        Id { name: String::from_str(name) }
    }

    /// The name of the identifier.
    pub fn as_str(&self) -> (s: &str)
        ensures
            s@ == self@,
    {
        self.name.as_str()
    }
}

/// The primitive types of the interface language.
#[derive(Debug, Clone, Copy, PartialEq, Eq)]
pub enum BuiltinType {
    String,
    U8,
    U16,
    U32,
    U64,
    S8,
    S16,
    S32,
    S64,
    F32,
    F64,
}

/// The integer width that represents an enum or a set of flags.
#[derive(Debug, Clone, Copy, PartialEq, Eq)]
pub enum IntRepr {
    U8,
    U16,
    U32,
    U64,
}

/// A reference to a type.
///
/// `Array` stands only for the element sequence behind a pointer and length
/// pair; it never names a type that is declared or stored on its own.
#[derive(Debug, PartialEq, Eq)]
pub enum DatatypeIdent {
    Builtin(BuiltinType),
    Array(Box<DatatypeIdent>),
    Pointer(Box<DatatypeIdent>),
    ConstPointer(Box<DatatypeIdent>),
    /// The name of a datatype of the same document.
    Ident(Id),
}

/// Another name for the type `to`.
#[derive(Debug, PartialEq, Eq)]
pub struct AliasDatatype {
    pub to: DatatypeIdent,
}

/// Variants are numbered by position, from zero.
#[derive(Debug, PartialEq, Eq)]
pub struct EnumDatatype {
    pub repr: IntRepr,
    pub variants: Vec<Id>,
}

/// The flag at position `i` has the value `1 << i`.
#[derive(Debug, PartialEq, Eq)]
pub struct FlagsDatatype {
    pub repr: IntRepr,
    pub flags: Vec<Id>,
}

/// A named member of a struct.
#[derive(Debug, PartialEq, Eq)]
pub struct StructMember {
    pub name: Id,
    pub type_: DatatypeIdent,
}

/// Members laid out one after another, in order.
#[derive(Debug, PartialEq, Eq)]
pub struct StructDatatype {
    pub members: Vec<StructMember>,
}

/// A named variant of a union.
#[derive(Debug, PartialEq, Eq)]
pub struct UnionVariant {
    pub name: Id,
    pub type_: DatatypeIdent,
}

/// Variants that share one region of storage.
#[derive(Debug, PartialEq, Eq)]
pub struct UnionDatatype {
    pub variants: Vec<UnionVariant>,
}

/// An opaque reference to a resource, represented as a 32-bit integer.
#[derive(Debug, PartialEq, Eq)]
pub struct HandleDatatype {}

/// The kinds of datatype.
#[derive(Debug, PartialEq, Eq)]
pub enum DatatypeVariant {
    Alias(AliasDatatype),
    Enum(EnumDatatype),
    Flags(FlagsDatatype),
    Struct(StructDatatype),
    Union(UnionDatatype),
    Handle(HandleDatatype),
}

/// A named type definition.
#[derive(Debug, PartialEq, Eq)]
pub struct Datatype {
    pub name: Id,
    pub variant: DatatypeVariant,
}

/// Whether a slot of a function is one of its parameters or one of its
/// results, with its position among them.
#[derive(Debug, Clone, Copy, PartialEq, Eq)]
pub enum InterfaceFuncParamPosition {
    Param(usize),
    Result(usize),
}

/// A parameter or a result of a function.
#[derive(Debug, PartialEq, Eq)]
pub struct InterfaceFuncParam {
    pub name: Id,
    pub type_: DatatypeIdent,
    pub position: InterfaceFuncParamPosition,
}

/// A function with its parameters and results, each in declared order.
#[derive(Debug, PartialEq, Eq)]
pub struct InterfaceFunc {
    pub name: Id,
    pub params: Vec<InterfaceFuncParam>,
    pub results: Vec<InterfaceFuncParam>,
}

/// A named group of functions, in declared order.
#[derive(Debug, PartialEq, Eq)]
pub struct Module {
    pub name: Id,
    pub funcs: Vec<InterfaceFunc>,
}

/// Datatypes and modules, each in declaration order.
#[derive(Debug, PartialEq, Eq)]
pub struct Document {
    pub datatypes: Vec<Datatype>,
    pub modules: Vec<Module>,
}

/// How a value of a type crosses the function boundary.
#[derive(Debug, Clone, Copy, PartialEq, Eq)]
pub enum DatatypePassedBy {
    /// As one scalar.
    Value,
    /// As one pointer to the value.
    Pointer,
    /// As a pointer to the first element and the number of elements.
    PointerLengthPair,
}

/// Why a document has no rendering.
#[derive(Debug, Clone, Copy, PartialEq, Eq)]
pub enum GenerateError {
    /// A type reference names no datatype of the document.
    UnknownDatatype,
    /// A chain of aliases does not end within as many steps as the document
    /// has datatypes.
    AliasCycle,
    /// An array stands where a type is declared, stored or pointed to.
    StandaloneArray,
    /// A result of a function is of a type passed as pointer and length.
    PairResult,
    /// A set of flags has more members than its representation has bits.
    TooManyFlags,
}

/// The first fault in a sequence of findings, if there is any.
pub open spec fn first_fault(findings: Seq<Option<GenerateError>>) -> Option<GenerateError>
    decreases findings.len(),
{
    if findings.len() == 0 {
        None
    } else if findings.first() is Some {
        findings.first()
    } else {
        first_fault(findings.drop_first())
    }
}

/// Walking the findings from the front: a fault at `i` is the first fault
/// from `i` on, and a clean finding leaves the question to the rest.
pub proof fn lemma_first_fault_step(findings: Seq<Option<GenerateError>>, i: int)
    requires
        0 <= i <= findings.len(),
    ensures
        findings.skip(0) == findings,
        i == findings.len() ==> first_fault(findings.skip(i)) is None,
        i < findings.len() ==> first_fault(findings.skip(i)) == if findings[i] is Some {
            findings[i]
        } else {
            first_fault(findings.skip(i + 1))
        },
{
    assert(findings.skip(0) =~= findings);
    if i < findings.len() {
        assert(findings.skip(i).drop_first() =~= findings.skip(i + 1));
    }
}

/// There is no fault exactly when every finding is clean, and a fault that
/// is reported is one of the findings.
pub proof fn lemma_first_fault_none(findings: Seq<Option<GenerateError>>)
    ensures
        first_fault(findings) is None <==> forall|i: int|
            0 <= i < findings.len() ==> findings[i] is None,
        first_fault(findings) is Some ==> exists|i: int|
            0 <= i < findings.len() && findings[i] == first_fault(findings),
    decreases findings.len(),
{
    if findings.len() > 0 {
        let rest = findings.drop_first();
        lemma_first_fault_none(rest);
        assert(forall|i: int| 0 <= i < rest.len() ==> rest[i] == findings[i + 1]);
        if findings.first() is None {
            if first_fault(rest) is None {
                assert forall|i: int| 0 <= i < findings.len() implies findings[i] is None by {
                    if i > 0 {
                        assert(rest[i - 1] == findings[i]);
                    }
                }
            } else {
                let k = choose|k: int| 0 <= k < rest.len() && rest[k] == first_fault(rest);
                assert(findings[k + 1] == first_fault(findings));
            }
        } else {
            assert(findings[0] == first_fault(findings));
        }
    }
}

} // verus!
