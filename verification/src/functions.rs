//! Declarations of imported functions: how each parameter and result is
//! passed, and what the function returns.

use crate::model::{
    first_fault, lemma_first_fault_none, lemma_first_fault_step, BuiltinType, DatatypeIdent,
    DatatypePassedBy, Document, GenerateError, InterfaceFunc, InterfaceFuncParam,
    InterfaceFuncParamPosition,
};
use crate::text::{concat_all, lemma_concat_all_step};
use vstd::prelude::*;
use vstd::string::*;

verus! {

impl InterfaceFuncParam {
    /// Whether the slot is tagged as a parameter rather than as a result.
    pub open spec fn named(&self) -> bool {
        self.position is Param
    }

    /// What stands before the type: the escaped name of a parameter, nothing
    /// for a result.
    pub open spec fn label(&self) -> Seq<char> {
        if self.named() {
            self.name.escaped() + ": "@
        } else {
            Seq::empty()
        }
    }

    /// What a pointer and length pair points to: the elements of an array,
    /// or the bytes of a string.
    pub open spec fn element_text(&self, doc: &Document) -> Seq<char> {
        match doc.resolved(self.type_) {
            Ok(DatatypeIdent::Array(element)) => element.text(),
            _ => "u8"@,
        }
    }

    /// What stops the slot from being written: a type that cannot be
    /// classified or written, or a result that would need a pair.
    pub open spec fn fault(&self, doc: &Document) -> Option<GenerateError> {
        match doc.passing(self.type_) {
            Err(e) => Some(e),
            Ok(DatatypePassedBy::PointerLengthPair) => if !self.named() {
                Some(GenerateError::PairResult)
            } else {
                match doc.resolved(self.type_) {
                    Ok(DatatypeIdent::Array(element)) => element.fault(),
                    _ => None,
                }
            },
            Ok(_) => self.type_.fault(),
        }
    }

    /// The slot as it is declared. By value: the type itself. By pointer: a
    /// mutable pointer to the type. As a pair: a pointer parameter and a
    /// length parameter, named after the slot.
    pub open spec fn text(&self, doc: &Document) -> Seq<char> {
        match doc.passing(self.type_) {
            Ok(DatatypePassedBy::Value) => self.label() + self.type_.text(),
            Ok(DatatypePassedBy::Pointer) => self.label() + "*mut "@ + self.type_.text(),
            Ok(DatatypePassedBy::PointerLengthPair) => self.name@ + "_ptr: *const "@
                + self.element_text(doc) + ", "@ + self.name@ + "_len: usize"@,
            Err(_) => Seq::empty(),
        }
    }

    /// Whether the slot is tagged as a parameter.
    pub fn is_param(&self) -> (b: bool)
        ensures
            b == self.named(),
    {
        match self.position {
            InterfaceFuncParamPosition::Param(_) => true,
            InterfaceFuncParamPosition::Result(_) => false,
        }
    }

    /// Looks for what stops the slot from being written.
    pub fn check(&self, doc: &Document) -> (r: Result<(), GenerateError>)
        ensures
            r is Ok <==> self.fault(doc) is None,
            r matches Err(e) ==> self.fault(doc) == Some(e),
    {
        match doc.passed_by(&self.type_) {
            Err(e) => Err(e),
            Ok(DatatypePassedBy::PointerLengthPair) => {
                if !self.is_param() {
                    return Err(GenerateError::PairResult);
                }
                match doc.resolve(&self.type_) {
                    Ok(DatatypeIdent::Array(element)) => element.check(),
                    _ => Ok(()),
                }
            },
            Ok(_) => self.type_.check(),
        }
    }

    /// Appends what stands before the type of the slot.
    fn render_label(&self, src: &mut String)
        ensures
            final(src)@ == old(src)@ + self.label(),
    {
        if self.is_param() {
            self.name.render(src);
            src.append(": ");
        }
        assert(src@ =~= old(src)@ + self.label());
    }

    /// Appends the slot as it is declared.
    pub fn render(&self, doc: &Document, src: &mut String)
        requires
            self.fault(doc) is None,
        ensures
            final(src)@ == old(src)@ + self.text(doc),
    {
        match doc.passed_by(&self.type_) {
            Ok(DatatypePassedBy::Value) => {
                self.render_label(src);
                self.type_.render(src);
            },
            Ok(DatatypePassedBy::Pointer) => {
                self.render_label(src);
                src.append("*mut ");
                self.type_.render(src);
            },
            Ok(DatatypePassedBy::PointerLengthPair) => {
                src.append(self.name.as_str());
                src.append("_ptr: *const ");
                match doc.resolve(&self.type_) {
                    Ok(DatatypeIdent::Array(element)) => element.render(src),
                    _ => src.append("u8"),
                }
                src.append(", ");
                src.append(self.name.as_str());
                src.append("_len: usize");
            },
            Err(_) => {},
        }
        assert(src@ =~= old(src)@ + self.text(doc));
    }

    /// The slot as a trailing out-parameter: a mutable pointer that the
    /// callee writes the result through.
    pub open spec fn out_text(&self) -> Seq<char> {
        self.name.escaped() + ": *mut "@ + self.type_.text()
    }

    /// Appends the slot as a trailing out-parameter.
    pub fn render_out(&self, src: &mut String)
        requires
            self.type_.standalone(),
        ensures
            final(src)@ == old(src)@ + self.out_text(),
    {
        self.name.render(src);
        src.append(": *mut ");
        self.type_.render(src);
        assert(src@ =~= old(src)@ + self.out_text());
    }
}

impl InterfaceFunc {
    /// The results after the first, in order.
    pub open spec fn later_results(&self) -> Seq<InterfaceFuncParam> {
        if self.results@.len() == 0 {
            Seq::empty()
        } else {
            self.results@.skip(1)
        }
    }

    /// What stops each parameter from being written, in order.
    pub open spec fn param_findings(&self, doc: &Document) -> Seq<Option<GenerateError>> {
        self.params@.map_values(|param: InterfaceFuncParam| param.fault(doc))
    }

    /// What stops each later result from being written as an out-parameter, in
    /// order.
    pub open spec fn out_findings(&self) -> Seq<Option<GenerateError>> {
        self.later_results().map_values(|result: InterfaceFuncParam| result.type_.fault())
    }

    /// What stops the function from being declared: the first fault among
    /// its parameters, else among its later results, else of its first
    /// result.
    pub open spec fn fault(&self, doc: &Document) -> Option<GenerateError> {
        if first_fault(self.param_findings(doc)) is Some {
            first_fault(self.param_findings(doc))
        } else if first_fault(self.out_findings()) is Some {
            first_fault(self.out_findings())
        } else if self.results@.len() > 0 {
            self.results@[0].fault(doc)
        } else {
            None
        }
    }

    /// The declared parameters, in order, each followed by a comma.
    pub open spec fn param_texts(&self, doc: &Document) -> Seq<Seq<char>> {
        self.params@.map_values(|param: InterfaceFuncParam| param.text(doc) + ","@)
    }

    /// The results after the first as out-parameters, in order, each
    /// followed by a comma.
    pub open spec fn out_texts(&self) -> Seq<Seq<char>> {
        self.later_results().map_values(|result: InterfaceFuncParam| result.out_text() + ","@)
    }

    /// What the function returns: its first result; nothing if it has no
    /// result, except that `proc_exit` never returns.
    pub open spec fn return_text(&self, doc: &Document) -> Seq<char> {
        if self.results@.len() > 0 {
            " -> "@ + self.results@[0].text(doc)
        } else if self.name@ == "proc_exit"@ {
            " -> !"@
        } else {
            Seq::empty()
        }
    }

    /// The declaration of the function: linked under its own name, declared
    /// under a prefixed one, with the parameters, then the out-parameters,
    /// then the return type.
    pub open spec fn text(&self, doc: &Document) -> Seq<char> {
        "#[link_name = \""@ + self.name@ + "\"]\npub fn __wasi_"@ + self.name@ + "("@ + concat_all(
            self.param_texts(doc),
        ) + concat_all(self.out_texts()) + ")"@ + self.return_text(doc) + ";"@
    }

    /// Looks for what stops the function from being declared.
    pub fn check(&self, doc: &Document) -> (r: Result<(), GenerateError>)
        ensures
            r is Ok <==> self.fault(doc) is None,
            r matches Err(e) ==> self.fault(doc) == Some(e),
    {
        proof {
            lemma_first_fault_step(self.param_findings(doc), 0);
        }
        let mut i: usize = 0;
        while i < self.params.len()
            invariant
                i <= self.params@.len(),
                first_fault(self.param_findings(doc).skip(i as int)) == first_fault(
                    self.param_findings(doc),
                ),
            decreases self.params@.len() - i,
        {
            proof {
                lemma_first_fault_step(self.param_findings(doc), i as int);
            }
            match self.params[i].check(doc) {
                Err(e) => {
                    return Err(e);
                },
                Ok(()) => {},
            }
            i += 1;
        }
        proof {
            lemma_first_fault_step(self.param_findings(doc), i as int);
            lemma_first_fault_step(self.out_findings(), 0);
        }
        let mut j: usize = 1;
        while j < self.results.len()
            invariant
                1 <= j,
                self.results@.len() > 0 ==> j <= self.results@.len(),
                first_fault(self.param_findings(doc)) is None,
                self.results@.len() > 0 ==> first_fault(self.out_findings().skip(j - 1))
                    == first_fault(self.out_findings()),
            decreases self.results@.len() - j,
        {
            proof {
                lemma_first_fault_step(self.out_findings(), j - 1);
            }
            match self.results[j].type_.check() {
                Err(e) => {
                    return Err(e);
                },
                Ok(()) => {},
            }
            j += 1;
        }
        if self.results.len() > 0 {
            proof {
                lemma_first_fault_step(self.out_findings(), j - 1);
            }
            self.results[0].check(doc)
        } else {
            Ok(())
        }
    }

    /// Appends the declaration of the function.
    pub fn render(&self, doc: &Document, src: &mut String)
        requires
            self.fault(doc) is None,
        ensures
            final(src)@ == old(src)@ + self.text(doc),
    {
        src.append("#[link_name = \"");
        src.append(self.name.as_str());
        src.append("\"]\npub fn __wasi_");
        src.append(self.name.as_str());
        src.append("(");
        let ghost head = src@;
        proof {
            lemma_concat_all_step(self.param_texts(doc), 0);
            lemma_first_fault_none(self.param_findings(doc));
            lemma_first_fault_none(self.out_findings());
        }
        let mut i: usize = 0;
        while i < self.params.len()
            invariant
                i <= self.params@.len(),
                forall|k: int|
                    0 <= k < self.params@.len() ==> self.param_findings(doc)[k] is None,
                src@ == head + concat_all(self.param_texts(doc).take(i as int)),
            decreases self.params@.len() - i,
        {
            proof {
                lemma_concat_all_step(self.param_texts(doc), i as int);
                assert(self.param_findings(doc)[i as int] is None);
            }
            self.params[i].render(doc, src);
            src.append(",");
            i += 1;
            assert(src@ =~= head + concat_all(self.param_texts(doc).take(i as int)));
        }
        proof {
            lemma_concat_all_step(self.param_texts(doc), i as int);
            lemma_concat_all_step(self.out_texts(), 0);
        }
        let ghost middle = src@;
        let mut j: usize = 1;
        while j < self.results.len()
            invariant
                1 <= j,
                self.results@.len() > 0 ==> j <= self.results@.len(),
                forall|k: int|
                    0 <= k < self.later_results().len() ==> self.out_findings()[k] is None,
                self.results@.len() > 0 ==> src@ == middle + concat_all(
                    self.out_texts().take(j - 1),
                ),
                self.results@.len() == 0 ==> src@ == middle,
            decreases self.results@.len() - j,
        {
            proof {
                lemma_concat_all_step(self.out_texts(), j - 1);
                assert(self.out_findings()[j - 1] is None);
            }
            self.results[j].render_out(src);
            src.append(",");
            j += 1;
            assert(src@ =~= middle + concat_all(self.out_texts().take(j - 1)));
        }
        proof {
            if self.results@.len() > 0 {
                lemma_concat_all_step(self.out_texts(), j - 1);
            }
        }
        assert(src@ =~= middle + concat_all(self.out_texts()));
        src.append(")");
        if self.results.len() > 0 {
            src.append(" -> ");
            self.results[0].render(doc, src);
        } else if self.name.name == String::from_str("proc_exit") {
            src.append(" -> !");
        }
        src.append(";");
        assert(src@ =~= old(src)@ + self.text(doc));
    }
}

/// A type is passed as pointer and length exactly when it stands for a
/// string or an array, so the pointer of such a pair always has a pointee.
pub proof fn lemma_pair_is_string_or_array(doc: &Document, ty: DatatypeIdent)
    ensures
        doc.passing(ty) == Ok::<DatatypePassedBy, GenerateError>(
            DatatypePassedBy::PointerLengthPair,
        ) <==> (doc.resolved(ty) matches Ok(shape) && (shape is Array || shape
            == DatatypeIdent::Builtin(BuiltinType::String))),
{
}

/// A parameter that stands for a string becomes exactly two parameters: a
/// pointer to bytes named after it with `_ptr`, then a length named after it
/// with `_len`; the parameter's own name does not appear alone.
pub proof fn lemma_string_parameter_expands(param: InterfaceFuncParam, doc: &Document)
    requires
        doc.resolved(param.type_) == Ok::<DatatypeIdent, GenerateError>(
            DatatypeIdent::Builtin(BuiltinType::String),
        ),
    ensures
        param.text(doc) == param.name@ + "_ptr: *const "@ + "u8"@ + ", "@ + param.name@
            + "_len: usize"@,
        param.named() ==> param.fault(doc) is None,
{
}

/// A parameter that stands for an array becomes a pointer to its elements
/// and a length.
pub proof fn lemma_array_parameter_expands(
    param: InterfaceFuncParam,
    doc: &Document,
    element: DatatypeIdent,
)
    requires
        doc.resolved(param.type_) == Ok::<DatatypeIdent, GenerateError>(
            DatatypeIdent::Array(Box::new(element)),
        ),
    ensures
        param.text(doc) == param.name@ + "_ptr: *const "@ + element.text() + ", "@ + param.name@
            + "_len: usize"@,
{
}

/// A function without results returns nothing, unless it is `proc_exit`,
/// which never returns. A function with results returns the first, and every
/// later result is a trailing out-parameter, in declared order.
pub proof fn lemma_result_convention(func: InterfaceFunc, doc: &Document, k: int)
    ensures
        func.results@.len() == 0 && func.name@ != "proc_exit"@ ==> func.return_text(doc)
            == Seq::<char>::empty(),
        func.results@.len() == 0 && func.name@ == "proc_exit"@ ==> func.return_text(doc)
            == " -> !"@,
        func.results@.len() == 0 ==> func.out_texts().len() == 0,
        func.results@.len() > 0 ==> func.return_text(doc) == " -> "@ + func.results@[0].text(doc),
        func.results@.len() > 0 ==> func.out_texts().len() == func.results@.len() - 1,
        0 < k < func.results@.len() ==> func.out_texts()[k - 1] == func.results@[k].name.escaped()
            + ": *mut "@ + func.results@[k].type_.text() + ","@,
{
}

/// A function with one result that is passed by value returns it by value:
/// the declaration holds the declared parameters and no out-parameter, and
/// ends in the type of the result, whose name appears nowhere.
pub proof fn lemma_single_result_is_returned(func: InterfaceFunc, doc: &Document)
    requires
        func.results@.len() == 1,
        !func.results@[0].named(),
        doc.passing(func.results@[0].type_) == Ok::<DatatypePassedBy, GenerateError>(
            DatatypePassedBy::Value,
        ),
    ensures
        func.out_texts().len() == 0,
        func.text(doc) == "#[link_name = \""@ + func.name@ + "\"]\npub fn __wasi_"@ + func.name@
            + "("@ + concat_all(func.param_texts(doc)) + ")"@ + " -> "@
            + func.results@[0].type_.text() + ";"@,
{
    let result = func.results@[0];
    assert(result.text(doc) =~= result.type_.text());
    assert(concat_all(func.out_texts()) =~= Seq::<char>::empty());
    let head = "#[link_name = \""@ + func.name@ + "\"]\npub fn __wasi_"@ + func.name@ + "("@
        + concat_all(func.param_texts(doc));
    assert(head + concat_all(func.out_texts()) =~= head);
    assert(head + ")"@ + (" -> "@ + result.type_.text()) + ";"@ =~= head + ")"@ + " -> "@
        + result.type_.text() + ";"@);
}

} // verus!
