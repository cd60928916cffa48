//! Walking a whole document: every datatype, then every module with its
//! functions, each in declaration order.

use crate::model::{
    first_fault, lemma_first_fault_none, lemma_first_fault_step, Datatype, DatatypeVariant,
    Document, FlagsDatatype, GenerateError, InterfaceFunc, Module,
};
use crate::datatypes::lemma_declared_has_text;
use crate::text::{concat_all, lemma_concat_all_step};
use vstd::prelude::*;
use vstd::string::*;

verus! {

/// The comment and the lint attribute that open every rendering.
pub open spec fn header_text() -> Seq<char> {
    "// This file is automatically generated, DO NOT EDIT\n//\n// To regenerate this file run the `crates/generate-raw` command\n\n#![allow(non_camel_case_types)]\n\n"@
}

impl Module {
    /// What stops each function of the module from being declared, in order.
    pub open spec fn findings(&self, doc: &Document) -> Seq<Option<GenerateError>> {
        self.funcs@.map_values(|func: InterfaceFunc| func.fault(doc))
    }

    /// What stops the module from being declared: the first fault among its
    /// functions.
    pub open spec fn fault(&self, doc: &Document) -> Option<GenerateError> {
        first_fault(self.findings(doc))
    }

    /// The functions of the module, in order, one per line.
    pub open spec fn func_texts(&self, doc: &Document) -> Seq<Seq<char>> {
        self.funcs@.map_values(|func: InterfaceFunc| func.text(doc) + "\n"@)
    }

    /// One block of imported functions, with the module's name as the
    /// namespace that they are imported from.
    pub open spec fn text(&self, doc: &Document) -> Seq<char> {
        "#[link(wasm_import_module =\""@ + self.name@ + "\")]\nextern \"C\" {\n"@ + concat_all(
            self.func_texts(doc),
        ) + "}"@
    }

    /// Looks for the first function of the module that cannot be declared.
    pub fn check(&self, doc: &Document) -> (r: Result<(), GenerateError>)
        ensures
            r is Ok <==> self.fault(doc) is None,
            r matches Err(e) ==> self.fault(doc) == Some(e),
    {
        proof {
            lemma_first_fault_step(self.findings(doc), 0);
        }
        let mut i: usize = 0;
        while i < self.funcs.len()
            invariant
                i <= self.funcs@.len(),
                first_fault(self.findings(doc).skip(i as int)) == self.fault(doc),
            decreases self.funcs@.len() - i,
        {
            proof {
                lemma_first_fault_step(self.findings(doc), i as int);
            }
            match self.funcs[i].check(doc) {
                Err(e) => {
                    return Err(e);
                },
                Ok(()) => {},
            }
            i += 1;
        }
        proof {
            lemma_first_fault_step(self.findings(doc), i as int);
        }
        Ok(())
    }

    /// Appends the block of the module's functions.
    pub fn render(&self, doc: &Document, src: &mut String)
        requires
            self.fault(doc) is None,
        ensures
            final(src)@ == old(src)@ + self.text(doc),
    {
        src.append("#[link(wasm_import_module =\"");
        src.append(self.name.as_str());
        src.append("\")]\nextern \"C\" {\n");
        let ghost head = src@;
        proof {
            lemma_concat_all_step(self.func_texts(doc), 0);
            lemma_first_fault_none(self.findings(doc));
        }
        let mut i: usize = 0;
        while i < self.funcs.len()
            invariant
                i <= self.funcs@.len(),
                forall|k: int| 0 <= k < self.funcs@.len() ==> self.findings(doc)[k] is None,
                src@ == head + concat_all(self.func_texts(doc).take(i as int)),
            decreases self.funcs@.len() - i,
        {
            proof {
                lemma_concat_all_step(self.func_texts(doc), i as int);
                assert(self.findings(doc)[i as int] is None);
            }
            self.funcs[i].render(doc, src);
            src.append("\n");
            i += 1;
            assert(src@ =~= head + concat_all(self.func_texts(doc).take(i as int)));
        }
        proof {
            lemma_concat_all_step(self.func_texts(doc), i as int);
        }
        src.append("}");
        assert(src@ =~= old(src)@ + self.text(doc));
    }
}

impl Document {
    /// What stops each datatype from being declared, in order.
    pub open spec fn datatype_findings(&self) -> Seq<Option<GenerateError>> {
        self.datatypes@.map_values(|datatype: Datatype| datatype.fault(self))
    }

    /// What stops each module from being declared, in order.
    pub open spec fn module_findings(&self) -> Seq<Option<GenerateError>> {
        self.modules@.map_values(|module: Module| module.fault(self))
    }

    /// What stops the document from being rendered: the first fault among
    /// its datatypes, else among its modules, in declaration order.
    pub open spec fn fault(&self) -> Option<GenerateError> {
        if first_fault(self.datatype_findings()) is Some {
            first_fault(self.datatype_findings())
        } else {
            first_fault(self.module_findings())
        }
    }

    /// What each datatype contributes, in order: its declaration, closed by
    /// a line break and followed by an empty line; nothing at all for a
    /// datatype that has no declaration of its own.
    pub open spec fn datatype_texts(&self) -> Seq<Seq<char>> {
        self.datatypes@.map_values(
            |datatype: Datatype|
                if datatype.declared(self) {
                    datatype.text(self) + "\n\n"@
                } else {
                    Seq::empty()
                },
        )
    }

    /// What each module contributes, in order: its block, closed by a line
    /// break and followed by an empty line.
    pub open spec fn module_texts(&self) -> Seq<Seq<char>> {
        self.modules@.map_values(|module: Module| module.text(self) + "\n\n"@)
    }

    /// The whole rendering: the header, the datatypes, the modules. The
    /// header ends in an empty line and so does every declaration, so that
    /// an empty line stands between any two declarations.
    pub open spec fn text(&self) -> Seq<char> {
        header_text() + concat_all(self.datatype_texts()) + concat_all(self.module_texts())
    }

    /// Looks for what stops the document from being rendered.
    pub fn check(&self) -> (r: Result<(), GenerateError>)
        ensures
            r is Ok <==> self.fault() is None,
            r matches Err(e) ==> self.fault() == Some(e),
    {
        proof {
            lemma_first_fault_step(self.datatype_findings(), 0);
        }
        let mut i: usize = 0;
        while i < self.datatypes.len()
            invariant
                i <= self.datatypes@.len(),
                first_fault(self.datatype_findings().skip(i as int)) == first_fault(
                    self.datatype_findings(),
                ),
            decreases self.datatypes@.len() - i,
        {
            proof {
                lemma_first_fault_step(self.datatype_findings(), i as int);
            }
            match self.datatypes[i].check(self) {
                Err(e) => {
                    return Err(e);
                },
                Ok(()) => {},
            }
            i += 1;
        }
        proof {
            lemma_first_fault_step(self.datatype_findings(), i as int);
            lemma_first_fault_step(self.module_findings(), 0);
        }
        let mut j: usize = 0;
        while j < self.modules.len()
            invariant
                j <= self.modules@.len(),
                first_fault(self.datatype_findings()) is None,
                first_fault(self.module_findings().skip(j as int)) == first_fault(
                    self.module_findings(),
                ),
            decreases self.modules@.len() - j,
        {
            proof {
                lemma_first_fault_step(self.module_findings(), j as int);
            }
            match self.modules[j].check(self) {
                Err(e) => {
                    return Err(e);
                },
                Ok(()) => {},
            }
            j += 1;
        }
        proof {
            lemma_first_fault_step(self.module_findings(), j as int);
        }
        Ok(())
    }

    /// Appends the whole rendering of the document.
    pub fn render(&self, src: &mut String)
        requires
            self.fault() is None,
        ensures
            final(src)@ == old(src)@ + self.text(),
    {
        src.append(
            "// This file is automatically generated, DO NOT EDIT\n//\n// To regenerate this file run the `crates/generate-raw` command\n\n#![allow(non_camel_case_types)]\n\n",
        );
        let ghost head = src@;
        proof {
            lemma_concat_all_step(self.datatype_texts(), 0);
            lemma_first_fault_none(self.datatype_findings());
            lemma_first_fault_none(self.module_findings());
        }
        let mut i: usize = 0;
        while i < self.datatypes.len()
            invariant
                i <= self.datatypes@.len(),
                forall|k: int|
                    0 <= k < self.datatypes@.len() ==> self.datatype_findings()[k] is None,
                src@ == head + concat_all(self.datatype_texts().take(i as int)),
            decreases self.datatypes@.len() - i,
        {
            proof {
                lemma_concat_all_step(self.datatype_texts(), i as int);
                assert(self.datatype_findings()[i as int] is None);
            }
            if self.datatypes[i].is_declared(self) {
                self.datatypes[i].render(self, src);
                src.append("\n\n");
            }
            i += 1;
            assert(src@ =~= head + concat_all(self.datatype_texts().take(i as int)));
        }
        proof {
            lemma_concat_all_step(self.datatype_texts(), i as int);
            lemma_concat_all_step(self.module_texts(), 0);
        }
        let ghost middle = src@;
        let mut j: usize = 0;
        while j < self.modules.len()
            invariant
                j <= self.modules@.len(),
                forall|k: int| 0 <= k < self.modules@.len() ==> self.module_findings()[k] is None,
                src@ == middle + concat_all(self.module_texts().take(j as int)),
            decreases self.modules@.len() - j,
        {
            proof {
                lemma_concat_all_step(self.module_texts(), j as int);
                assert(self.module_findings()[j as int] is None);
            }
            self.modules[j].render(self, src);
            src.append("\n\n");
            j += 1;
            assert(src@ =~= middle + concat_all(self.module_texts().take(j as int)));
        }
        proof {
            lemma_concat_all_step(self.module_texts(), j as int);
        }
        assert(src@ =~= old(src)@ + self.text());
    }
}

/// Whether `outcome` is what rendering `doc` gives: its text if nothing
/// stops the rendering, else the first fault.
pub open spec fn renders_to(doc: &Document, outcome: Result<String, GenerateError>) -> bool {
    match outcome {
        Ok(raw) => doc.fault() is None && raw@ == doc.text(),
        Err(e) => doc.fault() == Some(e),
    }
}

/// Renders the document as unformatted source text, or reports the first
/// fault that leaves it without a rendering.
pub fn generate(doc: &Document) -> (r: Result<String, GenerateError>)
    ensures
        renders_to(doc, r),
{
    match doc.check() {
        Err(e) => Err(e),
        Ok(()) => {
            let mut raw = String::new();
            doc.render(&mut raw);
            assert(raw@ =~= doc.text());
            Ok(raw)
        },
    }
}

/// A document has a rendering exactly when none of its datatypes and none
/// of its modules has a fault: nothing is rendered in part.
pub proof fn lemma_fault_free(doc: &Document)
    ensures
        doc.fault() is None <==> (forall|i: int|
            0 <= i < doc.datatypes@.len() ==> #[trigger] doc.datatypes@[i].fault(doc) is None)
            && (forall|i: int|
            0 <= i < doc.modules@.len() ==> #[trigger] doc.modules@[i].fault(doc) is None),
{
    let datatypes = doc.datatype_findings();
    let modules = doc.module_findings();
    lemma_first_fault_none(datatypes);
    lemma_first_fault_none(modules);
    if doc.fault() is None {
        assert forall|i: int| 0 <= i < doc.datatypes@.len() implies #[trigger] doc.datatypes@[i].fault(
            doc,
        ) is None by {
            assert(datatypes[i] is None);
        }
        assert forall|i: int| 0 <= i < doc.modules@.len() implies #[trigger] doc.modules@[i].fault(
            doc,
        ) is None by {
            assert(modules[i] is None);
        }
    }
    if (forall|i: int| 0 <= i < doc.datatypes@.len() ==> #[trigger] doc.datatypes@[i].fault(doc) is None)
        && (forall|i: int| 0 <= i < doc.modules@.len() ==> #[trigger] doc.modules@[i].fault(doc) is None) {
        assert forall|i: int| 0 <= i < datatypes.len() implies datatypes[i] is None by {
            assert(doc.datatypes@[i].fault(doc) is None);
        }
        assert forall|i: int| 0 <= i < modules.len() implies modules[i] is None by {
            assert(doc.modules@[i].fault(doc) is None);
        }
    }
}

/// A set of flags with more members than its representation has bits
/// leaves the document without a rendering.
pub proof fn lemma_too_many_flags_fail(doc: &Document, i: int, flags: FlagsDatatype)
    requires
        0 <= i < doc.datatypes@.len(),
        doc.datatypes@[i].variant == DatatypeVariant::Flags(flags),
        flags.flags@.len() > flags.repr.width(),
    ensures
        doc.fault() is Some,
{
    lemma_fault_free(doc);
    assert(doc.datatypes@[i].fault(doc) is Some);
}

/// Rendering is a function of the document: any two outcomes that
/// `generate` can have for one document are the same text, or the same
/// fault.
pub proof fn lemma_generate_is_deterministic(
    doc: &Document,
    first: Result<String, GenerateError>,
    second: Result<String, GenerateError>,
)
    requires
        renders_to(doc, first),
        renders_to(doc, second),
    ensures
        match (first, second) {
            (Ok(a), Ok(b)) => a@ == b@,
            (Err(a), Err(b)) => a == b,
            _ => false,
        },
{
}

/// Every datatype that has text contributes it followed by an empty line,
/// and one without text contributes nothing, so that exactly one empty line
/// stands between a declaration and the next.
pub proof fn lemma_declarations_are_spaced(doc: &Document, i: int)
    requires
        0 <= i < doc.datatypes@.len(),
    ensures
        doc.datatype_texts().len() == doc.datatypes@.len(),
        doc.datatypes@[i].text(doc).len() > 0 ==> doc.datatype_texts()[i] == doc.datatypes@[i].text(
            doc,
        ) + "\n\n"@,
        doc.datatypes@[i].text(doc).len() == 0 ==> doc.datatype_texts()[i] == Seq::<char>::empty(),
{
    lemma_declared_has_text(doc.datatypes@[i], doc);
}

/// Every module contributes its block followed by an empty line.
pub proof fn lemma_modules_are_spaced(doc: &Document, i: int)
    requires
        0 <= i < doc.modules@.len(),
    ensures
        doc.module_texts().len() == doc.modules@.len(),
        doc.module_texts()[i] == doc.modules@[i].text(doc) + "\n\n"@,
{
}

} // verus!
