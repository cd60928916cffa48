//! Declarations of named datatypes: aliases, enums, flags, structs, unions
//! and handles.

use crate::model::{
    first_fault, lemma_first_fault_none, lemma_first_fault_step, AliasDatatype, Datatype,
    DatatypeIdent, DatatypePassedBy, DatatypeVariant, Document, EnumDatatype, FlagsDatatype,
    GenerateError, HandleDatatype, Id, StructDatatype, StructMember, UnionDatatype, UnionVariant,
};
use crate::text::{
    concat_all, decimal, digit, hex, lemma_concat_all_step, lemma_hex_of_bit, push_decimal,
    push_hex, shouty_snake_case, to_shouty_snake_case, zeros,
};
use vstd::arithmetic::power2::pow2;
use vstd::prelude::*;
use vstd::string::*;

verus! {

/// One field of a struct or a union: public, with its name escaped.
pub open spec fn field_text(name: Id, type_: DatatypeIdent) -> Seq<char> {
    "pub "@ + name.escaped() + ": "@ + type_.text() + ",\n"@
}

/// One constant of the datatype named `owner`, with the upper-case forms of the
/// type's and the variant's names and the value as it is written.
pub open spec fn constant_text(
    owner_shouty: Seq<char>,
    variant_shouty: Seq<char>,
    owner: Seq<char>,
    value: Seq<char>,
) -> Seq<char> {
    "pub const __WASI_"@ + owner_shouty + "_"@ + variant_shouty + ": __wasi_"@ + owner
        + "_t = "@ + value + ";"@
}

/// The first line of an enum or a set of flags: the alias to its integer type.
pub open spec fn repr_alias_text(name: Seq<char>, repr: Seq<char>) -> Seq<char> {
    "pub type __wasi_"@ + name + "_t = "@ + repr + ";\n"@
}

/// Appends one field of a struct or a union.
pub fn push_field(src: &mut String, name: &Id, type_: &DatatypeIdent)
    requires
        type_.standalone(),
    ensures
        final(src)@ == old(src)@ + field_text(*name, *type_),
{
    src.append("pub ");
    name.render(src);
    src.append(": ");
    type_.render(src);
    src.append(",\n");
    assert(src@ =~= old(src)@ + field_text(*name, *type_));
}

/// Appends the constant of an enum variant: its value is its ordinal, in
/// decimal.
pub fn push_enum_constant(
    src: &mut String,
    owner_shouty: &str,
    variant_shouty: &str,
    owner: &str,
    ordinal: u64,
)
    ensures
        final(src)@ == old(src)@ + constant_text(
            owner_shouty@,
            variant_shouty@,
            owner@,
            decimal(ordinal as nat),
        ),
{
    src.append("pub const __WASI_");
    src.append(owner_shouty);
    src.append("_");
    src.append(variant_shouty);
    src.append(": __wasi_");
    src.append(owner);
    src.append("_t = ");
    push_decimal(src, ordinal);
    src.append(";");
    assert(src@ =~= old(src)@ + constant_text(
        owner_shouty@,
        variant_shouty@,
        owner@,
        decimal(ordinal as nat),
    ));
}

/// The value of the flag at `position` as it is written: one bit, in
/// hexadecimal.
pub open spec fn flag_value_text(position: nat) -> Seq<char> {
    "0x"@ + hex(pow2(position))
}

/// Appends the constant of a flag: its value is the single bit at its
/// position, in hexadecimal.
pub fn push_flag_constant(
    src: &mut String,
    owner_shouty: &str,
    variant_shouty: &str,
    owner: &str,
    position: usize,
)
    requires
        position < 64,
    ensures
        final(src)@ == old(src)@ + constant_text(
            owner_shouty@,
            variant_shouty@,
            owner@,
            flag_value_text(position as nat),
        ),
{
    proof {
        vstd::bits::lemma_u64_pow2_no_overflow(position as nat);
        vstd::bits::lemma_u64_shl_is_mul(1, position as u64);
    }
    let bit: u64 = 1u64 << (position as u64);
    src.append("pub const __WASI_");
    src.append(owner_shouty);
    src.append("_");
    src.append(variant_shouty);
    src.append(": __wasi_");
    src.append(owner);
    src.append("_t = ");
    src.append("0x");
    push_hex(src, bit);
    src.append(";");
    assert(src@ =~= old(src)@ + constant_text(
        owner_shouty@,
        variant_shouty@,
        owner@,
        flag_value_text(position as nat),
    ));
}

impl StructMember {
    /// The member as a field of its struct.
    pub open spec fn text(&self) -> Seq<char> {
        field_text(self.name, self.type_)
    }
}

impl UnionVariant {
    /// The variant as a field of its union.
    pub open spec fn text(&self) -> Seq<char> {
        field_text(self.name, self.type_)
    }
}

impl StructDatatype {
    /// What stops each member's type from being written, in order.
    pub open spec fn findings(&self) -> Seq<Option<GenerateError>> {
        self.members@.map_values(|member: StructMember| member.type_.fault())
    }

    /// The fields of the struct, in order.
    pub open spec fn field_texts(&self) -> Seq<Seq<char>> {
        self.members@.map_values(|member: StructMember| member.text())
    }

    /// A struct has a declaration when each member's type can be written.
    pub open spec fn fault(&self) -> Option<GenerateError> {
        first_fault(self.findings())
    }

    /// A C-layout struct with one public field per member, in order.
    pub open spec fn text(&self, name: Id) -> Seq<char> {
        "#[repr(C)]\n#[derive(Copy, Clone)]\npub struct __wasi_"@ + name@ + "_t {\n"@ + concat_all(
            self.field_texts(),
        ) + "}"@
    }

    /// Looks for the first member whose type cannot be written.
    pub fn check(&self) -> (r: Result<(), GenerateError>)
        ensures
            r is Ok <==> self.fault() is None,
            r matches Err(e) ==> self.fault() == Some(e),
    {
        proof {
            lemma_first_fault_step(self.findings(), 0);
        }
        let mut i: usize = 0;
        while i < self.members.len()
            invariant
                i <= self.members@.len(),
                first_fault(self.findings().skip(i as int)) == self.fault(),
            decreases self.members@.len() - i,
        {
            proof {
                lemma_first_fault_step(self.findings(), i as int);
            }
            match self.members[i].type_.check() {
                Err(e) => {
                    return Err(e);
                },
                Ok(()) => {},
            }
            i += 1;
        }
        proof {
            lemma_first_fault_step(self.findings(), i as int);
        }
        Ok(())
    }

    /// Appends the declaration of the struct.
    pub fn render(&self, name: &Id, src: &mut String)
        requires
            self.fault() is None,
        ensures
            final(src)@ == old(src)@ + self.text(*name),
    {
        src.append("#[repr(C)]\n#[derive(Copy, Clone)]\npub struct __wasi_");
        src.append(name.as_str());
        src.append("_t {\n");
        let ghost head = src@;
        proof {
            lemma_concat_all_step(self.field_texts(), 0);
            lemma_first_fault_none(self.findings());
        }
        let mut i: usize = 0;
        while i < self.members.len()
            invariant
                i <= self.members@.len(),
                forall|k: int| 0 <= k < self.members@.len() ==> self.findings()[k] is None,
                src@ == head + concat_all(self.field_texts().take(i as int)),
            decreases self.members@.len() - i,
        {
            proof {
                lemma_concat_all_step(self.field_texts(), i as int);
                assert(self.findings()[i as int] is None);
            }
            let member = &self.members[i];
            push_field(src, &member.name, &member.type_);
            i += 1;
            assert(src@ =~= head + concat_all(self.field_texts().take(i as int)));
        }
        proof {
            lemma_concat_all_step(self.field_texts(), i as int);
        }
        src.append("}");
        assert(src@ =~= old(src)@ + self.text(*name));
    }
}

impl UnionDatatype {
    /// What stops each variant's type from being written, in order.
    pub open spec fn findings(&self) -> Seq<Option<GenerateError>> {
        self.variants@.map_values(|variant: UnionVariant| variant.type_.fault())
    }

    /// The fields of the union, in order.
    pub open spec fn field_texts(&self) -> Seq<Seq<char>> {
        self.variants@.map_values(|variant: UnionVariant| variant.text())
    }

    /// A union has a declaration when each variant's type can be written.
    pub open spec fn fault(&self) -> Option<GenerateError> {
        first_fault(self.findings())
    }

    /// A C-layout union with one public field per variant, in order.
    pub open spec fn text(&self, name: Id) -> Seq<char> {
        "#[repr(C)]\n#[derive(Copy, Clone)]\npub union __wasi_"@ + name@ + "_t {\n"@ + concat_all(
            self.field_texts(),
        ) + "}"@
    }

    /// Looks for the first variant whose type cannot be written.
    pub fn check(&self) -> (r: Result<(), GenerateError>)
        ensures
            r is Ok <==> self.fault() is None,
            r matches Err(e) ==> self.fault() == Some(e),
    {
        proof {
            lemma_first_fault_step(self.findings(), 0);
        }
        let mut i: usize = 0;
        while i < self.variants.len()
            invariant
                i <= self.variants@.len(),
                first_fault(self.findings().skip(i as int)) == self.fault(),
            decreases self.variants@.len() - i,
        {
            proof {
                lemma_first_fault_step(self.findings(), i as int);
            }
            match self.variants[i].type_.check() {
                Err(e) => {
                    return Err(e);
                },
                Ok(()) => {},
            }
            i += 1;
        }
        proof {
            lemma_first_fault_step(self.findings(), i as int);
        }
        Ok(())
    }

    /// Appends the declaration of the union.
    pub fn render(&self, name: &Id, src: &mut String)
        requires
            self.fault() is None,
        ensures
            final(src)@ == old(src)@ + self.text(*name),
    {
        src.append("#[repr(C)]\n#[derive(Copy, Clone)]\npub union __wasi_");
        src.append(name.as_str());
        src.append("_t {\n");
        let ghost head = src@;
        proof {
            lemma_concat_all_step(self.field_texts(), 0);
            lemma_first_fault_none(self.findings());
        }
        let mut i: usize = 0;
        while i < self.variants.len()
            invariant
                i <= self.variants@.len(),
                forall|k: int| 0 <= k < self.variants@.len() ==> self.findings()[k] is None,
                src@ == head + concat_all(self.field_texts().take(i as int)),
            decreases self.variants@.len() - i,
        {
            proof {
                lemma_concat_all_step(self.field_texts(), i as int);
                assert(self.findings()[i as int] is None);
            }
            let variant = &self.variants[i];
            push_field(src, &variant.name, &variant.type_);
            i += 1;
            assert(src@ =~= head + concat_all(self.field_texts().take(i as int)));
        }
        proof {
            lemma_concat_all_step(self.field_texts(), i as int);
        }
        src.append("}");
        assert(src@ =~= old(src)@ + self.text(*name));
    }
}

impl EnumDatatype {
    /// The constants of the enum, in order: the variant at position `i` has
    /// the value `i`, whatever the variants are called.
    pub open spec fn constant_texts(&self, name: Id) -> Seq<Seq<char>> {
        Seq::new(
            self.variants@.len(),
            |i: int|
                constant_text(
                    shouty_snake_case(name@),
                    shouty_snake_case(self.variants@[i]@),
                    name@,
                    decimal(i as nat),
                ),
        )
    }

    /// An alias to the integer type of the enum, then its constants.
    pub open spec fn text(&self, name: Id) -> Seq<char> {
        repr_alias_text(name@, self.repr.text()) + concat_all(self.constant_texts(name))
    }

    /// Appends the declaration of the enum.
    pub fn render(&self, name: &Id, src: &mut String)
        ensures
            final(src)@ == old(src)@ + self.text(*name),
    {
        src.append("pub type __wasi_");
        src.append(name.as_str());
        src.append("_t = ");
        self.repr.render(src);
        src.append(";\n");
        let ghost head = src@;
        assert(head =~= old(src)@ + repr_alias_text(name@, self.repr.text()));
        let owner_shouty = to_shouty_snake_case(name.as_str());
        proof {
            lemma_concat_all_step(self.constant_texts(*name), 0);
        }
        let mut i: usize = 0;
        while i < self.variants.len()
            invariant
                i <= self.variants@.len(),
                owner_shouty@ == shouty_snake_case(name@),
                src@ == head + concat_all(self.constant_texts(*name).take(i as int)),
            decreases self.variants@.len() - i,
        {
            proof {
                lemma_concat_all_step(self.constant_texts(*name), i as int);
            }
            let variant_shouty = to_shouty_snake_case(self.variants[i].as_str());
            push_enum_constant(
                src,
                owner_shouty.as_str(),
                variant_shouty.as_str(),
                name.as_str(),
                i as u64,
            );
            i += 1;
            assert(src@ =~= head + concat_all(self.constant_texts(*name).take(i as int)));
        }
        proof {
            lemma_concat_all_step(self.constant_texts(*name), i as int);
        }
        assert(src@ =~= old(src)@ + self.text(*name));
    }
}

impl FlagsDatatype {
    /// A set of flags needs one bit of its representation for each member.
    pub open spec fn fault(&self) -> Option<GenerateError> {
        if self.flags@.len() > self.repr.width() {
            Some(GenerateError::TooManyFlags)
        } else {
            None
        }
    }

    /// The constants of the flags, in order: the flag at position `i` has
    /// the value `1 << i`, whatever the flags are called.
    pub open spec fn constant_texts(&self, name: Id) -> Seq<Seq<char>> {
        Seq::new(
            self.flags@.len(),
            |i: int|
                constant_text(
                    shouty_snake_case(name@),
                    shouty_snake_case(self.flags@[i]@),
                    name@,
                    flag_value_text(i as nat),
                ),
        )
    }

    /// An alias to the integer type of the flags, then their constants.
    pub open spec fn text(&self, name: Id) -> Seq<char> {
        repr_alias_text(name@, self.repr.text()) + concat_all(self.constant_texts(name))
    }

    /// Tells whether the representation has a bit for every flag.
    pub fn check(&self) -> (r: Result<(), GenerateError>)
        ensures
            r is Ok <==> self.fault() is None,
            r matches Err(e) ==> self.fault() == Some(e),
    {
        if self.flags.len() > self.repr.bits() {
            Err(GenerateError::TooManyFlags)
        } else {
            Ok(())
        }
    }

    /// Appends the declaration of the flags.
    pub fn render(&self, name: &Id, src: &mut String)
        requires
            self.fault() is None,
        ensures
            final(src)@ == old(src)@ + self.text(*name),
    {
        src.append("pub type __wasi_");
        src.append(name.as_str());
        src.append("_t = ");
        self.repr.render(src);
        src.append(";\n");
        let ghost head = src@;
        assert(head =~= old(src)@ + repr_alias_text(name@, self.repr.text()));
        let owner_shouty = to_shouty_snake_case(name.as_str());
        proof {
            lemma_concat_all_step(self.constant_texts(*name), 0);
        }
        let mut i: usize = 0;
        while i < self.flags.len()
            invariant
                i <= self.flags@.len() <= 64,
                owner_shouty@ == shouty_snake_case(name@),
                src@ == head + concat_all(self.constant_texts(*name).take(i as int)),
            decreases self.flags@.len() - i,
        {
            proof {
                lemma_concat_all_step(self.constant_texts(*name), i as int);
            }
            let variant_shouty = to_shouty_snake_case(self.flags[i].as_str());
            push_flag_constant(
                src,
                owner_shouty.as_str(),
                variant_shouty.as_str(),
                name.as_str(),
                i,
            );
            i += 1;
            assert(src@ =~= head + concat_all(self.constant_texts(*name).take(i as int)));
        }
        proof {
            lemma_concat_all_step(self.constant_texts(*name), i as int);
        }
        assert(src@ =~= old(src)@ + self.text(*name));
    }
}

impl HandleDatatype {
    /// An alias to a 32-bit unsigned integer.
    pub open spec fn text(&self, name: Id) -> Seq<char> {
        "pub type __wasi_"@ + name@ + "_t = u32;"@
    }

    /// Appends the declaration of the handle.
    pub fn render(&self, name: &Id, src: &mut String)
        ensures
            final(src)@ == old(src)@ + self.text(*name),
    {
        src.append("pub type __wasi_");
        src.append(name.as_str());
        src.append("_t = u32;");
        assert(src@ =~= old(src)@ + self.text(*name));
    }
}

impl AliasDatatype {
    /// Whether the alias is declared at all: one to a type passed as pointer
    /// and length is not, since such a type exists only as a pair of
    /// parameters.
    pub open spec fn declared(&self, doc: &Document) -> bool {
        doc.passing(self.to) != Ok::<DatatypePassedBy, GenerateError>(
            DatatypePassedBy::PointerLengthPair,
        )
    }

    /// An alias has a rendering when its target can be classified and, where
    /// the alias is declared with its target's name, the target can be
    /// written.
    pub open spec fn fault(&self, doc: &Document, name: Id) -> Option<GenerateError> {
        match doc.passing(self.to) {
            Err(e) => Some(e),
            Ok(DatatypePassedBy::PointerLengthPair) => None,
            Ok(_) => if name@ == "size"@ {
                None
            } else {
                self.to.fault()
            },
        }
    }

    /// Nothing for an alias that is not declared; else one type alias to the
    /// target, or to the native unsigned integer if the alias is named
    /// `size`.
    pub open spec fn text(&self, doc: &Document, name: Id) -> Seq<char> {
        if !self.declared(doc) {
            Seq::empty()
        } else if name@ == "size"@ {
            "pub type __wasi_"@ + name@ + "_t = "@ + "usize"@ + ";"@
        } else {
            "pub type __wasi_"@ + name@ + "_t = "@ + self.to.text() + ";"@
        }
    }

    /// Tells whether the alias, declared under `name`, has a rendering.
    pub fn check(&self, doc: &Document, name: &Id) -> (r: Result<(), GenerateError>)
        ensures
            r is Ok <==> self.fault(doc, *name) is None,
            r matches Err(e) ==> self.fault(doc, *name) == Some(e),
    {
        match doc.passed_by(&self.to) {
            Err(e) => Err(e),
            Ok(DatatypePassedBy::PointerLengthPair) => Ok(()),
            Ok(_) => if name.name == String::from_str("size") {
                Ok(())
            } else {
                self.to.check()
            },
        }
    }

    /// Appends the declaration of the alias, if it has one.
    pub fn render(&self, doc: &Document, name: &Id, src: &mut String)
        requires
            self.fault(doc, *name) is None,
        ensures
            final(src)@ == old(src)@ + self.text(doc, *name),
    {
        match doc.passed_by(&self.to) {
            Ok(DatatypePassedBy::PointerLengthPair) => {
                assert(src@ =~= old(src)@ + self.text(doc, *name));
                return ;
            },
            _ => {},
        }
        src.append("pub type __wasi_");
        src.append(name.as_str());
        src.append("_t = ");
        if name.name == String::from_str("size") {
            src.append("usize");
        } else {
            self.to.render(src);
        }
        src.append(";");
        assert(src@ =~= old(src)@ + self.text(doc, *name));
    }
}

impl Datatype {
    /// Whether the datatype has a declaration of its own. Every datatype
    /// has one but an alias to a type passed as pointer and length.
    pub open spec fn declared(&self, doc: &Document) -> bool {
        match self.variant {
            DatatypeVariant::Alias(alias) => alias.declared(doc),
            _ => true,
        }
    }

    /// Tells whether the datatype has a declaration of its own.
    pub fn is_declared(&self, doc: &Document) -> (b: bool)
        ensures
            b == self.declared(doc),
    {
        match &self.variant {
            DatatypeVariant::Alias(alias) => match doc.passed_by(&alias.to) {
                Ok(DatatypePassedBy::PointerLengthPair) => false,
                _ => true,
            },
            _ => true,
        }
    }

    /// What stops the datatype from being declared.
    pub open spec fn fault(&self, doc: &Document) -> Option<GenerateError> {
        match self.variant {
            DatatypeVariant::Alias(alias) => alias.fault(doc, self.name),
            DatatypeVariant::Enum(_) => None,
            DatatypeVariant::Flags(flags) => flags.fault(),
            DatatypeVariant::Struct(members) => members.fault(),
            DatatypeVariant::Union(variants) => variants.fault(),
            DatatypeVariant::Handle(_) => None,
        }
    }

    /// The declaration of the datatype, by its kind.
    pub open spec fn text(&self, doc: &Document) -> Seq<char> {
        match self.variant {
            DatatypeVariant::Alias(alias) => alias.text(doc, self.name),
            DatatypeVariant::Enum(variants) => variants.text(self.name),
            DatatypeVariant::Flags(flags) => flags.text(self.name),
            DatatypeVariant::Struct(members) => members.text(self.name),
            DatatypeVariant::Union(variants) => variants.text(self.name),
            DatatypeVariant::Handle(handle) => handle.text(self.name),
        }
    }

    /// Looks for what stops the datatype from being declared.
    pub fn check(&self, doc: &Document) -> (r: Result<(), GenerateError>)
        ensures
            r is Ok <==> self.fault(doc) is None,
            r matches Err(e) ==> self.fault(doc) == Some(e),
    {
        match &self.variant {
            DatatypeVariant::Alias(alias) => alias.check(doc, &self.name),
            DatatypeVariant::Enum(_) => Ok(()),
            DatatypeVariant::Flags(flags) => flags.check(),
            DatatypeVariant::Struct(members) => members.check(),
            DatatypeVariant::Union(variants) => variants.check(),
            DatatypeVariant::Handle(_) => Ok(()),
        }
    }

    /// Appends the declaration of the datatype.
    pub fn render(&self, doc: &Document, src: &mut String)
        requires
            self.fault(doc) is None,
        ensures
            final(src)@ == old(src)@ + self.text(doc),
    {
        match &self.variant {
            DatatypeVariant::Alias(alias) => alias.render(doc, &self.name, src),
            DatatypeVariant::Enum(variants) => variants.render(&self.name, src),
            DatatypeVariant::Flags(flags) => flags.render(&self.name, src),
            DatatypeVariant::Struct(members) => members.render(&self.name, src),
            DatatypeVariant::Union(variants) => variants.render(&self.name, src),
            DatatypeVariant::Handle(handle) => handle.render(&self.name, src),
        }
    }
}

/// The constant of the variant at position `i` of an enum has the value
/// `i`, whatever the enum and its variants are called.
pub proof fn lemma_enum_ordinals(variants: EnumDatatype, name: Id, i: int)
    requires
        0 <= i < variants.variants@.len(),
    ensures
        variants.constant_texts(name).len() == variants.variants@.len(),
        variants.constant_texts(name)[i] == constant_text(
            shouty_snake_case(name@),
            shouty_snake_case(variants.variants@[i]@),
            name@,
            decimal(i as nat),
        ),
{
}

/// The constant of the flag at position `i` has the value `1 << i`,
/// whatever the flags are called.
pub proof fn lemma_flag_bits(flags: FlagsDatatype, name: Id, i: int)
    requires
        0 <= i < flags.flags@.len(),
    ensures
        flags.constant_texts(name).len() == flags.flags@.len(),
        flags.constant_texts(name)[i] == constant_text(
            shouty_snake_case(name@),
            shouty_snake_case(flags.flags@[i]@),
            name@,
            "0x"@ + hex(pow2(i as nat)),
        ),
{
}

/// The value of a flag as it is written: `0x1`, `0x2`, `0x4`, `0x8`, `0x10`
/// and so on, the digit by the position modulo four and one zero for every
/// four positions.
pub proof fn lemma_flag_value_text(position: nat)
    ensures
        flag_value_text(position) == "0x"@ + (if position % 4 == 0 {
            "1"@
        } else if position % 4 == 1 {
            "2"@
        } else if position % 4 == 2 {
            "4"@
        } else {
            "8"@
        }) + zeros(position / 4),
{
    lemma_hex_of_bit(position);
    assert("0x"@ + (digit(pow2(position % 4)) + zeros(position / 4)) =~= "0x"@ + digit(
        pow2(position % 4),
    ) + zeros(position / 4));
}

/// An alias to a type passed as pointer and length has no text at all; any
/// other alias is exactly one type alias.
pub proof fn lemma_alias_suppression(alias: AliasDatatype, doc: &Document, name: Id)
    requires
        doc.passing(alias.to) is Ok,
    ensures
        doc.passing(alias.to) == Ok::<DatatypePassedBy, GenerateError>(
            DatatypePassedBy::PointerLengthPair,
        ) ==> alias.text(doc, name) == Seq::<char>::empty(),
        doc.passing(alias.to) != Ok::<DatatypePassedBy, GenerateError>(
            DatatypePassedBy::PointerLengthPair,
        ) ==> alias.text(doc, name) == "pub type __wasi_"@ + name@ + "_t = "@ + (if name@
            == "size"@ {
            "usize"@
        } else {
            alias.to.text()
        }) + ";"@,
{
}

/// A datatype has text exactly when it has a declaration of its own: an
/// alias that is not declared contributes no text at all, and every other
/// datatype contributes some.
pub proof fn lemma_declared_has_text(datatype: Datatype, doc: &Document)
    ensures
        datatype.declared(doc) <==> datatype.text(doc).len() > 0,
{
    reveal_strlit("pub type __wasi_");
    reveal_strlit("#[repr(C)]\n#[derive(Copy, Clone)]\npub struct __wasi_");
    reveal_strlit("#[repr(C)]\n#[derive(Copy, Clone)]\npub union __wasi_");
}

} // verus!
