//! Finding datatypes by name, following aliases to the type they stand for,
//! and classifying how a type is passed to a function.

use crate::model::{
    AliasDatatype, BuiltinType, Datatype, DatatypeIdent, DatatypePassedBy, DatatypeVariant,
    Document, GenerateError, Id,
};
use vstd::prelude::*;
use vstd::set_lib::{lemma_int_range, lemma_len_subset, set_int_range};

verus! {

impl Document {
    /// The index of the first datatype named `name` at or after `from`.
    pub open spec fn position_from(&self, name: Seq<char>, from: int) -> Option<int>
        decreases self.datatypes@.len() - from,
    {
        if from < 0 || from >= self.datatypes@.len() {
            None
        } else if self.datatypes@[from].name@ == name {
            Some(from)
        } else {
            self.position_from(name, from + 1)
        }
    }

    /// The first datatype of the document named `name`.
    pub open spec fn datatype_named(&self, name: Seq<char>) -> Option<Datatype> {
        match self.position_from(name, 0) {
            Some(i) => Some(self.datatypes@[i]),
            None => None,
        }
    }

    /// The type that `ty` stands for, following at most `hops` aliases.
    pub open spec fn resolved_within(&self, ty: DatatypeIdent, hops: nat) -> Result<
        DatatypeIdent,
        GenerateError,
    >
        decreases hops,
    {
        match ty {
            DatatypeIdent::Ident(id) => match self.datatype_named(id@) {
                None => Err(GenerateError::UnknownDatatype),
                Some(datatype) => match datatype.variant {
                    DatatypeVariant::Alias(alias) => if hops == 0 {
                        Err(GenerateError::AliasCycle)
                    } else {
                        self.resolved_within(alias.to, (hops - 1) as nat)
                    },
                    _ => Ok(ty),
                },
            },
            _ => Ok(ty),
        }
    }

    /// The type that `ty` stands for: `ty` itself unless it names an alias,
    /// else what the alias's target stands for. A chain of aliases longer
    /// than the number of datatypes cannot end and is a fault.
    pub open spec fn resolved(&self, ty: DatatypeIdent) -> Result<DatatypeIdent, GenerateError> {
        self.resolved_within(ty, self.datatypes@.len())
    }

    /// How a type that names no alias is passed.
    pub open spec fn passing_of_shape(&self, ty: DatatypeIdent) -> DatatypePassedBy {
        match ty {
            DatatypeIdent::Builtin(BuiltinType::String) => DatatypePassedBy::PointerLengthPair,
            DatatypeIdent::Builtin(_) => DatatypePassedBy::Value,
            DatatypeIdent::Array(_) => DatatypePassedBy::PointerLengthPair,
            DatatypeIdent::Pointer(_) => DatatypePassedBy::Value,
            DatatypeIdent::ConstPointer(_) => DatatypePassedBy::Value,
            DatatypeIdent::Ident(id) => match self.datatype_named(id@) {
                Some(Datatype { variant: DatatypeVariant::Struct(_), .. }) => DatatypePassedBy::Pointer,
                Some(Datatype { variant: DatatypeVariant::Union(_), .. }) => DatatypePassedBy::Pointer,
                _ => DatatypePassedBy::Value,
            },
        }
    }

    /// How `ty` is passed: strings and arrays as pointer and length, structs
    /// and unions by pointer, everything else by value; an alias as its
    /// target.
    pub open spec fn passing(&self, ty: DatatypeIdent) -> Result<DatatypePassedBy, GenerateError> {
        match self.resolved(ty) {
            Ok(shape) => Ok(self.passing_of_shape(shape)),
            Err(e) => Err(e),
        }
    }

    /// The first datatype of the document that bears `name`.
    pub fn find(&self, name: &Id) -> (found: Option<&Datatype>)
        ensures
            found == match self.datatype_named(name@) {
                Some(datatype) => Some(&datatype),
                None => None,
            },
    {
        let mut i: usize = 0;
        while i < self.datatypes.len()
            invariant
                i <= self.datatypes@.len(),
                self.position_from(name@, 0) == self.position_from(name@, i as int),
            decreases self.datatypes@.len() - i,
        {
            if self.datatypes[i].name.name == name.name {
                return Some(&self.datatypes[i]);
            }
            i += 1;
        }
        None
    }

    /// Follows aliases from `ty` to the type that it stands for.
    pub fn resolve<'a>(&'a self, ty: &'a DatatypeIdent) -> (r: Result<
        &'a DatatypeIdent,
        GenerateError,
    >)
        ensures
            match r {
                Ok(shape) => self.resolved(*ty) == Ok::<DatatypeIdent, GenerateError>(*shape),
                Err(e) => self.resolved(*ty) == Err::<DatatypeIdent, GenerateError>(e),
            },
    {
        let mut current: &DatatypeIdent = ty;
        let mut hops: usize = self.datatypes.len();
        loop
            invariant
                self.resolved_within(*current, hops as nat) == self.resolved(*ty),
            decreases hops,
        {
            match current {
                DatatypeIdent::Ident(id) => match self.find(id) {
                    None => {
                        return Err(GenerateError::UnknownDatatype);
                    },
                    Some(datatype) => match &datatype.variant {
                        DatatypeVariant::Alias(alias) => {
                            if hops == 0 {
                                return Err(GenerateError::AliasCycle);
                            }
                            hops -= 1;
                            current = &alias.to;
                        },
                        _ => {
                            return Ok(current);
                        },
                    },
                },
                _ => {
                    return Ok(current);
                },
            }
        }
    }

    /// Classifies how `ty` is passed to a function.
    pub fn passed_by(&self, ty: &DatatypeIdent) -> (r: Result<DatatypePassedBy, GenerateError>)
        ensures
            r == self.passing(*ty),
    {
        match self.resolve(ty) {
            Err(e) => Err(e),
            Ok(shape) => Ok(
                match shape {
                    DatatypeIdent::Builtin(BuiltinType::String) => DatatypePassedBy::PointerLengthPair,
                    DatatypeIdent::Builtin(_) => DatatypePassedBy::Value,
                    DatatypeIdent::Array(_) => DatatypePassedBy::PointerLengthPair,
                    DatatypeIdent::Pointer(_) => DatatypePassedBy::Value,
                    DatatypeIdent::ConstPointer(_) => DatatypePassedBy::Value,
                    DatatypeIdent::Ident(id) => match self.find(id) {
                        Some(Datatype { variant: DatatypeVariant::Struct(_), .. }) => DatatypePassedBy::Pointer,
                        Some(Datatype { variant: DatatypeVariant::Union(_), .. }) => DatatypePassedBy::Pointer,
                        _ => DatatypePassedBy::Value,
                    },
                },
            ),
        }
    }
}

/// A name that is found belongs to the datatype that is found, which is the
/// first of the document with that name; a name that is not found belongs to
/// no datatype at or after `from`.
pub proof fn lemma_position_from(doc: &Document, name: Seq<char>, from: int)
    requires
        0 <= from,
    ensures
        match doc.position_from(name, from) {
            Some(i) => from <= i < doc.datatypes@.len() && doc.datatypes@[i].name@ == name
                && forall|k: int| from <= k < i ==> doc.datatypes@[k].name@ != name,
            None => forall|k: int|
                from <= k < doc.datatypes@.len() ==> doc.datatypes@[k].name@ != name,
        },
    decreases doc.datatypes@.len() - from,
{
    if from < doc.datatypes@.len() && doc.datatypes@[from].name@ != name {
        lemma_position_from(doc, name, from + 1);
    }
}

impl Document {
    /// Whether `ty` is the name of an alias of the document.
    pub open spec fn names_alias(&self, ty: DatatypeIdent) -> bool {
        ty matches DatatypeIdent::Ident(id) && self.datatype_named(id@) matches Some(datatype)
            && datatype.variant is Alias
    }
}

/// What a type stands for is never the name of an alias, nor an unknown
/// name: following aliases ends at a concrete type or not at all.
pub proof fn lemma_resolved_is_concrete(doc: &Document, ty: DatatypeIdent, hops: nat)
    ensures
        doc.resolved_within(ty, hops) matches Ok(shape) ==> !doc.names_alias(shape) && (
        shape matches DatatypeIdent::Ident(id) ==> doc.datatype_named(id@) is Some),
    decreases hops,
{
    if let DatatypeIdent::Ident(id) = ty {
        if let Some(datatype) = doc.datatype_named(id@) {
            if let DatatypeVariant::Alias(alias) = datatype.variant {
                if hops > 0 {
                    lemma_resolved_is_concrete(doc, alias.to, (hops - 1) as nat);
                }
            }
        }
    }
}

/// A type that names no alias stands for itself, and is passed as its own
/// shape says.
pub proof fn lemma_concrete_resolves_to_itself(doc: &Document, ty: DatatypeIdent)
    requires
        !doc.names_alias(ty),
        ty matches DatatypeIdent::Ident(id) ==> doc.datatype_named(id@) is Some,
    ensures
        doc.resolved(ty) == Ok::<DatatypeIdent, GenerateError>(ty),
        doc.passing(ty) == Ok::<DatatypePassedBy, GenerateError>(doc.passing_of_shape(ty)),
{
}

/// An alias is passed as its target is, as long as the chain of aliases
/// behind it ends within the bound.
pub proof fn lemma_alias_passes_as_target(doc: &Document, id: Id, alias: AliasDatatype)
    requires
        doc.datatype_named(id@) matches Some(datatype) && datatype.variant
            == DatatypeVariant::Alias(alias),
        doc.datatypes@.len() > 0,
        doc.resolved_within(alias.to, (doc.datatypes@.len() - 1) as nat) is Ok,
    ensures
        doc.passing(DatatypeIdent::Ident(id)) == doc.passing(alias.to),
{
    lemma_resolved_within_more(doc, alias.to, (doc.datatypes@.len() - 1) as nat);
}

/// A chain of aliases that ends within some number of steps ends at the
/// same type when more steps are allowed.
pub proof fn lemma_resolved_within_more(doc: &Document, ty: DatatypeIdent, hops: nat)
    requires
        doc.resolved_within(ty, hops) is Ok,
    ensures
        doc.resolved_within(ty, hops + 1) == doc.resolved_within(ty, hops),
    decreases hops,
{
    if let DatatypeIdent::Ident(id) = ty {
        if let Some(datatype) = doc.datatype_named(id@) {
            if let DatatypeVariant::Alias(alias) = datatype.variant {
                if hops > 0 {
                    lemma_resolved_within_more(doc, alias.to, (hops - 1) as nat);
                }
            }
        }
    }
}

impl Document {
    /// Whether `ty` names nothing that the document lacks: any type but the
    /// name of a datatype that is not there.
    pub open spec fn known(&self, ty: DatatypeIdent) -> bool {
        ty matches DatatypeIdent::Ident(id) ==> self.datatype_named(id@) is Some
    }

    /// Where the chain of aliases from `ty` stands after `steps` steps: the
    /// target of an alias is one step on, and a chain that has ended stays
    /// at its end.
    pub open spec fn followed(&self, ty: DatatypeIdent, steps: nat) -> DatatypeIdent
        decreases steps,
    {
        if steps == 0 {
            ty
        } else {
            match ty {
                DatatypeIdent::Ident(id) => match self.datatype_named(id@) {
                    Some(Datatype { variant: DatatypeVariant::Alias(alias), .. }) => self.followed(
                        alias.to,
                        (steps - 1) as nat,
                    ),
                    _ => ty,
                },
                _ => ty,
            }
        }
    }
}

/// The name that a type reference holds, if it is one.
pub open spec fn name_of(ty: DatatypeIdent) -> Seq<char> {
    match ty {
        DatatypeIdent::Ident(id) => id@,
        _ => Seq::empty(),
    }
}

/// A chain of known names that does not end within `hops` steps names an
/// alias at every one of those steps.
proof fn lemma_unending_chain_is_all_aliases(
    doc: &Document,
    ty: DatatypeIdent,
    hops: nat,
    k: nat,
)
    requires
        k <= hops,
        forall|j: nat| j <= hops ==> doc.known(#[trigger] doc.followed(ty, j)),
        doc.resolved_within(ty, hops) is Err,
    ensures
        doc.names_alias(doc.followed(ty, k)),
    decreases hops,
{
    assert(doc.known(doc.followed(ty, 0)));
    match ty {
        DatatypeIdent::Ident(id) => match doc.datatype_named(id@) {
            Some(datatype) => match datatype.variant {
                DatatypeVariant::Alias(alias) => {
                    if k > 0 {
                        let fewer = (hops - 1) as nat;
                        assert forall|j: nat| j <= fewer implies doc.known(
                            #[trigger] doc.followed(alias.to, j),
                        ) by {
                            assert(doc.followed(ty, j + 1) == doc.followed(alias.to, j));
                            assert(doc.known(doc.followed(ty, j + 1)));
                        }
                        lemma_unending_chain_is_all_aliases(doc, alias.to, fewer, (k - 1) as nat);
                        assert(doc.followed(ty, k) == doc.followed(alias.to, (k - 1) as nat));
                    }
                },
                _ => {},
            },
            None => {},
        },
        _ => {},
    }
}

/// The bound on the length of a chain never cuts an honest chain short:
/// where every name on the chain from `ty` is found and no alias occurs on
/// it twice, the chain ends, and `ty` stands for a type.
pub proof fn lemma_acyclic_chain_resolves(doc: &Document, ty: DatatypeIdent)
    requires
        forall|k: nat| k <= doc.datatypes@.len() ==> doc.known(#[trigger] doc.followed(ty, k)),
        forall|i: nat, j: nat|
            #![trigger doc.followed(ty, i), doc.followed(ty, j)]
            i < j <= doc.datatypes@.len() && doc.names_alias(doc.followed(ty, i))
                && doc.names_alias(doc.followed(ty, j)) ==> name_of(doc.followed(ty, i))
                != name_of(doc.followed(ty, j)),
    ensures
        doc.resolved(ty) is Ok,
{
    let n = doc.datatypes@.len();
    if doc.resolved(ty) is Err {
        let positions = Seq::new(
            n + 1,
            |k: int|
                match doc.position_from(name_of(doc.followed(ty, k as nat)), 0) {
                    Some(at) => at,
                    None => -1,
                },
        );
        assert forall|k: int| 0 <= k <= n implies 0 <= #[trigger] positions[k] < n
            && doc.names_alias(doc.followed(ty, k as nat)) && doc.datatypes@[positions[k]].name@
            == name_of(doc.followed(ty, k as nat)) by {
            lemma_unending_chain_is_all_aliases(doc, ty, n, k as nat);
            lemma_position_from(doc, name_of(doc.followed(ty, k as nat)), 0);
        }
        assert forall|i: int, j: int|
            0 <= i < positions.len() && 0 <= j < positions.len() && i != j implies positions[i]
            != positions[j] by {
            let first = doc.followed(ty, i as nat);
            let second = doc.followed(ty, j as nat);
            assert(doc.datatypes@[positions[i]].name@ == name_of(first));
            assert(doc.datatypes@[positions[j]].name@ == name_of(second));
            if i < j {
                assert(name_of(doc.followed(ty, i as nat)) != name_of(doc.followed(ty, j as nat)));
            } else {
                assert(name_of(doc.followed(ty, j as nat)) != name_of(doc.followed(ty, i as nat)));
            }
        }
        positions.unique_seq_to_set();
        lemma_int_range(0, n as int);
        assert forall|at: int| positions.to_set().contains(at) implies set_int_range(
            0,
            n as int,
        ).contains(at) by {
            let k = choose|k: int| 0 <= k < positions.len() && positions[k] == at;
            assert(0 <= positions[k] < n);
        }
        lemma_len_subset(positions.to_set(), set_int_range(0, n as int));
    }
}

} // verus!
