//! The compilation of one struct into its mapping.
use vstd::prelude::*;
use vstd::string::StringExecFns;
use crate::directive::syntax_error;
use crate::error::{MappingError, MappingErrorView};
use crate::field::{field_parsed, FromRowField, FromRowFieldView};
use crate::plan::{
    init_views, predicate_views, probe_views, FieldInit, FieldInitView, Predicate, PredicateView,
    Probe, ProbeView,
};
use crate::raw::{raw_field_views, RawFieldView, RawStruct, RawStructView};
use crate::syntax::parse_input;

verus! {

/// A struct that gets a mapping: its name and its fields in declaration order.
#[derive(Clone, Debug, PartialEq, Eq)]
pub struct DeriveFromRow {
    pub ident: String,
    pub data: Vec<FromRowField>,
}

/// A [`DeriveFromRow`] with its texts as sequences of characters.
pub struct DeriveFromRowView {
    pub ident: Seq<char>,
    pub data: Seq<FromRowFieldView>,
}

/// The views of a list of fields, in order.
pub open spec fn field_views(fields: Seq<FromRowField>) -> Seq<FromRowFieldView> {
    fields.map_values(|f: FromRowField| f@)
}

impl View for DeriveFromRow {
    type V = DeriveFromRowView;

    open spec fn view(&self) -> DeriveFromRowView {
        DeriveFromRowView { ident: self.ident@, data: field_views(self.data@) }
    }
}

/// The mapping of one struct: what decoding and probing a row for it consist of.
#[derive(Clone, Debug, PartialEq, Eq)]
pub struct Mapping {
    /// The name of the struct.
    pub ident: String,
    /// The capabilities that the fields' types must have.
    pub predicates: Vec<Predicate>,
    /// The extraction of each field, in declaration order.
    pub fields: Vec<FieldInit>,
    /// The null probes of the fields that have one, in declaration order.
    pub probes: Vec<Probe>,
}

/// A [`Mapping`] with its texts as sequences of characters.
pub struct MappingView {
    pub ident: Seq<char>,
    pub predicates: Seq<PredicateView>,
    pub fields: Seq<FieldInitView>,
    pub probes: Seq<ProbeView>,
}

impl View for Mapping {
    type V = MappingView;

    open spec fn view(&self) -> MappingView {
        MappingView {
            ident: self.ident@,
            predicates: predicate_views(self.predicates@),
            fields: init_views(self.fields@),
            probes: probe_views(self.probes@),
        }
    }
}

/// The capabilities that a list of fields asks for, field after field.
pub open spec fn all_predicates(fields: Seq<FromRowFieldView>) -> Seq<PredicateView>
    decreases fields.len(),
{
    if fields.len() == 0 {
        seq![]
    } else {
        all_predicates(fields.drop_last()) + fields.last().predicates()
    }
}

/// The null probes of a list of fields, in order; skipped fields give none.
pub open spec fn all_probes(fields: Seq<FromRowFieldView>) -> Seq<ProbeView>
    decreases fields.len(),
{
    if fields.len() == 0 {
        seq![]
    } else {
        match fields.last().probe() {
            Some(probe) => all_probes(fields.drop_last()).push(probe),
            None => all_probes(fields.drop_last()),
        }
    }
}

/// The extractions of a list of fields, in order.
pub open spec fn all_inits(fields: Seq<FromRowFieldView>) -> Seq<FieldInitView> {
    fields.map_values(|f: FromRowFieldView| f.init())
}

impl DeriveFromRowView {
    /// The mapping that is generated for the struct.
    pub open spec fn generate(self) -> MappingView {
        MappingView {
            ident: self.ident,
            predicates: all_predicates(self.data),
            fields: all_inits(self.data),
            probes: all_probes(self.data),
        }
    }
}

/// The fields that are made of what was read of them, in order, or the
/// failure of the first that fails.
pub open spec fn fields_parsed(fields: Seq<RawFieldView>) -> Result<
    Seq<FromRowFieldView>,
    MappingErrorView,
>
    decreases fields.len(),
{
    if fields.len() == 0 {
        Ok(Seq::empty())
    } else {
        match fields_parsed(fields.drop_last()) {
            Err(e) => Err(e),
            Ok(made) => match field_parsed(fields.last()) {
                Ok(field) => Ok(made.push(field)),
                Err(e) => Err(e),
            },
        }
    }
}

/// The struct that is made of what was read of a definition: a syntax
/// error for a definition without named fields, else the struct of that name
/// with its fields, or the failure of the first field that fails.
pub open spec fn struct_parsed(input: RawStructView) -> Result<
    DeriveFromRowView,
    MappingErrorView,
> {
    match input.fields {
        None => Err(MappingErrorView::Syntax { message: "expected struct with named fields"@ }),
        Some(fields) => match fields_parsed(fields) {
            Ok(data) => Ok(DeriveFromRowView { ident: input.ident, data }),
            Err(e) => Err(e),
        },
    }
}

/// The mapping that is generated from what was read of a definition.
pub open spec fn derived(input: RawStructView) -> Result<MappingView, MappingErrorView> {
    match struct_parsed(input) {
        Ok(parsed) => Ok(parsed.generate()),
        Err(e) => Err(e),
    }
}

/// The view of an outcome of making a struct.
pub open spec fn struct_result_view(r: Result<DeriveFromRow, MappingError>) -> Result<
    DeriveFromRowView,
    MappingErrorView,
> {
    match r {
        Ok(parsed) => Ok(parsed@),
        Err(e) => Err(e@),
    }
}

/// The view of an outcome of generation.
pub open spec fn mapping_result_view(r: Result<Mapping, MappingError>) -> Result<
    MappingView,
    MappingErrorView,
> {
    match r {
        Ok(mapping) => Ok(mapping@),
        Err(e) => Err(e@),
    }
}

/// Once one of the first `k` fields has failed, no later field changes the failure.
pub proof fn lemma_fields_parsed_failed(fields: Seq<RawFieldView>, k: int)
    requires
        0 <= k <= fields.len(),
        fields_parsed(fields.take(k)) is Err,
    ensures
        fields_parsed(fields) == fields_parsed(fields.take(k)),
    decreases fields.len(),
{
    if k == fields.len() {
        assert(fields.take(k) =~= fields);
    } else {
        assert(fields.drop_last().take(k) =~= fields.take(k));
        lemma_fields_parsed_failed(fields.drop_last(), k);
    }
}

impl DeriveFromRow {
    /// Makes a struct of what was read of a definition.
    ///
    /// A definition without named fields is a syntax error. Otherwise its
    /// fields are made in declaration order (see [`FromRowField::parse`]),
    /// and the first that fails decides the error.
    pub fn parse(input: RawStruct) -> (r: Result<DeriveFromRow, MappingError>)
        ensures
            struct_result_view(r) == struct_parsed(input@),
    {
        let ghost whole = input@;
        let mut rest = match input.fields {
            Some(fields) => fields,
            None => {
                return Err(
                    MappingError::Syntax {
                        message: String::from_str("expected struct with named fields"),
                    },
                );
            },
        };
        let ghost all = raw_field_views(rest@);
        let mut data: Vec<FromRowField> = Vec::new();
        assert(all.take(0) =~= Seq::empty());
        assert(field_views(data@) =~= Seq::empty());
        assert(all.skip(0) =~= all);
        while rest.len() > 0
            invariant
                whole == input@,
                whole.fields == Some(all),
                data.len() + rest.len() == all.len(),
                raw_field_views(rest@) == all.skip(data.len() as int),
                fields_parsed(all.take(data.len() as int)) == Ok::<
                    Seq<FromRowFieldView>,
                    MappingErrorView,
                >(field_views(data@)),
            decreases rest.len(),
        {
            let ghost k = data.len() as int;
            let ghost before = raw_field_views(rest@);
            let ghost made = field_views(data@);
            let ghost waiting = rest@;
            let field = rest.remove(0);
            proof {
                assert(field@ == before[0]);
                assert(before[0] == all[k]);
                assert(rest@ =~= waiting.remove(0));
                assert forall|j: int| 0 <= j < rest@.len() implies raw_field_views(rest@)[j]
                    == all.skip(k + 1)[j] by {
                    assert(rest@[j] == waiting[j + 1]);
                    assert(before[j + 1] == waiting[j + 1]@);
                    assert(before[j + 1] == all[k + j + 1]);
                }
                assert(raw_field_views(rest@) =~= all.skip(k + 1));
                let next = all.take(k + 1);
                assert(next.drop_last() =~= all.take(k));
                assert(next.last() == all[k]);
            }
            match FromRowField::parse(field) {
                Ok(read) => {
                    data.push(read);
                    assert(field_views(data@) =~= made.push(read@));
                },
                Err(e) => {
                    proof {
                        lemma_fields_parsed_failed(all, k + 1);
                    }
                    return Err(e);
                },
            }
        }
        assert(all.take(data.len() as int) =~= all);
        Ok(DeriveFromRow { ident: input.ident, data })
    }

    /// The capabilities that the fields ask for, field after field.
    pub fn predicates(&self) -> (predicates: Vec<Predicate>)
        ensures
            predicate_views(predicates@) == all_predicates(self@.data),
    {
        let mut predicates: Vec<Predicate> = Vec::new();
        let mut i: usize = 0;
        assert(predicate_views(predicates@) =~= seq![]);
        assert(self@.data.take(0) =~= seq![]);
        while i < self.data.len()
            invariant
                i <= self.data.len(),
                predicate_views(predicates@) == all_predicates(self@.data.take(i as int)),
            decreases self.data.len() - i,
        {
            self.data[i].add_predicates(&mut predicates);
            proof {
                let next = self@.data.take(i + 1);
                assert(next.drop_last() =~= self@.data.take(i as int));
                assert(next.last() == self.data[i as int]@);
            }
            i += 1;
        }
        assert(self@.data.take(i as int) =~= self@.data);
        predicates
    }

    /// Generates the mapping of the struct.
    pub fn generate(self) -> (mapping: Mapping)
        ensures
            mapping@ == self@.generate(),
    {
        let predicates = self.predicates();
        let mut probes: Vec<Probe> = Vec::new();
        let mut fields: Vec<FieldInit> = Vec::new();
        let mut i: usize = 0;
        assert(probe_views(probes@) =~= seq![]);
        assert(self@.data.take(0) =~= seq![]);
        while i < self.data.len()
            invariant
                i <= self.data.len(),
                probe_views(probes@) == all_probes(self@.data.take(i as int)),
                init_views(fields@) =~= all_inits(self@.data.take(i as int)),
            decreases self.data.len() - i,
        {
            let ghost before = probe_views(probes@);
            if let Some(probe) = self.data[i].generate_is_all_null() {
                probes.push(probe);
                assert(probe_views(probes@) =~= before.push(probe@));
            }
            let ghost inits = init_views(fields@);
            let init = self.data[i].generate_try_from_row();
            fields.push(init);
            proof {
                let next = self@.data.take(i + 1);
                assert(next.drop_last() =~= self@.data.take(i as int));
                assert(next.last() == self.data[i as int]@);
                assert(init_views(fields@) =~= inits.push(init@));
                assert(all_inits(next) =~= all_inits(next.drop_last()).push(next.last().init()));
            }
            i += 1;
        }
        assert(self@.data.take(i as int) =~= self@.data);
        Mapping { ident: self.ident, predicates, fields, probes }
    }
}

/// Generates the mapping of a definition from what was read of it.
pub fn compile(input: RawStruct) -> (r: Result<Mapping, MappingError>)
    ensures
        mapping_result_view(r) == derived(input@),
{
    match DeriveFromRow::parse(input) {
        Ok(from_row_derive) => Ok(from_row_derive.generate()),
        Err(e) => Err(e),
    }
}

/// Compiles a parsed definition into its mapping: reads it, then generates.
/// The outcome is what [`compile`] gives for what was read.
pub fn try_derive_from_row(input: syn::DeriveInput) -> (r: Result<Mapping, MappingError>)
    ensures
        exists|read: RawStructView|
            read.others_unread() && mapping_result_view(r) == #[trigger] derived(read),
{
    let raw = RawStruct::read(&input);
    let ghost read = raw@;
    let r = compile(raw);
    assert(mapping_result_view(r) == derived(read));
    r
}

/// Compiles the source text of a struct definition into its mapping.
///
/// The text must be one struct with named fields, each optionally annotated
/// with `#[from_row(..)]`. A text that is no definition is a syntax error;
/// otherwise the outcome is what [`compile`] gives for what was read of the
/// definition.
pub fn derive_from_row(source: &str) -> (r: Result<Mapping, MappingError>)
    ensures
        (r matches Err(e) && e is Syntax) || (exists|read: RawStructView|
            read.others_unread() && mapping_result_view(r) == #[trigger] derived(read)),
{
    match parse_input(source) {
        Ok(input) => try_derive_from_row(input),
        Err(error) => Err(syntax_error(&error)),
    }
}

} // verus!
