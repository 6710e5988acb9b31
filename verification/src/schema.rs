//! The registry of types and what decoding and probing a row mean in it.
//!
//! An entry is registered under a name and is a column type, a struct with
//! its mapping, or the optional form of an earlier entry. The types that an
//! entry names are looked up among the entries before it, so every chain of
//! nested mappings ends.
use vstd::prelude::*;
use crate::derive::{Mapping, MappingView};
use crate::directive::ConvertView;
use crate::error::{MappingErrorView, Storage};
use crate::plan::{ExtractView, FieldInitView, PredicateView, ProbeView};
use crate::row::{lookup, ColumnView, SqlValueView};
use crate::value::ValueView;

verus! {

/// What a registered type is.
#[derive(Clone, Debug, PartialEq, Eq)]
pub enum TypeKind {
    /// A type that is decoded from one column: it takes values of the storage
    /// class `storage`, and null as well if `nullable`. The host declares
    /// this; nothing else is known of the type.
    Scalar { storage: Storage, nullable: bool },
    /// A struct, decoded and probed by its mapping.
    Struct(Mapping),
    /// The optional form of the type `inner`: absent where `inner`'s probe
    /// finds all columns null.
    Optional { inner: String },
}

/// A [`TypeKind`] with its texts as sequences of characters.
pub enum TypeKindView {
    Scalar { storage: Storage, nullable: bool },
    Struct(MappingView),
    Optional { inner: Seq<char> },
}

impl View for TypeKind {
    type V = TypeKindView;

    open spec fn view(&self) -> TypeKindView {
        match *self {
            TypeKind::Scalar { storage, nullable } => TypeKindView::Scalar { storage, nullable },
            TypeKind::Struct(mapping) => TypeKindView::Struct(mapping@),
            TypeKind::Optional { inner } => TypeKindView::Optional { inner: inner@ },
        }
    }
}

/// A registered type: its name and what it is.
#[derive(Clone, Debug, PartialEq, Eq)]
pub struct TypeEntry {
    pub name: String,
    pub kind: TypeKind,
}

/// A [`TypeEntry`] with its texts as sequences of characters.
pub struct TypeEntryView {
    pub name: Seq<char>,
    pub kind: TypeKindView,
}

impl View for TypeEntry {
    type V = TypeEntryView;

    open spec fn view(&self) -> TypeEntryView {
        TypeEntryView { name: self.name@, kind: self.kind@ }
    }
}

/// The registered types, oldest first.
pub type Types = Seq<TypeEntryView>;

/// The index of the first entry of `types` that is named `name`.
pub open spec fn resolve(types: Types, name: Seq<char>) -> Option<int>
    decreases types.len(),
{
    if types.len() == 0 {
        None
    } else {
        match resolve(types.drop_last(), name) {
            Some(j) => Some(j),
            None => if types.last().name == name {
                Some(types.len() - 1)
            } else {
                None
            },
        }
    }
}

/// The failure for a type that is not registered as what is asked of it.
pub open spec fn unregistered<T>(ty: Seq<char>) -> Result<T, MappingErrorView> {
    Err(MappingErrorView::Unregistered { ty })
}

/// The outcome of one null probe for the entry `i`, called with `prefix`.
pub open spec fn probe_at(
    types: Types,
    i: int,
    probe: ProbeView,
    row: Seq<ColumnView>,
    prefix: Seq<char>,
) -> Result<bool, MappingErrorView>
    decreases i, 0int, 0int,
{
    match probe {
        ProbeView::Column { name } => match lookup(row, prefix + name) {
            None => Err(MappingErrorView::MissingColumn { name: prefix + name }),
            Some(value) => Ok(value is Null),
        },
        ProbeView::Nested { ty, prefix: child } => match resolve(types.take(i), ty) {
            Some(j) => if 0 <= j < i {
                absent_at(types, j, row, child.under(prefix))
            } else {
                unregistered(ty)
            },
            None => unregistered(ty),
        },
    }
}

/// The conjunction of the probes, from the left: the first failure or the
/// first probe that finds a value decides, and no later probe is made.
pub open spec fn all_null(
    types: Types,
    i: int,
    probes: Seq<ProbeView>,
    row: Seq<ColumnView>,
    prefix: Seq<char>,
) -> Result<bool, MappingErrorView>
    decreases i, 1int, probes.len(),
{
    if probes.len() == 0 {
        Ok(true)
    } else {
        match all_null(types, i, probes.drop_last(), row, prefix) {
            Ok(true) => probe_at(types, i, probes.last(), row, prefix),
            other => other,
        }
    }
}

/// Whether the entry `i` is absent from `row` under `prefix`: whether every
/// column behind it is null.
pub open spec fn absent_at(
    types: Types,
    i: int,
    row: Seq<ColumnView>,
    prefix: Seq<char>,
) -> Result<bool, MappingErrorView>
    decreases i, 2int, 0int,
{
    if 0 <= i < types.len() {
        match types[i].kind {
            TypeKindView::Struct(mapping) => all_null(types, i, mapping.probes, row, prefix),
            TypeKindView::Optional { inner } => match resolve(types.take(i), inner) {
                Some(j) => if 0 <= j < i {
                    absent_at(types, j, row, prefix)
                } else {
                    unregistered(inner)
                },
                None => unregistered(inner),
            },
            TypeKindView::Scalar { .. } => unregistered(types[i].name),
        }
    } else {
        unregistered(Seq::empty())
    }
}

/// What a column value decodes to as the type `target`; `name` is the
/// column's full name.
///
/// Without a target the value is taken as it stands. With one, the target
/// must be a column type among `types`: null is taken only by a nullable
/// type, and any other value only by a type of its storage class.
pub open spec fn column_result(
    types: Types,
    target: Option<Seq<char>>,
    name: Seq<char>,
    value: SqlValueView,
) -> Result<ValueView, MappingErrorView> {
    match target {
        None => Ok(ValueView::Column(value)),
        Some(ty) => match resolve(types, ty) {
            Some(j) => match types[j].kind {
                TypeKindView::Scalar { storage, nullable } => if value is Null {
                    if nullable {
                        Ok(ValueView::Column(value))
                    } else {
                        Err(MappingErrorView::NullOnNonNullable { name })
                    }
                } else if value.storage() == storage {
                    Ok(ValueView::Column(value))
                } else {
                    Err(
                        MappingErrorView::TypeMismatch {
                            name,
                            expected: storage,
                            found: value.storage(),
                        },
                    )
                },
                _ => unregistered(ty),
            },
            None => unregistered(ty),
        },
    }
}

/// The name of the type whose default stands in for a null column.
pub open spec fn default_ty(target: Option<Seq<char>>) -> Seq<char> {
    match target {
        Some(ty) => ty,
        None => "_"@,
    }
}

/// What the column `name` of `row` decodes to. A column that the row lacks
/// is a failure, with `default` too; with `default`, a null column gives the
/// target's default value.
pub open spec fn column_value(
    types: Types,
    name: Seq<char>,
    target: Option<Seq<char>>,
    default: bool,
    row: Seq<ColumnView>,
) -> Result<ValueView, MappingErrorView> {
    match lookup(row, name) {
        None => Err(MappingErrorView::MissingColumn { name }),
        Some(value) => if default && value is Null {
            Ok(ValueView::Default { ty: default_ty(target) })
        } else {
            column_result(types, target, name, value)
        },
    }
}

/// What the host's conversions make of a decoded value: given the conversion,
/// the declared type of the field and the value, the converted value or the
/// cause of a failure.
pub type Conversion = spec_fn(ConvertView, Seq<char>, ValueView) -> Result<ValueView, Seq<char>>;

/// A decoded value after the field's conversion into the declared type
/// `ty`; `name` is the column's full name.
///
/// A field without a conversion keeps the value. Without conversions of the
/// host (`None`), the value is kept too and marked as still to be converted.
/// With them, the outcome is theirs, and a conversion that fails is a
/// failure of decoding.
pub open spec fn converted(
    conversions: Option<Conversion>,
    convert: Option<ConvertView>,
    ty: Seq<char>,
    name: Seq<char>,
    value: ValueView,
) -> Result<ValueView, MappingErrorView> {
    match convert {
        Some(c) => match conversions {
            Some(apply) => match apply(c, ty, value) {
                Ok(result) => Ok(result),
                Err(cause) => Err(MappingErrorView::ConversionFailed { name, cause }),
            },
            None => Ok(ValueView::Converted { convert: c, ty, value: Box::new(value) }),
        },
        None => Ok(value),
    }
}

/// What one extraction of the entry `i` yields, called with `prefix`.
pub open spec fn extract_at(
    types: Types,
    i: int,
    extract: ExtractView,
    row: Seq<ColumnView>,
    prefix: Seq<char>,
    conversions: Option<Conversion>,
) -> Result<ValueView, MappingErrorView>
    decreases i, 0int, 0int,
{
    match extract {
        ExtractView::Default { ty } => Ok(ValueView::Default { ty }),
        ExtractView::Nested { ty, prefix: child, default } => match resolve(types.take(i), ty) {
            Some(j) => if 0 <= j < i {
                if default {
                    match absent_at(types, j, row, child.under(prefix)) {
                        Err(e) => Err(e),
                        Ok(true) => Ok(ValueView::Default { ty }),
                        Ok(false) => decode_at(types, j, row, child.under(prefix), conversions),
                    }
                } else {
                    decode_at(types, j, row, child.under(prefix), conversions)
                }
            } else {
                unregistered(ty)
            },
            None => unregistered(ty),
        },
        ExtractView::Column { name, ty, target, default, convert } => match column_value(
            types.take(i),
            prefix + name,
            target,
            default,
            row,
        ) {
            Err(e) => Err(e),
            Ok(value) => converted(conversions, convert, ty, prefix + name, value),
        },
    }
}

/// The values of the fields, in declaration order; the first field that
/// fails decides the failure.
pub open spec fn decode_fields(
    types: Types,
    i: int,
    fields: Seq<FieldInitView>,
    row: Seq<ColumnView>,
    prefix: Seq<char>,
    conversions: Option<Conversion>,
) -> Result<Seq<(Seq<char>, ValueView)>, MappingErrorView>
    decreases i, 1int, fields.len(),
{
    if fields.len() == 0 {
        Ok(Seq::empty())
    } else {
        match decode_fields(types, i, fields.drop_last(), row, prefix, conversions) {
            Err(e) => Err(e),
            Ok(values) => match extract_at(
                types,
                i,
                fields.last().extract,
                row,
                prefix,
                conversions,
            ) {
                Err(e) => Err(e),
                Ok(value) => Ok(values.push((fields.last().ident, value))),
            },
        }
    }
}

/// What the entry `i` decodes `row` to under `prefix`.
pub open spec fn decode_at(
    types: Types,
    i: int,
    row: Seq<ColumnView>,
    prefix: Seq<char>,
    conversions: Option<Conversion>,
) -> Result<ValueView, MappingErrorView>
    decreases i, 2int, 0int,
{
    if 0 <= i < types.len() {
        match types[i].kind {
            TypeKindView::Struct(mapping) => match decode_fields(
                types,
                i,
                mapping.fields,
                row,
                prefix,
                conversions,
            ) {
                Err(e) => Err(e),
                Ok(fields) => Ok(ValueView::Record { ty: mapping.ident, fields }),
            },
            TypeKindView::Optional { inner } => match resolve(types.take(i), inner) {
                Some(j) => if 0 <= j < i {
                    match absent_at(types, j, row, prefix) {
                        Err(e) => Err(e),
                        Ok(true) => Ok(ValueView::Absent),
                        Ok(false) => match decode_at(types, j, row, prefix, conversions) {
                            Err(e) => Err(e),
                            Ok(value) => Ok(ValueView::Present(Box::new(value))),
                        },
                    }
                } else {
                    unregistered(inner)
                },
                None => unregistered(inner),
            },
            TypeKindView::Scalar { .. } => unregistered(types[i].name),
        }
    } else {
        unregistered(Seq::empty())
    }
}

/// What the type named `ty` decodes `row` to under `prefix`, with the
/// host's conversions `conversions` or, without them, with every conversion
/// left pending.
pub open spec fn decoded(
    types: Types,
    ty: Seq<char>,
    row: Seq<ColumnView>,
    prefix: Seq<char>,
    conversions: Option<Conversion>,
) -> Result<ValueView, MappingErrorView> {
    match resolve(types, ty) {
        Some(i) => decode_at(types, i, row, prefix, conversions),
        None => unregistered(ty),
    }
}

/// Whether the type named `ty` is absent from `row` under `prefix`.
pub open spec fn absent(
    types: Types,
    ty: Seq<char>,
    row: Seq<ColumnView>,
    prefix: Seq<char>,
) -> Result<bool, MappingErrorView> {
    match resolve(types, ty) {
        Some(i) => absent_at(types, i, row, prefix),
        None => unregistered(ty),
    }
}

/// Whether `ty` is registered as a column type.
pub open spec fn has_scalar(types: Types, ty: Seq<char>) -> bool {
    resolve(types, ty) matches Some(j) && types[j].kind is Scalar
}

/// Whether `ty` is registered with a mapping: as a struct or as the optional
/// form of another type.
pub open spec fn has_mapping(types: Types, ty: Seq<char>) -> bool {
    resolve(types, ty) matches Some(j) && !(types[j].kind is Scalar)
}

/// The type that a capability asks to be registered and that is not.
/// Capabilities other than decoding from a column and having a mapping are
/// the host's to provide and are not checked.
pub open spec fn unmet_predicate(types: Types, predicate: PredicateView) -> Option<Seq<char>> {
    match predicate {
        PredicateView::FromSql { ty } => if has_scalar(types, ty) {
            None
        } else {
            Some(ty)
        },
        PredicateView::FromRow { ty } => if has_mapping(types, ty) {
            None
        } else {
            Some(ty)
        },
        _ => None,
    }
}

/// The type that an extraction needs registered and that is not.
pub open spec fn unmet_extract(types: Types, extract: ExtractView) -> Option<Seq<char>> {
    match extract {
        ExtractView::Nested { ty, .. } => if has_mapping(types, ty) {
            None
        } else {
            Some(ty)
        },
        ExtractView::Column { target: Some(ty), .. } => if has_scalar(types, ty) {
            None
        } else {
            Some(ty)
        },
        _ => None,
    }
}

/// The type that a probe needs registered and that is not.
pub open spec fn unmet_probe(types: Types, probe: ProbeView) -> Option<Seq<char>> {
    match probe {
        ProbeView::Nested { ty, .. } => if has_mapping(types, ty) {
            None
        } else {
            Some(ty)
        },
        ProbeView::Column { .. } => None,
    }
}

/// The first unmet type among the capabilities, in order.
pub open spec fn unmet_predicates(types: Types, predicates: Seq<PredicateView>) -> Option<Seq<char>>
    decreases predicates.len(),
{
    if predicates.len() == 0 {
        None
    } else {
        match unmet_predicates(types, predicates.drop_last()) {
            Some(ty) => Some(ty),
            None => unmet_predicate(types, predicates.last()),
        }
    }
}

/// The first unmet type among the extractions, in order.
pub open spec fn unmet_fields(types: Types, fields: Seq<FieldInitView>) -> Option<Seq<char>>
    decreases fields.len(),
{
    if fields.len() == 0 {
        None
    } else {
        match unmet_fields(types, fields.drop_last()) {
            Some(ty) => Some(ty),
            None => unmet_extract(types, fields.last().extract),
        }
    }
}

/// The first unmet type among the probes, in order.
pub open spec fn unmet_probes(types: Types, probes: Seq<ProbeView>) -> Option<Seq<char>>
    decreases probes.len(),
{
    if probes.len() == 0 {
        None
    } else {
        match unmet_probes(types, probes.drop_last()) {
            Some(ty) => Some(ty),
            None => unmet_probe(types, probes.last()),
        }
    }
}

/// The first type that `mapping` needs among `types` and does not find:
/// its capabilities are gone through first, then its extractions, then its
/// probes.
pub open spec fn unmet(types: Types, mapping: MappingView) -> Option<Seq<char>> {
    match unmet_predicates(types, mapping.predicates) {
        Some(ty) => Some(ty),
        None => match unmet_fields(types, mapping.fields) {
            Some(ty) => Some(ty),
            None => unmet_probes(types, mapping.probes),
        },
    }
}

/// Whether every entry finds what it needs among the entries before it.
pub open spec fn well_formed(types: Types) -> bool {
    forall|i: int|
        0 <= i < types.len() ==> match (#[trigger] types[i]).kind {
            TypeKindView::Struct(mapping) => unmet(types.take(i), mapping) is None,
            TypeKindView::Optional { inner } => has_mapping(types.take(i), inner),
            TypeKindView::Scalar { .. } => true,
        }
}

/// [`resolve`] gives the first entry of the name, and none where no entry has it.
pub proof fn lemma_resolve(types: Types, name: Seq<char>)
    ensures
        match resolve(types, name) {
            Some(j) => 0 <= j < types.len() && types[j].name == name && forall|k: int|
                0 <= k < j ==> types[k].name != name,
            None => forall|k: int| 0 <= k < types.len() ==> types[k].name != name,
        },
    decreases types.len(),
{
    if types.len() > 0 {
        let front = types.drop_last();
        lemma_resolve(front, name);
        assert forall|k: int| 0 <= k < front.len() implies front[k] == types[k] by {}
        match resolve(front, name) {
            Some(j) => {
                assert(types[j] == front[j]);
                assert forall|k: int| 0 <= k < j implies types[k].name != name by {
                    assert(front[k] == types[k]);
                }
            },
            None => {
                assert forall|k: int| 0 <= k < types.len() - 1 implies types[k].name != name by {
                    assert(front[k] == types[k]);
                }
            },
        }
    }
}

/// Once the conjunction of the first `k` probes is decided against "all
/// null", no later probe changes the outcome.
pub proof fn lemma_all_null_decided(
    types: Types,
    i: int,
    probes: Seq<ProbeView>,
    row: Seq<ColumnView>,
    prefix: Seq<char>,
    k: int,
)
    requires
        0 <= k <= probes.len(),
        all_null(types, i, probes.take(k), row, prefix) != Ok::<bool, MappingErrorView>(true),
    ensures
        all_null(types, i, probes, row, prefix) == all_null(types, i, probes.take(k), row, prefix),
    decreases probes.len(),
{
    if k == probes.len() {
        assert(probes.take(k) =~= probes);
    } else {
        assert(probes.drop_last().take(k) =~= probes.take(k));
        lemma_all_null_decided(types, i, probes.drop_last(), row, prefix, k);
    }
}

/// Once one of the first `k` fields has failed, no later field changes the failure.
pub proof fn lemma_decode_fields_failed(
    types: Types,
    i: int,
    fields: Seq<FieldInitView>,
    row: Seq<ColumnView>,
    prefix: Seq<char>,
    conversions: Option<Conversion>,
    k: int,
)
    requires
        0 <= k <= fields.len(),
        decode_fields(types, i, fields.take(k), row, prefix, conversions) is Err,
    ensures
        decode_fields(types, i, fields, row, prefix, conversions) == decode_fields(
            types,
            i,
            fields.take(k),
            row,
            prefix,
            conversions,
        ),
    decreases fields.len(),
{
    if k == fields.len() {
        assert(fields.take(k) =~= fields);
    } else {
        assert(fields.drop_last().take(k) =~= fields.take(k));
        lemma_decode_fields_failed(types, i, fields.drop_last(), row, prefix, conversions, k);
    }
}

/// Once one of the first `k` capabilities is unmet, it stays the first.
pub proof fn lemma_unmet_predicates_found(types: Types, predicates: Seq<PredicateView>, k: int)
    requires
        0 <= k <= predicates.len(),
        unmet_predicates(types, predicates.take(k)) is Some,
    ensures
        unmet_predicates(types, predicates) == unmet_predicates(types, predicates.take(k)),
    decreases predicates.len(),
{
    if k == predicates.len() {
        assert(predicates.take(k) =~= predicates);
    } else {
        assert(predicates.drop_last().take(k) =~= predicates.take(k));
        lemma_unmet_predicates_found(types, predicates.drop_last(), k);
    }
}

/// Once one of the first `k` extractions is unmet, it stays the first.
pub proof fn lemma_unmet_fields_found(types: Types, fields: Seq<FieldInitView>, k: int)
    requires
        0 <= k <= fields.len(),
        unmet_fields(types, fields.take(k)) is Some,
    ensures
        unmet_fields(types, fields) == unmet_fields(types, fields.take(k)),
    decreases fields.len(),
{
    if k == fields.len() {
        assert(fields.take(k) =~= fields);
    } else {
        assert(fields.drop_last().take(k) =~= fields.take(k));
        lemma_unmet_fields_found(types, fields.drop_last(), k);
    }
}

/// Once one of the first `k` probes is unmet, it stays the first.
pub proof fn lemma_unmet_probes_found(types: Types, probes: Seq<ProbeView>, k: int)
    requires
        0 <= k <= probes.len(),
        unmet_probes(types, probes.take(k)) is Some,
    ensures
        unmet_probes(types, probes) == unmet_probes(types, probes.take(k)),
    decreases probes.len(),
{
    if k == probes.len() {
        assert(probes.take(k) =~= probes);
    } else {
        assert(probes.drop_last().take(k) =~= probes.take(k));
        lemma_unmet_probes_found(types, probes.drop_last(), k);
    }
}

} // verus!
