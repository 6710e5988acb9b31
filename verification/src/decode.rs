//! The schema: registration of types, and the decoding and probing of rows.
use vstd::prelude::*;
use vstd::string::StringExecFns;
use crate::derive::Mapping;
use crate::directive::{text_view, Convert, ConvertView};
use crate::error::{MappingError, MappingErrorView, Storage};
use crate::laws::{is_unregistered, law_registration_fails_fast, law_well_formed_grows};
use crate::plan::{ChildPrefix, Extract, Predicate, Probe};
use crate::row::{Columns, SqlValue};
use crate::schema::{
    absent, absent_at, all_null, column_result, column_value, decode_at, decode_fields, decoded,
    extract_at, has_mapping, has_scalar, lemma_all_null_decided, lemma_decode_fields_failed,
    lemma_resolve, lemma_unmet_fields_found, lemma_unmet_predicates_found,
    lemma_unmet_probes_found, probe_at, resolve, unmet, unmet_fields, unmet_predicates,
    unmet_probes, well_formed, Conversion, TypeEntry, TypeEntryView, TypeKind, TypeKindView,
    Types,
};
use crate::value::{field_value_views, record_view, Value, ValueView};

verus! {

/// The view of a decoding outcome.
pub open spec fn result_view(r: Result<Value, MappingError>) -> Result<
    ValueView,
    MappingErrorView,
> {
    match r {
        Ok(value) => Ok(value@),
        Err(e) => Err(e@),
    }
}

/// The view of a probing outcome.
pub open spec fn flag_view(r: Result<bool, MappingError>) -> Result<bool, MappingErrorView> {
    match r {
        Ok(flag) => Ok(flag),
        Err(e) => Err(e@),
    }
}

/// `a` with `b` behind it.
pub fn joined(a: &str, b: &str) -> (text: String)
    ensures
        text@ == a@ + b@,
{
    let mut text = String::from_str(a);
    text.append(b);
    text
}

impl ChildPrefix {
    /// The prefix that the nested mapping gets when the caller got `parent`.
    pub fn under(&self, parent: &str) -> (text: String)
        ensures
            text@ == self@.under(parent@),
    {
        match self {
            ChildPrefix::Inherited => String::from_str(parent),
            ChildPrefix::Extended(suffix) => joined(parent, suffix.as_str()),
        }
    }
}

/// The prefix that an optional prefix stands for: none is the empty prefix.
pub open spec fn prefix_text(prefix: Option<&str>) -> Seq<char> {
    match prefix {
        Some(p) => p@,
        None => Seq::empty(),
    }
}

/// The view of a conversion's outcome.
pub open spec fn conversion_view(out: Result<Value, String>) -> Result<ValueView, Seq<char>> {
    match out {
        Ok(value) => Ok(value@),
        Err(cause) => Err(cause@),
    }
}

/// Whether `f` can stand for the host's conversions: it takes every
/// argument, and what it returns depends on the views of its arguments alone.
pub open spec fn converts<F: Fn(&Convert, &str, Value) -> Result<Value, String>>(f: &F) -> bool {
    &&& forall|c: &Convert, t: &str, v: Value| call_requires(*f, (c, t, v))
    &&& forall|
        c1: &Convert,
        t1: &str,
        v1: Value,
        o1: Result<Value, String>,
        c2: &Convert,
        t2: &str,
        v2: Value,
        o2: Result<Value, String>,
    |
        c1@ == c2@ && t1@ == t2@ && v1@ == v2@ && #[trigger] call_ensures(*f, (c1, t1, v1), o1)
            && #[trigger] call_ensures(*f, (c2, t2, v2), o2) ==> conversion_view(o1)
            == conversion_view(o2)
}

/// Whether `f` can return `r`, over views, for arguments of the given views.
pub open spec fn yields<F: Fn(&Convert, &str, Value) -> Result<Value, String>>(
    f: &F,
    convert: ConvertView,
    ty: Seq<char>,
    value: ValueView,
    r: Result<ValueView, Seq<char>>,
) -> bool {
    exists|c: &Convert, t: &str, v: Value, out: Result<Value, String>|
        c@ == convert && t@ == ty && v@ == value && #[trigger] call_ensures(*f, (c, t, v), out)
            && conversion_view(out) == r
}

/// What `f` makes of a decoded value, over views.
pub open spec fn conversion_of<F: Fn(&Convert, &str, Value) -> Result<Value, String>>(
    f: &F,
) -> Conversion {
    |convert: ConvertView, ty: Seq<char>, value: ValueView|
        choose|r: Result<ValueView, Seq<char>>| yields(f, convert, ty, value, r)
}

/// The conversions that an optional function stands for.
pub open spec fn conversions_of<F: Fn(&Convert, &str, Value) -> Result<Value, String>>(
    f: Option<&F>,
) -> Option<Conversion> {
    match f {
        Some(f) => Some(conversion_of(f)),
        None => None,
    }
}

/// What `f` returned is what it stands for.
pub proof fn lemma_conversion_of<F: Fn(&Convert, &str, Value) -> Result<Value, String>>(
    f: &F,
    c: &Convert,
    t: &str,
    v: Value,
    out: Result<Value, String>,
)
    requires
        converts(f),
        call_ensures(*f, (c, t, v), out),
    ensures
        conversion_of(f)(c@, t@, v@) == conversion_view(out),
{
    let found = conversion_of(f)(c@, t@, v@);
    assert(yields(f, c@, t@, v@, conversion_view(out)));
    assert(yields(f, c@, t@, v@, found));
}

/// A conversion that is never called: it gives "no conversions" a type.
fn unconverted(convert: &Convert, ty: &str, value: Value) -> (r: Result<Value, String>)
    ensures
        r == Ok::<Value, String>(value),
{
    Ok(value)
}

/// No conversions, of the type of `like`.
fn no_conversions<F: Fn(&Convert, &str, Value) -> Result<Value, String>>(like: &F) -> (none: Option<
    &F,
>)
    ensures
        none is None,
{
    None
}

/// A registry of types in which rows are decoded and probed.
#[derive(Debug)]
pub struct Schema {
    entries: Vec<TypeEntry>,
}

impl View for Schema {
    type V = Types;

    closed spec fn view(&self) -> Types {
        self.entries@.map_values(|e: TypeEntry| e@)
    }
}

impl Schema {
    /// A schema without types.
    pub fn new() -> (schema: Schema)
        ensures
            schema@ == Seq::<TypeEntryView>::empty(),
            well_formed(schema@),
    {
        let schema = Schema { entries: Vec::new() };
        assert(schema@ =~= Seq::<TypeEntryView>::empty());
        schema
    }

    /// The number of registered types.
    pub fn len(&self) -> (n: usize)
        ensures
            n == self@.len(),
    {
        self.entries.len()
    }

    /// The index of the first entry that is named `name`.
    pub fn find(&self, name: &str) -> (found: Option<usize>)
        ensures
            match found {
                Some(j) => j < self@.len() && resolve(self@, name@) == Some(j as int),
                None => resolve(self@, name@) is None,
            },
    {
        assert(self@.take(self@.len() as int) =~= self@);
        self.find_before(name, self.entries.len())
    }

    /// The index of the first of the oldest `limit` entries that is named `name`.
    fn find_before(&self, name: &str, limit: usize) -> (found: Option<usize>)
        requires
            limit <= self@.len(),
        ensures
            match found {
                Some(j) => j < limit && resolve(self@.take(limit as int), name@) == Some(j as int),
                None => resolve(self@.take(limit as int), name@) is None,
            },
    {
        let wanted = String::from_str(name);
        let ghost visible = self@.take(limit as int);
        let mut j: usize = 0;
        while j < limit
            invariant
                j <= limit <= self.entries.len(),
                wanted@ == name@,
                visible == self@.take(limit as int),
                forall|k: int| 0 <= k < j ==> visible[k].name != name@,
            decreases limit - j,
        {
            assert(visible[j as int] == self.entries[j as int]@);
            if self.entries[j].name == wanted {
                proof {
                    lemma_resolve(visible, name@);
                    match resolve(visible, name@) {
                        Some(first) => {
                            if first < j {
                                assert(visible[first].name != name@);
                            }
                            if j < first {
                                assert(visible[j as int].name != name@);
                            }
                        },
                        None => {
                            assert(visible[j as int].name != name@);
                        },
                    }
                }
                return Some(j);
            }
            j += 1;
        }
        proof {
            lemma_resolve(visible, name@);
        }
        None
    }

    /// Makes one null probe for the entry `i`.
    fn probe_at<R: Columns>(&self, i: usize, probe: &Probe, row: &R, prefix: &str) -> (r: Result<
        bool,
        MappingError,
    >)
        requires
            i < self@.len(),
        ensures
            flag_view(r) == probe_at(self@, i as int, probe@, row.columns(), prefix@),
        decreases i, 0int, 0int,
    {
        match probe {
            Probe::Column { name } => {
                let full = joined(prefix, name.as_str());
                match row.value_of(full.as_str()) {
                    None => Err(MappingError::MissingColumn { name: full }),
                    Some(value) => Ok(value.is_null()),
                }
            },
            Probe::Nested { ty, prefix: child } => match self.find_before(ty.as_str(), i) {
                Some(j) => {
                    let under = child.under(prefix);
                    self.absent_at(j, row, under.as_str())
                },
                None => Err(MappingError::Unregistered { ty: ty.clone() }),
            },
        }
    }

    /// Probes `row` for the entry `i`.
    fn absent_at<R: Columns>(&self, i: usize, row: &R, prefix: &str) -> (r: Result<
        bool,
        MappingError,
    >)
        requires
            i < self@.len(),
        ensures
            flag_view(r) == absent_at(self@, i as int, row.columns(), prefix@),
        decreases i, 2int, 0int,
    {
        assert(self@[i as int] == self.entries[i as int]@);
        match &self.entries[i].kind {
            TypeKind::Struct(mapping) => {
                let ghost probes = mapping@.probes;
                let mut k: usize = 0;
                assert(probes.take(0) =~= Seq::empty());
                while k < mapping.probes.len()
                    invariant
                        i < self@.len(),
                        k <= mapping.probes.len(),
                        probes == mapping@.probes,
                        probes.len() == mapping.probes.len(),
                        self@[i as int].kind == TypeKindView::Struct(mapping@),
                        all_null(
                            self@,
                            i as int,
                            probes.take(k as int),
                            row.columns(),
                            prefix@,
                        ) == Ok::<bool, MappingErrorView>(true),
                    decreases mapping.probes.len() - k,
                {
                    let outcome = self.probe_at(i, &mapping.probes[k], row, prefix);
                    proof {
                        let next = probes.take(k + 1);
                        assert(next.drop_last() =~= probes.take(k as int));
                        assert(next.last() == mapping.probes[k as int]@);
                        assert(all_null(self@, i as int, next, row.columns(), prefix@) == flag_view(
                            outcome,
                        ));
                        if flag_view(outcome) != Ok::<bool, MappingErrorView>(true) {
                            lemma_all_null_decided(
                                self@,
                                i as int,
                                probes,
                                row.columns(),
                                prefix@,
                                k + 1,
                            );
                        }
                    }
                    match outcome {
                        Ok(true) => {},
                        other => {
                            return other;
                        },
                    }
                    k += 1;
                }
                assert(probes.take(k as int) =~= probes);
                Ok(true)
            },
            TypeKind::Optional { inner } => match self.find_before(inner.as_str(), i) {
                Some(j) => self.absent_at(j, row, prefix),
                None => Err(MappingError::Unregistered { ty: inner.clone() }),
            },
            TypeKind::Scalar { .. } => Err(
                MappingError::Unregistered { ty: self.entries[i].name.clone() },
            ),
        }
    }

    /// Decodes a column value as the type `target`, looked up among the
    /// oldest `limit` entries.
    fn column_result(
        &self,
        limit: usize,
        target: &Option<String>,
        name: String,
        value: &SqlValue,
    ) -> (r: Result<Value, MappingError>)
        requires
            limit <= self@.len(),
        ensures
            result_view(r) == column_result(
                self@.take(limit as int),
                text_view(*target),
                name@,
                value@,
            ),
    {
        match target {
            None => Ok(Value::Column(value.duplicate())),
            Some(ty) => match self.find_before(ty.as_str(), limit) {
                Some(j) => {
                    assert(self@.take(limit as int)[j as int] == self.entries[j as int]@);
                    match &self.entries[j].kind {
                        TypeKind::Scalar { storage, nullable } => {
                            if value.is_null() {
                                if *nullable {
                                    Ok(Value::Column(value.duplicate()))
                                } else {
                                    Err(MappingError::NullOnNonNullable { name })
                                }
                            } else if value.storage() == *storage {
                                Ok(Value::Column(value.duplicate()))
                            } else {
                                Err(
                                    MappingError::TypeMismatch {
                                        name,
                                        expected: *storage,
                                        found: value.storage(),
                                    },
                                )
                            }
                        },
                        _ => Err(MappingError::Unregistered { ty: ty.clone() }),
                    }
                },
                None => Err(MappingError::Unregistered { ty: ty.clone() }),
            },
        }
    }

    /// Decodes the column `name` of `row`.
    fn column_value<R: Columns>(
        &self,
        limit: usize,
        name: String,
        target: &Option<String>,
        default: bool,
        row: &R,
    ) -> (r: Result<Value, MappingError>)
        requires
            limit <= self@.len(),
        ensures
            result_view(r) == column_value(
                self@.take(limit as int),
                name@,
                text_view(*target),
                default,
                row.columns(),
            ),
    {
        match row.value_of(name.as_str()) {
            None => Err(MappingError::MissingColumn { name }),
            Some(value) => {
                if default && value.is_null() {
                    let ty = match target {
                        Some(ty) => ty.clone(),
                        None => String::from_str("_"),
                    };
                    Ok(Value::Default { ty })
                } else {
                    self.column_result(limit, target, name, &value)
                }
            },
        }
    }

    /// Makes one extraction for the entry `i`.
    fn extract_at<R: Columns, F: Fn(&Convert, &str, Value) -> Result<Value, String>>(
        &self,
        i: usize,
        extract: &Extract,
        row: &R,
        prefix: &str,
        convert: Option<&F>,
    ) -> (r: Result<Value, MappingError>)
        requires
            i < self@.len(),
            convert matches Some(f) ==> converts(f),
        ensures
            result_view(r) == extract_at(
                self@,
                i as int,
                extract@,
                row.columns(),
                prefix@,
                conversions_of(convert),
            ),
        decreases i, 0int, 0int,
    {
        match extract {
            Extract::Default { ty } => Ok(Value::Default { ty: ty.clone() }),
            Extract::Nested { ty, prefix: child, default } => match self.find_before(
                ty.as_str(),
                i,
            ) {
                Some(j) => {
                    let under = child.under(prefix);
                    if *default {
                        match self.absent_at(j, row, under.as_str()) {
                            Err(e) => Err(e),
                            Ok(true) => Ok(Value::Default { ty: ty.clone() }),
                            Ok(false) => self.decode_at(j, row, under.as_str(), convert),
                        }
                    } else {
                        self.decode_at(j, row, under.as_str(), convert)
                    }
                },
                None => Err(MappingError::Unregistered { ty: ty.clone() }),
            },
            Extract::Column { name, ty, target, default, convert: conversion } => {
                let full = joined(prefix, name.as_str());
                match self.column_value(i, full.clone(), target, *default, row) {
                    Err(e) => Err(e),
                    Ok(value) => match conversion {
                        Some(c) => match convert {
                            Some(f) => {
                                let ghost given = value;
                                let declared = ty.as_str();
                                let out = f(c, declared, value);
                                proof {
                                    lemma_conversion_of(f, c, declared, given, out);
                                }
                                match out {
                                    Ok(result) => Ok(result),
                                    Err(cause) => Err(
                                        MappingError::ConversionFailed { name: full, cause },
                                    ),
                                }
                            },
                            None => Ok(
                                Value::Converted {
                                    convert: c.duplicate(),
                                    ty: ty.clone(),
                                    value: Box::new(value),
                                },
                            ),
                        },
                        None => Ok(value),
                    },
                }
            },
        }
    }

    /// Decodes `row` for the entry `i`.
    fn decode_at<R: Columns, F: Fn(&Convert, &str, Value) -> Result<Value, String>>(
        &self,
        i: usize,
        row: &R,
        prefix: &str,
        convert: Option<&F>,
    ) -> (r: Result<Value, MappingError>)
        requires
            i < self@.len(),
            convert matches Some(f) ==> converts(f),
        ensures
            result_view(r) == decode_at(
                self@,
                i as int,
                row.columns(),
                prefix@,
                conversions_of(convert),
            ),
        decreases i, 2int, 0int,
    {
        assert(self@[i as int] == self.entries[i as int]@);
        let ghost conversions = conversions_of(convert);
        match &self.entries[i].kind {
            TypeKind::Struct(mapping) => {
                let ghost fields = mapping@.fields;
                let mut values: Vec<(String, Value)> = Vec::new();
                let mut k: usize = 0;
                assert(fields.take(0) =~= Seq::empty());
                assert(field_value_views(values@) =~= Seq::empty());
                while k < mapping.fields.len()
                    invariant
                        i < self@.len(),
                        k <= mapping.fields.len(),
                        fields == mapping@.fields,
                        fields.len() == mapping.fields.len(),
                        self@[i as int].kind == TypeKindView::Struct(mapping@),
                        convert matches Some(f) ==> converts(f),
                        conversions == conversions_of(convert),
                        decode_fields(
                            self@,
                            i as int,
                            fields.take(k as int),
                            row.columns(),
                            prefix@,
                            conversions,
                        ) == Ok::<Seq<(Seq<char>, ValueView)>, MappingErrorView>(
                            field_value_views(values@),
                        ),
                    decreases mapping.fields.len() - k,
                {
                    let outcome = self.extract_at(
                        i,
                        &mapping.fields[k].extract,
                        row,
                        prefix,
                        convert,
                    );
                    proof {
                        let next = fields.take(k + 1);
                        assert(next.drop_last() =~= fields.take(k as int));
                        assert(next.last() == mapping.fields[k as int]@);
                    }
                    match outcome {
                        Err(e) => {
                            proof {
                                lemma_decode_fields_failed(
                                    self@,
                                    i as int,
                                    fields,
                                    row.columns(),
                                    prefix@,
                                    conversions,
                                    k + 1,
                                );
                            }
                            return Err(e);
                        },
                        Ok(value) => {
                            let ghost before = field_value_views(values@);
                            let ident = mapping.fields[k].ident.clone();
                            values.push((ident, value));
                            assert(field_value_views(values@) =~= before.push((ident@, value@)));
                        },
                    }
                    k += 1;
                }
                assert(fields.take(k as int) =~= fields);
                let ty = mapping.ident.clone();
                proof {
                    record_view(ty, values);
                }
                Ok(Value::Record { ty, fields: values })
            },
            TypeKind::Optional { inner } => match self.find_before(inner.as_str(), i) {
                Some(j) => match self.absent_at(j, row, prefix) {
                    Err(e) => Err(e),
                    Ok(true) => Ok(Value::Absent),
                    Ok(false) => match self.decode_at(j, row, prefix, convert) {
                        Err(e) => Err(e),
                        Ok(value) => Ok(Value::Present(Box::new(value))),
                    },
                },
                None => Err(MappingError::Unregistered { ty: inner.clone() }),
            },
            TypeKind::Scalar { .. } => Err(
                MappingError::Unregistered { ty: self.entries[i].name.clone() },
            ),
        }
    }

    /// Whether `ty` is registered as a column type.
    pub fn has_scalar(&self, ty: &str) -> (b: bool)
        ensures
            b == has_scalar(self@, ty@),
    {
        match self.find(ty) {
            Some(j) => {
                assert(self@[j as int] == self.entries[j as int]@);
                match &self.entries[j].kind {
                    TypeKind::Scalar { .. } => true,
                    _ => false,
                }
            },
            None => false,
        }
    }

    /// Whether `ty` is registered with a mapping.
    pub fn has_mapping(&self, ty: &str) -> (b: bool)
        ensures
            b == has_mapping(self@, ty@),
    {
        match self.find(ty) {
            Some(j) => {
                assert(self@[j as int] == self.entries[j as int]@);
                match &self.entries[j].kind {
                    TypeKind::Scalar { .. } => false,
                    _ => true,
                }
            },
            None => false,
        }
    }

    /// The first type that `mapping` needs and that is not registered.
    pub fn unmet(&self, mapping: &Mapping) -> (missing: Option<String>)
        ensures
            text_view(missing) == unmet(self@, mapping@),
    {
        let ghost predicates = mapping@.predicates;
        let mut k: usize = 0;
        assert(predicates.take(0) =~= Seq::empty());
        while k < mapping.predicates.len()
            invariant
                k <= mapping.predicates.len(),
                predicates == mapping@.predicates,
                predicates.len() == mapping.predicates.len(),
                unmet_predicates(self@, predicates.take(k as int)) is None,
            decreases mapping.predicates.len() - k,
        {
            proof {
                let next = predicates.take(k + 1);
                assert(next.drop_last() =~= predicates.take(k as int));
                assert(next.last() == mapping.predicates[k as int]@);
            }
            let missing = match &mapping.predicates[k] {
                Predicate::FromSql { ty } => if self.has_scalar(ty.as_str()) {
                    None
                } else {
                    Some(ty.clone())
                },
                Predicate::FromRow { ty } => if self.has_mapping(ty.as_str()) {
                    None
                } else {
                    Some(ty.clone())
                },
                _ => None,
            };
            if missing.is_some() {
                proof {
                    lemma_unmet_predicates_found(self@, predicates, k + 1);
                }
                return missing;
            }
            k += 1;
        }
        assert(predicates.take(k as int) =~= predicates);
        let ghost fields = mapping@.fields;
        let mut k: usize = 0;
        assert(fields.take(0) =~= Seq::empty());
        while k < mapping.fields.len()
            invariant
                k <= mapping.fields.len(),
                fields == mapping@.fields,
                fields.len() == mapping.fields.len(),
                unmet_predicates(self@, mapping@.predicates) is None,
                unmet_fields(self@, fields.take(k as int)) is None,
            decreases mapping.fields.len() - k,
        {
            proof {
                let next = fields.take(k + 1);
                assert(next.drop_last() =~= fields.take(k as int));
                assert(next.last() == mapping.fields[k as int]@);
            }
            let missing = match &mapping.fields[k].extract {
                Extract::Nested { ty, .. } => if self.has_mapping(ty.as_str()) {
                    None
                } else {
                    Some(ty.clone())
                },
                Extract::Column { target: Some(ty), .. } => if self.has_scalar(ty.as_str()) {
                    None
                } else {
                    Some(ty.clone())
                },
                _ => None,
            };
            if missing.is_some() {
                proof {
                    lemma_unmet_fields_found(self@, fields, k + 1);
                }
                return missing;
            }
            k += 1;
        }
        assert(fields.take(k as int) =~= fields);
        let ghost probes = mapping@.probes;
        let mut k: usize = 0;
        assert(probes.take(0) =~= Seq::empty());
        while k < mapping.probes.len()
            invariant
                k <= mapping.probes.len(),
                probes == mapping@.probes,
                probes.len() == mapping.probes.len(),
                unmet_predicates(self@, mapping@.predicates) is None,
                unmet_fields(self@, mapping@.fields) is None,
                unmet_probes(self@, probes.take(k as int)) is None,
            decreases mapping.probes.len() - k,
        {
            proof {
                let next = probes.take(k + 1);
                assert(next.drop_last() =~= probes.take(k as int));
                assert(next.last() == mapping.probes[k as int]@);
            }
            let missing = match &mapping.probes[k] {
                Probe::Nested { ty, .. } => if self.has_mapping(ty.as_str()) {
                    None
                } else {
                    Some(ty.clone())
                },
                Probe::Column { .. } => None,
            };
            if missing.is_some() {
                proof {
                    lemma_unmet_probes_found(self@, probes, k + 1);
                }
                return missing;
            }
            k += 1;
        }
        assert(probes.take(k as int) =~= probes);
        None
    }

    /// Registers `name` as a column type that takes values of the storage
    /// class `storage`, and null as well if `nullable`.
    ///
    /// A column type is no more than this declaration of the host's: the
    /// schema knows no type of the host's language. A value of the declared
    /// class is taken as it stands, an integer of any size for a type
    /// declared as integer; whether it fits the host's type is for the host to
    /// test, in a conversion (see [`Schema::decode_with`]). Names are compared
    /// as texts: register a type under the text that the mapping holds for it.
    pub fn scalar(&mut self, name: &str, storage: Storage, nullable: bool)
        ensures
            final(self)@ == old(self)@.push(
                TypeEntryView { name: name@, kind: TypeKindView::Scalar { storage, nullable } },
            ),
            well_formed(old(self)@) ==> well_formed(final(self)@),
    {
        let entry = TypeEntry {
            name: String::from_str(name),
            kind: TypeKind::Scalar { storage, nullable },
        };
        self.entries.push(entry);
        proof {
            assert(self@ =~= old(self)@.push(entry@));
            if well_formed(old(self)@) {
                law_well_formed_grows(old(self)@, entry@);
            }
        }
    }

    /// Registers `name` as the optional form of `inner`, which must be
    /// registered with a mapping; where it is not, nothing changes.
    pub fn optional(&mut self, name: &str, inner: &str) -> (r: Result<(), MappingError>)
        ensures
            match r {
                Ok(()) => has_mapping(old(self)@, inner@) && final(self)@ == old(self)@.push(
                    TypeEntryView { name: name@, kind: TypeKindView::Optional { inner: inner@ } },
                ),
                Err(e) => !has_mapping(old(self)@, inner@) && final(self)@ == old(self)@ && e@
                    == (MappingErrorView::Unregistered { ty: inner@ }),
            },
            well_formed(old(self)@) ==> well_formed(final(self)@),
    {
        if !self.has_mapping(inner) {
            return Err(MappingError::Unregistered { ty: String::from_str(inner) });
        }
        let entry = TypeEntry {
            name: String::from_str(name),
            kind: TypeKind::Optional { inner: String::from_str(inner) },
        };
        self.entries.push(entry);
        proof {
            assert(self@ =~= old(self)@.push(entry@));
            if well_formed(old(self)@) {
                law_well_formed_grows(old(self)@, entry@);
            }
        }
        Ok(())
    }

    /// Registers a struct with its mapping, under the struct's name.
    ///
    /// Every type that the mapping needs must be registered already: a
    /// nested type with a mapping, the target of a column as a column type.
    /// The first that is missing is reported, and nothing changes.
    pub fn register(&mut self, mapping: Mapping) -> (r: Result<(), MappingError>)
        ensures
            match r {
                Ok(()) => unmet(old(self)@, mapping@) is None && final(self)@ == old(self)@.push(
                    TypeEntryView { name: mapping@.ident, kind: TypeKindView::Struct(mapping@) },
                ),
                Err(e) => final(self)@ == old(self)@ && unmet(old(self)@, mapping@) == Some(
                    e@->Unregistered_ty,
                ) && e@ is Unregistered,
            },
            well_formed(old(self)@) ==> well_formed(final(self)@),
    {
        match self.unmet(&mapping) {
            Some(ty) => Err(MappingError::Unregistered { ty }),
            None => {
                let entry = TypeEntry {
                    name: mapping.ident.clone(),
                    kind: TypeKind::Struct(mapping),
                };
                self.entries.push(entry);
                proof {
                    assert(self@ =~= old(self)@.push(entry@));
                    if well_formed(old(self)@) {
                        law_well_formed_grows(old(self)@, entry@);
                    }
                }
                Ok(())
            },
        }
    }

    /// Decodes `row` as the type named `ty`, its columns addressed behind
    /// `prefix` (none: no prefix), and has `convert` make every conversion
    /// that a field asks for: it is called with the conversion, the declared
    /// type of the field and the decoded value, field by field in declaration
    /// order, and a failure of it fails the decoding at that field.
    pub fn decode_with<R: Columns, F: Fn(&Convert, &str, Value) -> Result<Value, String>>(
        &self,
        ty: &str,
        row: &R,
        prefix: Option<&str>,
        convert: &F,
    ) -> (r: Result<Value, MappingError>)
        requires
            converts(convert),
        ensures
            result_view(r) == decoded(
                self@,
                ty@,
                row.columns(),
                prefix_text(prefix),
                Some(conversion_of(convert)),
            ),
            well_formed(self@) && has_mapping(self@, ty@) ==> !is_unregistered(result_view(r)),
    {
        proof {
            if well_formed(self@) && has_mapping(self@, ty@) {
                law_registration_fails_fast(
                    self@,
                    ty@,
                    row.columns(),
                    prefix_text(prefix),
                    Some(conversion_of(convert)),
                );
            }
        }
        let prefix = match prefix {
            Some(p) => p,
            None => "",
        };
        proof {
            reveal_strlit("");
            assert(""@ =~= Seq::<char>::empty());
        }
        match self.find(ty) {
            Some(i) => self.decode_at(i, row, prefix, Some(convert)),
            None => Err(MappingError::Unregistered { ty: String::from_str(ty) }),
        }
    }

    /// Decodes `row` as the type named `ty`, its columns addressed behind
    /// `prefix` (none: no prefix). Conversions are left to the caller: the
    /// value of a field that asks for one is marked as still to be converted.
    pub fn decode<R: Columns>(&self, ty: &str, row: &R, prefix: Option<&str>) -> (r: Result<
        Value,
        MappingError,
    >)
        ensures
            result_view(r) == decoded(self@, ty@, row.columns(), prefix_text(prefix), None),
            well_formed(self@) && has_mapping(self@, ty@) ==> !is_unregistered(result_view(r)),
    {
        proof {
            if well_formed(self@) && has_mapping(self@, ty@) {
                law_registration_fails_fast(
                    self@,
                    ty@,
                    row.columns(),
                    prefix_text(prefix),
                    None,
                );
            }
        }
        let prefix = match prefix {
            Some(p) => p,
            None => "",
        };
        proof {
            reveal_strlit("");
            assert(""@ =~= Seq::<char>::empty());
        }
        match self.find(ty) {
            Some(i) => self.decode_at(i, row, prefix, no_conversions(&unconverted)),
            None => Err(MappingError::Unregistered { ty: String::from_str(ty) }),
        }
    }

    /// Tells whether the type named `ty` is absent from `row`: whether every
    /// column behind it, addressed behind `prefix` (none: no prefix), is null.
    pub fn is_absent<R: Columns>(&self, ty: &str, row: &R, prefix: Option<&str>) -> (r: Result<
        bool,
        MappingError,
    >)
        ensures
            flag_view(r) == absent(self@, ty@, row.columns(), prefix_text(prefix)),
            well_formed(self@) && has_mapping(self@, ty@) ==> !is_unregistered(flag_view(r)),
    {
        proof {
            if well_formed(self@) && has_mapping(self@, ty@) {
                law_registration_fails_fast(
                    self@,
                    ty@,
                    row.columns(),
                    prefix_text(prefix),
                    None,
                );
            }
        }
        let prefix = match prefix {
            Some(p) => p,
            None => "",
        };
        proof {
            reveal_strlit("");
            assert(""@ =~= Seq::<char>::empty());
        }
        match self.find(ty) {
            Some(i) => self.absent_at(i, row, prefix),
            None => Err(MappingError::Unregistered { ty: String::from_str(ty) }),
        }
    }

    /// Decodes `row` as the type named `ty`, without a prefix.
    pub fn try_from_row<R: Columns>(&self, ty: &str, row: &R) -> (r: Result<Value, MappingError>)
        ensures
            result_view(r) == decoded(self@, ty@, row.columns(), Seq::empty(), None),
    {
        self.decode(ty, row, None)
    }

    /// Decodes a row that is known to decode, behind `prefix`.
    pub fn from_row_prefixed<R: Columns>(
        &self,
        ty: &str,
        row: &R,
        prefix: Option<&str>,
    ) -> (value: Value)
        requires
            decoded(self@, ty@, row.columns(), prefix_text(prefix), None) is Ok,
        ensures
            Ok::<ValueView, MappingErrorView>(value@) == decoded(
                self@,
                ty@,
                row.columns(),
                prefix_text(prefix),
                None,
            ),
    {
        match self.decode(ty, row, prefix) {
            Ok(value) => value,
            Err(_) => vstd::pervasive::unreached(),
        }
    }

    /// Decodes a row that is known to decode, without a prefix.
    pub fn from_row<R: Columns>(&self, ty: &str, row: &R) -> (value: Value)
        requires
            decoded(self@, ty@, row.columns(), Seq::empty(), None) is Ok,
        ensures
            Ok::<ValueView, MappingErrorView>(value@) == decoded(
                self@,
                ty@,
                row.columns(),
                Seq::empty(),
                None,
            ),
    {
        self.from_row_prefixed(ty, row, None)
    }
}

} // verus!
