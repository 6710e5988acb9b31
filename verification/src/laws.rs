//! What holds of decoding and probing, whatever the schema and the row.
use vstd::prelude::*;
use crate::decode::result_view;
use crate::derive::{all_inits, all_predicates, all_probes, DeriveFromRowView};
use crate::directive::{resolved, ConvertView, DirectivesView, FromRowAttrsView, PrefixView};
use crate::error::{MappingError, MappingErrorView};
use crate::field::FromRowFieldView;
use crate::plan::{ExtractView, FieldInitView, PredicateView, ProbeView};
use crate::row::{lookup, same_name, ColumnView, SqlValueView};
use crate::schema::{
    absent, absent_at, all_null, column_value, decode_at, decode_fields, decoded, extract_at,
    has_mapping, lemma_resolve, probe_at, resolve, unmet, unmet_extract, unmet_fields,
    unmet_predicate, unmet_predicates, unmet_probe, unmet_probes, well_formed, Conversion,
    TypeEntryView, TypeKindView, Types,
};
use crate::value::{Value, ValueView};

verus! {

/// The rules on the keys of one field: `skip` stands alone; `flatten` stands
/// without the keys of a column; `prefix` stands only beside `flatten`; at
/// most one conversion is given.
pub open spec fn obeys_rules(d: DirectivesView) -> bool {
    &&& d.skip ==> !d.flatten && !d.default && d.prefix is None && d.try_from is None && d.from
        is None && d.from_fn is None && d.rename is None
    &&& d.flatten ==> d.rename is None && d.from is None && d.try_from is None && d.from_fn
        is None
    &&& d.prefix is Some ==> d.flatten
    &&& !(d.try_from is Some && d.from is Some)
    &&& !(d.try_from is Some && d.from_fn is Some)
    &&& !(d.from is Some && d.from_fn is Some)
}

/// Keys resolve into a directive exactly where they obey the rules, and no
/// key is then dropped: the directive is `skip`, `flatten` or a plain column
/// as the keys say, and carries every modifier that was given.
pub proof fn law_directive_rules(d: DirectivesView)
    ensures
        resolved(d) is Ok <==> obeys_rules(d),
        resolved(d) matches Ok(attrs) ==> match attrs {
            FromRowAttrsView::Skip => d.skip,
            FromRowAttrsView::Flatten { prefix, default } => !d.skip && d.flatten && prefix
                == d.prefix && default == d.default,
            FromRowAttrsView::Field { rename, convert, default } => !d.skip && !d.flatten && rename
                == d.rename && default == d.default && convert == (if d.try_from is Some {
                Some(ConvertView::TryFrom(d.try_from->Some_0))
            } else if d.from is Some {
                Some(ConvertView::From(d.from->Some_0))
            } else if d.from_fn is Some {
                Some(ConvertView::FromFn(d.from_fn->Some_0))
            } else {
                None
            }),
        },
{
}

/// Fields decode in declaration order. Where all decode, each value stands
/// under its field's name at its field's place; where one fails, the failure
/// is that of the first field that fails.
pub proof fn law_fields_in_order(
    types: Types,
    i: int,
    fields: Seq<FieldInitView>,
    row: Seq<ColumnView>,
    prefix: Seq<char>,
    conversions: Option<Conversion>,
)
    ensures
        match decode_fields(types, i, fields, row, prefix, conversions) {
            Ok(values) => values.len() == fields.len() && forall|k: int|
                0 <= k < fields.len() ==> #[trigger] values[k].0 == fields[k].ident && extract_at(
                    types,
                    i,
                    fields[k].extract,
                    row,
                    prefix,
                    conversions,
                ) == Ok::<ValueView, MappingErrorView>(values[k].1),
            Err(e) => exists|k: int|
                0 <= k < fields.len() && #[trigger] extract_at(
                    types,
                    i,
                    fields[k].extract,
                    row,
                    prefix,
                    conversions,
                ) == Err::<ValueView, MappingErrorView>(e) && forall|q: int|
                    0 <= q < k ==> (#[trigger] extract_at(
                        types,
                        i,
                        fields[q].extract,
                        row,
                        prefix,
                        conversions,
                    )) is Ok,
        },
    decreases fields.len(),
{
    if fields.len() > 0 {
        let front = fields.drop_last();
        let last = fields.len() - 1;
        law_fields_in_order(types, i, front, row, prefix, conversions);
        assert forall|k: int| 0 <= k < front.len() implies front[k] == fields[k] by {}
        match decode_fields(types, i, front, row, prefix, conversions) {
            Err(e) => {
                let k = choose|k: int|
                    0 <= k < front.len() && #[trigger] extract_at(
                        types,
                        i,
                        front[k].extract,
                        row,
                        prefix,
                        conversions,
                    ) == Err::<ValueView, MappingErrorView>(e) && forall|q: int|
                        0 <= q < k ==> (#[trigger] extract_at(
                            types,
                            i,
                            front[q].extract,
                            row,
                            prefix,
                            conversions,
                        )) is Ok;
                assert(front[k] == fields[k]);
                assert forall|q: int| 0 <= q < k implies (#[trigger] extract_at(
                    types,
                    i,
                    fields[q].extract,
                    row,
                    prefix,
                    conversions,
                )) is Ok by {
                    assert(front[q] == fields[q]);
                }
            },
            Ok(values) => {
                match extract_at(types, i, fields.last().extract, row, prefix, conversions) {
                    Err(e) => {
                        assert(extract_at(
                            types,
                            i,
                            fields[last].extract,
                            row,
                            prefix,
                            conversions,
                        ) == Err::<ValueView, MappingErrorView>(e));
                        assert forall|q: int| 0 <= q < last implies (#[trigger] extract_at(
                            types,
                            i,
                            fields[q].extract,
                            row,
                            prefix,
                            conversions,
                        )) is Ok by {
                            assert(front[q] == fields[q]);
                            assert(values[q].0 == front[q].ident);
                        }
                    },
                    Ok(value) => {
                        let all = values.push((fields.last().ident, value));
                        assert forall|k: int| 0 <= k < fields.len() implies #[trigger] all[k].0
                            == fields[k].ident && extract_at(
                            types,
                            i,
                            fields[k].extract,
                            row,
                            prefix,
                            conversions,
                        ) == Ok::<ValueView, MappingErrorView>(all[k].1) by {
                            if k < last {
                                assert(front[k] == fields[k]);
                                assert(values[k].0 == front[k].ident);
                            }
                        }
                    },
                }
            },
        }
    }
}

/// Whether every extraction reads one column, without a default and
/// without a conversion.
pub open spec fn plain_only(fields: Seq<FieldInitView>) -> bool {
    forall|k: int|
        0 <= k < fields.len() ==> (#[trigger] fields[k]).extract is Column
            && !fields[k].extract->Column_default && fields[k].extract->Column_convert is None
}

/// What the row accessor gives for the column behind a plain field: the
/// column must be there and its value must decode as the field's target.
pub open spec fn accessed(types: Types, field: FieldInitView, row: Seq<ColumnView>, prefix: Seq<
    char,
>) -> Result<ValueView, MappingErrorView> {
    column_value(
        types,
        prefix + field.extract->Column_name,
        field.extract->Column_target,
        false,
        row,
    )
}

/// A struct with only plain fields, without defaults and conversions,
/// decodes exactly where every column is there and decodes, and the record
/// then holds, field by field, exactly what the row accessor gave.
pub proof fn law_plain_struct(
    types: Types,
    i: int,
    row: Seq<ColumnView>,
    prefix: Seq<char>,
    conversions: Option<Conversion>,
)
    requires
        0 <= i < types.len(),
        types[i].kind is Struct,
        plain_only(types[i].kind->Struct_0.fields),
    ensures
        ({
            let mapping = types[i].kind->Struct_0;
            let fields = mapping.fields;
            &&& decode_at(types, i, row, prefix, conversions) is Ok <==> forall|k: int|
                0 <= k < fields.len() ==> (#[trigger] accessed(
                    types.take(i),
                    fields[k],
                    row,
                    prefix,
                )) is Ok
            &&& decode_at(types, i, row, prefix, conversions) matches Ok(value) ==> {
                &&& value is Record
                &&& value->Record_ty == mapping.ident
                &&& value->Record_fields.len() == fields.len()
                &&& forall|k: int|
                    0 <= k < fields.len() ==> (#[trigger] value->Record_fields[k]) == (
                        fields[k].ident,
                        accessed(types.take(i), fields[k], row, prefix)->Ok_0,
                    )
            }
        }),
{
    let mapping = types[i].kind->Struct_0;
    let fields = mapping.fields;
    law_fields_in_order(types, i, fields, row, prefix, conversions);
    assert forall|k: int| 0 <= k < fields.len() implies (#[trigger] extract_at(
        types,
        i,
        fields[k].extract,
        row,
        prefix,
        conversions,
    )) == accessed(types.take(i), fields[k], row, prefix) by {
        assert(fields[k].extract is Column);
    }
    match decode_fields(types, i, fields, row, prefix, conversions) {
        Ok(values) => {
            assert forall|k: int| 0 <= k < fields.len() implies (#[trigger] accessed(
                types.take(i),
                fields[k],
                row,
                prefix,
            )) is Ok by {
                assert(values[k].0 == fields[k].ident);
                assert(extract_at(types, i, fields[k].extract, row, prefix, conversions) is Ok);
            }
            assert forall|k: int| 0 <= k < fields.len() implies (#[trigger] values[k]) == (
                fields[k].ident,
                accessed(types.take(i), fields[k], row, prefix)->Ok_0,
            ) by {
                assert(values[k].0 == fields[k].ident);
                assert(extract_at(types, i, fields[k].extract, row, prefix, conversions) is Ok);
            }
        },
        Err(e) => {
            let k = choose|k: int|
                0 <= k < fields.len() && #[trigger] extract_at(
                    types,
                    i,
                    fields[k].extract,
                    row,
                    prefix,
                    conversions,
                ) == Err::<ValueView, MappingErrorView>(e);
            assert(accessed(types.take(i), fields[k], row, prefix) is Err);
        },
    }
}

/// A skipped field is its type's default value whatever the row and the
/// prefix are: the row is not read.
pub proof fn law_skip_ignores_row(
    types: Types,
    i: int,
    ty: Seq<char>,
    row: Seq<ColumnView>,
    prefix: Seq<char>,
    conversions: Option<Conversion>,
)
    ensures
        extract_at(types, i, ExtractView::Default { ty }, row, prefix, conversions) == Ok::<
            ValueView,
            MappingErrorView,
        >(ValueView::Default { ty }),
{
}

/// Two rows on which every field that is not skipped comes out the same,
/// decode the same: what a row holds for a skipped field, or whether it
/// holds a column for it at all, changes nothing.
pub proof fn law_skipped_columns_do_not_matter(
    types: Types,
    i: int,
    row: Seq<ColumnView>,
    other: Seq<ColumnView>,
    prefix: Seq<char>,
    conversions: Option<Conversion>,
)
    requires
        0 <= i < types.len(),
        types[i].kind is Struct,
        forall|k: int|
            0 <= k < types[i].kind->Struct_0.fields.len() && !((
            #[trigger] types[i].kind->Struct_0.fields[k]).extract is Default) ==> extract_at(
                types,
                i,
                types[i].kind->Struct_0.fields[k].extract,
                row,
                prefix,
                conversions,
            ) == extract_at(
                types,
                i,
                types[i].kind->Struct_0.fields[k].extract,
                other,
                prefix,
                conversions,
            ),
    ensures
        decode_at(types, i, row, prefix, conversions) == decode_at(
            types,
            i,
            other,
            prefix,
            conversions,
        ),
{
    let fields = types[i].kind->Struct_0.fields;
    lemma_same_extractions(types, i, fields, fields.len() as int, row, other, prefix, conversions);
    assert(fields.take(fields.len() as int) =~= fields);
}

/// Rows that agree on the first `n` extractions agree on the first `n` fields.
proof fn lemma_same_extractions(
    types: Types,
    i: int,
    fields: Seq<FieldInitView>,
    n: int,
    row: Seq<ColumnView>,
    other: Seq<ColumnView>,
    prefix: Seq<char>,
    conversions: Option<Conversion>,
)
    requires
        0 <= n <= fields.len(),
        forall|k: int|
            0 <= k < fields.len() && !((#[trigger] fields[k]).extract is Default) ==> extract_at(
                types,
                i,
                fields[k].extract,
                row,
                prefix,
                conversions,
            ) == extract_at(types, i, fields[k].extract, other, prefix, conversions),
    ensures
        decode_fields(types, i, fields.take(n), row, prefix, conversions) == decode_fields(
            types,
            i,
            fields.take(n),
            other,
            prefix,
            conversions,
        ),
    decreases n,
{
    if n > 0 {
        lemma_same_extractions(types, i, fields, n - 1, row, other, prefix, conversions);
        assert(fields.take(n).drop_last() =~= fields.take(n - 1));
        assert(fields.take(n).last() == fields[n - 1]);
    }
}

/// A flattened field with `default` whose nested type is absent from the row
/// is the declared type's default value, and no failure.
pub proof fn law_flatten_default_absent(
    types: Types,
    i: int,
    extract: ExtractView,
    row: Seq<ColumnView>,
    prefix: Seq<char>,
    conversions: Option<Conversion>,
)
    requires
        extract is Nested,
        extract->Nested_default,
        resolve(types.take(i), extract->Nested_ty) matches Some(j) && 0 <= j < i && absent_at(
            types,
            j,
            row,
            extract->Nested_prefix.under(prefix),
        ) == Ok::<bool, MappingErrorView>(true),
    ensures
        extract_at(types, i, extract, row, prefix, conversions) == Ok::<
            ValueView,
            MappingErrorView,
        >(ValueView::Default { ty: extract->Nested_ty }),
{
}

/// In a record, a flattened field with `default` whose nested type is absent
/// from the row holds the declared type's default value.
pub proof fn law_flatten_default_in_record(
    types: Types,
    i: int,
    k: int,
    row: Seq<ColumnView>,
    prefix: Seq<char>,
    conversions: Option<Conversion>,
)
    requires
        0 <= i < types.len(),
        types[i].kind is Struct,
        0 <= k < types[i].kind->Struct_0.fields.len(),
        types[i].kind->Struct_0.fields[k].extract is Nested,
        types[i].kind->Struct_0.fields[k].extract->Nested_default,
        resolve(types.take(i), types[i].kind->Struct_0.fields[k].extract->Nested_ty) matches Some(
            j,
        ) && 0 <= j < i && absent_at(
            types,
            j,
            row,
            types[i].kind->Struct_0.fields[k].extract->Nested_prefix.under(prefix),
        ) == Ok::<bool, MappingErrorView>(true),
    ensures
        decode_at(types, i, row, prefix, conversions) matches Ok(value) ==> value is Record
            && value->Record_fields.len() == types[i].kind->Struct_0.fields.len()
            && value->Record_fields[k] == (
            types[i].kind->Struct_0.fields[k].ident,
            ValueView::Default { ty: types[i].kind->Struct_0.fields[k].extract->Nested_ty },
        ),
{
    let fields = types[i].kind->Struct_0.fields;
    law_fields_in_order(types, i, fields, row, prefix, conversions);
    law_flatten_default_absent(types, i, fields[k].extract, row, prefix, conversions);
    if decode_fields(types, i, fields, row, prefix, conversions) is Ok {
        let values = decode_fields(types, i, fields, row, prefix, conversions)->Ok_0;
        assert(values[k].0 == fields[k].ident);
    }
}

/// Decoding is a function of the schema, the type, the row and the prefix:
/// two outcomes of it are equal.
pub proof fn law_decode_is_a_function(
    types: Types,
    ty: Seq<char>,
    row: Seq<ColumnView>,
    prefix: Seq<char>,
    first: Result<Value, MappingError>,
    second: Result<Value, MappingError>,
    conversions: Option<Conversion>,
)
    requires
        result_view(first) == decoded(types, ty, row, prefix, conversions),
        result_view(second) == decoded(types, ty, row, prefix, conversions),
    ensures
        result_view(first) == result_view(second),
{
}

/// The prefix that a flattened field hands down: the caller's own without
/// `prefix`; the caller's and the given text under `prefix = ".."`, whatever the
/// field is called; the caller's, the field's name and an underscore under a
/// bare `prefix`. The probe and the extraction of the field hand down the same.
pub proof fn law_prefix_composition(field: FromRowFieldView, parent: Seq<char>)
    requires
        field.attrs is Flatten,
    ensures
        field.init().extract is Nested,
        field.probe() is Some,
        field.probe()->Some_0 is Nested,
        field.probe()->Some_0->Nested_prefix == field.init().extract->Nested_prefix,
        field.init().extract->Nested_prefix.under(parent) == (match field.attrs->Flatten_prefix {
            None => parent,
            Some(PrefixView::Value(text)) => parent + text,
            Some(PrefixView::Field) => parent + (field.ident + "_"@),
        }),
{
}

/// The first field that fails decides: where the field `k` fails and every
/// field before it decodes, decoding the fields fails as the field `k` does.
pub proof fn law_first_failure_decides(
    types: Types,
    i: int,
    fields: Seq<FieldInitView>,
    k: int,
    row: Seq<ColumnView>,
    prefix: Seq<char>,
    conversions: Option<Conversion>,
)
    requires
        0 <= k < fields.len(),
        extract_at(types, i, fields[k].extract, row, prefix, conversions) is Err,
        forall|q: int|
            0 <= q < k ==> (#[trigger] extract_at(
                types,
                i,
                fields[q].extract,
                row,
                prefix,
                conversions,
            )) is Ok,
    ensures
        decode_fields(types, i, fields, row, prefix, conversions) == Err::<
            Seq<(Seq<char>, ValueView)>,
            MappingErrorView,
        >(extract_at(types, i, fields[k].extract, row, prefix, conversions)->Err_0),
{
    law_fields_in_order(types, i, fields, row, prefix, conversions);
    match decode_fields(types, i, fields, row, prefix, conversions) {
        Ok(values) => {
            assert(values[k].0 == fields[k].ident);
        },
        Err(e) => {
            let w = choose|w: int|
                0 <= w < fields.len() && #[trigger] extract_at(
                    types,
                    i,
                    fields[w].extract,
                    row,
                    prefix,
                    conversions,
                ) == Err::<ValueView, MappingErrorView>(e) && forall|q: int|
                    0 <= q < w ==> (#[trigger] extract_at(
                        types,
                        i,
                        fields[q].extract,
                        row,
                        prefix,
                        conversions,
                    )) is Ok;
            if w < k {
                assert(extract_at(types, i, fields[w].extract, row, prefix, conversions) is Ok);
            }
            if k < w {
                assert(extract_at(types, i, fields[k].extract, row, prefix, conversions) is Ok);
            }
        },
    }
}

/// A plain field without `default` whose target takes no null fails on a
/// null column, under the column's full name.
pub proof fn law_null_on_non_nullable(
    types: Types,
    i: int,
    extract: ExtractView,
    row: Seq<ColumnView>,
    prefix: Seq<char>,
    conversions: Option<Conversion>,
)
    requires
        extract is Column,
        !extract->Column_default,
        extract->Column_target is Some,
        resolve(types.take(i), extract->Column_target->Some_0) matches Some(s) && types.take(
            i,
        )[s].kind is Scalar && !types.take(i)[s].kind->Scalar_nullable,
        lookup(row, prefix + extract->Column_name) == Some(SqlValueView::Null),
    ensures
        extract_at(types, i, extract, row, prefix, conversions) == Err::<
            ValueView,
            MappingErrorView,
        >(MappingErrorView::NullOnNonNullable { name: prefix + extract->Column_name }),
{
}

/// A flattened field without `default` never falls back to a default value:
/// where the nested struct reaches a null column that its type does not
/// take, decoding fails with that column's name.
///
/// The field `k` of the struct `i` is flattened without `default` into the
/// struct `j`; the fields before `k` decode; in `j`, the fields before `q`
/// decode under the child prefix, and the field `q` is a plain column
/// without `default`, of a target that takes no null, on a null column.
pub proof fn law_flatten_without_default(
    types: Types,
    i: int,
    k: int,
    j: int,
    q: int,
    row: Seq<ColumnView>,
    prefix: Seq<char>,
    conversions: Option<Conversion>,
)
    requires
        0 <= i < types.len(),
        types[i].kind is Struct,
        0 <= k < types[i].kind->Struct_0.fields.len(),
        types[i].kind->Struct_0.fields[k].extract is Nested,
        !types[i].kind->Struct_0.fields[k].extract->Nested_default,
        forall|p: int|
            0 <= p < k ==> (#[trigger] extract_at(
                types,
                i,
                types[i].kind->Struct_0.fields[p].extract,
                row,
                prefix,
                conversions,
            )) is Ok,
        resolve(types.take(i), types[i].kind->Struct_0.fields[k].extract->Nested_ty) == Some(j),
        0 <= j < i,
        types[j].kind is Struct,
        0 <= q < types[j].kind->Struct_0.fields.len(),
        forall|p: int|
            0 <= p < q ==> (#[trigger] extract_at(
                types,
                j,
                types[j].kind->Struct_0.fields[p].extract,
                row,
                types[i].kind->Struct_0.fields[k].extract->Nested_prefix.under(prefix),
                conversions,
            )) is Ok,
        types[j].kind->Struct_0.fields[q].extract is Column,
        !types[j].kind->Struct_0.fields[q].extract->Column_default,
        types[j].kind->Struct_0.fields[q].extract->Column_target is Some,
        resolve(
            types.take(j),
            types[j].kind->Struct_0.fields[q].extract->Column_target->Some_0,
        ) matches Some(s) && types.take(j)[s].kind is Scalar && !types.take(
            j,
        )[s].kind->Scalar_nullable,
        lookup(
            row,
            types[i].kind->Struct_0.fields[k].extract->Nested_prefix.under(prefix)
                + types[j].kind->Struct_0.fields[q].extract->Column_name,
        ) == Some(SqlValueView::Null),
    ensures
        decode_at(types, i, row, prefix, conversions) == Err::<ValueView, MappingErrorView>(
            MappingErrorView::NullOnNonNullable {
                name: types[i].kind->Struct_0.fields[k].extract->Nested_prefix.under(prefix)
                    + types[j].kind->Struct_0.fields[q].extract->Column_name,
            },
        ),
{
    let outer = types[i].kind->Struct_0.fields;
    let inner = types[j].kind->Struct_0.fields;
    let child = outer[k].extract->Nested_prefix.under(prefix);
    law_null_on_non_nullable(types, j, inner[q].extract, row, child, conversions);
    law_first_failure_decides(types, j, inner, q, row, child, conversions);
    law_first_failure_decides(types, i, outer, k, row, prefix, conversions);
}

/// Probes are made in declaration order. "All null" is the outcome where
/// every probe says so; otherwise the outcome is that of the first probe that
/// fails or finds a value, and the probes behind it are not made.
pub proof fn law_probes_in_order(
    types: Types,
    i: int,
    probes: Seq<ProbeView>,
    row: Seq<ColumnView>,
    prefix: Seq<char>,
)
    ensures
        match all_null(types, i, probes, row, prefix) {
            Ok(true) => forall|k: int|
                0 <= k < probes.len() ==> (#[trigger] probe_at(types, i, probes[k], row, prefix))
                    == Ok::<bool, MappingErrorView>(true),
            other => exists|k: int|
                0 <= k < probes.len() && #[trigger] probe_at(types, i, probes[k], row, prefix)
                    == other && forall|q: int|
                    0 <= q < k ==> (#[trigger] probe_at(types, i, probes[q], row, prefix)) == Ok::<
                        bool,
                        MappingErrorView,
                    >(true),
        },
    decreases probes.len(),
{
    if probes.len() > 0 {
        let front = probes.drop_last();
        let last = probes.len() - 1;
        law_probes_in_order(types, i, front, row, prefix);
        assert forall|k: int| 0 <= k < front.len() implies front[k] == probes[k] by {}
        match all_null(types, i, front, row, prefix) {
            Ok(true) => {
                assert forall|q: int| 0 <= q < last implies (#[trigger] probe_at(
                    types,
                    i,
                    probes[q],
                    row,
                    prefix,
                )) == Ok::<bool, MappingErrorView>(true) by {
                    assert(front[q] == probes[q]);
                }
                assert(probe_at(types, i, probes[last], row, prefix) == all_null(
                    types,
                    i,
                    probes,
                    row,
                    prefix,
                ));
            },
            other => {
                let k = choose|k: int|
                    0 <= k < front.len() && #[trigger] probe_at(types, i, front[k], row, prefix)
                        == other && forall|q: int|
                        0 <= q < k ==> (#[trigger] probe_at(types, i, front[q], row, prefix))
                            == Ok::<bool, MappingErrorView>(true);
                assert(front[k] == probes[k]);
                assert forall|q: int| 0 <= q < k implies (#[trigger] probe_at(
                    types,
                    i,
                    probes[q],
                    row,
                    prefix,
                )) == Ok::<bool, MappingErrorView>(true) by {
                    assert(front[q] == probes[q]);
                }
            },
        }
    }
}

/// The index of the first column of `row` that `name` addresses.
pub open spec fn position(row: Seq<ColumnView>, name: Seq<char>) -> Option<int>
    decreases row.len(),
{
    if row.len() == 0 {
        None
    } else if same_name(row.first().name, name) {
        Some(0)
    } else {
        match position(row.drop_first(), name) {
            Some(p) => Some(p + 1),
            None => None,
        }
    }
}

/// `row` with the value of the column `c` replaced.
pub open spec fn with_value(row: Seq<ColumnView>, c: int, value: SqlValueView) -> Seq<ColumnView> {
    row.update(c, ColumnView { name: row[c].name, value })
}

/// A name addresses the column at its position, and no column where it has none.
pub proof fn lemma_position(row: Seq<ColumnView>, name: Seq<char>)
    ensures
        match position(row, name) {
            Some(p) => 0 <= p < row.len() && lookup(row, name) == Some(row[p].value),
            None => lookup(row, name) is None,
        },
    decreases row.len(),
{
    if row.len() > 0 && !same_name(row.first().name, name) {
        lemma_position(row.drop_first(), name);
    }
}

/// Replacing a value moves no name to another column.
pub proof fn lemma_position_with_value(
    row: Seq<ColumnView>,
    c: int,
    value: SqlValueView,
    name: Seq<char>,
)
    requires
        0 <= c < row.len(),
    ensures
        position(with_value(row, c, value), name) == position(row, name),
    decreases row.len(),
{
    let changed = with_value(row, c, value);
    if c == 0 {
        assert(changed.drop_first() =~= row.drop_first());
    } else {
        assert(changed.drop_first() =~= with_value(row.drop_first(), c - 1, value));
        lemma_position_with_value(row.drop_first(), c - 1, value, name);
    }
}

/// Whether a probe of the entry `i` reads the column `c` of `row`.
pub open spec fn probe_reads(
    types: Types,
    i: int,
    probe: ProbeView,
    row: Seq<ColumnView>,
    prefix: Seq<char>,
    c: int,
) -> bool
    decreases i, 0int, 0int,
{
    match probe {
        ProbeView::Column { name } => position(row, prefix + name) == Some(c),
        ProbeView::Nested { ty, prefix: child } => match resolve(types.take(i), ty) {
            Some(j) => 0 <= j < i && entry_reads(types, j, row, child.under(prefix), c),
            None => false,
        },
    }
}

/// Whether one of the probes reads the column `c` of `row`.
pub open spec fn probes_read(
    types: Types,
    i: int,
    probes: Seq<ProbeView>,
    row: Seq<ColumnView>,
    prefix: Seq<char>,
    c: int,
) -> bool
    decreases i, 1int, probes.len(),
{
    probes.len() > 0 && (probes_read(types, i, probes.drop_last(), row, prefix, c) || probe_reads(
        types,
        i,
        probes.last(),
        row,
        prefix,
        c,
    ))
}

/// Whether the probe of the entry `i` reads the column `c` of `row`: whether
/// the column contributes to the conjunction.
pub open spec fn entry_reads(
    types: Types,
    i: int,
    row: Seq<ColumnView>,
    prefix: Seq<char>,
    c: int,
) -> bool
    decreases i, 2int, 0int,
{
    0 <= i < types.len() && match types[i].kind {
        TypeKindView::Struct(mapping) => probes_read(types, i, mapping.probes, row, prefix, c),
        TypeKindView::Optional { inner } => match resolve(types.take(i), inner) {
            Some(j) => 0 <= j < i && entry_reads(types, j, row, prefix, c),
            None => false,
        },
        TypeKindView::Scalar { .. } => false,
    }
}

/// A probe that found null finds a value after the flip exactly if it reads
/// the flipped column.
proof fn lemma_flip_probe(
    types: Types,
    i: int,
    probe: ProbeView,
    row: Seq<ColumnView>,
    prefix: Seq<char>,
    c: int,
    value: SqlValueView,
)
    requires
        0 <= c < row.len(),
        !(value is Null),
        probe_at(types, i, probe, row, prefix) == Ok::<bool, MappingErrorView>(true),
    ensures
        probe_at(types, i, probe, with_value(row, c, value), prefix) == Ok::<
            bool,
            MappingErrorView,
        >(!probe_reads(types, i, probe, row, prefix, c)),
    decreases i, 0int, 0int,
{
    match probe {
        ProbeView::Column { name } => {
            lemma_position(row, prefix + name);
            lemma_position(with_value(row, c, value), prefix + name);
            lemma_position_with_value(row, c, value, prefix + name);
        },
        ProbeView::Nested { ty, prefix: child } => {
            let j = resolve(types.take(i), ty)->Some_0;
            lemma_flip_entry(types, j, row, child.under(prefix), c, value);
        },
    }
}

/// The conjunction of probes that all found null, after the flip.
proof fn lemma_flip_probes(
    types: Types,
    i: int,
    probes: Seq<ProbeView>,
    row: Seq<ColumnView>,
    prefix: Seq<char>,
    c: int,
    value: SqlValueView,
)
    requires
        0 <= c < row.len(),
        !(value is Null),
        all_null(types, i, probes, row, prefix) == Ok::<bool, MappingErrorView>(true),
    ensures
        all_null(types, i, probes, with_value(row, c, value), prefix) == Ok::<
            bool,
            MappingErrorView,
        >(!probes_read(types, i, probes, row, prefix, c)),
    decreases i, 1int, probes.len(),
{
    if probes.len() > 0 {
        lemma_flip_probes(types, i, probes.drop_last(), row, prefix, c, value);
        lemma_flip_probe(types, i, probes.last(), row, prefix, c, value);
    }
}

/// An entry that was absent is still absent after the flip exactly if its
/// probe does not read the flipped column.
proof fn lemma_flip_entry(
    types: Types,
    i: int,
    row: Seq<ColumnView>,
    prefix: Seq<char>,
    c: int,
    value: SqlValueView,
)
    requires
        0 <= c < row.len(),
        !(value is Null),
        absent_at(types, i, row, prefix) == Ok::<bool, MappingErrorView>(true),
    ensures
        absent_at(types, i, with_value(row, c, value), prefix) == Ok::<bool, MappingErrorView>(
            !entry_reads(types, i, row, prefix, c),
        ),
    decreases i, 2int, 0int,
{
    match types[i].kind {
        TypeKindView::Struct(mapping) => {
            lemma_flip_probes(types, i, mapping.probes, row, prefix, c, value);
        },
        TypeKindView::Optional { inner } => {
            let j = resolve(types.take(i), inner)->Some_0;
            lemma_flip_entry(types, j, row, prefix, c, value);
        },
        TypeKindView::Scalar { .. } => {},
    }
}

/// The probe is a strict conjunction. On a row from which the entry is
/// absent, giving a value to one column that the probe reads makes the entry
/// present, all else unchanged; giving one to any other column changes nothing.
pub proof fn law_strict_conjunction(
    types: Types,
    i: int,
    row: Seq<ColumnView>,
    prefix: Seq<char>,
    c: int,
    value: SqlValueView,
)
    requires
        0 <= c < row.len(),
        !(value is Null),
        absent_at(types, i, row, prefix) == Ok::<bool, MappingErrorView>(true),
    ensures
        entry_reads(types, i, row, prefix, c) ==> absent_at(
            types,
            i,
            with_value(row, c, value),
            prefix,
        ) == Ok::<bool, MappingErrorView>(false),
        !entry_reads(types, i, row, prefix, c) ==> absent_at(
            types,
            i,
            with_value(row, c, value),
            prefix,
        ) == Ok::<bool, MappingErrorView>(true),
{
    lemma_flip_entry(types, i, row, prefix, c, value);
}

/// Whether an outcome is the failure for a type that is not registered.
pub open spec fn is_unregistered<T>(outcome: Result<T, MappingErrorView>) -> bool {
    outcome matches Err(e) && e is Unregistered
}

/// Where no extraction is unmet, none of them is.
pub proof fn lemma_unmet_fields_none(types: Types, fields: Seq<FieldInitView>)
    requires
        unmet_fields(types, fields) is None,
    ensures
        forall|k: int|
            0 <= k < fields.len() ==> unmet_extract(types, (#[trigger] fields[k]).extract) is None,
    decreases fields.len(),
{
    if fields.len() > 0 {
        lemma_unmet_fields_none(types, fields.drop_last());
        assert forall|k: int| 0 <= k < fields.len() implies unmet_extract(
            types,
            (#[trigger] fields[k]).extract,
        ) is None by {
            if k < fields.len() - 1 {
                assert(fields.drop_last()[k] == fields[k]);
            }
        }
    }
}

/// Where no probe is unmet, none of them is.
pub proof fn lemma_unmet_probes_none(types: Types, probes: Seq<ProbeView>)
    requires
        unmet_probes(types, probes) is None,
    ensures
        forall|k: int| 0 <= k < probes.len() ==> unmet_probe(types, #[trigger] probes[k]) is None,
    decreases probes.len(),
{
    if probes.len() > 0 {
        lemma_unmet_probes_none(types, probes.drop_last());
        assert forall|k: int| 0 <= k < probes.len() implies unmet_probe(
            types,
            #[trigger] probes[k],
        ) is None by {
            if k < probes.len() - 1 {
                assert(probes.drop_last()[k] == probes[k]);
            }
        }
    }
}

/// A type that is found among the entries before `i` is one of them.
proof fn lemma_resolve_before(types: Types, i: int, ty: Seq<char>)
    requires
        0 <= i <= types.len(),
    ensures
        resolve(types.take(i), ty) matches Some(j) ==> 0 <= j < i && types.take(i)[j] == types[j],
{
    lemma_resolve(types.take(i), ty);
}

proof fn lemma_probe_registered(
    types: Types,
    i: int,
    probe: ProbeView,
    row: Seq<ColumnView>,
    prefix: Seq<char>,
)
    requires
        well_formed(types),
        0 <= i < types.len(),
        unmet_probe(types.take(i), probe) is None,
    ensures
        !is_unregistered(probe_at(types, i, probe, row, prefix)),
    decreases i, 0int, 0int,
{
    match probe {
        ProbeView::Column { .. } => {},
        ProbeView::Nested { ty, prefix: child } => {
            lemma_resolve_before(types, i, ty);
            let j = resolve(types.take(i), ty)->Some_0;
            lemma_absent_registered(types, j, row, child.under(prefix));
        },
    }
}

proof fn lemma_probes_registered(
    types: Types,
    i: int,
    probes: Seq<ProbeView>,
    row: Seq<ColumnView>,
    prefix: Seq<char>,
)
    requires
        well_formed(types),
        0 <= i < types.len(),
        forall|k: int|
            0 <= k < probes.len() ==> unmet_probe(types.take(i), #[trigger] probes[k]) is None,
    ensures
        !is_unregistered(all_null(types, i, probes, row, prefix)),
    decreases i, 1int, probes.len(),
{
    if probes.len() > 0 {
        let front = probes.drop_last();
        assert forall|k: int| 0 <= k < front.len() implies unmet_probe(
            types.take(i),
            #[trigger] front[k],
        ) is None by {
            assert(front[k] == probes[k]);
        }
        lemma_probes_registered(types, i, front, row, prefix);
        assert(probes.last() == probes[probes.len() - 1]);
        lemma_probe_registered(types, i, probes.last(), row, prefix);
    }
}

proof fn lemma_absent_registered(types: Types, i: int, row: Seq<ColumnView>, prefix: Seq<char>)
    requires
        well_formed(types),
        0 <= i < types.len(),
        !(types[i].kind is Scalar),
    ensures
        !is_unregistered(absent_at(types, i, row, prefix)),
    decreases i, 2int, 0int,
{
    assert(types[i] == types[i]);
    match types[i].kind {
        TypeKindView::Struct(mapping) => {
            lemma_unmet_probes_none(types.take(i), mapping.probes);
            lemma_probes_registered(types, i, mapping.probes, row, prefix);
        },
        TypeKindView::Optional { inner } => {
            lemma_resolve_before(types, i, inner);
            let j = resolve(types.take(i), inner)->Some_0;
            lemma_absent_registered(types, j, row, prefix);
        },
        TypeKindView::Scalar { .. } => {},
    }
}

proof fn lemma_extract_registered(
    types: Types,
    i: int,
    extract: ExtractView,
    row: Seq<ColumnView>,
    prefix: Seq<char>,
    conversions: Option<Conversion>,
)
    requires
        well_formed(types),
        0 <= i < types.len(),
        unmet_extract(types.take(i), extract) is None,
    ensures
        !is_unregistered(extract_at(types, i, extract, row, prefix, conversions)),
    decreases i, 0int, 0int,
{
    match extract {
        ExtractView::Default { .. } => {},
        ExtractView::Nested { ty, prefix: child, default } => {
            lemma_resolve_before(types, i, ty);
            let j = resolve(types.take(i), ty)->Some_0;
            lemma_absent_registered(types, j, row, child.under(prefix));
            lemma_decode_registered(types, j, row, child.under(prefix), conversions);
        },
        ExtractView::Column { .. } => {},
    }
}

proof fn lemma_fields_registered(
    types: Types,
    i: int,
    fields: Seq<FieldInitView>,
    row: Seq<ColumnView>,
    prefix: Seq<char>,
    conversions: Option<Conversion>,
)
    requires
        well_formed(types),
        0 <= i < types.len(),
        forall|k: int|
            0 <= k < fields.len() ==> unmet_extract(
                types.take(i),
                (#[trigger] fields[k]).extract,
            ) is None,
    ensures
        !is_unregistered(decode_fields(types, i, fields, row, prefix, conversions)),
    decreases i, 1int, fields.len(),
{
    if fields.len() > 0 {
        let front = fields.drop_last();
        assert forall|k: int| 0 <= k < front.len() implies unmet_extract(
            types.take(i),
            (#[trigger] front[k]).extract,
        ) is None by {
            assert(front[k] == fields[k]);
        }
        lemma_fields_registered(types, i, front, row, prefix, conversions);
        assert(fields.last() == fields[fields.len() - 1]);
        lemma_extract_registered(types, i, fields.last().extract, row, prefix, conversions);
    }
}

proof fn lemma_decode_registered(
    types: Types,
    i: int,
    row: Seq<ColumnView>,
    prefix: Seq<char>,
    conversions: Option<Conversion>,
)
    requires
        well_formed(types),
        0 <= i < types.len(),
        !(types[i].kind is Scalar),
    ensures
        !is_unregistered(decode_at(types, i, row, prefix, conversions)),
    decreases i, 2int, 0int,
{
    assert(types[i] == types[i]);
    match types[i].kind {
        TypeKindView::Struct(mapping) => {
            lemma_unmet_fields_none(types.take(i), mapping.fields);
            lemma_fields_registered(types, i, mapping.fields, row, prefix, conversions);
        },
        TypeKindView::Optional { inner } => {
            lemma_resolve_before(types, i, inner);
            let j = resolve(types.take(i), inner)->Some_0;
            lemma_absent_registered(types, j, row, prefix);
            lemma_decode_registered(types, j, row, prefix, conversions);
        },
        TypeKindView::Scalar { .. } => {},
    }
}

/// Registration fails fast. In a schema in which every entry found what it
/// needs when it was registered, decoding or probing a type that has a
/// mapping never fails for want of a registered type.
pub proof fn law_registration_fails_fast(
    types: Types,
    ty: Seq<char>,
    row: Seq<ColumnView>,
    prefix: Seq<char>,
    conversions: Option<Conversion>,
)
    requires
        well_formed(types),
        has_mapping(types, ty),
    ensures
        !is_unregistered(decoded(types, ty, row, prefix, conversions)),
        !is_unregistered(absent(types, ty, row, prefix)),
{
    lemma_resolve(types, ty);
    let i = resolve(types, ty)->Some_0;
    lemma_decode_registered(types, i, row, prefix, conversions);
    lemma_absent_registered(types, i, row, prefix);
}

/// An entry that finds what it needs keeps a schema well-formed.
pub proof fn law_well_formed_grows(types: Types, entry: TypeEntryView)
    requires
        well_formed(types),
        match entry.kind {
            TypeKindView::Struct(mapping) => unmet(types, mapping) is None,
            TypeKindView::Optional { inner } => has_mapping(types, inner),
            TypeKindView::Scalar { .. } => true,
        },
    ensures
        well_formed(types.push(entry)),
{
    let grown = types.push(entry);
    assert forall|i: int| 0 <= i < grown.len() implies match (#[trigger] grown[i]).kind {
        TypeKindView::Struct(mapping) => unmet(grown.take(i), mapping) is None,
        TypeKindView::Optional { inner } => has_mapping(grown.take(i), inner),
        TypeKindView::Scalar { .. } => true,
    } by {
        if i < types.len() {
            assert(grown.take(i) =~= types.take(i));
            assert(grown[i] == types[i]);
        } else {
            assert(grown.take(i) =~= types);
        }
    }
}

/// Capabilities put one behind the other are all met exactly where each part is.
pub proof fn lemma_unmet_predicates_concat(
    types: Types,
    first: Seq<PredicateView>,
    second: Seq<PredicateView>,
)
    ensures
        unmet_predicates(types, first + second) is None <==> unmet_predicates(types, first) is None
            && unmet_predicates(types, second) is None,
    decreases second.len(),
{
    if second.len() == 0 {
        assert(first + second =~= first);
    } else {
        lemma_unmet_predicates_concat(types, first, second.drop_last());
        assert((first + second).drop_last() =~= first + second.drop_last());
        assert((first + second).last() == second.last());
    }
}

/// The capabilities that a field asks for cover what its extraction and its
/// probe need.
pub proof fn law_field_predicates_cover(types: Types, field: FromRowFieldView)
    requires
        unmet_predicates(types, field.predicates()) is None,
    ensures
        unmet_extract(types, field.init().extract) is None,
        field.probe() matches Some(probe) ==> unmet_probe(types, probe) is None,
{
    let predicates = field.predicates();
    assert(predicates.len() > 0 ==> unmet_predicates(types, predicates.take(1)) is None) by {
        if predicates.len() > 0 {
            lemma_unmet_predicates_concat(
                types,
                predicates.take(1),
                predicates.skip(1),
            );
            assert(predicates.take(1) + predicates.skip(1) =~= predicates);
        }
    }
    if predicates.len() > 0 {
        let head = predicates.take(1);
        assert(head.drop_last() =~= Seq::<PredicateView>::empty());
        assert(head.last() == predicates[0]);
        assert(unmet_predicates(types, head.drop_last()) is None);
        assert(unmet_predicate(types, predicates[0]) is None);
    }
}

/// The collected capabilities cover the generated mapping: where the
/// schema meets every capability that the struct asks for, the mapping finds
/// every type that its extractions and probes need.
pub proof fn law_predicates_cover_the_mapping(types: Types, parsed: DeriveFromRowView)
    requires
        unmet_predicates(types, all_predicates(parsed.data)) is None,
    ensures
        unmet(types, parsed.generate()) is None,
{
    lemma_cover(types, parsed.data);
}

proof fn lemma_cover(types: Types, fields: Seq<FromRowFieldView>)
    requires
        unmet_predicates(types, all_predicates(fields)) is None,
    ensures
        unmet_fields(types, all_inits(fields)) is None,
        unmet_probes(types, all_probes(fields)) is None,
    decreases fields.len(),
{
    if fields.len() == 0 {
        assert(all_inits(fields) =~= Seq::<FieldInitView>::empty());
    } else {
        let front = fields.drop_last();
        lemma_unmet_predicates_concat(types, all_predicates(front), fields.last().predicates());
        lemma_cover(types, front);
        law_field_predicates_cover(types, fields.last());
        assert(all_inits(fields).drop_last() =~= all_inits(front));
        assert(all_inits(fields).last() == fields.last().init());
        match fields.last().probe() {
            Some(probe) => {
                assert(all_probes(fields).drop_last() =~= all_probes(front));
                assert(all_probes(fields).last() == probe);
            },
            None => {},
        }
    }
}

} // verus!
