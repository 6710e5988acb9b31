//! One field of a struct: what its directive resolves to, and what is
//! generated for it.
use vstd::prelude::*;
use vstd::string::StringExecFns;
use crate::directive::{
    parsed_attrs, prefix_view, Convert, ConvertView, FromRowAttrs, FromRowAttrsView, Prefix,
    PrefixView,
};
use crate::error::{MappingError, MappingErrorView};
use crate::plan::{
    predicate_views, ChildPrefix, ChildPrefixView, Extract, ExtractView, FieldInit, FieldInitView,
    Predicate, PredicateView, Probe, ProbeView,
};
use crate::raw::{RawField, RawFieldView};

verus! {

/// A single field of a struct that gets a mapping.
#[derive(Clone, Debug, PartialEq, Eq)]
pub struct FromRowField {
    /// The name of the field.
    pub ident: String,
    /// The tokens of the type that the field is declared with.
    pub ty: String,
    /// The directive of the field.
    pub attrs: FromRowAttrs,
}

/// A [`FromRowField`] with its texts as sequences of characters.
pub struct FromRowFieldView {
    pub ident: Seq<char>,
    pub ty: Seq<char>,
    pub attrs: FromRowAttrsView,
}

impl View for FromRowField {
    type V = FromRowFieldView;

    open spec fn view(&self) -> FromRowFieldView {
        FromRowFieldView { ident: self.ident@, ty: self.ty@, attrs: self.attrs@ }
    }
}

impl FromRowFieldView {
    /// The type that the column is decoded as: the conversion's source type
    /// under `from` and `try_from`, none that can be named under `from_fn`,
    /// and the declared type otherwise.
    pub open spec fn target_ty(self) -> Option<Seq<char>> {
        match self.attrs {
            FromRowAttrsView::Field { convert: Some(ConvertView::From(ty)), .. } => Some(ty),
            FromRowAttrsView::Field { convert: Some(ConvertView::TryFrom(ty)), .. } => Some(ty),
            FromRowAttrsView::Field { convert: Some(ConvertView::FromFn(_)), .. } => None,
            _ => Some(self.ty),
        }
    }

    /// The name of the column behind the field, without any prefix: the
    /// `rename` text where there is one, else the field's name.
    pub open spec fn column_name(self) -> Seq<char> {
        match self.attrs {
            FromRowAttrsView::Field { rename: Some(name), .. } => name,
            _ => self.ident,
        }
    }

    /// The prefix that a flattened field hands to its nested mapping: the
    /// caller's own without `prefix`, the caller's with the given text behind
    /// it under `prefix = ".."`, and the caller's with the field's name and an
    /// underscore behind it under a bare `prefix`.
    pub open spec fn child_prefix(self, prefix: Option<PrefixView>) -> ChildPrefixView {
        match prefix {
            Some(PrefixView::Value(text)) => ChildPrefixView::Extended(text),
            Some(PrefixView::Field) => ChildPrefixView::Extended(self.ident + "_"@),
            None => ChildPrefixView::Inherited,
        }
    }

    /// The capabilities that the field asks for.
    pub open spec fn predicates(self) -> Seq<PredicateView> {
        match self.attrs {
            FromRowAttrsView::Field { default, convert, .. } => {
                let decode = match self.target_ty() {
                    Some(target) => if default {
                        seq![
                            PredicateView::FromSql { ty: target },
                            PredicateView::Default { ty: target },
                        ]
                    } else {
                        seq![PredicateView::FromSql { ty: target }]
                    },
                    None => seq![],
                };
                let conversion = match convert {
                    Some(ConvertView::From(source)) => seq![
                        PredicateView::From { ty: self.ty, source },
                    ],
                    Some(ConvertView::TryFrom(source)) => seq![
                        PredicateView::TryFrom { ty: self.ty, source },
                        PredicateView::ErrorInto { ty: self.ty, source },
                        PredicateView::ErrorDebug { ty: self.ty, source },
                    ],
                    _ => seq![],
                };
                decode + conversion
            },
            FromRowAttrsView::Flatten { default, .. } => if default {
                seq![PredicateView::FromRow { ty: self.ty }, PredicateView::Default { ty: self.ty }]
            } else {
                seq![PredicateView::FromRow { ty: self.ty }]
            },
            FromRowAttrsView::Skip => seq![PredicateView::Default { ty: self.ty }],
        }
    }

    /// The null probe of the field; a skipped field has none.
    pub open spec fn probe(self) -> Option<ProbeView> {
        match self.attrs {
            FromRowAttrsView::Flatten { prefix, .. } => Some(
                ProbeView::Nested { ty: self.ty, prefix: self.child_prefix(prefix) },
            ),
            FromRowAttrsView::Field { .. } => Some(ProbeView::Column { name: self.column_name() }),
            FromRowAttrsView::Skip => None,
        }
    }

    /// The extraction of the field.
    pub open spec fn init(self) -> FieldInitView {
        FieldInitView {
            ident: self.ident,
            extract: match self.attrs {
                FromRowAttrsView::Flatten { prefix, default } => ExtractView::Nested {
                    ty: self.ty,
                    prefix: self.child_prefix(prefix),
                    default,
                },
                FromRowAttrsView::Field { convert, default, .. } => ExtractView::Column {
                    name: self.column_name(),
                    ty: self.ty,
                    target: self.target_ty(),
                    default,
                    convert,
                },
                FromRowAttrsView::Skip => ExtractView::Default { ty: self.ty },
            },
        }
    }
}

/// The name under which a failure of a field's attributes is reported: the
/// field's name, and the empty text for a field without one.
pub open spec fn reported_name(ident: Option<Seq<char>>) -> Seq<char> {
    match ident {
        Some(ident) => ident,
        None => Seq::empty(),
    }
}

/// The field that is made of what was read of it. The attributes are judged
/// first: their failure is the failure. Then a field without a name is a
/// syntax error, and a named one is the field of that name and type with the
/// directive of its attributes.
pub open spec fn field_parsed(field: RawFieldView) -> Result<FromRowFieldView, MappingErrorView> {
    match parsed_attrs(field.attrs, reported_name(field.ident)) {
        Err(e) => Err(e),
        Ok(attrs) => match field.ident {
            None => Err(MappingErrorView::Syntax { message: "should be named"@ }),
            Some(ident) => Ok(FromRowFieldView { ident, ty: field.ty, attrs }),
        },
    }
}

/// The view of an outcome of making a field.
pub open spec fn field_result_view(r: Result<FromRowField, MappingError>) -> Result<
    FromRowFieldView,
    MappingErrorView,
> {
    match r {
        Ok(field) => Ok(field@),
        Err(e) => Err(e@),
    }
}

impl FromRowField {
    /// Makes a field of what was read of it: its name, the tokens of its
    /// type, and the directive that its attributes resolve to.
    ///
    /// The attributes are judged first (see [`FromRowAttrs::parse`]): a
    /// failure of theirs is the failure, reported under the field's name. A
    /// field whose attributes are in order and that has no name is a syntax
    /// error.
    pub fn parse(field: RawField) -> (r: Result<FromRowField, MappingError>)
        ensures
            field_result_view(r) == field_parsed(field@),
    {
        let attrs = match &field.ident {
            Some(ident) => FromRowAttrs::parse(&field.attrs, ident.as_str()),
            None => {
                proof {
                    reveal_strlit("");
                    assert(""@ =~= Seq::<char>::empty());
                }
                FromRowAttrs::parse(&field.attrs, "")
            },
        };
        match attrs {
            Err(e) => Err(e),
            Ok(attrs) => match field.ident {
                Some(ident) => Ok(FromRowField { ident, ty: field.ty, attrs }),
                None => Err(
                    MappingError::Syntax { message: String::from_str("should be named") },
                ),
            },
        }
    }

    /// The type that the column is decoded as.
    pub fn target_ty(&self) -> (ty: Option<&String>)
        ensures
            match ty {
                Some(t) => self@.target_ty() == Some(t@),
                None => self@.target_ty() is None,
            },
    {
        match &self.attrs {
            FromRowAttrs::Field { convert: Some(Convert::From(ty)), .. } => Some(ty),
            FromRowAttrs::Field { convert: Some(Convert::TryFrom(ty)), .. } => Some(ty),
            FromRowAttrs::Field { convert: Some(Convert::FromFn(_)), .. } => None,
            _ => Some(&self.ty),
        }
    }

    /// The name of the column behind the field, without any prefix.
    pub fn column_name(&self) -> (name: &String)
        ensures
            name@ == self@.column_name(),
    {
        match &self.attrs {
            FromRowAttrs::Field { rename: Some(name), .. } => name,
            _ => &self.ident,
        }
    }

    /// The prefix that the field hands to its nested mapping.
    pub fn child_prefix(&self, prefix: &Option<Prefix>) -> (child: ChildPrefix)
        ensures
            child@ == self@.child_prefix(prefix_view(*prefix)),
    {
        match prefix {
            Some(Prefix::Value(text)) => ChildPrefix::Extended(text.clone()),
            Some(Prefix::Field) => {
                let mut text = self.ident.clone();
                text.append("_");
                ChildPrefix::Extended(text)
            },
            None => ChildPrefix::Inherited,
        }
    }

    /// Appends the capabilities that the field asks for.
    pub fn add_predicates(&self, predicates: &mut Vec<Predicate>)
        ensures
            predicate_views(final(predicates)@) == predicate_views(old(predicates)@)
                + self@.predicates(),
    {
        let ghost before = predicate_views(predicates@);
        match &self.attrs {
            FromRowAttrs::Field { default, convert, .. } => {
                if let Some(target) = self.target_ty() {
                    predicates.push(Predicate::FromSql { ty: target.clone() });
                    if *default {
                        predicates.push(Predicate::Default { ty: target.clone() });
                    }
                }
                match convert {
                    Some(Convert::From(source)) => {
                        predicates.push(
                            Predicate::From { ty: self.ty.clone(), source: source.clone() },
                        );
                    },
                    Some(Convert::TryFrom(source)) => {
                        predicates.push(
                            Predicate::TryFrom { ty: self.ty.clone(), source: source.clone() },
                        );
                        predicates.push(
                            Predicate::ErrorInto { ty: self.ty.clone(), source: source.clone() },
                        );
                        predicates.push(
                            Predicate::ErrorDebug { ty: self.ty.clone(), source: source.clone() },
                        );
                    },
                    _ => {},
                }
            },
            FromRowAttrs::Flatten { default, .. } => {
                predicates.push(Predicate::FromRow { ty: self.ty.clone() });
                if *default {
                    predicates.push(Predicate::Default { ty: self.ty.clone() });
                }
            },
            FromRowAttrs::Skip => {
                predicates.push(Predicate::Default { ty: self.ty.clone() });
            },
        }
        assert(predicate_views(predicates@) =~= before + self@.predicates());
    }

    /// The null probe of the field; a skipped field has none.
    pub fn generate_is_all_null(&self) -> (probe: Option<Probe>)
        ensures
            match probe {
                Some(p) => self@.probe() == Some(p@),
                None => self@.probe() is None,
            },
    {
        match &self.attrs {
            FromRowAttrs::Flatten { prefix, .. } => Some(
                Probe::Nested { ty: self.ty.clone(), prefix: self.child_prefix(prefix) },
            ),
            FromRowAttrs::Field { .. } => Some(Probe::Column { name: self.column_name().clone() }),
            FromRowAttrs::Skip => None,
        }
    }

    /// The extraction of the field.
    pub fn generate_try_from_row(&self) -> (init: FieldInit)
        ensures
            init@ == self@.init(),
    {
        let extract = match &self.attrs {
            FromRowAttrs::Flatten { prefix, default } => Extract::Nested {
                ty: self.ty.clone(),
                prefix: self.child_prefix(prefix),
                default: *default,
            },
            FromRowAttrs::Field { convert, default, .. } => {
                let target = match self.target_ty() {
                    Some(ty) => Some(ty.clone()),
                    None => None,
                };
                let convert = match convert {
                    Some(c) => Some(c.duplicate()),
                    None => None,
                };
                Extract::Column {
                    name: self.column_name().clone(),
                    ty: self.ty.clone(),
                    target,
                    default: *default,
                    convert,
                }
            },
            FromRowAttrs::Skip => Extract::Default { ty: self.ty.clone() },
        };
        FieldInit { ident: self.ident.clone(), extract }
    }
}

} // verus!
