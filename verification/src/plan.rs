//! What generation emits for one struct: an extraction per field, a null
//! probe per field that columns back, and the capabilities that the fields'
//! types must have.
use vstd::prelude::*;
use crate::directive::{convert_view, text_view, Convert, ConvertView};

verus! {

/// The prefix that a nested mapping is called with, given the caller's own.
#[derive(Clone, Debug, PartialEq, Eq)]
pub enum ChildPrefix {
    /// The caller's prefix, unchanged.
    Inherited,
    /// The caller's prefix with this text behind it.
    Extended(String),
}

/// A [`ChildPrefix`] with its text as a sequence of characters.
pub enum ChildPrefixView {
    Inherited,
    Extended(Seq<char>),
}

impl View for ChildPrefix {
    type V = ChildPrefixView;

    open spec fn view(&self) -> ChildPrefixView {
        match *self {
            ChildPrefix::Inherited => ChildPrefixView::Inherited,
            ChildPrefix::Extended(text) => ChildPrefixView::Extended(text@),
        }
    }
}

impl ChildPrefixView {
    /// The prefix that the nested mapping gets when the caller got `parent`.
    pub open spec fn under(self, parent: Seq<char>) -> Seq<char> {
        match self {
            ChildPrefixView::Inherited => parent,
            ChildPrefixView::Extended(text) => parent + text,
        }
    }
}

/// The test whether the columns behind one field are all null.
#[derive(Clone, Debug, PartialEq, Eq)]
pub enum Probe {
    /// The column of this name, behind the caller's prefix, is null.
    Column { name: String },
    /// The probe of the mapping of type `ty`, called with `prefix`, says so.
    Nested { ty: String, prefix: ChildPrefix },
}

/// A [`Probe`] with its texts as sequences of characters.
pub enum ProbeView {
    Column { name: Seq<char> },
    Nested { ty: Seq<char>, prefix: ChildPrefixView },
}

impl View for Probe {
    type V = ProbeView;

    open spec fn view(&self) -> ProbeView {
        match *self {
            Probe::Column { name } => ProbeView::Column { name: name@ },
            Probe::Nested { ty, prefix } => ProbeView::Nested { ty: ty@, prefix: prefix@ },
        }
    }
}

/// How the value of one field is obtained.
#[derive(Clone, Debug, PartialEq, Eq)]
pub enum Extract {
    /// The default value of `ty`; the row is not read.
    Default { ty: String },
    /// The mapping of type `ty`, called with `prefix`. With `default`, the
    /// default value of `ty` stands in where the nested record is absent.
    Nested { ty: String, prefix: ChildPrefix, default: bool },
    /// The column `name` behind the caller's prefix, decoded as `target`
    /// (`None`: as whatever the conversion takes), then converted by `convert`
    /// into the declared type `ty`. With `default`, the default value of the
    /// target stands in for a null column.
    Column { name: String, ty: String, target: Option<String>, default: bool, convert: Option<
        Convert,
    > },
}

/// An [`Extract`] with its texts as sequences of characters.
pub enum ExtractView {
    Default { ty: Seq<char> },
    Nested { ty: Seq<char>, prefix: ChildPrefixView, default: bool },
    Column {
        name: Seq<char>,
        ty: Seq<char>,
        target: Option<Seq<char>>,
        default: bool,
        convert: Option<ConvertView>,
    },
}

impl View for Extract {
    type V = ExtractView;

    open spec fn view(&self) -> ExtractView {
        match *self {
            Extract::Default { ty } => ExtractView::Default { ty: ty@ },
            Extract::Nested { ty, prefix, default } => ExtractView::Nested {
                ty: ty@,
                prefix: prefix@,
                default,
            },
            Extract::Column { name, ty, target, default, convert } => ExtractView::Column {
                name: name@,
                ty: ty@,
                target: text_view(target),
                default,
                convert: convert_view(convert),
            },
        }
    }
}

/// The extraction of one field, under the field's name.
#[derive(Clone, Debug, PartialEq, Eq)]
pub struct FieldInit {
    pub ident: String,
    pub extract: Extract,
}

/// A [`FieldInit`] with its texts as sequences of characters.
pub struct FieldInitView {
    pub ident: Seq<char>,
    pub extract: ExtractView,
}

impl View for FieldInit {
    type V = FieldInitView;

    open spec fn view(&self) -> FieldInitView {
        FieldInitView { ident: self.ident@, extract: self.extract@ }
    }
}

/// A capability that a type must have for a mapping to work.
#[derive(Clone, Debug, PartialEq, Eq)]
pub enum Predicate {
    /// `ty` can be decoded from a column.
    FromSql { ty: String },
    /// `ty` has a default value.
    Default { ty: String },
    /// `ty` has a mapping of its own: a decoder and a null probe.
    FromRow { ty: String },
    /// `ty` has an infallible conversion from `source`.
    From { ty: String, source: String },
    /// `ty` has a fallible conversion from `source`.
    TryFrom { ty: String, source: String },
    /// The failure of `ty`'s conversion from `source` can become a decode failure.
    ErrorInto { ty: String, source: String },
    /// The failure of `ty`'s conversion from `source` can be shown.
    ErrorDebug { ty: String, source: String },
}

/// A [`Predicate`] with its texts as sequences of characters.
pub enum PredicateView {
    FromSql { ty: Seq<char> },
    Default { ty: Seq<char> },
    FromRow { ty: Seq<char> },
    From { ty: Seq<char>, source: Seq<char> },
    TryFrom { ty: Seq<char>, source: Seq<char> },
    ErrorInto { ty: Seq<char>, source: Seq<char> },
    ErrorDebug { ty: Seq<char>, source: Seq<char> },
}

impl View for Predicate {
    type V = PredicateView;

    open spec fn view(&self) -> PredicateView {
        match *self {
            Predicate::FromSql { ty } => PredicateView::FromSql { ty: ty@ },
            Predicate::Default { ty } => PredicateView::Default { ty: ty@ },
            Predicate::FromRow { ty } => PredicateView::FromRow { ty: ty@ },
            Predicate::From { ty, source } => PredicateView::From { ty: ty@, source: source@ },
            Predicate::TryFrom { ty, source } => PredicateView::TryFrom {
                ty: ty@,
                source: source@,
            },
            Predicate::ErrorInto { ty, source } => PredicateView::ErrorInto {
                ty: ty@,
                source: source@,
            },
            Predicate::ErrorDebug { ty, source } => PredicateView::ErrorDebug {
                ty: ty@,
                source: source@,
            },
        }
    }
}

/// The views of a list of predicates, in order.
pub open spec fn predicate_views(predicates: Seq<Predicate>) -> Seq<PredicateView> {
    predicates.map_values(|p: Predicate| p@)
}

/// The views of a list of probes, in order.
pub open spec fn probe_views(probes: Seq<Probe>) -> Seq<ProbeView> {
    probes.map_values(|p: Probe| p@)
}

/// The views of a list of extractions, in order.
pub open spec fn init_views(inits: Seq<FieldInit>) -> Seq<FieldInitView> {
    inits.map_values(|f: FieldInit| f@)
}

} // verus!
