//! A struct definition as plain values: what is read of it before any rule
//! of this library is applied.
use vstd::prelude::*;
use crate::directive::{key_is, Directives, DirectivesView};
use crate::syntax::{
    attr_ident, error_message, field_attrs, field_ident, field_type, input_ident, named_fields,
    parse_nested,
};

verus! {

/// What the arguments of an attribute were read to.
#[derive(Clone, Debug, PartialEq, Eq)]
pub enum Arguments {
    /// The keys that the arguments hold.
    Keys(Directives),
    /// The arguments could not be read, with this message.
    Unreadable(String),
}

/// [`Arguments`] with their texts as sequences of characters.
pub enum ArgumentsView {
    Keys(DirectivesView),
    Unreadable(Seq<char>),
}

impl View for Arguments {
    type V = ArgumentsView;

    open spec fn view(&self) -> ArgumentsView {
        match *self {
            Arguments::Keys(keys) => ArgumentsView::Keys(keys@),
            Arguments::Unreadable(message) => ArgumentsView::Unreadable(message@),
        }
    }
}

/// One attribute of a field.
#[derive(Clone, Debug, PartialEq, Eq)]
pub struct RawAttribute {
    /// The name of the attribute, where it is a single identifier.
    pub name: Option<String>,
    /// What the arguments of a `from_row` attribute were read to. An
    /// attribute of another name is not read and holds no key.
    pub arguments: Arguments,
}

/// A [`RawAttribute`] with its texts as sequences of characters.
pub struct RawAttributeView {
    pub name: Option<Seq<char>>,
    pub arguments: ArgumentsView,
}

impl View for RawAttribute {
    type V = RawAttributeView;

    open spec fn view(&self) -> RawAttributeView {
        RawAttributeView {
            name: match self.name {
                Some(name) => Some(name@),
                None => None,
            },
            arguments: self.arguments@,
        }
    }
}

/// The views of a list of attributes, in order.
pub open spec fn attribute_views(attrs: Seq<RawAttribute>) -> Seq<RawAttributeView> {
    attrs.map_values(|a: RawAttribute| a@)
}

/// One field of a definition.
#[derive(Clone, Debug, PartialEq, Eq)]
pub struct RawField {
    /// The name of the field, if it has one.
    pub ident: Option<String>,
    /// The tokens of the type that the field is declared with.
    pub ty: String,
    /// The attributes of the field, in order.
    pub attrs: Vec<RawAttribute>,
}

/// A [`RawField`] with its texts as sequences of characters.
pub struct RawFieldView {
    pub ident: Option<Seq<char>>,
    pub ty: Seq<char>,
    pub attrs: Seq<RawAttributeView>,
}

impl View for RawField {
    type V = RawFieldView;

    open spec fn view(&self) -> RawFieldView {
        RawFieldView {
            ident: match self.ident {
                Some(ident) => Some(ident@),
                None => None,
            },
            ty: self.ty@,
            attrs: attribute_views(self.attrs@),
        }
    }
}

/// The views of a list of fields, in order.
pub open spec fn raw_field_views(fields: Seq<RawField>) -> Seq<RawFieldView> {
    fields.map_values(|f: RawField| f@)
}

/// A definition: its name and, where it is a struct with named fields,
/// those fields in declaration order.
#[derive(Clone, Debug, PartialEq, Eq)]
pub struct RawStruct {
    pub ident: String,
    pub fields: Option<Vec<RawField>>,
}

/// A [`RawStruct`] with its texts as sequences of characters.
pub struct RawStructView {
    pub ident: Seq<char>,
    pub fields: Option<Seq<RawFieldView>>,
}

impl View for RawStruct {
    type V = RawStructView;

    open spec fn view(&self) -> RawStructView {
        RawStructView {
            ident: self.ident@,
            fields: match self.fields {
                Some(fields) => Some(raw_field_views(fields@)),
                None => None,
            },
        }
    }
}

impl RawAttributeView {
    /// Whether the attribute holds no key unless it is named `from_row`.
    pub open spec fn others_unread(self) -> bool {
        self.name != Some("from_row"@) ==> self.arguments == ArgumentsView::Keys(
            Directives::empty(),
        )
    }
}

impl RawFieldView {
    /// Whether every attribute of the field that is not named `from_row`
    /// holds no key.
    pub open spec fn others_unread(self) -> bool {
        forall|i: int| 0 <= i < self.attrs.len() ==> (#[trigger] self.attrs[i]).others_unread()
    }
}

impl RawStructView {
    /// Whether every attribute of every field that is not named `from_row`
    /// holds no key.
    pub open spec fn others_unread(self) -> bool {
        self.fields matches Some(fields) ==> forall|i: int|
            0 <= i < fields.len() ==> (#[trigger] fields[i]).others_unread()
    }
}

impl RawAttribute {
    /// Reads a parsed attribute. Only the arguments of an attribute named
    /// `from_row` are read, entry by entry (see [`Directives::record`]).
    pub fn read(attr: &syn::Attribute) -> (raw: RawAttribute)
        ensures
            raw@.others_unread(),
    {
        let name = attr_ident(attr);
        let arguments = if key_is(&name, "from_row") {
            let mut directives = Directives::new();
            match parse_nested(attr, &mut directives) {
                Ok(()) => Arguments::Keys(directives),
                Err(error) => Arguments::Unreadable(error_message(&error)),
            }
        } else {
            Arguments::Keys(Directives::new())
        };
        RawAttribute { name, arguments }
    }
}

impl RawField {
    /// Reads a parsed field: its name, the tokens of its type, and its
    /// attributes in order.
    ///
    /// Only the arguments of the attributes named `from_row` are read.
    pub fn read(field: &syn::Field) -> (raw: RawField)
        ensures
            raw@.others_unread(),
    {
        let parsed = field_attrs(field);
        let mut attrs: Vec<RawAttribute> = Vec::new();
        let mut i: usize = 0;
        while i < parsed.len()
            invariant
                i <= parsed.len(),
                forall|j: int|
                    0 <= j < attrs.len() ==> (#[trigger] attribute_views(
                        attrs@,
                    )[j]).others_unread(),
            decreases parsed.len() - i,
        {
            let ghost before = attribute_views(attrs@);
            let read = RawAttribute::read(&parsed[i]);
            attrs.push(read);
            assert(attribute_views(attrs@) =~= before.push(read@));
            i += 1;
        }
        RawField { ident: field_ident(field), ty: field_type(field), attrs }
    }
}

impl RawStruct {
    /// Reads a parsed definition: its name and, where it is a struct with
    /// named fields, those fields in declaration order.
    ///
    /// Only the arguments of the attributes named `from_row` are read.
    pub fn read(input: &syn::DeriveInput) -> (raw: RawStruct)
        ensures
            raw@.others_unread(),
    {
        let fields = match named_fields(input) {
            Some(parsed) => {
                let mut fields: Vec<RawField> = Vec::new();
                let mut i: usize = 0;
                while i < parsed.len()
                    invariant
                        i <= parsed.len(),
                        forall|j: int|
                            0 <= j < fields.len() ==> (#[trigger] raw_field_views(
                                fields@,
                            )[j]).others_unread(),
                    decreases parsed.len() - i,
                {
                    let ghost before = raw_field_views(fields@);
                    let read = RawField::read(&parsed[i]);
                    fields.push(read);
                    assert(raw_field_views(fields@) =~= before.push(read@));
                    i += 1;
                }
                Some(fields)
            },
            None => None,
        };
        RawStruct { ident: input_ident(input), fields }
    }
}

} // verus!
