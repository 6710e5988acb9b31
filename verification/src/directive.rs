//! The directives of one field and the rules on their combination.
use vstd::prelude::*;
use vstd::string::StringExecFns;
use crate::error::{ConflictRule, MappingError, MappingErrorView};
use crate::raw::{attribute_views, Arguments, ArgumentsView, RawAttribute, RawAttributeView};
use crate::syntax::{error_message, meta_key, meta_string, meta_value, parse_path, parse_type};

verus! {

/// How a decoded value becomes the field's declared type.
#[derive(Clone, Debug, PartialEq, Eq)]
pub enum Convert {
    /// Through the declared type's infallible conversion from this type.
    From(String),
    /// Through the declared type's fallible conversion from this type.
    TryFrom(String),
    /// Through the function of this path.
    FromFn(String),
}

/// A [`Convert`] with its text as a sequence of characters.
pub enum ConvertView {
    From(Seq<char>),
    TryFrom(Seq<char>),
    FromFn(Seq<char>),
}

impl View for Convert {
    type V = ConvertView;

    open spec fn view(&self) -> ConvertView {
        match *self {
            Convert::From(ty) => ConvertView::From(ty@),
            Convert::TryFrom(ty) => ConvertView::TryFrom(ty@),
            Convert::FromFn(path) => ConvertView::FromFn(path@),
        }
    }
}

/// What a flattened field puts in front of the column names of its nested type,
/// behind the prefix that it was itself given.
#[derive(Clone, Debug, PartialEq, Eq)]
pub enum Prefix {
    /// This text.
    Value(String),
    /// The field's own name and an underscore.
    Field,
}

/// A [`Prefix`] with its text as a sequence of characters.
pub enum PrefixView {
    Value(Seq<char>),
    Field,
}

impl View for Prefix {
    type V = PrefixView;

    open spec fn view(&self) -> PrefixView {
        match *self {
            Prefix::Value(text) => PrefixView::Value(text@),
            Prefix::Field => PrefixView::Field,
        }
    }
}

/// What the annotations of one field say, key by key, before any rule is applied.
#[derive(Clone, Debug, PartialEq, Eq)]
pub struct Directives {
    pub flatten: bool,
    pub prefix: Option<Prefix>,
    pub try_from: Option<String>,
    pub from: Option<String>,
    pub from_fn: Option<String>,
    pub rename: Option<String>,
    pub skip: bool,
    pub default: bool,
}

/// [`Directives`] with their texts as sequences of characters.
pub struct DirectivesView {
    pub flatten: bool,
    pub prefix: Option<PrefixView>,
    pub try_from: Option<Seq<char>>,
    pub from: Option<Seq<char>>,
    pub from_fn: Option<Seq<char>>,
    pub rename: Option<Seq<char>>,
    pub skip: bool,
    pub default: bool,
}

/// The view of an optional text.
pub open spec fn text_view(text: Option<String>) -> Option<Seq<char>> {
    match text {
        Some(t) => Some(t@),
        None => None,
    }
}

/// The view of an optional prefix.
pub open spec fn prefix_view(prefix: Option<Prefix>) -> Option<PrefixView> {
    match prefix {
        Some(p) => Some(p@),
        None => None,
    }
}

impl View for Directives {
    type V = DirectivesView;

    open spec fn view(&self) -> DirectivesView {
        DirectivesView {
            flatten: self.flatten,
            prefix: prefix_view(self.prefix),
            try_from: text_view(self.try_from),
            from: text_view(self.from),
            from_fn: text_view(self.from_fn),
            rename: text_view(self.rename),
            skip: self.skip,
            default: self.default,
        }
    }
}

/// One entry of an annotation's argument list, read.
#[derive(Clone, Debug, PartialEq, Eq)]
pub enum Entry {
    Flatten,
    /// `prefix`, with the text where one is given.
    Prefix(Prefix),
    /// `try_from`, with the tokens of its type.
    TryFrom(String),
    /// `from`, with the tokens of its type.
    From(String),
    /// `from_fn`, with the tokens of its path.
    FromFn(String),
    Rename(String),
    Skip,
    Default,
    /// A key that stands for nothing.
    Other,
}

/// An [`Entry`] with its text as a sequence of characters.
pub enum EntryView {
    Flatten,
    Prefix(PrefixView),
    TryFrom(Seq<char>),
    From(Seq<char>),
    FromFn(Seq<char>),
    Rename(Seq<char>),
    Skip,
    Default,
    Other,
}

impl View for Entry {
    type V = EntryView;

    open spec fn view(&self) -> EntryView {
        match *self {
            Entry::Flatten => EntryView::Flatten,
            Entry::Prefix(prefix) => EntryView::Prefix(prefix@),
            Entry::TryFrom(ty) => EntryView::TryFrom(ty@),
            Entry::From(ty) => EntryView::From(ty@),
            Entry::FromFn(path) => EntryView::FromFn(path@),
            Entry::Rename(name) => EntryView::Rename(name@),
            Entry::Skip => EntryView::Skip,
            Entry::Default => EntryView::Default,
            Entry::Other => EntryView::Other,
        }
    }
}

/// The keys after one more entry: a flag is set, a text replaces the one
/// that an earlier entry of the same key gave.
pub open spec fn applied(d: DirectivesView, entry: EntryView) -> DirectivesView {
    match entry {
        EntryView::Flatten => DirectivesView { flatten: true, ..d },
        EntryView::Prefix(prefix) => DirectivesView { prefix: Some(prefix), ..d },
        EntryView::TryFrom(ty) => DirectivesView { try_from: Some(ty), ..d },
        EntryView::From(ty) => DirectivesView { from: Some(ty), ..d },
        EntryView::FromFn(path) => DirectivesView { from_fn: Some(path), ..d },
        EntryView::Rename(name) => DirectivesView { rename: Some(name), ..d },
        EntryView::Skip => DirectivesView { skip: true, ..d },
        EntryView::Default => DirectivesView { default: true, ..d },
        EntryView::Other => d,
    }
}

/// The one directive of a field, with its modifiers.
#[derive(Clone, Debug, PartialEq, Eq)]
pub enum FromRowAttrs {
    /// The field is decoded by the mapping of its own type.
    Flatten { prefix: Option<Prefix>, default: bool },
    /// The field is decoded from one column.
    Field { rename: Option<String>, convert: Option<Convert>, default: bool },
    /// The field is never decoded.
    Skip,
}

/// A [`FromRowAttrs`] with its texts as sequences of characters.
pub enum FromRowAttrsView {
    Flatten { prefix: Option<PrefixView>, default: bool },
    Field { rename: Option<Seq<char>>, convert: Option<ConvertView>, default: bool },
    Skip,
}

/// The view of an optional conversion.
pub open spec fn convert_view(convert: Option<Convert>) -> Option<ConvertView> {
    match convert {
        Some(c) => Some(c@),
        None => None,
    }
}

impl View for FromRowAttrs {
    type V = FromRowAttrsView;

    open spec fn view(&self) -> FromRowAttrsView {
        match *self {
            FromRowAttrs::Flatten { prefix, default } => FromRowAttrsView::Flatten {
                prefix: prefix_view(prefix),
                default,
            },
            FromRowAttrs::Field { rename, convert, default } => FromRowAttrsView::Field {
                rename: text_view(rename),
                convert: convert_view(convert),
                default,
            },
            FromRowAttrs::Skip => FromRowAttrsView::Skip,
        }
    }
}

/// The directive that a set of keys stands for, or the rule that the set breaks.
///
/// `skip` is judged first, then `flatten`, then the keys of a plain column.
pub open spec fn resolved(d: DirectivesView) -> Result<FromRowAttrsView, ConflictRule> {
    if d.skip {
        if d.flatten || d.default || d.prefix is Some || d.try_from is Some || d.from_fn is Some
            || d.from is Some || d.rename is Some {
            Err(ConflictRule::SkipExcludesOthers)
        } else {
            Ok(FromRowAttrsView::Skip)
        }
    } else if d.flatten {
        if d.rename is Some || d.from is Some || d.try_from is Some || d.from_fn is Some {
            Err(ConflictRule::FlattenExcludesColumnKeys)
        } else {
            Ok(FromRowAttrsView::Flatten { prefix: d.prefix, default: d.default })
        }
    } else if d.prefix is Some {
        Err(ConflictRule::PrefixRequiresFlatten)
    } else {
        match (d.try_from, d.from, d.from_fn) {
            (Some(ty), None, None) => Ok(
                FromRowAttrsView::Field {
                    rename: d.rename,
                    convert: Some(ConvertView::TryFrom(ty)),
                    default: d.default,
                },
            ),
            (None, Some(ty), None) => Ok(
                FromRowAttrsView::Field {
                    rename: d.rename,
                    convert: Some(ConvertView::From(ty)),
                    default: d.default,
                },
            ),
            (None, None, Some(path)) => Ok(
                FromRowAttrsView::Field {
                    rename: d.rename,
                    convert: Some(ConvertView::FromFn(path)),
                    default: d.default,
                },
            ),
            (None, None, None) => Ok(
                FromRowAttrsView::Field { rename: d.rename, convert: None, default: d.default },
            ),
            _ => Err(ConflictRule::ConversionsExcludeEachOther),
        }
    }
}

/// The keys of two attributes of one field together: a flag is set where
/// either sets it, and a text of the later attribute replaces that of the
/// earlier one.
pub open spec fn merged(d: DirectivesView, later: DirectivesView) -> DirectivesView {
    DirectivesView {
        flatten: d.flatten || later.flatten,
        prefix: if later.prefix is Some {
            later.prefix
        } else {
            d.prefix
        },
        try_from: if later.try_from is Some {
            later.try_from
        } else {
            d.try_from
        },
        from: if later.from is Some {
            later.from
        } else {
            d.from
        },
        from_fn: if later.from_fn is Some {
            later.from_fn
        } else {
            d.from_fn
        },
        rename: if later.rename is Some {
            later.rename
        } else {
            d.rename
        },
        skip: d.skip || later.skip,
        default: d.default || later.default,
    }
}

/// The keys that the `from_row` attributes among `attrs` hold together,
/// or the message of the first of them that could not be read. Attributes
/// of other names are passed over.
pub open spec fn gathered(attrs: Seq<RawAttributeView>) -> Result<DirectivesView, Seq<char>>
    decreases attrs.len(),
{
    if attrs.len() == 0 {
        Ok(Directives::empty())
    } else {
        match gathered(attrs.drop_last()) {
            Err(message) => Err(message),
            Ok(d) => if attrs.last().name == Some("from_row"@) {
                match attrs.last().arguments {
                    ArgumentsView::Keys(keys) => Ok(merged(d, keys)),
                    ArgumentsView::Unreadable(message) => Err(message),
                }
            } else {
                Ok(d)
            },
        }
    }
}

/// The directive of the field named `field` that carries the attributes
/// `attrs`: a syntax error where a `from_row` attribute could not be read,
/// else what the gathered keys resolve to.
pub open spec fn parsed_attrs(attrs: Seq<RawAttributeView>, field: Seq<char>) -> Result<
    FromRowAttrsView,
    MappingErrorView,
> {
    match gathered(attrs) {
        Err(message) => Err(MappingErrorView::Syntax { message }),
        Ok(d) => resolved_for(d, field),
    }
}

/// Once one of the first `k` attributes has failed to read, no later one
/// changes the failure.
pub proof fn lemma_gathered_failed(attrs: Seq<RawAttributeView>, k: int)
    requires
        0 <= k <= attrs.len(),
        gathered(attrs.take(k)) is Err,
    ensures
        gathered(attrs) == gathered(attrs.take(k)),
    decreases attrs.len(),
{
    if k == attrs.len() {
        assert(attrs.take(k) =~= attrs);
    } else {
        assert(attrs.drop_last().take(k) =~= attrs.take(k));
        lemma_gathered_failed(attrs.drop_last(), k);
    }
}

/// The directive that the keys of the field named `field` stand for, or the
/// conflict of that field.
pub open spec fn resolved_for(d: DirectivesView, field: Seq<char>) -> Result<
    FromRowAttrsView,
    MappingErrorView,
> {
    match resolved(d) {
        Ok(attrs) => Ok(attrs),
        Err(rule) => Err(MappingErrorView::DirectiveConflict { field, rule }),
    }
}

/// The view of an outcome of reading a field's directive.
pub open spec fn attrs_view(r: Result<FromRowAttrs, MappingError>) -> Result<
    FromRowAttrsView,
    MappingErrorView,
> {
    match r {
        Ok(attrs) => Ok(attrs@),
        Err(e) => Err(e@),
    }
}

/// The view of a resolution.
pub open spec fn resolution_view(r: Result<FromRowAttrs, ConflictRule>) -> Result<
    FromRowAttrsView,
    ConflictRule,
> {
    match r {
        Ok(attrs) => Ok(attrs@),
        Err(rule) => Err(rule),
    }
}

impl FromRowAttrs {
    /// Applies the rules on combinations to the keys that a field carries.
    pub fn resolve(d: Directives) -> (r: Result<FromRowAttrs, ConflictRule>)
        ensures
            resolution_view(r) == resolved(d@),
    {
        if d.skip {
            let other_attrs = d.flatten || d.default || d.prefix.is_some() || d.try_from.is_some()
                || d.from_fn.is_some() || d.from.is_some() || d.rename.is_some();
            if other_attrs {
                return Err(ConflictRule::SkipExcludesOthers);
            }
            Ok(FromRowAttrs::Skip)
        } else if d.flatten {
            if d.rename.is_some() || d.from.is_some() || d.try_from.is_some()
                || d.from_fn.is_some() {
                return Err(ConflictRule::FlattenExcludesColumnKeys);
            }
            Ok(FromRowAttrs::Flatten { default: d.default, prefix: d.prefix })
        } else {
            if d.prefix.is_some() {
                return Err(ConflictRule::PrefixRequiresFlatten);
            }
            let convert = match (d.try_from, d.from, d.from_fn) {
                (Some(ty), None, None) => Some(Convert::TryFrom(ty)),
                (None, Some(ty), None) => Some(Convert::From(ty)),
                (None, None, Some(path)) => Some(Convert::FromFn(path)),
                (None, None, None) => None,
                _ => {
                    return Err(ConflictRule::ConversionsExcludeEachOther);
                },
            };
            Ok(FromRowAttrs::Field { rename: d.rename, convert, default: d.default })
        }
    }
}

/// Whether an optional text is there and equal to `word`.
pub open spec fn is_word(key: Option<String>, word: Seq<char>) -> bool {
    key matches Some(k) && k@ == word
}

/// Tells whether `key` is the word `word`.
pub fn key_is(key: &Option<String>, word: &str) -> (b: bool)
    ensures
        b == is_word(*key, word@),
{
    match key {
        Some(k) => {
            let w = String::from_str(word);
            *k == w
        },
        None => false,
    }
}

/// The failure that stands for a failed read of source text.
pub fn syntax_error(error: &syn::Error) -> (e: MappingError)
    ensures
        e is Syntax,
{
    MappingError::Syntax { message: error_message(error) }
}

impl Entry {
    /// Whether `entry` is one that the key `key` can give.
    pub open spec fn fits(key: Option<String>, entry: EntryView) -> bool {
        if is_word(key, "flatten"@) {
            entry == EntryView::Flatten
        } else if is_word(key, "prefix"@) {
            entry is Prefix
        } else if is_word(key, "try_from"@) {
            entry is TryFrom
        } else if is_word(key, "from"@) {
            entry is From
        } else if is_word(key, "from_fn"@) {
            entry is FromFn
        } else if is_word(key, "rename"@) {
            entry is Rename
        } else if is_word(key, "skip"@) {
            entry == EntryView::Skip
        } else if is_word(key, "default"@) {
            entry == EntryView::Default
        } else {
            entry == EntryView::Other
        }
    }

    /// Whether the key `key` takes a value that may fail to be read.
    pub open spec fn takes_value(key: Option<String>) -> bool {
        is_word(key, "try_from"@) || is_word(key, "from"@) || is_word(key, "from_fn"@) || is_word(
            key,
            "rename"@,
        )
    }

    /// Reads what follows the key `key` of one entry.
    ///
    /// `prefix` takes a string literal behind `=` or stands alone; `try_from`,
    /// `from`, `from_fn` and `rename` each take one, the first two a type and
    /// the third a path; the other keys read nothing. A key without a value
    /// never fails, and a failure leaves a syntax error.
    pub fn read(key: &Option<String>, meta: &syn::meta::ParseNestedMeta) -> (r: Result<
        Entry,
        syn::Error,
    >)
        ensures
            r matches Ok(entry) ==> Self::fits(*key, entry@),
            r is Err ==> Self::takes_value(*key) || is_word(*key, "prefix"@),
    {
        if key_is(key, "flatten") {
            Ok(Entry::Flatten)
        } else if key_is(key, "prefix") {
            match meta_value(meta) {
                Ok(()) => {
                    let text = meta_string(meta)?;
                    Ok(Entry::Prefix(Prefix::Value(text)))
                },
                Err(_) => Ok(Entry::Prefix(Prefix::Field)),
            }
        } else if key_is(key, "try_from") {
            meta_value(meta)?;
            let text = meta_string(meta)?;
            let ty = parse_type(text.as_str())?;
            Ok(Entry::TryFrom(ty))
        } else if key_is(key, "from") {
            meta_value(meta)?;
            let text = meta_string(meta)?;
            let ty = parse_type(text.as_str())?;
            Ok(Entry::From(ty))
        } else if key_is(key, "from_fn") {
            meta_value(meta)?;
            let text = meta_string(meta)?;
            let path = parse_path(text.as_str())?;
            Ok(Entry::FromFn(path))
        } else if key_is(key, "rename") {
            meta_value(meta)?;
            let text = meta_string(meta)?;
            Ok(Entry::Rename(text))
        } else if key_is(key, "skip") {
            Ok(Entry::Skip)
        } else if key_is(key, "default") {
            Ok(Entry::Default)
        } else {
            Ok(Entry::Other)
        }
    }
}

impl Directives {
    /// The keys of a field that carries none.
    pub open spec fn empty() -> DirectivesView {
        DirectivesView {
            flatten: false,
            prefix: None,
            try_from: None,
            from: None,
            from_fn: None,
            rename: None,
            skip: false,
            default: false,
        }
    }

    /// No key at all.
    pub fn new() -> (d: Directives)
        ensures
            d@ == Self::empty(),
    {
        Directives {
            flatten: false,
            prefix: None,
            try_from: None,
            from: None,
            from_fn: None,
            rename: None,
            skip: false,
            default: false,
        }
    }

    /// Takes one more entry in.
    pub fn apply(&mut self, entry: Entry)
        ensures
            final(self)@ == applied(old(self)@, entry@),
    {
        match entry {
            Entry::Flatten => {
                self.flatten = true;
            },
            Entry::Prefix(prefix) => {
                self.prefix = Some(prefix);
            },
            Entry::TryFrom(ty) => {
                self.try_from = Some(ty);
            },
            Entry::From(ty) => {
                self.from = Some(ty);
            },
            Entry::FromFn(path) => {
                self.from_fn = Some(path);
            },
            Entry::Rename(name) => {
                self.rename = Some(name);
            },
            Entry::Skip => {
                self.skip = true;
            },
            Entry::Default => {
                self.default = true;
            },
            Entry::Other => {},
        }
    }

    /// Takes in the keys of a later attribute of the same field.
    pub fn merge(&mut self, later: &Directives)
        ensures
            final(self)@ == merged(old(self)@, later@),
    {
        if later.flatten {
            self.flatten = true;
        }
        if let Some(prefix) = &later.prefix {
            self.prefix = Some(prefix.duplicate());
        }
        if let Some(ty) = &later.try_from {
            self.try_from = Some(ty.clone());
        }
        if let Some(ty) = &later.from {
            self.from = Some(ty.clone());
        }
        if let Some(path) = &later.from_fn {
            self.from_fn = Some(path.clone());
        }
        if let Some(name) = &later.rename {
            self.rename = Some(name.clone());
        }
        if later.skip {
            self.skip = true;
        }
        if later.default {
            self.default = true;
        }
    }

    /// Reads one entry of an annotation's argument list and takes it in.
    /// A failed read changes nothing.
    pub fn record(&mut self, meta: syn::meta::ParseNestedMeta) -> (r: Result<(), syn::Error>)
        ensures
            r is Ok ==> exists|entry: EntryView| final(self)@ == applied(old(self)@, entry),
            r is Err ==> final(self)@ == old(self)@,
    {
        let key = meta_key(&meta);
        let entry = Entry::read(&key, &meta)?;
        self.apply(entry);
        Ok(())
    }
}

impl FromRowAttrs {
    /// The directive of a field without annotations: a plain column.
    pub open spec fn plain() -> FromRowAttrsView {
        FromRowAttrsView::Field { rename: None, convert: None, default: false }
    }

    /// Gathers the keys of the `from_row` attributes among `attrs` and
    /// resolves them into the directive of the field named `field`.
    ///
    /// A field without attributes is a plain column. Attributes of other names
    /// are passed over. The first `from_row` attribute that could not be read
    /// is a syntax error with its message; a rule that the gathered keys break
    /// is a conflict of `field`.
    pub fn parse(attrs: &Vec<RawAttribute>, field: &str) -> (r: Result<
        FromRowAttrs,
        MappingError,
    >)
        ensures
            attrs_view(r) == parsed_attrs(attribute_views(attrs@), field@),
    {
        let ghost all = attribute_views(attrs@);
        let mut directives = Directives::new();
        let mut i: usize = 0;
        assert(all.take(0) =~= Seq::empty());
        while i < attrs.len()
            invariant
                i <= attrs.len(),
                all == attribute_views(attrs@),
                gathered(all.take(i as int)) == Ok::<DirectivesView, Seq<char>>(directives@),
            decreases attrs.len() - i,
        {
            proof {
                let next = all.take(i + 1);
                assert(next.drop_last() =~= all.take(i as int));
                assert(next.last() == attrs[i as int]@);
            }
            if key_is(&attrs[i].name, "from_row") {
                match &attrs[i].arguments {
                    Arguments::Keys(keys) => {
                        directives.merge(keys);
                    },
                    Arguments::Unreadable(message) => {
                        proof {
                            lemma_gathered_failed(all, i + 1);
                        }
                        return Err(MappingError::Syntax { message: message.clone() });
                    },
                }
            }
            i += 1;
        }
        assert(all.take(i as int) =~= all);
        FromRowAttrs::resolve_for(directives, field)
    }

    /// The directive that the keys `d`, read from the annotations of the
    /// field named `field`, stand for; a rule that they break is reported
    /// as a conflict of that field.
    pub fn resolve_for(d: Directives, field: &str) -> (r: Result<FromRowAttrs, MappingError>)
        ensures
            attrs_view(r) == resolved_for(d@, field@),
    {
        match FromRowAttrs::resolve(d) {
            Ok(attrs) => Ok(attrs),
            Err(rule) => Err(
                MappingError::DirectiveConflict { field: String::from_str(field), rule },
            ),
        }
    }
}

impl Prefix {
    /// A copy.
    pub fn duplicate(&self) -> (p: Prefix)
        ensures
            p@ == self@,
    {
        match self {
            Prefix::Value(text) => Prefix::Value(text.clone()),
            Prefix::Field => Prefix::Field,
        }
    }
}

impl Convert {
    /// A copy.
    pub fn duplicate(&self) -> (c: Convert)
        ensures
            c@ == self@,
    {
        match self {
            Convert::From(ty) => Convert::From(ty.clone()),
            Convert::TryFrom(ty) => Convert::TryFrom(ty.clone()),
            Convert::FromFn(path) => Convert::FromFn(path.clone()),
        }
    }
}

} // verus!
