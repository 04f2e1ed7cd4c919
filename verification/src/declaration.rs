//! The declaration under inspection, reduced to what the check reads: is
//! it a record, what is it called, and what are its members called.

use vstd::prelude::*;

verus! {

/// The members of a record.
#[derive(Clone, Debug, PartialEq, Eq)]
pub enum Members {
    /// Named members, by name and in declaration order.
    Named(Vec<String>),
    /// Members known by position only.
    Positional,
    /// No member list at all.
    Unit,
}

/// A record declaration: its name and its members.
#[derive(Clone, Debug, PartialEq, Eq)]
pub struct Record {
    pub name: String,
    pub members: Members,
}

/// A top-level item.
#[derive(Clone, Debug, PartialEq, Eq)]
pub enum Declaration {
    /// A record.
    Record(Record),
    /// Any other item: a function, an enumeration, a module, ...
    Other,
}

/// The mathematical value of `Members`.
pub enum MembersView {
    Named(Seq<Seq<char>>),
    Positional,
    Unit,
}

/// The mathematical value of a `Record`.
pub struct RecordView {
    pub name: Seq<char>,
    pub members: MembersView,
}

/// The mathematical value of a `Declaration`.
pub enum DeclarationView {
    Record(RecordView),
    Other,
}

impl View for Members {
    type V = MembersView;

    open spec fn view(&self) -> MembersView {
        match *self {
            Members::Named(names) => MembersView::Named(names.deep_view()),
            Members::Positional => MembersView::Positional,
            Members::Unit => MembersView::Unit,
        }
    }
}

impl View for Record {
    type V = RecordView;

    open spec fn view(&self) -> RecordView {
        RecordView { name: self.name@, members: self.members@ }
    }
}

impl View for Declaration {
    type V = DeclarationView;

    open spec fn view(&self) -> DeclarationView {
        match *self {
            Declaration::Record(record) => DeclarationView::Record(record@),
            Declaration::Other => DeclarationView::Other,
        }
    }
}

impl DeepView for Declaration {
    type V = DeclarationView;

    open spec fn deep_view(&self) -> DeclarationView {
        self@
    }
}

/// The item that a piece of source text declares: a record with its name
/// and members, or another kind of item. `None` where the text is not one
/// item.
pub uninterp spec fn parsed_item(source: Seq<char>) -> Option<DeclarationView>;

/// Parses the text with `syn::parse_str` as a `syn::Item` and copies out
/// of a `syn::Item::Struct` the identifier and, for `syn::Fields::Named`,
/// the identifier of each field (the parser gives every named field one).
/// Assumed, not proved: the outcome is `parsed_item` of the text, that is,
/// it depends on the text alone.
#[verifier::external_body]
pub(crate) fn parse_item(source: &str) -> (parsed: Option<Declaration>)
    ensures
        parsed.deep_view() == parsed_item(source@),
{
    match syn::parse_str::<syn::Item>(source) {
        Ok(syn::Item::Struct(item)) => {
            let members = match item.fields {
                syn::Fields::Named(fields) => Members::Named(
                    fields.named.into_iter().map(|field| field.ident.map(|i| i.to_string()).unwrap_or_default()).collect(),
                ),
                syn::Fields::Unnamed(_) => Members::Positional,
                syn::Fields::Unit => Members::Unit,
            };
            Some(Declaration::Record(Record { name: item.ident.to_string(), members }))
        },
        Ok(_) => Some(Declaration::Other),
        Err(_) => None,
    }
}

} // verus!
