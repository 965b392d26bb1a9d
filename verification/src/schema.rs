//! The schema model: a tree of containers, nonterminals, productions and
//! fields, as handed over by the host after it has fully assembled the
//! source modules in memory. The compiler only reads this tree.
use vstd::prelude::*;

verus! {

/// What a field's leaf annotation supplies as its match pattern.
#[derive(Debug, Clone, PartialEq, Eq)]
pub enum LeafSpec {
    /// The annotation supplies a string literal pattern.
    Pattern(String),
    /// The annotation supplies a pattern value that is not a string literal.
    NonString,
    /// The annotation supplies no pattern parameter at all.
    Missing,
}

pub enum LeafSpecView {
    Pattern(Seq<char>),
    NonString,
    Missing,
}

impl View for LeafSpec {
    type V = LeafSpecView;

    open spec fn view(&self) -> LeafSpecView {
        match self {
            LeafSpec::Pattern(p) => LeafSpecView::Pattern(p@),
            LeafSpec::NonString => LeafSpecView::NonString,
            LeafSpec::Missing => LeafSpecView::Missing,
        }
    }
}

/// One field of a production. A field without a name is addressed by its
/// position; a field without a leaf annotation is a plain field.
#[derive(Debug, Clone, PartialEq, Eq)]
pub struct Field {
    pub name: Option<String>,
    pub leaf: Option<LeafSpec>,
}

pub struct FieldView {
    pub name: Option<Seq<char>>,
    pub leaf: Option<LeafSpecView>,
}

impl View for Field {
    type V = FieldView;

    open spec fn view(&self) -> FieldView {
        FieldView {
            name: match self.name {
                Option::Some(n) => Option::Some(n@),
                Option::None => Option::None,
            },
            leaf: match self.leaf {
                Option::Some(l) => Option::Some(l@),
                Option::None => Option::None,
            },
        }
    }
}

/// One production (variant) of a nonterminal, with its fields in
/// declaration order.
#[derive(Debug, Clone, PartialEq, Eq)]
pub struct Production {
    pub name: String,
    pub fields: Vec<Field>,
}

pub struct ProductionView {
    pub name: Seq<char>,
    pub fields: Seq<FieldView>,
}

/// The element-wise view of a sequence of fields.
pub open spec fn fields_view(fields: Seq<Field>) -> Seq<FieldView> {
    Seq::new(fields.len(), |i: int| fields[i]@)
}

impl View for Production {
    type V = ProductionView;

    open spec fn view(&self) -> ProductionView {
        ProductionView { name: self.name@, fields: fields_view(self.fields@) }
    }
}

/// One nonterminal (enumeration): a named symbol with its productions in
/// declaration order, possibly marked as the grammar's root.
#[derive(Debug, Clone, PartialEq, Eq)]
pub struct Nonterminal {
    pub name: String,
    pub is_root: bool,
    pub productions: Vec<Production>,
}

pub struct NonterminalView {
    pub name: Seq<char>,
    pub is_root: bool,
    pub productions: Seq<ProductionView>,
}

/// The element-wise view of a sequence of productions.
pub open spec fn productions_view(productions: Seq<Production>) -> Seq<ProductionView> {
    Seq::new(productions.len(), |i: int| productions[i]@)
}

impl View for Nonterminal {
    type V = NonterminalView;

    open spec fn view(&self) -> NonterminalView {
        NonterminalView {
            name: self.name@,
            is_root: self.is_root,
            productions: productions_view(self.productions@),
        }
    }
}

/// One top-level schema item: a nonterminal, a nested container, or some
/// other construct the compiler does not recognize (described by a string
/// for error reporting).
#[derive(Debug, PartialEq, Eq)]
pub enum SchemaItem {
    Nonterminal(Nonterminal),
    Container(Container),
    Other(String),
}

/// A named grouping of schema items. A container marked `is_grammar`
/// defines one grammar of its own.
#[derive(Debug, PartialEq, Eq)]
pub struct Container {
    pub name: String,
    pub is_grammar: bool,
    pub items: Vec<SchemaItem>,
}

pub enum SchemaItemView {
    Nonterminal(NonterminalView),
    Container(ContainerView),
    Other(Seq<char>),
}

pub struct ContainerView {
    pub name: Seq<char>,
    pub is_grammar: bool,
    pub items: Seq<SchemaItemView>,
}

pub open spec fn schema_item_view(item: SchemaItem) -> SchemaItemView
    decreases item,
{
    match item {
        SchemaItem::Nonterminal(nt) => SchemaItemView::Nonterminal(nt@),
        SchemaItem::Container(c) => SchemaItemView::Container(container_view(c)),
        SchemaItem::Other(d) => SchemaItemView::Other(d@),
    }
}

pub open spec fn container_view(c: Container) -> ContainerView
    decreases c,
{
    ContainerView { name: c.name@, is_grammar: c.is_grammar, items: schema_items_view(c.items@) }
}

pub open spec fn schema_items_view(items: Seq<SchemaItem>) -> Seq<SchemaItemView>
    decreases items,
{
    if items.len() == 0 {
        Seq::empty()
    } else {
        seq![schema_item_view(items[0])] + schema_items_view(
            items.subrange(1, items.len() as int),
        )
    }
}

/// The element-wise reading of `schema_items_view`.
pub proof fn lemma_schema_items_view(items: Seq<SchemaItem>)
    ensures
        schema_items_view(items).len() == items.len(),
        forall|i: int|
            0 <= i < items.len() ==> schema_items_view(items)[i] == schema_item_view(items[i]),
    decreases items,
{
    if items.len() > 0 {
        lemma_schema_items_view(items.subrange(1, items.len() as int));
        assert forall|i: int|
            0 <= i < items.len() implies schema_items_view(items)[i] == schema_item_view(
            items[i],
        ) by {
            if i > 0 {
                assert(items.subrange(1, items.len() as int)[i - 1] == items[i]);
            }
        }
    }
}

impl View for SchemaItem {
    type V = SchemaItemView;

    open spec fn view(&self) -> SchemaItemView {
        schema_item_view(*self)
    }
}

impl View for Container {
    type V = ContainerView;

    open spec fn view(&self) -> ContainerView {
        container_view(*self)
    }
}

/// A fully assembled schema: the ordered top-level items of the source
/// tree, with every cross-module reference already resolved by the host.
#[derive(Debug, PartialEq, Eq)]
pub struct SchemaTree {
    pub items: Vec<SchemaItem>,
}

impl View for SchemaTree {
    type V = Seq<SchemaItemView>;

    open spec fn view(&self) -> Seq<SchemaItemView> {
        schema_items_view(self.items@)
    }
}

} // verus!
