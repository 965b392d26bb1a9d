//! The compiled grammar: rules, the ordered rule map, and the grammar
//! object handed back to the host.
use vstd::prelude::*;

verus! {

/// One compiled rule body.
#[derive(Debug, Clone, PartialEq, Eq)]
pub enum Rule {
    /// A lexical pattern matched directly against the input text.
    Pattern(String),
    /// An ordered sequence of symbol references.
    Sequence(Vec<String>),
    /// An ordered choice over symbol references.
    Choice(Vec<String>),
    /// A top-level alias binding an external symbol to a rule, hidden
    /// from the produced syntax tree when `named` is false.
    Alias { named: bool, value: String, content: String },
}

pub enum RuleView {
    Pattern(Seq<char>),
    Sequence(Seq<Seq<char>>),
    Choice(Seq<Seq<char>>),
    Alias { named: bool, value: Seq<char>, content: Seq<char> },
}

impl View for Rule {
    type V = RuleView;

    open spec fn view(&self) -> RuleView {
        match self {
            Rule::Pattern(p) => RuleView::Pattern(p@),
            Rule::Sequence(m) => RuleView::Sequence(m.deep_view()),
            Rule::Choice(m) => RuleView::Choice(m.deep_view()),
            Rule::Alias { named, value, content } => RuleView::Alias {
                named: *named,
                value: value@,
                content: content@,
            },
        }
    }
}

/// One entry of a grammar's rule map: a rule under its identifier.
#[derive(Debug, Clone, PartialEq, Eq)]
pub struct RuleEntry {
    pub id: String,
    pub rule: Rule,
}

pub struct RuleEntryView {
    pub id: Seq<char>,
    pub rule: RuleView,
}

impl View for RuleEntry {
    type V = RuleEntryView;

    open spec fn view(&self) -> RuleEntryView {
        RuleEntryView { id: self.id@, rule: self.rule@ }
    }
}

/// The element-wise view of a sequence of rule entries.
pub open spec fn entries_view(entries: Seq<RuleEntry>) -> Seq<RuleEntryView> {
    Seq::new(entries.len(), |i: int| entries[i]@)
}

/// The complete compiled grammar of one group: a named, ordered mapping
/// from rule identifiers to rules.
#[derive(Debug, Clone, PartialEq, Eq)]
pub struct GrammarObject {
    pub name: String,
    pub rules: Vec<RuleEntry>,
}

pub struct GrammarObjectView {
    pub name: Seq<char>,
    pub rules: Seq<RuleEntryView>,
}

impl View for GrammarObject {
    type V = GrammarObjectView;

    open spec fn view(&self) -> GrammarObjectView {
        GrammarObjectView { name: self.name@, rules: entries_view(self.rules@) }
    }
}

/// Whether some entry carries the given identifier.
pub open spec fn has_id(rules: Seq<RuleEntryView>, id: Seq<char>) -> bool {
    exists|i: int| 0 <= i < rules.len() && rules[i].id == id
}

/// Whether every entry carries a distinct identifier.
pub open spec fn unique_ids(rules: Seq<RuleEntryView>) -> bool {
    forall|i: int, j: int| 0 <= i < j < rules.len() ==> rules[i].id != rules[j].id
}

/// The symbol names a rule body refers to.
pub open spec fn rule_refs(rule: RuleView) -> Seq<Seq<char>> {
    match rule {
        RuleView::Pattern(_) => Seq::empty(),
        RuleView::Sequence(members) => members,
        RuleView::Choice(members) => members,
        RuleView::Alias { named: _, value: _, content } => seq![content],
    }
}

/// Whether every symbol reference of every rule resolves to an entry of
/// the same rule map.
pub open spec fn refs_closed(rules: Seq<RuleEntryView>) -> bool {
    forall|i: int, j: int|
        0 <= i < rules.len() && 0 <= j < rule_refs(rules[i].rule).len() ==> has_id(
            rules,
            rule_refs(rules[i].rule)[j],
        )
}

/// Whether some entry of the rule map carries the given identifier;
/// the executable counterpart of `has_id`.
pub fn rules_contain_id(rules: &Vec<RuleEntry>, id: &String) -> (b: bool)
    ensures
        b == has_id(entries_view(rules@), id@),
{
    let mut i: usize = 0;
    while i < rules.len()
        invariant
            0 <= i <= rules@.len(),
            forall|k: int| 0 <= k < i ==> entries_view(rules@)[k].id != id@,
        decreases rules@.len() - i,
    {
        if rules[i].id == *id {
            assert(entries_view(rules@)[i as int].id == id@);
            return true;
        }
        i = i + 1;
    }
    false
}

} // verus!
