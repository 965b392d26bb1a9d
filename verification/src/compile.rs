//! The schema-to-grammar compiler: pattern extraction, variant and
//! nonterminal compilation, root resolution, and grammar assembly.
//!
//! The specification functions in this module define, step by step, what
//! the compiler produces for a schema tree, including which error it
//! reports for a malformed schema; the executable functions are proved to
//! return exactly that.
use vstd::prelude::*;

use crate::decimal_seq;
use crate::decimal_string;
use crate::error::CompileError;
use crate::error::CompileErrorView;
use crate::grammar::GrammarObject;
use crate::grammar::GrammarObjectView;
use crate::grammar::Rule;
use crate::grammar::RuleEntry;
use crate::grammar::RuleEntryView;
use crate::grammar::RuleView;
use crate::grammar::entries_view;
use crate::grammar::has_id;
use crate::grammar::rules_contain_id;
use crate::schema::Container;
use crate::schema::ContainerView;
use crate::schema::container_view;
use crate::schema::Field;
use crate::schema::FieldView;
use crate::schema::LeafSpec;
use crate::schema::LeafSpecView;
use crate::schema::Nonterminal;
use crate::schema::NonterminalView;
use crate::schema::Production;
use crate::schema::SchemaItem;
use crate::schema::SchemaItemView;
use crate::schema::SchemaTree;
use vstd::string::StringExecFns;

verus! {

// ---------------------------------------------------------------------
// Rule identifiers
// ---------------------------------------------------------------------
/// The identifier of a child entity: the parent's identity, an
/// underscore, and the child's own name.
pub open spec fn child_id(path: Seq<char>, name: Seq<char>) -> Seq<char> {
    path + "_"@ + name
}

/// The name part a field contributes to its identifier: its declared
/// name, or its positional index for an unnamed field.
pub open spec fn field_name_part(field: FieldView, index: int) -> Seq<char> {
    match field.name {
        Option::Some(n) => n,
        Option::None => decimal_seq(index as nat),
    }
}

/// A field's fully qualified identifier under its production's identity.
pub open spec fn field_id(path: Seq<char>, field: FieldView, index: int) -> Seq<char> {
    child_id(path, field_name_part(field, index))
}

/// Joins a parent identity and a child name with an underscore.
fn child_id_string(path: &str, name: &str) -> (r: String)
    ensures
        r@ == child_id(path@, name@),
{
    let mut s = path.to_owned();
    s.append("_");
    s.append(name);
    s
}

/// The executable counterpart of `field_id`.
fn field_id_string(path: &str, field: &Field, index: usize) -> (r: String)
    ensures
        r@ == field_id(path@, field@, index as int),
{
    match &field.name {
        Option::Some(n) => child_id_string(path, n.as_str()),
        Option::None => {
            let digits = decimal_string(index);
            child_id_string(path, digits.as_str())
        },
    }
}

// ---------------------------------------------------------------------
// Pattern extraction
// ---------------------------------------------------------------------
/// What the pattern extractor returns for one field: the pattern rule if
/// the field's leaf annotation supplies a string literal pattern, and a
/// malformed-leaf error naming the field's identity path otherwise.
pub open spec fn spec_gen_leaf(path: Seq<char>, field: FieldView) -> Result<
    RuleView,
    CompileErrorView,
> {
    match field.leaf {
        Option::Some(LeafSpecView::Pattern(p)) => Result::Ok(RuleView::Pattern(p)),
        _ => Result::Err(CompileErrorView::MalformedLeafSpec(path)),
    }
}

/// The view of a pattern extraction result.
pub open spec fn leaf_result_view(r: Result<Rule, CompileError>) -> Result<
    RuleView,
    CompileErrorView,
> {
    match r {
        Result::Ok(rule) => Result::Ok(rule@),
        Result::Err(e) => Result::Err(e@),
    }
}

/// Extracts the pattern rule of one leaf field, identified by `path`.
pub fn gen_leaf(path: &String, field: &Field) -> (r: Result<Rule, CompileError>)
    ensures
        leaf_result_view(r) == spec_gen_leaf(path@, field@),
{
    match &field.leaf {
        Option::Some(LeafSpec::Pattern(p)) => Result::Ok(Rule::Pattern(p.clone())),
        _ => Result::Err(CompileError::MalformedLeafSpec(path.clone())),
    }
}

// ---------------------------------------------------------------------
// Variant compilation
// ---------------------------------------------------------------------
/// Inserting into the rule map: appends the entry, unless its identifier
/// is already taken, which is a duplicate-rule-name error.
pub open spec fn spec_insert(acc: Seq<RuleEntryView>, entry: RuleEntryView) -> Result<
    Seq<RuleEntryView>,
    CompileErrorView,
> {
    if has_id(acc, entry.id) {
        Result::Err(CompileErrorView::DuplicateRuleName(entry.id))
    } else {
        Result::Ok(acc.push(entry))
    }
}

/// The sequence rule of a production: one symbol reference per field, in
/// field declaration order, keyed by the production's identity.
pub open spec fn seq_entry(path: Seq<char>, fields: Seq<FieldView>) -> RuleEntryView {
    RuleEntryView {
        id: path,
        rule: RuleView::Sequence(Seq::new(fields.len(), |i: int| field_id(path, fields[i], i))),
    }
}

/// Compiling a production's fields from position `i` on: each field
/// contributes its pattern rule under its identifier, and the production
/// closes with its sequence rule.
pub open spec fn spec_variant_from(
    acc: Seq<RuleEntryView>,
    path: Seq<char>,
    fields: Seq<FieldView>,
    i: int,
) -> Result<Seq<RuleEntryView>, CompileErrorView>
    decreases fields.len() - i,
    when 0 <= i <= fields.len()
{
    if i >= fields.len() {
        spec_insert(acc, seq_entry(path, fields))
    } else {
        match spec_gen_leaf(field_id(path, fields[i], i), fields[i]) {
            Result::Ok(rule) => {
                match spec_insert(acc, RuleEntryView { id: field_id(path, fields[i], i), rule }) {
                    Result::Ok(acc2) => spec_variant_from(acc2, path, fields, i + 1),
                    Result::Err(e) => Result::Err(e),
                }
            },
            Result::Err(e) => Result::Err(e),
        }
    }
}

/// What the variant compiler adds to the rule map `acc` for one
/// production with identity `path`.
pub open spec fn spec_gen_enum_variant(
    acc: Seq<RuleEntryView>,
    path: Seq<char>,
    fields: Seq<FieldView>,
) -> Result<Seq<RuleEntryView>, CompileErrorView> {
    spec_variant_from(acc, path, fields, 0)
}

proof fn lemma_entries_view_push(entries: Seq<RuleEntry>, entry: RuleEntry)
    ensures
        entries_view(entries.push(entry)) == entries_view(entries).push(entry@),
{
    assert(entries_view(entries.push(entry)) =~= entries_view(entries).push(entry@));
}

/// Compiles one production (variant) into the shared rule map: one
/// pattern rule per field, then the production's sequence rule. On any
/// error the rule map is left as it was.
pub fn gen_enum_variant(path: &String, production: &Production, out: &mut Vec<RuleEntry>) -> (r:
    Result<(), CompileError>)
    ensures
        match r {
            Result::Ok(_) => spec_gen_enum_variant(
                entries_view(old(out)@),
                path@,
                production@.fields,
            ) == Result::<Seq<RuleEntryView>, CompileErrorView>::Ok(entries_view(final(out)@))
                && final(out)@.len() >= old(out)@.len() && final(out)@.subrange(
                0,
                old(out)@.len() as int,
            ) == old(out)@,
            Result::Err(e) => spec_gen_enum_variant(
                entries_view(old(out)@),
                path@,
                production@.fields,
            ) == Result::<Seq<RuleEntryView>, CompileErrorView>::Err(e@) && final(out)@ == old(
                out,
            )@,
        },
{
    let ghost acc0 = entries_view(out@);
    let ghost fv = production@.fields;
    let n0 = out.len();
    let mut members: Vec<String> = Vec::new();
    let mut i: usize = 0;
    while i < production.fields.len()
        invariant
            i <= production.fields.len(),
            fv == production@.fields,
            fv.len() == production.fields.len(),
            n0 <= out@.len(),
            out@.subrange(0, n0 as int) == old(out)@,
            acc0 == entries_view(old(out)@),
            spec_variant_from(acc0, path@, fv, 0) == spec_variant_from(
                entries_view(out@),
                path@,
                fv,
                i as int,
            ),
            members@.len() == i as nat,
            forall|k: int| 0 <= k < i ==> members@[k]@ == field_id(path@, fv[k], k),
        decreases production.fields.len() - i,
    {
        let field = &production.fields[i];
        proof {
            assert(fv[i as int] == field@);
        }
        let id = field_id_string(path.as_str(), field, i);
        match gen_leaf(&id, field) {
            Result::Ok(rule) => {
                if rules_contain_id(out, &id) {
                    out.truncate(n0);
                    proof {
                        assert(final(out)@ == old(out)@);
                    }
                    return Result::Err(CompileError::DuplicateRuleName(id));
                }
                let ghost pre = entries_view(out@);
                let id2 = id.clone();
                proof {
                    assert(id2@ == field_id(path@, fv[i as int], i as int));
                }
                members.push(id2);
                out.push(RuleEntry { id, rule });
                proof {
                    lemma_entries_view_push(
                        out@.subrange(0, out@.len() - 1),
                        out@[out@.len() - 1],
                    );
                    assert(out@.subrange(0, out@.len() - 1) =~= out@.drop_last());
                    assert(entries_view(out@) =~= pre.push(
                        RuleEntryView { id: field_id(path@, fv[i as int], i as int), rule: rule@ },
                    ));
                    assert(out@.subrange(0, n0 as int) =~= old(out)@);
                }
            },
            Result::Err(e) => {
                out.truncate(n0);
                proof {
                    assert(final(out)@ == old(out)@);
                }
                return Result::Err(e);
            },
        }
        i = i + 1;
    }
    if rules_contain_id(out, path) {
        out.truncate(n0);
        proof {
            assert(final(out)@ == old(out)@);
        }
        return Result::Err(CompileError::DuplicateRuleName(path.clone()));
    }
    let ghost pre = entries_view(out@);
    proof {
        assert(members.deep_view() =~= Seq::new(fv.len(), |k: int| field_id(path@, fv[k], k)));
    }
    out.push(RuleEntry { id: path.clone(), rule: Rule::Sequence(members) });
    proof {
        assert(out@.subrange(0, out@.len() - 1) =~= out@.drop_last());
        assert(entries_view(out@) =~= pre.push(seq_entry(path@, fv)));
        assert(out@.subrange(0, n0 as int) =~= old(out)@);
    }
    Result::Ok(())
}

// ---------------------------------------------------------------------
// Root resolution
// ---------------------------------------------------------------------
/// The names of the root-marked nonterminals among a group's items from
/// position `i` on, in declaration order.
pub open spec fn root_candidates_from(items: Seq<SchemaItemView>, i: int) -> Seq<Seq<char>>
    decreases items.len() - i,
    when 0 <= i <= items.len()
{
    if i >= items.len() {
        Seq::empty()
    } else {
        (match items[i] {
            SchemaItemView::Nonterminal(nt) => if nt.is_root {
                seq![nt.name]
            } else {
                Seq::empty()
            },
            _ => Seq::empty(),
        }) + root_candidates_from(items, i + 1)
    }
}

/// All root candidates of a group, in declaration order.
pub open spec fn root_candidates(items: Seq<SchemaItemView>) -> Seq<Seq<char>> {
    root_candidates_from(items, 0)
}

/// The identifier of the grammar's top-level rule.
pub open spec fn source_file_id() -> Seq<char> {
    "source_file"@
}

/// The top-level alias rule: an unnamed alias whose display value and
/// content symbol are both the root nonterminal's name.
pub open spec fn root_alias_entry(root: Seq<char>) -> RuleEntryView {
    RuleEntryView {
        id: source_file_id(),
        rule: RuleView::Alias { named: false, value: root, content: root },
    }
}

/// What the root resolver returns: the top-level alias rule if the group
/// has exactly one root-marked nonterminal, and a missing-root or
/// ambiguous-root error otherwise.
pub open spec fn spec_resolve_root(group: ContainerView) -> Result<
    RuleEntryView,
    CompileErrorView,
> {
    let roots = root_candidates(group.items);
    if roots.len() == 0 {
        Result::Err(CompileErrorView::MissingRootAnnotation(group.name))
    } else if roots.len() > 1 {
        Result::Err(CompileErrorView::AmbiguousRootAnnotation(roots))
    } else {
        Result::Ok(root_alias_entry(roots[0]))
    }
}

/// The view of a root resolution result.
pub open spec fn root_result_view(r: Result<RuleEntry, CompileError>) -> Result<
    RuleEntryView,
    CompileErrorView,
> {
    match r {
        Result::Ok(entry) => Result::Ok(entry@),
        Result::Err(e) => Result::Err(e@),
    }
}

/// Locates the group's single root-marked nonterminal and produces the
/// top-level alias rule binding the external source-file symbol to it.
pub fn resolve_root(group: &Container) -> (r: Result<RuleEntry, CompileError>)
    ensures
        root_result_view(r) == spec_resolve_root(group@),
{
    let ghost itemsv = group@.items;
    proof {
        crate::schema::lemma_schema_items_view(group.items@);
        assert(Seq::<Seq<char>>::empty() + root_candidates_from(itemsv, 0) =~= root_candidates_from(itemsv, 0));
    }
    let mut candidates: Vec<String> = Vec::new();
    let mut i: usize = 0;
    while i < group.items.len()
        invariant
            i <= group.items.len(),
            itemsv == group@.items,
            itemsv.len() == group.items@.len(),
            candidates.deep_view() + root_candidates_from(itemsv, i as int) == root_candidates_from(itemsv, 0),
        decreases group.items.len() - i,
    {
        proof {
            crate::schema::lemma_schema_items_view(group.items@);
        }
        let ghost dpre = candidates.deep_view();
        match &group.items[i] {
            SchemaItem::Nonterminal(nt) => {
                if nt.is_root {
                    candidates.push(nt.name.clone());
                    proof {
                        assert(candidates.deep_view() =~= dpre.push(nt.name@));
                        assert(dpre.push(nt.name@) =~= dpre + seq![nt.name@]);
                        assert((dpre + seq![nt.name@]) + root_candidates_from(itemsv, i + 1)
                            =~= dpre + (seq![nt.name@] + root_candidates_from(itemsv, i + 1)));
                    }
                }
            },
            _ => {},
        }
        proof {
            assert(dpre + (Seq::<Seq<char>>::empty() + root_candidates_from(itemsv, i + 1))
                =~= dpre + root_candidates_from(itemsv, i + 1));
        }
        i = i + 1;
    }
    proof {
        assert(candidates.deep_view() + Seq::<Seq<char>>::empty() =~= candidates.deep_view());
    }
    if candidates.len() == 0 {
        Result::Err(CompileError::MissingRootAnnotation(group.name.clone()))
    } else if candidates.len() > 1 {
        Result::Err(CompileError::AmbiguousRootAnnotation(candidates))
    } else {
        let root = &candidates[0];
        proof {
            assert(root@ == candidates.deep_view()[0]);
        }
        Result::Ok(
            RuleEntry {
                id: "source_file".to_owned(),
                rule: Rule::Alias { named: false, value: root.clone(), content: root.clone() },
            },
        )
    }
}

// ---------------------------------------------------------------------
// Nonterminal compilation
// ---------------------------------------------------------------------
/// The symbol references of a nonterminal's choice rule: one per
/// production, in declaration order.
pub open spec fn choice_members(nt: NonterminalView) -> Seq<Seq<char>> {
    Seq::new(nt.productions.len(), |j: int| child_id(nt.name, nt.productions[j].name))
}

/// The choice rule of a nonterminal, keyed by the nonterminal's name.
pub open spec fn choice_entry(nt: NonterminalView) -> RuleEntryView {
    RuleEntryView { id: nt.name, rule: RuleView::Choice(choice_members(nt)) }
}

/// Compiling a nonterminal's productions from position `j` on: each
/// production contributes its rules, and the nonterminal closes with its
/// choice rule.
pub open spec fn spec_productions_from(
    acc: Seq<RuleEntryView>,
    nt: NonterminalView,
    j: int,
) -> Result<Seq<RuleEntryView>, CompileErrorView>
    decreases nt.productions.len() - j,
    when 0 <= j <= nt.productions.len()
{
    if j >= nt.productions.len() {
        spec_insert(acc, choice_entry(nt))
    } else {
        match spec_gen_enum_variant(
            acc,
            child_id(nt.name, nt.productions[j].name),
            nt.productions[j].fields,
        ) {
            Result::Ok(acc2) => spec_productions_from(acc2, nt, j + 1),
            Result::Err(e) => Result::Err(e),
        }
    }
}

/// What the nonterminal compiler adds to the rule map `acc` for one
/// nonterminal.
pub open spec fn spec_gen_nonterminal(acc: Seq<RuleEntryView>, nt: NonterminalView) -> Result<
    Seq<RuleEntryView>,
    CompileErrorView,
> {
    spec_productions_from(acc, nt, 0)
}

/// Compiles one nonterminal into the shared rule map: every production's
/// rules, then the nonterminal's choice rule. On any error the rule map
/// is left as it was.
pub fn gen_nonterminal(nt: &Nonterminal, out: &mut Vec<RuleEntry>) -> (r: Result<
    (),
    CompileError,
>)
    ensures
        match r {
            Result::Ok(_) => spec_gen_nonterminal(entries_view(old(out)@), nt@) == Result::<
                Seq<RuleEntryView>,
                CompileErrorView,
            >::Ok(entries_view(final(out)@)) && final(out)@.len() >= old(out)@.len() && final(out)@.subrange(
                0,
                old(out)@.len() as int,
            ) == old(out)@,
            Result::Err(e) => spec_gen_nonterminal(entries_view(old(out)@), nt@) == Result::<
                Seq<RuleEntryView>,
                CompileErrorView,
            >::Err(e@) && final(out)@ == old(out)@,
        },
{
    let ghost acc0 = entries_view(out@);
    let ghost ntv = nt@;
    let n0 = out.len();
    let mut members: Vec<String> = Vec::new();
    let mut j: usize = 0;
    while j < nt.productions.len()
        invariant
            j <= nt.productions.len(),
            ntv == nt@,
            ntv.productions.len() == nt.productions@.len(),
            n0 == old(out)@.len(),
            n0 <= out@.len(),
            out@.subrange(0, n0 as int) == old(out)@,
            acc0 == entries_view(old(out)@),
            spec_productions_from(acc0, ntv, 0) == spec_productions_from(
                entries_view(out@),
                ntv,
                j as int,
            ),
            members@.len() == j as nat,
            forall|k: int|
                0 <= k < j ==> members@[k]@ == child_id(ntv.name, ntv.productions[k].name),
        decreases nt.productions.len() - j,
    {
        let prod = &nt.productions[j];
        proof {
            assert(ntv.productions[j as int] == prod@);
        }
        let path = child_id_string(nt.name.as_str(), prod.name.as_str());
        let ghost opre = out@;
        match gen_enum_variant(&path, prod, out) {
            Result::Ok(_) => {
                members.push(path);
                proof {
                    assert(out@.subrange(0, n0 as int) =~= opre.subrange(0, n0 as int));
                }
            },
            Result::Err(e) => {
                out.truncate(n0);
                proof {
                    assert(final(out)@ == old(out)@);
                }
                return Result::Err(e);
            },
        }
        j = j + 1;
    }
    if rules_contain_id(out, &nt.name) {
        out.truncate(n0);
        proof {
            assert(final(out)@ == old(out)@);
        }
        return Result::Err(CompileError::DuplicateRuleName(nt.name.clone()));
    }
    let ghost pre = entries_view(out@);
    proof {
        assert(members.deep_view() =~= choice_members(ntv));
    }
    out.push(RuleEntry { id: nt.name.clone(), rule: Rule::Choice(members) });
    proof {
        assert(out@.subrange(0, out@.len() - 1) =~= out@.drop_last());
        assert(entries_view(out@) =~= pre.push(choice_entry(ntv)));
        assert(out@.subrange(0, n0 as int) =~= old(out)@);
    }
    Result::Ok(())
}

// ---------------------------------------------------------------------
// Grammar assembly
// ---------------------------------------------------------------------
/// Compiling a group's items from position `i` on into the rule map
/// `acc`: nonterminals contribute their rules, nested containers are
/// discovered separately and contribute nothing here, and any other item
/// is an unsupported-schema-item error.
pub open spec fn spec_items_from(
    acc: Seq<RuleEntryView>,
    items: Seq<SchemaItemView>,
    i: int,
) -> Result<Seq<RuleEntryView>, CompileErrorView>
    decreases items.len() - i,
    when 0 <= i <= items.len()
{
    if i >= items.len() {
        Result::Ok(acc)
    } else {
        match items[i] {
            SchemaItemView::Nonterminal(nt) => match spec_gen_nonterminal(acc, nt) {
                Result::Ok(acc2) => spec_items_from(acc2, items, i + 1),
                Result::Err(e) => Result::Err(e),
            },
            SchemaItemView::Container(_) => spec_items_from(acc, items, i + 1),
            SchemaItemView::Other(d) => Result::Err(CompileErrorView::UnsupportedSchemaItem(d)),
        }
    }
}

/// The name every grammar object carries.
pub open spec fn grammar_name() -> Seq<char> {
    "grammar"@
}

/// What compiling one grammar group yields: the top-level alias rule
/// followed by every nonterminal's rules, as one named grammar object,
/// or the first error the traversal meets.
pub open spec fn spec_generate_grammar(group: ContainerView) -> Result<
    GrammarObjectView,
    CompileErrorView,
> {
    match spec_resolve_root(group) {
        Result::Err(e) => Result::Err(e),
        Result::Ok(alias) => match spec_items_from(seq![alias], group.items, 0) {
            Result::Ok(rules) => Result::Ok(GrammarObjectView { name: grammar_name(), rules }),
            Result::Err(e) => Result::Err(e),
        },
    }
}

/// The view of a grammar compilation result.
pub open spec fn grammar_result_view(r: Result<GrammarObject, CompileError>) -> Result<
    GrammarObjectView,
    CompileErrorView,
> {
    match r {
        Result::Ok(g) => Result::Ok(g@),
        Result::Err(e) => Result::Err(e@),
    }
}

/// Compiles one grammar group: resolves the root, compiles every
/// nonterminal, and assembles all rules into one grammar object. Fails
/// atomically: on error no grammar object is produced for the group.
pub fn generate_grammar(group: &Container) -> (r: Result<GrammarObject, CompileError>)
    ensures
        grammar_result_view(r) == spec_generate_grammar(group@),
{
    let alias = match resolve_root(group) {
        Result::Ok(a) => a,
        Result::Err(e) => {
            return Result::Err(e);
        },
    };
    let mut rules: Vec<RuleEntry> = Vec::new();
    rules.push(alias);
    let ghost itemsv = group@.items;
    let ghost acc0 = entries_view(rules@);
    proof {
        crate::schema::lemma_schema_items_view(group.items@);
        assert(acc0 =~= seq![alias@]);
    }
    let mut i: usize = 0;
    while i < group.items.len()
        invariant
            i <= group.items.len(),
            itemsv == group@.items,
            itemsv.len() == group.items@.len(),
            acc0 == seq![alias@],
            spec_resolve_root(group@) == Result::<RuleEntryView, CompileErrorView>::Ok(alias@),
            spec_items_from(acc0, itemsv, 0) == spec_items_from(
                entries_view(rules@),
                itemsv,
                i as int,
            ),
        decreases group.items.len() - i,
    {
        proof {
            crate::schema::lemma_schema_items_view(group.items@);
        }
        match &group.items[i] {
            SchemaItem::Nonterminal(nt) => {
                proof {
                    assert(itemsv[i as int] == SchemaItemView::Nonterminal(nt@));
                }
                match gen_nonterminal(nt, &mut rules) {
                    Result::Ok(_) => {},
                    Result::Err(e) => {
                        proof {
                            assert(spec_items_from(entries_view(rules@), itemsv, i as int)
                                == Result::<Seq<RuleEntryView>, CompileErrorView>::Err(e@));
                            assert(spec_items_from(acc0, itemsv, 0) == Result::<
                                Seq<RuleEntryView>,
                                CompileErrorView,
                            >::Err(e@));
                            assert(spec_resolve_root(group@) == Result::<
                                RuleEntryView,
                                CompileErrorView,
                            >::Ok(alias@));
                            assert(spec_generate_grammar(group@) == Result::<
                                GrammarObjectView,
                                CompileErrorView,
                            >::Err(e@));
                        }
                        return Result::Err(e);
                    },
                }
            },
            SchemaItem::Container(_) => {
                proof {
                    assert(itemsv[i as int] is Container);
                }
            },
            SchemaItem::Other(d) => {
                proof {
                    assert(itemsv[i as int] == SchemaItemView::Other(d@));
                    assert(spec_items_from(entries_view(rules@), itemsv, i as int) == Result::<
                        Seq<RuleEntryView>,
                        CompileErrorView,
                    >::Err(CompileErrorView::UnsupportedSchemaItem(d@)));
                    assert(spec_resolve_root(group@) == Result::<
                        RuleEntryView,
                        CompileErrorView,
                    >::Ok(alias@));
                }
                return Result::Err(CompileError::UnsupportedSchemaItem(d.clone()));
            },
        }
        i = i + 1;
    }
    Result::Ok(GrammarObject { name: "grammar".to_owned(), rules })
}

// ---------------------------------------------------------------------
// Whole-tree assembly
// ---------------------------------------------------------------------
/// The compilation results one schema item contributes: every grammar
/// discovered in nested containers first, then the item's own grammar if
/// it is a grammar-marked container.
pub open spec fn spec_item_grammars(item: SchemaItemView) -> Seq<
    Result<GrammarObjectView, CompileErrorView>,
>
    decreases item, 0int,
{
    match item {
        SchemaItemView::Container(c) => spec_items_grammars_from(c.items, 0) + (if c.is_grammar {
            seq![spec_generate_grammar(c)]
        } else {
            Seq::empty()
        }),
        _ => Seq::empty(),
    }
}

/// The compilation results of all grammars discovered among `items` from
/// position `i` on.
pub open spec fn spec_items_grammars_from(items: Seq<SchemaItemView>, i: int) -> Seq<
    Result<GrammarObjectView, CompileErrorView>,
>
    decreases items, items.len() - i + 1,
    when 0 <= i <= items.len()
{
    if i >= items.len() {
        Seq::empty()
    } else {
        spec_item_grammars(items[i]) + spec_items_grammars_from(items, i + 1)
    }
}

/// The element-wise view of a sequence of compilation results.
pub open spec fn grammar_results_view(rs: Seq<Result<GrammarObject, CompileError>>) -> Seq<
    Result<GrammarObjectView, CompileErrorView>,
> {
    Seq::new(rs.len(), |i: int| grammar_result_view(rs[i]))
}

/// Walks one schema item, compiling every grammar-marked container found
/// at any nesting depth, and appends the results in discovery order:
/// nested grammars first, then the item's own grammar if it is marked.
pub fn generate_all_grammars(item: &SchemaItem, out: &mut Vec<Result<GrammarObject, CompileError>>)
    ensures
        grammar_results_view(final(out)@) == grammar_results_view(old(out)@) + spec_item_grammars(
            item@,
        ),
    decreases *item,
{
    match item {
        SchemaItem::Container(c) => {
            let ghost citems = container_view(*c).items;
            proof {
                crate::schema::lemma_schema_items_view(c.items@);
            }
            let mut i: usize = 0;
            while i < c.items.len()
                invariant
                    i <= c.items.len(),
                    *item == SchemaItem::Container(*c),
                    citems == container_view(*c).items,
                    citems.len() == c.items@.len(),
                    grammar_results_view(old(out)@) + spec_items_grammars_from(citems, 0)
                        == grammar_results_view(out@) + spec_items_grammars_from(
                        citems,
                        i as int,
                    ),
                decreases c.items.len() - i,
            {
                proof {
                    crate::schema::lemma_schema_items_view(c.items@);
                    assert(*item == SchemaItem::Container(*c));
                    assert(decreases_to!(*item => (*item)->Container_0));
                    assert(decreases_to!(*c => c.items));
                    assert(decreases_to!(c.items => c.items@));
                    assert(decreases_to!(c.items@ => c.items@[i as int]));
                }
                let ghost opre = grammar_results_view(out@);
                generate_all_grammars(&c.items[i], out);
                proof {
                    assert((opre + spec_item_grammars(citems[i as int]))
                        + spec_items_grammars_from(citems, i + 1) =~= opre + (spec_item_grammars(
                        citems[i as int],
                    ) + spec_items_grammars_from(citems, i + 1)));
                }
                i = i + 1;
            }
            if c.is_grammar {
                let ghost opre = grammar_results_view(out@);
                let g = generate_grammar(c);
                out.push(g);
                proof {
                    assert(grammar_results_view(out@) =~= opre.push(spec_generate_grammar(
                        container_view(*c),
                    )));
                    assert(opre.push(spec_generate_grammar(container_view(*c))) =~= opre + seq![
                        spec_generate_grammar(container_view(*c)),
                    ]);
                    assert((grammar_results_view(old(out)@) + spec_items_grammars_from(citems, 0))
                        + seq![spec_generate_grammar(container_view(*c))]
                        =~= grammar_results_view(old(out)@) + (spec_items_grammars_from(citems, 0)
                        + seq![spec_generate_grammar(container_view(*c))]));
                }
            } else {
                proof {
                    assert(grammar_results_view(out@) =~= grammar_results_view(out@)
                        + Seq::<Result<GrammarObjectView, CompileErrorView>>::empty());
                    assert((grammar_results_view(old(out)@) + spec_items_grammars_from(citems, 0))
                        + Seq::<Result<GrammarObjectView, CompileErrorView>>::empty()
                        =~= grammar_results_view(old(out)@) + (spec_items_grammars_from(citems, 0)
                        + Seq::<Result<GrammarObjectView, CompileErrorView>>::empty()));
                }
            }
        },
        _ => {
            proof {
                assert(grammar_results_view(out@) =~= grammar_results_view(out@) + Seq::<
                    Result<GrammarObjectView, CompileErrorView>,
                >::empty());
            }
        },
    }
}

/// Compiles every grammar group found anywhere in the schema tree,
/// returning one result per group in discovery order: a grammar object
/// for each group that compiles, and that group's error otherwise.
pub fn generate_grammars(tree: &SchemaTree) -> (r: Vec<Result<GrammarObject, CompileError>>)
    ensures
        grammar_results_view(r@) == spec_items_grammars_from(tree@, 0),
{
    let ghost itemsv = tree@;
    proof {
        crate::schema::lemma_schema_items_view(tree.items@);
    }
    let mut out: Vec<Result<GrammarObject, CompileError>> = Vec::new();
    proof {
        assert(grammar_results_view(out@) =~= Seq::<
            Result<GrammarObjectView, CompileErrorView>,
        >::empty());
    }
    let mut i: usize = 0;
    while i < tree.items.len()
        invariant
            i <= tree.items.len(),
            itemsv == tree@,
            itemsv.len() == tree.items@.len(),
            grammar_results_view(out@) + spec_items_grammars_from(itemsv, i as int)
                == spec_items_grammars_from(itemsv, 0),
        decreases tree.items.len() - i,
    {
        proof {
            crate::schema::lemma_schema_items_view(tree.items@);
        }
        let ghost opre = grammar_results_view(out@);
        generate_all_grammars(&tree.items[i], &mut out);
        proof {
            assert((opre + spec_item_grammars(itemsv[i as int])) + spec_items_grammars_from(
                itemsv,
                i + 1,
            ) =~= opre + (spec_item_grammars(itemsv[i as int]) + spec_items_grammars_from(
                itemsv,
                i + 1,
            )));
        }
        i = i + 1;
    }
    proof {
        assert(grammar_results_view(out@) + Seq::<
            Result<GrammarObjectView, CompileErrorView>,
        >::empty() =~= grammar_results_view(out@));
    }
    out
}

} // verus!
