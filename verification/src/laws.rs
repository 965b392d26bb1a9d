//! Properties of every compiled grammar: rule identifiers are unique,
//! symbol references resolve within the same rule map, member order
//! follows declaration order, the top-level alias binds the single root
//! nonterminal, and compilation is deterministic.
use vstd::prelude::*;

use crate::compile::child_id;
use crate::compile::choice_entry;
use crate::compile::field_id;
use crate::compile::grammar_name;
use crate::compile::root_alias_entry;
use crate::compile::root_candidates;
use crate::compile::root_candidates_from;
use crate::compile::seq_entry;
use crate::compile::source_file_id;
use crate::compile::spec_gen_leaf;
use crate::compile::spec_generate_grammar;
use crate::compile::spec_insert;
use crate::compile::spec_items_from;
use crate::compile::spec_productions_from;
use crate::compile::spec_resolve_root;
use crate::compile::spec_variant_from;
use crate::error::CompileErrorView;
use crate::grammar::GrammarObjectView;
use crate::grammar::RuleEntryView;
use crate::grammar::RuleView;
use crate::grammar::has_id;
use crate::grammar::refs_closed;
use crate::grammar::rule_refs;
use crate::grammar::unique_ids;
use crate::json::grammar_json;
use crate::schema::ContainerView;
use crate::schema::FieldView;
use crate::schema::NonterminalView;
use crate::schema::SchemaItemView;

verus! {

/// Whether the rule map holds this exact entry.
pub open spec fn contains_entry(rules: Seq<RuleEntryView>, entry: RuleEntryView) -> bool {
    exists|n: int| 0 <= n < rules.len() && rules[n] == entry
}

/// Whether every symbol reference in the rule map resolves to an entry
/// of the map, except that references to `pardon` may stay open.
pub open spec fn almost_closed(rules: Seq<RuleEntryView>, pardon: Seq<char>) -> bool {
    forall|n: int, j: int|
        0 <= n < rules.len() && 0 <= j < rule_refs(rules[n].rule).len() ==> (has_id(
            rules,
            rule_refs(rules[n].rule)[j],
        ) || rule_refs(rules[n].rule)[j] == pardon)
}

/// Whether the rule map holds everything one nonterminal compiles to:
/// its choice rule and one sequence rule per production.
pub open spec fn nt_compiled_in(rules: Seq<RuleEntryView>, nt: NonterminalView) -> bool {
    contains_entry(rules, choice_entry(nt)) && forall|p: int|
        0 <= p < nt.productions.len() ==> contains_entry(
            rules,
            seq_entry(child_id(nt.name, nt.productions[p].name), nt.productions[p].fields),
        )
}

proof fn lemma_push_entry(rules: Seq<RuleEntryView>, entry: RuleEntryView)
    ensures
        forall|id: Seq<char>| #[trigger] has_id(rules, id) ==> has_id(rules.push(entry), id),
        has_id(rules.push(entry), entry.id),
        forall|x: RuleEntryView| #[trigger]
            contains_entry(rules, x) ==> contains_entry(rules.push(entry), x),
        contains_entry(rules.push(entry), entry),
        rules.push(entry).take(rules.len() as int) == rules,
{
    assert forall|id: Seq<char>| #[trigger] has_id(rules, id) implies has_id(
        rules.push(entry),
        id,
    ) by {
        let n = choose|n: int| 0 <= n < rules.len() && rules[n].id == id;
        assert(rules.push(entry)[n] == rules[n]);
    }
    assert(rules.push(entry)[rules.len() as int] == entry);
    assert forall|x: RuleEntryView| #[trigger] contains_entry(rules, x) implies contains_entry(
        rules.push(entry),
        x,
    ) by {
        let n = choose|n: int| 0 <= n < rules.len() && rules[n] == x;
        assert(rules.push(entry)[n] == rules[n]);
    }
    assert(rules.push(entry).take(rules.len() as int) =~= rules);
}

proof fn lemma_push_unique(rules: Seq<RuleEntryView>, entry: RuleEntryView)
    requires
        unique_ids(rules),
        !has_id(rules, entry.id),
    ensures
        unique_ids(rules.push(entry)),
{
    let bigger = rules.push(entry);
    assert forall|a: int, b: int| 0 <= a < b < bigger.len() implies bigger[a].id != bigger[b].id by {
        if b < rules.len() {
            assert(bigger[a] == rules[a] && bigger[b] == rules[b]);
        } else {
            assert(bigger[b] == entry);
            assert(bigger[a] == rules[a]);
            if rules[a].id == entry.id {
                assert(has_id(rules, entry.id));
            }
        }
    }
}

proof fn lemma_push_closed(rules: Seq<RuleEntryView>, entry: RuleEntryView, pardon: Seq<char>)
    requires
        almost_closed(rules, pardon),
        forall|j: int|
            0 <= j < rule_refs(entry.rule).len() ==> (has_id(rules, rule_refs(entry.rule)[j])
                || rule_refs(entry.rule)[j] == pardon),
    ensures
        almost_closed(rules.push(entry), pardon),
{
    lemma_push_entry(rules, entry);
    let bigger = rules.push(entry);
    assert forall|n: int, j: int|
        0 <= n < bigger.len() && 0 <= j < rule_refs(bigger[n].rule).len() implies (has_id(
        bigger,
        rule_refs(bigger[n].rule)[j],
    ) || rule_refs(bigger[n].rule)[j] == pardon) by {
        if n < rules.len() {
            assert(bigger[n] == rules[n]);
            assert(has_id(rules, rule_refs(rules[n].rule)[j]) || rule_refs(rules[n].rule)[j]
                == pardon);
        } else {
            assert(bigger[n] == entry);
        }
    }
}

proof fn lemma_prefix_mono(small: Seq<RuleEntryView>, big: Seq<RuleEntryView>)
    requires
        small.len() <= big.len(),
        big.take(small.len() as int) == small,
    ensures
        forall|id: Seq<char>| #[trigger] has_id(small, id) ==> has_id(big, id),
        forall|x: RuleEntryView| #[trigger] contains_entry(small, x) ==> contains_entry(big, x),
{
    assert forall|id: Seq<char>| #[trigger] has_id(small, id) implies has_id(big, id) by {
        let n = choose|n: int| 0 <= n < small.len() && small[n].id == id;
        assert(big.take(small.len() as int)[n] == big[n]);
    }
    assert forall|x: RuleEntryView| #[trigger] contains_entry(small, x) implies contains_entry(
        big,
        x,
    ) by {
        let n = choose|n: int| 0 <= n < small.len() && small[n] == x;
        assert(big.take(small.len() as int)[n] == big[n]);
    }
}

proof fn lemma_variant_from_ok(
    acc: Seq<RuleEntryView>,
    path: Seq<char>,
    fields: Seq<FieldView>,
    i: int,
    res: Seq<RuleEntryView>,
    pardon: Seq<char>,
)
    requires
        0 <= i <= fields.len(),
        spec_variant_from(acc, path, fields, i) == Result::<
            Seq<RuleEntryView>,
            CompileErrorView,
        >::Ok(res),
        unique_ids(acc),
        almost_closed(acc, pardon),
        forall|k: int| 0 <= k < i ==> has_id(acc, field_id(path, fields[k], k)),
    ensures
        unique_ids(res),
        almost_closed(res, pardon),
        acc.len() <= res.len(),
        res.take(acc.len() as int) == acc,
        has_id(res, path),
        contains_entry(res, seq_entry(path, fields)),
    decreases fields.len() - i,
{
    if i >= fields.len() {
        let entry = seq_entry(path, fields);
        assert(res == acc.push(entry) && !has_id(acc, entry.id));
        lemma_push_entry(acc, entry);
        lemma_push_unique(acc, entry);
        assert forall|j: int| 0 <= j < rule_refs(entry.rule).len() implies has_id(
            acc,
            rule_refs(entry.rule)[j],
        ) by {
            assert(rule_refs(entry.rule)[j] == field_id(path, fields[j], j));
        }
        lemma_push_closed(acc, entry, pardon);
    } else {
        let leaf_id = field_id(path, fields[i], i);
        let rule = spec_gen_leaf(leaf_id, fields[i])->Ok_0;
        let entry = RuleEntryView { id: leaf_id, rule };
        assert(spec_insert(acc, entry) == Result::<
            Seq<RuleEntryView>,
            CompileErrorView,
        >::Ok(acc.push(entry)));
        let acc2 = acc.push(entry);
        lemma_push_entry(acc, entry);
        lemma_push_unique(acc, entry);
        assert(rule is Pattern);
        assert(rule_refs(rule).len() == 0);
        lemma_push_closed(acc, entry, pardon);
        lemma_variant_from_ok(acc2, path, fields, i + 1, res, pardon);
        assert(res.take(acc2.len() as int).take(acc.len() as int) =~= res.take(acc.len() as int));
        assert(res.take(acc.len() as int) == acc);
    }
}

proof fn lemma_productions_from_ok(
    acc: Seq<RuleEntryView>,
    nt: NonterminalView,
    j: int,
    res: Seq<RuleEntryView>,
    pardon: Seq<char>,
)
    requires
        0 <= j <= nt.productions.len(),
        spec_productions_from(acc, nt, j) == Result::<
            Seq<RuleEntryView>,
            CompileErrorView,
        >::Ok(res),
        unique_ids(acc),
        almost_closed(acc, pardon),
        forall|k: int| 0 <= k < j ==> has_id(acc, child_id(nt.name, nt.productions[k].name)),
        forall|k: int|
            0 <= k < j ==> contains_entry(
                acc,
                seq_entry(child_id(nt.name, nt.productions[k].name), nt.productions[k].fields),
            ),
    ensures
        unique_ids(res),
        almost_closed(res, pardon),
        acc.len() <= res.len(),
        res.take(acc.len() as int) == acc,
        has_id(res, nt.name),
        nt_compiled_in(res, nt),
    decreases nt.productions.len() - j,
{
    if j >= nt.productions.len() {
        let entry = choice_entry(nt);
        assert(res == acc.push(entry) && !has_id(acc, entry.id));
        lemma_push_entry(acc, entry);
        lemma_push_unique(acc, entry);
        assert forall|m: int| 0 <= m < rule_refs(entry.rule).len() implies has_id(
            acc,
            rule_refs(entry.rule)[m],
        ) by {
            assert(rule_refs(entry.rule)[m] == child_id(nt.name, nt.productions[m].name));
        }
        lemma_push_closed(acc, entry, pardon);
    } else {
        let path = child_id(nt.name, nt.productions[j].name);
        let step = crate::compile::spec_gen_enum_variant(acc, path, nt.productions[j].fields);
        let acc2 = step->Ok_0;
        lemma_variant_from_ok(acc, path, nt.productions[j].fields, 0, acc2, pardon);
        lemma_prefix_mono(acc, acc2);
        lemma_productions_from_ok(acc2, nt, j + 1, res, pardon);
        assert(res.take(acc2.len() as int).take(acc.len() as int) =~= res.take(acc.len() as int));
        assert(res.take(acc.len() as int) == acc);
        lemma_prefix_mono(acc2, res);
    }
}

proof fn lemma_items_from_ok(
    acc: Seq<RuleEntryView>,
    items: Seq<SchemaItemView>,
    i: int,
    res: Seq<RuleEntryView>,
    pardon: Seq<char>,
)
    requires
        0 <= i <= items.len(),
        spec_items_from(acc, items, i) == Result::<Seq<RuleEntryView>, CompileErrorView>::Ok(res),
        unique_ids(acc),
        almost_closed(acc, pardon),
    ensures
        unique_ids(res),
        almost_closed(res, pardon),
        acc.len() <= res.len(),
        res.take(acc.len() as int) == acc,
        forall|k: int|
            i <= k < items.len() && items[k] is Nonterminal ==> nt_compiled_in(
                res,
                items[k]->Nonterminal_0,
            ),
    decreases items.len() - i,
{
    if i >= items.len() {
        assert(res == acc);
        assert(res.take(acc.len() as int) =~= acc);
    } else {
        match items[i] {
            SchemaItemView::Nonterminal(nt) => {
                let step = crate::compile::spec_gen_nonterminal(acc, nt);
                let acc2 = step->Ok_0;
                lemma_productions_from_ok(acc, nt, 0, acc2, pardon);
                lemma_items_from_ok(acc2, items, i + 1, res, pardon);
                assert(res.take(acc2.len() as int).take(acc.len() as int) =~= res.take(
                    acc.len() as int,
                ));
                assert(res.take(acc.len() as int) == acc);
                lemma_prefix_mono(acc2, res);
                assert forall|k: int|
                    i <= k < items.len() && items[k] is Nonterminal implies nt_compiled_in(
                    res,
                    items[k]->Nonterminal_0,
                ) by {
                    if k == i {
                        assert(nt_compiled_in(acc2, nt));
                        assert(contains_entry(res, choice_entry(nt)));
                        assert forall|p: int| 0 <= p < nt.productions.len() implies contains_entry(
                            res,
                            seq_entry(
                                child_id(nt.name, nt.productions[p].name),
                                nt.productions[p].fields,
                            ),
                        ) by {
                            assert(contains_entry(
                                acc2,
                                seq_entry(
                                    child_id(nt.name, nt.productions[p].name),
                                    nt.productions[p].fields,
                                ),
                            ));
                        }
                    }
                }
            },
            SchemaItemView::Container(_) => {
                lemma_items_from_ok(acc, items, i + 1, res, pardon);
            },
            SchemaItemView::Other(_) => {
                assert(false);
            },
        }
    }
}

proof fn lemma_root_candidate_witness(items: Seq<SchemaItemView>, i: int)
    requires
        0 <= i <= items.len(),
        root_candidates_from(items, i).len() > 0,
    ensures
        exists|k: int|
            i <= k < items.len() && items[k] is Nonterminal && items[k]->Nonterminal_0.is_root
                && items[k]->Nonterminal_0.name == root_candidates_from(items, i)[0],
    decreases items.len() - i,
{
    if i < items.len() {
        match items[i] {
            SchemaItemView::Nonterminal(nt) => {
                if nt.is_root {
                    assert(root_candidates_from(items, i)[0] == nt.name);
                } else {
                    lemma_root_candidate_witness(items, i + 1);
                }
            },
            _ => {
                lemma_root_candidate_witness(items, i + 1);
            },
        }
    }
}

proof fn lemma_generate_grammar_ok(group: ContainerView, g: GrammarObjectView)
    requires
        spec_generate_grammar(group) == Result::<GrammarObjectView, CompileErrorView>::Ok(g),
    ensures
        root_candidates(group.items).len() == 1,
        spec_resolve_root(group) == Result::<RuleEntryView, CompileErrorView>::Ok(
            root_alias_entry(root_candidates(group.items)[0]),
        ),
        spec_items_from(
            seq![root_alias_entry(root_candidates(group.items)[0])],
            group.items,
            0,
        ) == Result::<Seq<RuleEntryView>, CompileErrorView>::Ok(g.rules),
        g.name == grammar_name(),
{
}

/// Uniqueness: in a compiled grammar object, every rule identifier
/// appears exactly once in the rule map.
pub proof fn lemma_rule_ids_unique(group: ContainerView, g: GrammarObjectView)
    requires
        spec_generate_grammar(group) == Result::<GrammarObjectView, CompileErrorView>::Ok(g),
    ensures
        unique_ids(g.rules),
{
    lemma_generate_grammar_ok(group, g);
    let root = root_candidates(group.items)[0];
    let alias = root_alias_entry(root);
    let acc = seq![alias];
    assert(unique_ids(acc));
    assert(almost_closed(acc, root)) by {
        assert(rule_refs(alias.rule) == seq![root]);
        assert(rule_refs(acc[0].rule)[0] == root);
    }
    lemma_items_from_ok(acc, group.items, 0, g.rules, root);
}

/// Closure: in a compiled grammar object, every symbol reference of
/// every rule names a key of the same object's rule map.
pub proof fn lemma_rule_refs_closed(group: ContainerView, g: GrammarObjectView)
    requires
        spec_generate_grammar(group) == Result::<GrammarObjectView, CompileErrorView>::Ok(g),
    ensures
        refs_closed(g.rules),
{
    lemma_generate_grammar_ok(group, g);
    let root = root_candidates(group.items)[0];
    let alias = root_alias_entry(root);
    let acc = seq![alias];
    assert(almost_closed(acc, root)) by {
        assert(rule_refs(alias.rule) == seq![root]);
        assert(rule_refs(acc[0].rule)[0] == root);
    }
    lemma_items_from_ok(acc, group.items, 0, g.rules, root);
    lemma_root_candidate_witness(group.items, 0);
    let k = choose|k: int|
        0 <= k < group.items.len() && group.items[k] is Nonterminal
            && group.items[k]->Nonterminal_0.is_root && group.items[k]->Nonterminal_0.name == root;
    let nt = group.items[k]->Nonterminal_0;
    assert(nt_compiled_in(g.rules, nt));
    assert(has_id(g.rules, root)) by {
        assert(contains_entry(g.rules, choice_entry(nt)));
        let n = choose|n: int| 0 <= n < g.rules.len() && g.rules[n] == choice_entry(nt);
        assert(g.rules[n].id == root);
    }
    assert forall|n: int, j: int|
        0 <= n < g.rules.len() && 0 <= j < rule_refs(g.rules[n].rule).len() implies has_id(
        g.rules,
        rule_refs(g.rules[n].rule)[j],
    ) by {
        assert(has_id(g.rules, rule_refs(g.rules[n].rule)[j]) || rule_refs(g.rules[n].rule)[j]
            == root);
    }
}

/// Order preservation: in a compiled grammar object, a production's
/// sequence rule lists one symbol per field in field declaration order,
/// and a nonterminal's choice rule lists one symbol per production in
/// production declaration order.
pub proof fn lemma_order_preservation(
    group: ContainerView,
    g: GrammarObjectView,
    k: int,
    nt: NonterminalView,
)
    requires
        spec_generate_grammar(group) == Result::<GrammarObjectView, CompileErrorView>::Ok(g),
        0 <= k < group.items.len(),
        group.items[k] == SchemaItemView::Nonterminal(nt),
    ensures
        contains_entry(
            g.rules,
            RuleEntryView {
                id: nt.name,
                rule: RuleView::Choice(
                    Seq::new(
                        nt.productions.len(),
                        |p: int| child_id(nt.name, nt.productions[p].name),
                    ),
                ),
            },
        ),
        forall|p: int|
            0 <= p < nt.productions.len() ==> contains_entry(
                g.rules,
                RuleEntryView {
                    id: child_id(nt.name, nt.productions[p].name),
                    rule: RuleView::Sequence(
                        Seq::new(
                            nt.productions[p].fields.len(),
                            |f: int|
                                crate::compile::field_id(
                                    child_id(nt.name, nt.productions[p].name),
                                    nt.productions[p].fields[f],
                                    f,
                                ),
                        ),
                    ),
                },
            ),
{
    lemma_generate_grammar_ok(group, g);
    let root = root_candidates(group.items)[0];
    let alias = root_alias_entry(root);
    let acc = seq![alias];
    assert(almost_closed(acc, root)) by {
        assert(rule_refs(alias.rule) == seq![root]);
        assert(rule_refs(acc[0].rule)[0] == root);
    }
    lemma_items_from_ok(acc, group.items, 0, g.rules, root);
    assert(nt_compiled_in(g.rules, nt));
    assert(choice_entry(nt) == RuleEntryView {
        id: nt.name,
        rule: RuleView::Choice(
            Seq::new(nt.productions.len(), |p: int| child_id(nt.name, nt.productions[p].name)),
        ),
    });
}

/// Root aliasing: a compiled grammar object's first rule is keyed
/// `source_file` and is an unnamed alias whose display value and content
/// symbol both equal the name of the group's single root-marked
/// nonterminal.
pub proof fn lemma_root_alias(group: ContainerView, g: GrammarObjectView)
    requires
        spec_generate_grammar(group) == Result::<GrammarObjectView, CompileErrorView>::Ok(g),
    ensures
        root_candidates(group.items).len() == 1,
        g.rules.len() > 0,
        g.rules[0].id == source_file_id(),
        g.rules[0].rule == (RuleView::Alias {
            named: false,
            value: root_candidates(group.items)[0],
            content: root_candidates(group.items)[0],
        }),
{
    lemma_generate_grammar_ok(group, g);
    let root = root_candidates(group.items)[0];
    let alias = root_alias_entry(root);
    let acc = seq![alias];
    assert(almost_closed(acc, root)) by {
        assert(rule_refs(alias.rule) == seq![root]);
        assert(rule_refs(acc[0].rule)[0] == root);
    }
    lemma_items_from_ok(acc, group.items, 0, g.rules, root);
    assert(g.rules.take(1)[0] == g.rules[0]);
}

/// Naming determinism: compilation and serialization are functions of
/// the schema's contents alone, so compiling the same schema twice
/// yields the same grammar objects and byte-identical documents.
pub proof fn lemma_naming_determinism(group1: ContainerView, group2: ContainerView)
    requires
        group1 == group2,
    ensures
        spec_generate_grammar(group1) == spec_generate_grammar(group2),
        forall|o1: GrammarObjectView, o2: GrammarObjectView|
            spec_generate_grammar(group1) == Result::<
                GrammarObjectView,
                CompileErrorView,
            >::Ok(o1) && spec_generate_grammar(group2) == Result::<
                GrammarObjectView,
                CompileErrorView,
            >::Ok(o2) ==> grammar_json(o1) == grammar_json(o2),
{
}

proof fn lemma_variant_ok_fields(
    acc: Seq<RuleEntryView>,
    path: Seq<char>,
    fields: Seq<FieldView>,
    i: int,
    res: Seq<RuleEntryView>,
)
    requires
        0 <= i <= fields.len(),
        spec_variant_from(acc, path, fields, i) == Result::<
            Seq<RuleEntryView>,
            CompileErrorView,
        >::Ok(res),
    ensures
        forall|f: int|
            #![trigger fields[f]]
            i <= f < fields.len() ==> fields[f].leaf matches Option::Some(
                crate::schema::LeafSpecView::Pattern(_),
            ),
    decreases fields.len() - i,
{
    if i < fields.len() {
        let leaf_id = field_id(path, fields[i], i);
        let rule = spec_gen_leaf(leaf_id, fields[i])->Ok_0;
        let entry = RuleEntryView { id: leaf_id, rule };
        lemma_variant_ok_fields(acc.push(entry), path, fields, i + 1, res);
    }
}

proof fn lemma_productions_ok_fields(
    acc: Seq<RuleEntryView>,
    nt: NonterminalView,
    j: int,
    res: Seq<RuleEntryView>,
)
    requires
        0 <= j <= nt.productions.len(),
        spec_productions_from(acc, nt, j) == Result::<
            Seq<RuleEntryView>,
            CompileErrorView,
        >::Ok(res),
    ensures
        forall|p: int, f: int|
            #![trigger nt.productions[p].fields[f]]
            j <= p < nt.productions.len() && 0 <= f < nt.productions[p].fields.len()
                ==> nt.productions[p].fields[f].leaf matches Option::Some(
                crate::schema::LeafSpecView::Pattern(_),
            ),
    decreases nt.productions.len() - j,
{
    if j < nt.productions.len() {
        let path = child_id(nt.name, nt.productions[j].name);
        let step = crate::compile::spec_gen_enum_variant(acc, path, nt.productions[j].fields);
        let acc2 = step->Ok_0;
        lemma_variant_ok_fields(acc, path, nt.productions[j].fields, 0, acc2);
        lemma_productions_ok_fields(acc2, nt, j + 1, res);
    }
}

proof fn lemma_items_ok_well_formed(
    acc: Seq<RuleEntryView>,
    items: Seq<SchemaItemView>,
    i: int,
    res: Seq<RuleEntryView>,
)
    requires
        0 <= i <= items.len(),
        spec_items_from(acc, items, i) == Result::<Seq<RuleEntryView>, CompileErrorView>::Ok(res),
    ensures
        forall|k: int| i <= k < items.len() ==> !(items[k] is Other),
        forall|k: int|
            i <= k < items.len() && items[k] is Nonterminal ==> nonterminal_fields_ok(
                items[k]->Nonterminal_0,
            ),
    decreases items.len() - i,
{
    if i < items.len() {
        match items[i] {
            SchemaItemView::Nonterminal(nt) => {
                let step = crate::compile::spec_gen_nonterminal(acc, nt);
                let acc2 = step->Ok_0;
                lemma_productions_ok_fields(acc, nt, 0, acc2);
                lemma_items_ok_well_formed(acc2, items, i + 1, res);
            },
            SchemaItemView::Container(_) => {
                lemma_items_ok_well_formed(acc, items, i + 1, res);
            },
            SchemaItemView::Other(_) => {
                assert(false);
            },
        }
    }
}

/// Whether every field of every production of a nonterminal carries a
/// string-literal leaf pattern.
pub open spec fn nonterminal_fields_ok(nt: NonterminalView) -> bool {
    forall|p: int, f: int|
        #![trigger nt.productions[p].fields[f]]
        0 <= p < nt.productions.len() && 0 <= f < nt.productions[p].fields.len()
            ==> nt.productions[p].fields[f].leaf matches Option::Some(
            crate::schema::LeafSpecView::Pattern(_),
        )
}

/// Success is only ever owed to a well-formed group: a compiled grammar
/// object certifies that the group had exactly one root-marked
/// nonterminal, every item in it was a nonterminal or a nested
/// container, and every field of every production carried a
/// string-literal leaf pattern.
pub proof fn lemma_success_requires_well_formed_schema(group: ContainerView, g: GrammarObjectView)
    requires
        spec_generate_grammar(group) == Result::<GrammarObjectView, CompileErrorView>::Ok(g),
    ensures
        root_candidates(group.items).len() == 1,
        forall|k: int| 0 <= k < group.items.len() ==> !(group.items[k] is Other),
        forall|k: int|
            0 <= k < group.items.len() && group.items[k] is Nonterminal ==> nonterminal_fields_ok(
                group.items[k]->Nonterminal_0,
            ),
{
    lemma_generate_grammar_ok(group, g);
    let root = root_candidates(group.items)[0];
    let alias = root_alias_entry(root);
    lemma_items_ok_well_formed(seq![alias], group.items, 0, g.rules);
}

} // verus!
