//! Serialization of grammar objects to their wire format: one compact
//! JSON document per grammar, with the exact key names and type tags the
//! downstream parser generator expects.
use vstd::prelude::*;

use crate::digit_char;
use crate::grammar::GrammarObject;
use crate::grammar::GrammarObjectView;
use crate::grammar::Rule;
use crate::grammar::RuleEntryView;
use crate::grammar::RuleView;
use vstd::string::StrSliceExecFns;
use vstd::string::StringExecFns;

verus! {

/// A lower-case hexadecimal digit character for a value below sixteen.
pub open spec fn hex_char(d: nat) -> char {
    if d < 10 {
        digit_char(d)
    } else if d == 10 {
        'a'
    } else if d == 11 {
        'b'
    } else if d == 12 {
        'c'
    } else if d == 13 {
        'd'
    } else if d == 14 {
        'e'
    } else {
        'f'
    }
}

fn hex_to_char(d: u32) -> (c: char)
    requires
        d < 16,
    ensures
        c == hex_char(d as nat),
{
    if d == 0 {
        '0'
    } else if d == 1 {
        '1'
    } else if d == 2 {
        '2'
    } else if d == 3 {
        '3'
    } else if d == 4 {
        '4'
    } else if d == 5 {
        '5'
    } else if d == 6 {
        '6'
    } else if d == 7 {
        '7'
    } else if d == 8 {
        '8'
    } else if d == 9 {
        '9'
    } else if d == 10 {
        'a'
    } else if d == 11 {
        'b'
    } else if d == 12 {
        'c'
    } else if d == 13 {
        'd'
    } else if d == 14 {
        'e'
    } else {
        'f'
    }
}

/// How one character appears inside a JSON string literal: quotes,
/// backslashes and control characters are escaped, everything else
/// stands as itself.
pub open spec fn escape_char(c: char) -> Seq<char> {
    if c == '"' {
        "\\\""@
    } else if c == '\\' {
        "\\\\"@
    } else if c == '\n' {
        "\\n"@
    } else if c == '\r' {
        "\\r"@
    } else if c == '\t' {
        "\\t"@
    } else if c == '\u{8}' {
        "\\b"@
    } else if c == '\u{c}' {
        "\\f"@
    } else if (c as u32) < 32 {
        "\\u00"@.push(hex_char(((c as u32) / 16) as nat)).push(hex_char(((c as u32) % 16) as nat))
    } else {
        seq![c]
    }
}

/// The escaped body of a JSON string literal.
pub open spec fn escape_seq(s: Seq<char>) -> Seq<char>
    decreases s.len(),
{
    if s.len() == 0 {
        Seq::empty()
    } else {
        escape_seq(s.drop_last()) + escape_char(s.last())
    }
}

/// A complete JSON string literal, quotes included.
pub open spec fn json_string(s: Seq<char>) -> Seq<char> {
    "\""@ + escape_seq(s) + "\""@
}

/// A symbol reference object.
pub open spec fn symbol_json(name: Seq<char>) -> Seq<char> {
    "{\"type\":\"SYMBOL\",\"name\":"@ + json_string(name) + "}"@
}

/// A comma-separated list of symbol reference objects.
pub open spec fn members_json(names: Seq<Seq<char>>) -> Seq<char>
    decreases names.len(),
{
    if names.len() == 0 {
        Seq::empty()
    } else if names.len() == 1 {
        symbol_json(names[0])
    } else {
        members_json(names.drop_last()) + ","@ + symbol_json(names.last())
    }
}

/// One rule body in its wire shape.
pub open spec fn rule_json(rule: RuleView) -> Seq<char> {
    match rule {
        RuleView::Pattern(p) => "{\"type\":\"PATTERN\",\"value\":"@ + json_string(p) + "}"@,
        RuleView::Sequence(members) => "{\"type\":\"SEQ\",\"members\":["@ + members_json(members)
            + "]}"@,
        RuleView::Choice(members) => "{\"type\":\"CHOICE\",\"members\":["@ + members_json(members)
            + "]}"@,
        RuleView::Alias { named, value, content } => "{\"type\":\"ALIAS\",\"named\":"@ + (if named {
            "true"@
        } else {
            "false"@
        }) + ",\"value\":"@ + json_string(value) + ",\"content\":"@ + symbol_json(content) + "}"@,
    }
}

/// One rule map entry: the identifier as a JSON key, then the rule body.
pub open spec fn entry_json(entry: RuleEntryView) -> Seq<char> {
    json_string(entry.id) + ":"@ + rule_json(entry.rule)
}

/// The comma-separated entries of the rule map, in map order.
pub open spec fn entries_json(entries: Seq<RuleEntryView>) -> Seq<char>
    decreases entries.len(),
{
    if entries.len() == 0 {
        Seq::empty()
    } else if entries.len() == 1 {
        entry_json(entries[0])
    } else {
        entries_json(entries.drop_last()) + ","@ + entry_json(entries.last())
    }
}

/// The complete wire document of one grammar object.
pub open spec fn grammar_json(g: GrammarObjectView) -> Seq<char> {
    "{\"name\":"@ + json_string(g.name) + ",\"rules\":{"@ + entries_json(g.rules) + "}}"@
}

fn escape_into(out: &mut String, s: &str)
    ensures
        final(out)@ == old(out)@ + escape_seq(s@),
{
    let len = s.unicode_len();
    proof {
        assert(old(out)@ + escape_seq(s@.take(0)) =~= old(out)@);
    }
    let mut i: usize = 0;
    while i < len
        invariant
            i <= len,
            len == s@.len(),
            out@ == old(out)@ + escape_seq(s@.take(i as int)),
        decreases len - i,
    {
        let ghost pre = out@;
        let c = s.get_char(i);
        if c == '"' {
            out.append("\\\"");
        } else if c == '\\' {
            out.append("\\\\");
        } else if c == '\n' {
            out.append("\\n");
        } else if c == '\r' {
            out.append("\\r");
        } else if c == '\t' {
            out.append("\\t");
        } else if c == '\u{8}' {
            out.append("\\b");
        } else if c == '\u{c}' {
            out.append("\\f");
        } else if (c as u32) < 32 {
            let code = c as u32;
            out.append("\\u00");
            out.push(hex_to_char(code / 16));
            out.push(hex_to_char(code % 16));
            proof {
                assert(out@ =~= pre + escape_char(c));
            }
        } else {
            out.push(c);
            proof {
                assert(out@ =~= pre + escape_char(c));
            }
        }
        proof {
            assert(s@.take(i + 1).drop_last() =~= s@.take(i as int));
            assert(s@.take(i + 1).last() == s@[i as int]);
            assert(out@ =~= old(out)@ + escape_seq(s@.take(i + 1)));
        }
        i = i + 1;
    }
    proof {
        assert(s@.take(len as int) =~= s@);
    }
}

fn json_string_into(out: &mut String, s: &str)
    ensures
        final(out)@ == old(out)@ + json_string(s@),
{
    out.append("\"");
    escape_into(out, s);
    out.append("\"");
    proof {
        assert(final(out)@ =~= old(out)@ + json_string(s@));
    }
}

fn symbol_into(out: &mut String, name: &str)
    ensures
        final(out)@ == old(out)@ + symbol_json(name@),
{
    out.append("{\"type\":\"SYMBOL\",\"name\":");
    json_string_into(out, name);
    out.append("}");
    proof {
        assert(final(out)@ =~= old(out)@ + symbol_json(name@));
    }
}

fn members_into(out: &mut String, names: &Vec<String>)
    ensures
        final(out)@ == old(out)@ + members_json(names.deep_view()),
{
    let ghost nv = names.deep_view();
    proof {
        assert(nv.len() == names@.len());
        assert(forall|k: int| 0 <= k < names@.len() ==> nv[k] == names@[k]@);
        assert(old(out)@ + members_json(nv.take(0)) =~= old(out)@);
    }
    let mut i: usize = 0;
    while i < names.len()
        invariant
            i <= names@.len(),
            nv == names.deep_view(),
            nv.len() == names@.len(),
            forall|k: int| 0 <= k < names@.len() ==> nv[k] == names@[k]@,
            out@ == old(out)@ + members_json(nv.take(i as int)),
        decreases names@.len() - i,
    {
        let ghost pre = out@;
        if i > 0 {
            out.append(",");
        }
        symbol_into(out, names[i].as_str());
        proof {
            assert(nv.take(i + 1).drop_last() =~= nv.take(i as int));
            assert(nv.take(i + 1).last() == nv[i as int]);
            if i == 0 {
                assert(members_json(nv.take(1)) == symbol_json(nv[0]));
                assert(out@ =~= old(out)@ + members_json(nv.take(1)));
            } else {
                assert(members_json(nv.take(i + 1)) == members_json(nv.take(i as int)) + ","@
                    + symbol_json(nv[i as int]));
                assert(out@ =~= old(out)@ + members_json(nv.take(i + 1)));
            }
        }
        i = i + 1;
    }
    proof {
        assert(nv.take(nv.len() as int) =~= nv);
    }
}

fn rule_into(out: &mut String, rule: &Rule)
    ensures
        final(out)@ == old(out)@ + rule_json(rule@),
{
    match rule {
        Rule::Pattern(p) => {
            out.append("{\"type\":\"PATTERN\",\"value\":");
            json_string_into(out, p.as_str());
            out.append("}");
            proof {
                assert(final(out)@ =~= old(out)@ + rule_json(rule@));
            }
        },
        Rule::Sequence(members) => {
            out.append("{\"type\":\"SEQ\",\"members\":[");
            members_into(out, members);
            out.append("]}");
            proof {
                assert(final(out)@ =~= old(out)@ + rule_json(rule@));
            }
        },
        Rule::Choice(members) => {
            out.append("{\"type\":\"CHOICE\",\"members\":[");
            members_into(out, members);
            out.append("]}");
            proof {
                assert(final(out)@ =~= old(out)@ + rule_json(rule@));
            }
        },
        Rule::Alias { named, value, content } => {
            out.append("{\"type\":\"ALIAS\",\"named\":");
            if *named {
                out.append("true");
            } else {
                out.append("false");
            }
            out.append(",\"value\":");
            json_string_into(out, value.as_str());
            out.append(",\"content\":");
            symbol_into(out, content.as_str());
            out.append("}");
            proof {
                assert(final(out)@ =~= old(out)@ + rule_json(rule@));
            }
        },
    }
}

/// Serializes one grammar object to its complete wire document. The
/// text is a function of the grammar object's contents alone, so equal
/// grammar objects always serialize to byte-identical documents.
pub fn to_json(g: &GrammarObject) -> (r: String)
    ensures
        r@ == grammar_json(g@),
{
    let ghost ev = crate::grammar::entries_view(g.rules@);
    let mut out = String::new();
    out.append("{\"name\":");
    json_string_into(&mut out, g.name.as_str());
    out.append(",\"rules\":{");
    let ghost pre = out@;
    proof {
        assert(ev.len() == g.rules@.len());
        assert(forall|k: int| 0 <= k < g.rules@.len() ==> ev[k] == g.rules@[k]@);
        assert(pre + entries_json(ev.take(0)) =~= pre);
    }
    let mut i: usize = 0;
    while i < g.rules.len()
        invariant
            i <= g.rules@.len(),
            ev == crate::grammar::entries_view(g.rules@),
            ev.len() == g.rules@.len(),
            forall|k: int| 0 <= k < g.rules@.len() ==> ev[k] == g.rules@[k]@,
            out@ == pre + entries_json(ev.take(i as int)),
        decreases g.rules@.len() - i,
    {
        if i > 0 {
            out.append(",");
        }
        let entry = &g.rules[i];
        json_string_into(&mut out, entry.id.as_str());
        out.append(":");
        rule_into(&mut out, &entry.rule);
        proof {
            assert(ev.take(i + 1).drop_last() =~= ev.take(i as int));
            assert(ev.take(i + 1).last() == ev[i as int]);
            if i == 0 {
                assert(entries_json(ev.take(1)) == entry_json(ev[0]));
            } else {
                assert(entries_json(ev.take(i + 1)) == entries_json(ev.take(i as int)) + ","@
                    + entry_json(ev[i as int]));
            }
            assert(out@ =~= pre + entries_json(ev.take(i + 1)));
        }
        i = i + 1;
    }
    out.append("}}");
    proof {
        assert(ev.take(ev.len() as int) =~= ev);
        assert(out@ =~= grammar_json(g@));
    }
    out
}

} // verus!
