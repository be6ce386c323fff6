//! The text of a rule: its conclusion, its name and, within braces and two
//! blanks deeper, its premises.
//!
//! ```text
//! <indent><conclusion> by <rule> {
//! <premise>;
//! <premise>
//! <indent>}
//! ```
//!
//! A rule without premises is closed on the line of its conclusion.

use vstd::prelude::*;
use vstd::string::*;

verus! {

/// The texts of a sequence of strings.
pub open spec fn string_views(strings: Seq<String>) -> Seq<Seq<char>> {
    Seq::new(strings.len(), |i: int| strings[i]@)
}

/// The first `count` premises, one per line, each but the last closed by
/// `;`.
pub open spec fn joined(premises: Seq<Seq<char>>, count: nat) -> Seq<char>
    decreases count,
{
    if count == 0 || count > premises.len() {
        Seq::empty()
    } else if count == 1 {
        premises[0]
    } else {
        joined(premises, (count - 1) as nat) + ";\n"@ + premises[count - 1]
    }
}

/// The text of a rule whose conclusion is `head`, behind `indent`. The
/// premises are given as they are rendered, two blanks deeper.
pub open spec fn rule_text(
    indent: Seq<char>,
    head: Seq<char>,
    rule: Seq<char>,
    premises: Seq<Seq<char>>,
) -> Seq<char> {
    if premises.len() == 0 {
        indent + head + " by "@ + rule + " {}"@
    } else {
        indent + head + " by "@ + rule + " {\n"@ + joined(premises, premises.len()) + "\n"@
            + indent + "}"@
    }
}

/// The indentation of the premises of a rule that stands behind `indent`.
pub open spec fn deeper(indent: Seq<char>) -> Seq<char> {
    indent + "  "@
}

/// The indentation of the premises of a rule that stands behind `indent`.
pub fn deeper_indent(indent: &str) -> (r: String)
    ensures
        r@ == deeper(indent@),
{
    let mut r = String::from_str(indent);
    r.append("  ");
    r
}

/// Renders a rule from its conclusion, its name and its rendered premises.
pub fn rule_string(indent: &str, head: &str, rule: &str, premises: &Vec<String>) -> (s: String)
    ensures
        s@ == rule_text(indent@, head@, rule@, string_views(premises@)),
{
    let ghost views = string_views(premises@);
    let mut s = String::from_str(indent);
    s.append(head);
    s.append(" by ");
    s.append(rule);
    if premises.len() == 0 {
        s.append(" {}");
        return s;
    }
    s.append(" {\n");
    let mut lines = String::new();
    let mut i: usize = 0;
    while i < premises.len()
        invariant
            i <= premises.len(),
            views == string_views(premises@),
            lines@ == joined(views, i as nat),
        decreases premises.len() - i,
    {
        if i > 0 {
            lines.append(";\n");
        } else {
            assert(lines@ + premises@[0]@ =~= premises@[0]@);
        }
        lines.append(premises[i].as_str());
        i += 1;
    }
    s.append(lines.as_str());
    s.append("\n");
    s.append(indent);
    s.append("}");
    s
}

/// No rendered premises.
pub fn no_strings() -> (r: Vec<String>)
    ensures
        string_views(r@) == Seq::<Seq<char>>::empty(),
{
    let r: Vec<String> = Vec::new();
    assert(string_views(r@) =~= Seq::<Seq<char>>::empty());
    r
}

/// One rendered premise.
pub fn one_string(first: String) -> (r: Vec<String>)
    ensures
        string_views(r@) == seq![first@],
{
    let mut r: Vec<String> = Vec::new();
    r.push(first);
    assert(string_views(r@) =~= seq![first@]);
    r
}

/// Two rendered premises.
pub fn two_strings(first: String, second: String) -> (r: Vec<String>)
    ensures
        string_views(r@) == seq![first@, second@],
{
    let mut r: Vec<String> = Vec::new();
    r.push(first);
    r.push(second);
    assert(string_views(r@) =~= seq![first@, second@]);
    r
}

/// Three rendered premises.
pub fn three_strings(first: String, second: String, third: String) -> (r: Vec<String>)
    ensures
        string_views(r@) == seq![first@, second@, third@],
{
    let mut r: Vec<String> = Vec::new();
    r.push(first);
    r.push(second);
    r.push(third);
    assert(string_views(r@) =~= seq![first@, second@, third@]);
    r
}

/// Collects the text of a derivation.
pub struct RuleWriter {
    pub text: String,
}

impl RuleWriter {
    /// A writer that holds no text yet.
    pub fn new() -> (r: RuleWriter)
        ensures
            r.text@ == Seq::<char>::empty(),
    {
        RuleWriter { text: String::new() }
    }

    /// Ends the line.
    pub fn write_nl(&mut self)
        ensures
            final(self).text@ == old(self).text@ + "\n"@,
    {
        self.text.append("\n");
    }

    /// Writes a rule from its conclusion, its name and its rendered
    /// premises.
    pub fn show_rule(&mut self, indent: &str, head: &str, rule: &str, premises: &Vec<String>)
        ensures
            final(self).text@ == old(self).text@ + rule_text(
                indent@,
                head@,
                rule@,
                string_views(premises@),
            ),
    {
        let rendered = rule_string(indent, head, rule, premises);
        self.text.append(rendered.as_str());
    }

    /// Writes a rule that has no premise.
    pub fn show_rule_without_premise(&mut self, indent: &str, head: &str, rule: &str)
        ensures
            final(self).text@ == old(self).text@ + rule_text(
                indent@,
                head@,
                rule@,
                Seq::empty(),
            ),
    {
        self.show_rule(indent, head, rule, &no_strings());
    }

    /// Writes a rule with one premise, which is given as it is rendered.
    pub fn show_rule_with_premise(&mut self, indent: &str, head: &str, rule: &str, premise: String)
        ensures
            final(self).text@ == old(self).text@ + rule_text(
                indent@,
                head@,
                rule@,
                seq![premise@],
            ),
    {
        self.show_rule(indent, head, rule, &one_string(premise));
    }

    /// Writes a rule with two premises, which are given as they are
    /// rendered.
    pub fn show_rule_with_premise2(
        &mut self,
        indent: &str,
        head: &str,
        rule: &str,
        premise1: String,
        premise2: String,
    )
        ensures
            final(self).text@ == old(self).text@ + rule_text(
                indent@,
                head@,
                rule@,
                seq![premise1@, premise2@],
            ),
    {
        self.show_rule(indent, head, rule, &two_strings(premise1, premise2));
    }

    /// Writes a rule with three premises, which are given as they are
    /// rendered.
    pub fn show_rule_with_premise3(
        &mut self,
        indent: &str,
        head: &str,
        rule: &str,
        premise1: String,
        premise2: String,
        premise: String,
    )
        ensures
            final(self).text@ == old(self).text@ + rule_text(
                indent@,
                head@,
                rule@,
                seq![premise1@, premise2@, premise@],
            ),
    {
        self.show_rule(indent, head, rule, &three_strings(premise1, premise2, premise));
    }

    /// Hands out the text that was written.
    pub fn finish(self) -> (s: String)
        ensures
            s@ == self.text@,
    {
        self.text
    }
}

} // verus!
