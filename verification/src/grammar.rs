//! The grammar document model: the recursive rule algebra describing how
//! source text is parsed into a concrete syntax tree, and the named grammar
//! holding a rule table and its companion declarations.
use vstd::prelude::*;
use crate::ident::{Identifier, view_idents};

verus! {

/// The published schema a grammar document declares itself against.
pub const SCHEMA_URI: &'static str =
    "https://tree-sitter.github.io/tree-sitter/assets/schemas/grammar.schema.json";

/// Mathematical model of a [`GrammarRule`].
pub ghost enum RuleView {
    Sequence { members: Seq<RuleView> },
    Choice { members: Seq<RuleView> },
    Field { name: Seq<char>, content: Box<RuleView> },
    Token { content: Box<RuleView> },
    ImmediateToken { content: Box<RuleView> },
    Repeat { content: Box<RuleView> },
    Repeat1 { content: Box<RuleView> },
    Reserved { content: Box<RuleView>, context_name: Seq<char> },
    Precedence { value: u32, content: Box<RuleView> },
    PrecedenceLeftAssoc { value: u32, content: Box<RuleView> },
    PrecedenceRightAssoc { value: u32, content: Box<RuleView> },
    PrecedenceDynamic { value: u32, content: Box<RuleView> },
    Literal { value: Seq<char> },
    Pattern { value: Seq<char>, flags: Option<Seq<char>> },
    Symbol { name: Seq<char> },
    Alias { value: Seq<char>, named: bool, content: Box<RuleView> },
    Blank,
}

/// One production of the rule algebra.  A rule is an owned tree: there is
/// no sharing and no cycle inside a rule; recursion between rules goes
/// through [`GrammarRule::Symbol`] references resolved by name.
#[derive(Debug)]
pub enum GrammarRule {
    Sequence { members: Vec<GrammarRule> },
    Choice { members: Vec<GrammarRule> },
    Field { name: Identifier, content: Box<GrammarRule> },
    Token { content: Box<GrammarRule> },
    ImmediateToken { content: Box<GrammarRule> },
    Repeat { content: Box<GrammarRule> },
    Repeat1 { content: Box<GrammarRule> },
    Reserved { content: Box<GrammarRule>, context_name: Identifier },
    Precedence { value: u32, content: Box<GrammarRule> },
    PrecedenceLeftAssoc { value: u32, content: Box<GrammarRule> },
    PrecedenceRightAssoc { value: u32, content: Box<GrammarRule> },
    PrecedenceDynamic { value: u32, content: Box<GrammarRule> },
    Literal { value: String },
    Pattern { value: String, flags: Option<String> },
    Symbol { name: Identifier },
    Alias { value: Identifier, named: bool, content: Box<GrammarRule> },
    Blank,
}

/// The model of one rule.
pub open spec fn rule_view(r: GrammarRule) -> RuleView
    decreases r,
{
    match r {
        GrammarRule::Sequence { members } => RuleView::Sequence { members: rules_view(members@) },
        GrammarRule::Choice { members } => RuleView::Choice { members: rules_view(members@) },
        GrammarRule::Field { name, content } => RuleView::Field {
            name: name@,
            content: Box::new(rule_view(*content)),
        },
        GrammarRule::Token { content } => RuleView::Token {
            content: Box::new(rule_view(*content)),
        },
        GrammarRule::ImmediateToken { content } => RuleView::ImmediateToken {
            content: Box::new(rule_view(*content)),
        },
        GrammarRule::Repeat { content } => RuleView::Repeat {
            content: Box::new(rule_view(*content)),
        },
        GrammarRule::Repeat1 { content } => RuleView::Repeat1 {
            content: Box::new(rule_view(*content)),
        },
        GrammarRule::Reserved { content, context_name } => RuleView::Reserved {
            content: Box::new(rule_view(*content)),
            context_name: context_name@,
        },
        GrammarRule::Precedence { value, content } => RuleView::Precedence {
            value,
            content: Box::new(rule_view(*content)),
        },
        GrammarRule::PrecedenceLeftAssoc { value, content } => RuleView::PrecedenceLeftAssoc {
            value,
            content: Box::new(rule_view(*content)),
        },
        GrammarRule::PrecedenceRightAssoc { value, content } => RuleView::PrecedenceRightAssoc {
            value,
            content: Box::new(rule_view(*content)),
        },
        GrammarRule::PrecedenceDynamic { value, content } => RuleView::PrecedenceDynamic {
            value,
            content: Box::new(rule_view(*content)),
        },
        GrammarRule::Literal { value } => RuleView::Literal { value: value@ },
        GrammarRule::Pattern { value, flags } => RuleView::Pattern {
            value: value@,
            flags: match flags {
                Some(f) => Some(f@),
                None => None,
            },
        },
        GrammarRule::Symbol { name } => RuleView::Symbol { name: name@ },
        GrammarRule::Alias { value, named, content } => RuleView::Alias {
            value: value@,
            named,
            content: Box::new(rule_view(*content)),
        },
        GrammarRule::Blank => RuleView::Blank,
    }
}

/// The models of a list of rules.
pub open spec fn rules_view(rs: Seq<GrammarRule>) -> Seq<RuleView>
    decreases rs,
{
    if rs.len() == 0 {
        Seq::empty()
    } else {
        rules_view(rs.drop_last()) + seq![rule_view(rs.last())]
    }
}

pub proof fn lemma_rules_view_len(rs: Seq<GrammarRule>)
    ensures
        rules_view(rs).len() == rs.len(),
    decreases rs.len(),
{
    if rs.len() != 0 {
        lemma_rules_view_len(rs.drop_last());
    }
}

pub proof fn lemma_rules_view_index(rs: Seq<GrammarRule>, i: int)
    requires
        0 <= i < rs.len(),
    ensures
        rules_view(rs).len() == rs.len(),
        rules_view(rs)[i] == rule_view(rs[i]),
    decreases rs.len(),
{
    lemma_rules_view_len(rs);
    if i < rs.len() - 1 {
        lemma_rules_view_index(rs.drop_last(), i);
    } else {
        lemma_rules_view_len(rs.drop_last());
    }
}

impl View for GrammarRule {
    type V = RuleView;

    open spec fn view(&self) -> RuleView {
        rule_view(*self)
    }
}

/// Every symbol reference of one rule, in depth-first order.
pub open spec fn rule_symbols(r: RuleView) -> Seq<Seq<char>>
    decreases r,
{
    match r {
        RuleView::Sequence { members } => rules_symbols(members),
        RuleView::Choice { members } => rules_symbols(members),
        RuleView::Field { name: _, content } => rule_symbols(*content),
        RuleView::Token { content } => rule_symbols(*content),
        RuleView::ImmediateToken { content } => rule_symbols(*content),
        RuleView::Repeat { content } => rule_symbols(*content),
        RuleView::Repeat1 { content } => rule_symbols(*content),
        RuleView::Reserved { content, context_name: _ } => rule_symbols(*content),
        RuleView::Precedence { value: _, content } => rule_symbols(*content),
        RuleView::PrecedenceLeftAssoc { value: _, content } => rule_symbols(*content),
        RuleView::PrecedenceRightAssoc { value: _, content } => rule_symbols(*content),
        RuleView::PrecedenceDynamic { value: _, content } => rule_symbols(*content),
        RuleView::Literal { value: _ } => Seq::empty(),
        RuleView::Pattern { value: _, flags: _ } => Seq::empty(),
        RuleView::Symbol { name } => seq![name],
        RuleView::Alias { value: _, named: _, content } => rule_symbols(*content),
        RuleView::Blank => Seq::empty(),
    }
}

/// Every symbol reference of a list of rules, in order.
pub open spec fn rules_symbols(rs: Seq<RuleView>) -> Seq<Seq<char>>
    decreases rs,
{
    if rs.len() == 0 {
        Seq::empty()
    } else {
        rules_symbols(rs.drop_last()) + rule_symbols(rs.last())
    }
}

impl GrammarRule {
    /// Collects every `Symbol` reference of the rule, depth first, for
    /// dependency analysis; validation of the references is the unifier's
    /// concern.
    pub fn symbol_references(&self) -> (r: Vec<Identifier>)
        ensures
            view_idents(r@) == rule_symbols(self@),
    {
        let mut out: Vec<Identifier> = Vec::new();
        push_symbols(self, &mut out);
        proof {
            assert(view_idents(out@) =~= rule_symbols(self@));
        }
        out
    }
}

/// Appends every symbol reference of `r` to `out`, depth first.
fn push_symbols(r: &GrammarRule, out: &mut Vec<Identifier>)
    ensures
        view_idents(final(out)@) == view_idents(old(out)@) + rule_symbols(r@),
    decreases *r,
{
    match r {
        GrammarRule::Sequence { members } => push_symbols_list(members, out),
        GrammarRule::Choice { members } => push_symbols_list(members, out),
        GrammarRule::Field { name: _, content } => push_symbols(&**content, out),
        GrammarRule::Token { content } => push_symbols(&**content, out),
        GrammarRule::ImmediateToken { content } => push_symbols(&**content, out),
        GrammarRule::Repeat { content } => push_symbols(&**content, out),
        GrammarRule::Repeat1 { content } => push_symbols(&**content, out),
        GrammarRule::Reserved { content, context_name: _ } => push_symbols(&**content, out),
        GrammarRule::Precedence { value: _, content } => push_symbols(&**content, out),
        GrammarRule::PrecedenceLeftAssoc { value: _, content } => push_symbols(&**content, out),
        GrammarRule::PrecedenceRightAssoc { value: _, content } => push_symbols(&**content, out),
        GrammarRule::PrecedenceDynamic { value: _, content } => push_symbols(&**content, out),
        GrammarRule::Literal { value: _ } => {
            proof {
                assert(view_idents(out@) =~= view_idents(out@) + rule_symbols(r@));
            }
        },
        GrammarRule::Pattern { value: _, flags: _ } => {
            proof {
                assert(view_idents(out@) =~= view_idents(out@) + rule_symbols(r@));
            }
        },
        GrammarRule::Symbol { name } => {
            out.push(name.duplicate());
            proof {
                assert(view_idents(out@) =~= view_idents(old(out)@) + rule_symbols(r@));
            }
        },
        GrammarRule::Alias { value: _, named: _, content } => push_symbols(&**content, out),
        GrammarRule::Blank => {
            proof {
                assert(view_idents(out@) =~= view_idents(out@) + rule_symbols(r@));
            }
        },
    }
}

/// Appends every symbol reference of the listed rules to `out`, in order.
fn push_symbols_list(rs: &Vec<GrammarRule>, out: &mut Vec<Identifier>)
    ensures
        view_idents(final(out)@) == view_idents(old(out)@) + rules_symbols(rules_view(rs@)),
    decreases rs@,
{
    let ghost base = view_idents(old(out)@);
    let mut i: usize = 0;
    proof {
        assert(rules_view(rs@.subrange(0, 0)) =~= Seq::<RuleView>::empty());
        assert(base =~= base + rules_symbols(rules_view(rs@.subrange(0, 0))));
    }
    while i < rs.len()
        invariant
            0 <= i <= rs@.len(),
            view_idents(out@) == base + rules_symbols(rules_view(rs@.subrange(0, i as int))),
        decreases rs@.len() - i,
    {
        push_symbols(&rs[i], out);
        proof {
            let t = rs@.subrange(0, i as int);
            let t1 = rs@.subrange(0, i as int + 1);
            assert(t1.drop_last() =~= t);
            assert(t1.last() == rs@[i as int]);
            assert(rules_view(t1).drop_last() =~= rules_view(t)) by {
                lemma_rules_view_len(t1);
                lemma_rules_view_len(t);
                assert(rules_view(t1) == rules_view(t1.drop_last()) + seq![rule_view(t1.last())]);
            }
            lemma_rules_view_len(t1);
            assert(rules_view(t1).last() == rule_view(rs@[i as int])) by {
                assert(rules_view(t1) == rules_view(t1.drop_last()) + seq![rule_view(t1.last())]);
            }
            assert(rules_symbols(rules_view(t1)) == rules_symbols(rules_view(t1).drop_last())
                + rule_symbols(rules_view(t1).last()));
            assert(view_idents(out@) =~= base + rules_symbols(rules_view(t1)));
        }
        i = i + 1;
    }
    proof {
        assert(rs@.subrange(0, rs@.len() as int) =~= rs@);
    }
}

/// Mathematical model of a [`GrammarFile`].
pub ghost struct GrammarView {
    pub name: Seq<char>,
    pub inherits: Option<Seq<char>>,
    pub rules: Seq<(Seq<char>, RuleView)>,
    pub conflicts: Seq<Seq<Seq<char>>>,
    pub externals: Seq<RuleView>,
    pub extras: Seq<RuleView>,
    pub inline: Seq<Seq<char>>,
    pub reserved: Seq<(Seq<char>, Seq<RuleView>)>,
    pub supertypes: Seq<Seq<char>>,
    pub word: Option<Seq<char>>,
}

/// The models of a rule table: each name with its rule, in table order.
pub open spec fn view_rule_table(s: Seq<(Identifier, GrammarRule)>) -> Seq<(Seq<char>, RuleView)> {
    s.map_values(|p: (Identifier, GrammarRule)| (p.0@, rule_view(p.1)))
}

/// The models of the conflict declarations.
pub open spec fn view_conflicts(s: Seq<Vec<Identifier>>) -> Seq<Seq<Seq<char>>> {
    s.map_values(|v: Vec<Identifier>| view_idents(v@))
}

/// The models of the reserved-word contexts.
pub open spec fn view_reserved(s: Seq<(Identifier, Vec<GrammarRule>)>) -> Seq<(Seq<char>, Seq<RuleView>)> {
    s.map_values(|p: (Identifier, Vec<GrammarRule>)| (p.0@, rules_view(p.1@)))
}

/// The models of a list of owned rules.
pub open spec fn view_rules(s: Seq<GrammarRule>) -> Seq<RuleView> {
    rules_view(s)
}

/// The first rule bearing this name, read from position `i` of the table.
pub open spec fn find_rule_from(
    rules: Seq<(Seq<char>, RuleView)>,
    name: Seq<char>,
    i: int,
) -> Option<RuleView>
    decreases rules.len() - i,
{
    if i < 0 || i >= rules.len() {
        None
    } else if rules[i].0 == name {
        Some(rules[i].1)
    } else {
        find_rule_from(rules, name, i + 1)
    }
}

/// The first rule bearing this name, if any.
pub open spec fn find_rule(rules: Seq<(Seq<char>, RuleView)>, name: Seq<char>) -> Option<RuleView> {
    find_rule_from(rules, name, 0)
}

/// A named grammar: its rule table and the companion declarations carried
/// by a grammar schema.  Constructed once, immutable thereafter.  Keys of
/// the rule table are unique; rule lookup for a grammar that `inherits`
/// from a parent falls back to the parent's table, which the unifier
/// composes.
#[derive(Debug)]
pub struct GrammarFile {
    name: Identifier,
    inherits: Option<Identifier>,
    rules: Vec<(Identifier, GrammarRule)>,
    conflicts: Vec<Vec<Identifier>>,
    externals: Vec<GrammarRule>,
    extras: Vec<GrammarRule>,
    inline: Vec<Identifier>,
    reserved: Vec<(Identifier, Vec<GrammarRule>)>,
    supertypes: Vec<Identifier>,
    word: Option<Identifier>,
}

impl View for GrammarFile {
    type V = GrammarView;

    closed spec fn view(&self) -> GrammarView {
        GrammarView {
            name: self.name@,
            inherits: match self.inherits {
                Some(p) => Some(p@),
                None => None,
            },
            rules: view_rule_table(self.rules@),
            conflicts: view_conflicts(self.conflicts@),
            externals: rules_view(self.externals@),
            extras: rules_view(self.extras@),
            inline: view_idents(self.inline@),
            reserved: view_reserved(self.reserved@),
            supertypes: view_idents(self.supertypes@),
            word: match self.word {
                Some(w) => Some(w@),
                None => None,
            },
        }
    }
}

impl GrammarFile {
    /// Assembles a grammar document from its parts.
    pub fn new(
        name: Identifier,
        inherits: Option<Identifier>,
        rules: Vec<(Identifier, GrammarRule)>,
        conflicts: Vec<Vec<Identifier>>,
        externals: Vec<GrammarRule>,
        extras: Vec<GrammarRule>,
        inline: Vec<Identifier>,
        reserved: Vec<(Identifier, Vec<GrammarRule>)>,
        supertypes: Vec<Identifier>,
        word: Option<Identifier>,
    ) -> (r: Self)
        ensures
            r@ == (GrammarView {
                name: name@,
                inherits: match inherits {
                    Some(p) => Some(p@),
                    None => None::<Seq<char>>,
                },
                rules: view_rule_table(rules@),
                conflicts: view_conflicts(conflicts@),
                externals: rules_view(externals@),
                extras: rules_view(extras@),
                inline: view_idents(inline@),
                reserved: view_reserved(reserved@),
                supertypes: view_idents(supertypes@),
                word: match word {
                    Some(w) => Some(w@),
                    None => None::<Seq<char>>,
                },
            }),
    {
        Self { name, inherits, rules, conflicts, externals, extras, inline, reserved, supertypes, word }
    }

    pub fn name(&self) -> (r: &Identifier)
        ensures
            r@ == self@.name,
    {
        &self.name
    }

    pub fn inherits(&self) -> (r: Option<&Identifier>)
        ensures
            match r {
                Some(p) => self@.inherits == Some(p@),
                None => self@.inherits is None,
            },
    {
        self.inherits.as_ref()
    }

    /// The rule table: each rule name with its rule, in table order.
    pub fn rules(&self) -> (r: &Vec<(Identifier, GrammarRule)>)
        ensures
            view_rule_table(r@) == self@.rules,
    {
        &self.rules
    }

    /// The rule names, in table order.
    pub fn rule_names(&self) -> (r: Vec<&Identifier>)
        ensures
            r@.map_values(|x: &Identifier| x@) == self@.rules.map_values(
                |p: (Seq<char>, RuleView)| p.0,
            ),
    {
        let mut out: Vec<&Identifier> = Vec::new();
        let mut i: usize = 0;
        while i < self.rules.len()
            invariant
                0 <= i <= self.rules@.len(),
                self@.rules == view_rule_table(self.rules@),
                out@.map_values(|x: &Identifier| x@) == self@.rules.map_values(
                    |p: (Seq<char>, RuleView)| p.0,
                ).subrange(0, i as int),
            decreases self.rules@.len() - i,
        {
            let ghost keys = self@.rules.map_values(|p: (Seq<char>, RuleView)| p.0);
            out.push(&self.rules[i].0);
            proof {
                assert(out@.map_values(|x: &Identifier| x@) =~= keys.subrange(0, i as int).push(
                    keys[i as int],
                ));
                crate::order::lemma_prefix_push(keys, i as int);
            }
            i = i + 1;
        }
        proof {
            let keys = self@.rules.map_values(|p: (Seq<char>, RuleView)| p.0);
            assert(keys.subrange(0, keys.len() as int) =~= keys);
        }
        out
    }

    /// Looks a rule up by name in this document's own table; `None`
    /// exactly when the table holds none.  Falling back to an inherited
    /// table is the unifier's job.
    pub fn rule_named(&self, name: &Identifier) -> (r: Option<&GrammarRule>)
        ensures
            match r {
                Some(rule) => find_rule(self@.rules, name@) == Some(rule@),
                None => find_rule(self@.rules, name@) is None,
            },
    {
        let ghost table = self@.rules;
        let mut i: usize = 0;
        while i < self.rules.len()
            invariant
                0 <= i <= self.rules@.len(),
                table == view_rule_table(self.rules@),
                table == self@.rules,
                find_rule(table, name@) == find_rule_from(table, name@, i as int),
            decreases self.rules@.len() - i,
        {
            if self.rules[i].0.same_as(name) {
                proof {
                    assert(table[i as int] == (self.rules@[i as int].0@, rule_view(
                        self.rules@[i as int].1,
                    )));
                    assert(table[i as int].0 == name@);
                }
                return Some(&self.rules[i].1);
            }
            proof {
                assert(table[i as int] == (self.rules@[i as int].0@, rule_view(
                    self.rules@[i as int].1,
                )));
            }
            i = i + 1;
        }
        None
    }

    pub fn conflicts(&self) -> (r: &Vec<Vec<Identifier>>)
        ensures
            view_conflicts(r@) == self@.conflicts,
    {
        &self.conflicts
    }

    pub fn externals(&self) -> (r: &Vec<GrammarRule>)
        ensures
            rules_view(r@) == self@.externals,
    {
        &self.externals
    }

    pub fn extras(&self) -> (r: &Vec<GrammarRule>)
        ensures
            rules_view(r@) == self@.extras,
    {
        &self.extras
    }

    pub fn inline(&self) -> (r: &Vec<Identifier>)
        ensures
            view_idents(r@) == self@.inline,
    {
        &self.inline
    }

    pub fn reserved(&self) -> (r: &Vec<(Identifier, Vec<GrammarRule>)>)
        ensures
            view_reserved(r@) == self@.reserved,
    {
        &self.reserved
    }

    /// The reserved-context names, in table order.
    pub fn reserved_names(&self) -> (r: Vec<&Identifier>)
        ensures
            r@.map_values(|x: &Identifier| x@) == self@.reserved.map_values(
                |p: (Seq<char>, Seq<RuleView>)| p.0,
            ),
    {
        let mut out: Vec<&Identifier> = Vec::new();
        let mut i: usize = 0;
        while i < self.reserved.len()
            invariant
                0 <= i <= self.reserved@.len(),
                self@.reserved == view_reserved(self.reserved@),
                out@.map_values(|x: &Identifier| x@) == self@.reserved.map_values(
                    |p: (Seq<char>, Seq<RuleView>)| p.0,
                ).subrange(0, i as int),
            decreases self.reserved@.len() - i,
        {
            let ghost keys = self@.reserved.map_values(|p: (Seq<char>, Seq<RuleView>)| p.0);
            out.push(&self.reserved[i].0);
            proof {
                assert(out@.map_values(|x: &Identifier| x@) =~= keys.subrange(0, i as int).push(
                    keys[i as int],
                ));
                crate::order::lemma_prefix_push(keys, i as int);
            }
            i = i + 1;
        }
        proof {
            let keys = self@.reserved.map_values(|p: (Seq<char>, Seq<RuleView>)| p.0);
            assert(keys.subrange(0, keys.len() as int) =~= keys);
        }
        out
    }

    pub fn supertypes(&self) -> (r: &Vec<Identifier>)
        ensures
            view_idents(r@) == self@.supertypes,
    {
        &self.supertypes
    }

    pub fn word(&self) -> (r: Option<&Identifier>)
        ensures
            match r {
                Some(w) => self@.word == Some(w@),
                None => self@.word is None,
            },
    {
        self.word.as_ref()
    }
}

} // verus!
