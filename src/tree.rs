use vstd::prelude::*;

verus! {

broadcast use vstd::std_specs::vec::group_vec_axioms, vstd::seq::axiom_seq_index_decreases, vstd::seq::axiom_seq_subrange_decreases;

/// The rule labels of the grammar that the builder knows.
#[derive(Debug, Clone, Copy, PartialEq, Eq, Structural)]
pub enum Rule {
    Eoi,
    FunctionDefinition,
    ParameterList,
    Parameter,
    TypeName,
    Identifier,
    Block,
    Statement,
    VariableDeclaration,
    Expression,
    FunctionCall,
    ArgumentList,
    Literal,
    StringLiteral,
    IntegerLiteral,
    BooleanLiteral,
}

/// The grammar's spelling of a rule label.
pub open spec fn rule_name(r: Rule) -> Seq<char> {
    match r {
        Rule::Eoi => "EOI"@,
        Rule::FunctionDefinition => "function_definition"@,
        Rule::ParameterList => "parameter_list"@,
        Rule::Parameter => "parameter"@,
        Rule::TypeName => "type_name"@,
        Rule::Identifier => "identifier"@,
        Rule::Block => "block"@,
        Rule::Statement => "statement"@,
        Rule::VariableDeclaration => "variable_declaration"@,
        Rule::Expression => "expression"@,
        Rule::FunctionCall => "function_call"@,
        Rule::ArgumentList => "argument_list"@,
        Rule::Literal => "literal"@,
        Rule::StringLiteral => "string_literal"@,
        Rule::IntegerLiteral => "integer_literal"@,
        Rule::BooleanLiteral => "boolean_literal"@,
    }
}

impl Rule {
    /// The grammar's spelling of this label.
    pub fn name(&self) -> (s: &'static str)
        ensures
            s@ == rule_name(*self),
    {
        match self {
            Rule::Eoi => "EOI",
            Rule::FunctionDefinition => "function_definition",
            Rule::ParameterList => "parameter_list",
            Rule::Parameter => "parameter",
            Rule::TypeName => "type_name",
            Rule::Identifier => "identifier",
            Rule::Block => "block",
            Rule::Statement => "statement",
            Rule::VariableDeclaration => "variable_declaration",
            Rule::Expression => "expression",
            Rule::FunctionCall => "function_call",
            Rule::ArgumentList => "argument_list",
            Rule::Literal => "literal",
            Rule::StringLiteral => "string_literal",
            Rule::IntegerLiteral => "integer_literal",
            Rule::BooleanLiteral => "boolean_literal",
        }
    }
}

/// A node of the parse tree that a grammar engine hands over: its rule label, the text
/// it matched, and its children in source order.
#[derive(Debug)]
pub struct ParseNode {
    pub rule: Rule,
    pub text: String,
    pub children: Vec<ParseNode>,
}

/// The number of children that a node of each rule must have for the builder to read it.
pub open spec fn node_shaped(n: ParseNode) -> bool {
    let k = n.children.len();
    match n.rule {
        Rule::FunctionDefinition => k >= 3 && (n.children@[1].rule == Rule::ParameterList ==> k
            >= 4),
        Rule::Parameter => k >= 2,
        Rule::VariableDeclaration => k >= 3 && n.children@[2].rule == Rule::Expression,
        Rule::FunctionCall => k >= 1 && (k >= 2 ==> forall|j: int|
            0 <= j < n.children@[1].children.len() ==> (#[trigger] n.children@[1].children@[j]).rule
                == Rule::Expression),
        Rule::Statement | Rule::Expression | Rule::Literal => k >= 1,
        _ => true,
    }
}

/// Every node of the tree has the shape that its rule promises.
pub open spec fn well_formed(n: ParseNode) -> bool
    decreases n,
{
    node_shaped(n) && all_well_formed(n.children@)
}

/// Every tree of the sequence is well formed.
pub open spec fn all_well_formed(ns: Seq<ParseNode>) -> bool
    decreases ns,
{
    if ns.len() == 0 {
        true
    } else {
        all_well_formed(ns.drop_last()) && well_formed(ns.last())
    }
}

/// Each tree of a well-formed sequence is well formed.
pub proof fn lemma_all_well_formed_index(ns: Seq<ParseNode>, i: int)
    requires
        all_well_formed(ns),
        0 <= i < ns.len(),
    ensures
        well_formed(ns[i]),
    decreases ns.len(),
{
    if i < ns.len() - 1 {
        lemma_all_well_formed_index(ns.drop_last(), i);
    }
}

fn all_expressions(ns: &Vec<ParseNode>) -> (r: bool)
    ensures
        r == forall|j: int| 0 <= j < ns.len() ==> (#[trigger] ns@[j]).rule == Rule::Expression,
{
    let mut i: usize = 0;
    while i < ns.len()
        invariant
            i <= ns.len(),
            forall|j: int| 0 <= j < i ==> (#[trigger] ns@[j]).rule == Rule::Expression,
        decreases ns.len() - i,
    {
        if ns[i].rule != Rule::Expression {
            return false;
        }
        i = i + 1;
    }
    true
}

impl ParseNode {
    /// Tells whether every node of the tree has the shape that its rule promises.
    pub fn is_well_formed(&self) -> (r: bool)
        ensures
            r == well_formed(*self),
        decreases *self,
    {
        let k = self.children.len();
        let shaped = match self.rule {
            Rule::FunctionDefinition => k >= 3 && (self.children[1].rule != Rule::ParameterList
                || k >= 4),
            Rule::Parameter => k >= 2,
            Rule::VariableDeclaration => k >= 3 && self.children[2].rule == Rule::Expression,
            Rule::FunctionCall => k >= 1 && (k < 2 || all_expressions(&self.children[1].children)),
            Rule::Statement | Rule::Expression | Rule::Literal => k >= 1,
            _ => true,
        };
        if !shaped {
            return false;
        }
        let mut i: usize = 0;
        while i < k
            invariant
                k == self.children.len(),
                i <= k,
                all_well_formed(self.children@.take(i as int)),
            decreases k - i,
        {
            assert(self.children@.take(i + 1).drop_last() == self.children@.take(i as int));
            if !self.children[i].is_well_formed() {
                assert(!all_well_formed(self.children@)) by {
                    if all_well_formed(self.children@) {
                        lemma_all_well_formed_index(self.children@, i as int);
                    }
                }
                return false;
            }
            i = i + 1;
        }
        assert(self.children@.take(k as int) == self.children@);
        true
    }
}

/// Tells whether every tree of a sequence of top-level nodes is well formed.
pub fn forest_is_well_formed(nodes: &Vec<ParseNode>) -> (r: bool)
    ensures
        r == all_well_formed(nodes@),
{
    let k = nodes.len();
    let mut i: usize = 0;
    while i < k
        invariant
            k == nodes.len(),
            i <= k,
            all_well_formed(nodes@.take(i as int)),
        decreases k - i,
    {
        assert(nodes@.take(i + 1).drop_last() == nodes@.take(i as int));
        if !nodes[i].is_well_formed() {
            assert(!all_well_formed(nodes@)) by {
                if all_well_formed(nodes@) {
                    lemma_all_well_formed_index(nodes@, i as int);
                }
            }
            return false;
        }
        i = i + 1;
    }
    assert(nodes@.take(k as int) == nodes@);
    true
}

} // verus!
