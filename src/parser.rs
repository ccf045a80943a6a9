use crate::ast::{
    Block, CallModel, Definition, DefinitionModel, ExprModel, Expression, FunctionCall,
    FunctionDefinition, FunctionModel, LiteralModel, LiteralValue, ParamModel, Parameter, Program,
    StmtModel, Statement, exprs_view,
};
use crate::tree::{ParseNode, Rule, rule_name, well_formed, all_well_formed, lemma_all_well_formed_index};
use crate::types::{RelieveType, resolve_type_name, text_is, type_of_name, unknown_type_message};
use vstd::prelude::*;

verus! {

broadcast use vstd::std_specs::vec::group_vec_axioms, vstd::seq::axiom_seq_index_decreases, vstd::seq::axiom_seq_subrange_decreases;

/// The characters are all decimal digits.
pub open spec fn all_digits(s: Seq<char>) -> bool {
    forall|i: int| 0 <= i < s.len() ==> '0' <= #[trigger] s[i] <= '9'
}

/// The value of a string of decimal digits.
pub open spec fn digits_value(s: Seq<char>) -> int
    decreases s.len(),
{
    if s.len() == 0 {
        0
    } else {
        digits_value(s.drop_last()) * 10 + (s.last() as int - '0' as int)
    }
}

/// The value of an optional sign followed by at least one decimal digit.
pub open spec fn decimal_value(s: Seq<char>) -> Option<int> {
    if s.len() > 0 && (s[0] == '-' || s[0] == '+') {
        let digits = s.drop_first();
        if digits.len() > 0 && all_digits(digits) {
            Some(if s[0] == '-' { -digits_value(digits) } else { digits_value(digits) })
        } else {
            None
        }
    } else if s.len() > 0 && all_digits(s) {
        Some(digits_value(s))
    } else {
        None
    }
}

/// The 64-bit signed integer that a text spells, if it spells one in range.
pub open spec fn i64_of_text(s: Seq<char>) -> Option<i64> {
    match decimal_value(s) {
        Some(v) => if i64::MIN <= v <= i64::MAX {
            Some(v as i64)
        } else {
            None
        },
        None => None,
    }
}

/// Relies on `str::parse::<i64>` (i64's `FromStr`): it accepts an optional `+` or `-`
/// followed by decimal digits whose value fits in an i64, and fails on anything else.
#[verifier::external_body]
fn parse_i64(s: &str) -> (r: Option<i64>)
    ensures
        r == i64_of_text(s@),
{
    s.parse::<i64>().ok()
}

/// The text between the first and the last character.
pub open spec fn strip_delimiters(s: Seq<char>) -> Seq<char> {
    if s.len() >= 2 {
        s.subrange(1, s.len() - 1)
    } else {
        Seq::empty()
    }
}

/// What a literal node (whose one child is the literal's own rule) builds to.
pub open spec fn literal_spec(n: ParseNode) -> Result<ExprModel, Seq<char>> {
    let c = n.children@[0];
    match c.rule {
        Rule::StringLiteral => Ok(ExprModel::Literal(LiteralModel::Str(strip_delimiters(c.text@)))),
        Rule::IntegerLiteral => match i64_of_text(c.text@) {
            Some(v) => Ok(ExprModel::Literal(LiteralModel::Int(v))),
            None => Err("Invalid integer literal: "@ + c.text@),
        },
        Rule::BooleanLiteral => Ok(ExprModel::Literal(LiteralModel::Bool(c.text@ == "true"@))),
        _ => Err("Unsupported literal: "@ + rule_name(c.rule)),
    }
}

/// What an expression node builds to.
pub open spec fn expr_spec(n: ParseNode) -> Result<ExprModel, Seq<char>>
    decreases n,
{
    if n.children.len() == 0 {
        Err(Seq::empty())
    } else {
        let c = n.children@[0];
        match c.rule {
            Rule::Literal => literal_spec(c),
            Rule::Identifier => Ok(ExprModel::Identifier(c.text@)),
            Rule::FunctionCall => match call_spec(c) {
                Ok(m) => Ok(ExprModel::Call(m)),
                Err(e) => Err(e),
            },
            _ => Err("Unsupported expression: "@ + rule_name(c.rule)),
        }
    }
}

/// What a function-call node builds to: its name, then its arguments if it has a list.
pub open spec fn call_spec(n: ParseNode) -> Result<CallModel, Seq<char>>
    decreases n,
{
    if n.children.len() >= 2 {
        match args_spec(n.children@[1].children@) {
            Ok(a) => Ok(CallModel { name: n.children@[0].text@, args: a }),
            Err(e) => Err(e),
        }
    } else {
        Ok(CallModel { name: n.children@[0].text@, args: Seq::empty() })
    }
}

/// What a sequence of argument expressions builds to; the first failure wins.
pub open spec fn args_spec(ns: Seq<ParseNode>) -> Result<Seq<ExprModel>, Seq<char>>
    decreases ns,
{
    if ns.len() == 0 {
        Ok(Seq::empty())
    } else {
        match args_spec(ns.drop_last()) {
            Ok(p) => match expr_spec(ns.last()) {
                Ok(x) => Ok(p.push(x)),
                Err(e) => Err(e),
            },
            Err(e) => Err(e),
        }
    }
}

/// What a statement node builds to: a variable declaration, or a call used for its effect.
pub open spec fn stmt_spec(n: ParseNode) -> Result<StmtModel, Seq<char>> {
    let c = n.children@[0];
    match c.rule {
        Rule::VariableDeclaration => {
            let type_text = c.children@[1].text@;
            match type_of_name(type_text) {
                Some(t) => match expr_spec(c.children@[2]) {
                    Ok(init) => Ok(
                        StmtModel::VariableDeclaration {
                            name: c.children@[0].text@,
                            is_mutable: false,
                            type_hint: Some(t),
                            initializer: init,
                        },
                    ),
                    Err(e) => Err(e),
                },
                None => Err(unknown_type_message(type_text)),
            }
        },
        Rule::Expression => {
            let x = c.children@[0];
            if x.rule == Rule::FunctionCall {
                match call_spec(x) {
                    Ok(m) => Ok(StmtModel::Call(m)),
                    Err(e) => Err(e),
                }
            } else {
                Err("Unsupported statement expression: "@ + rule_name(x.rule))
            }
        },
        _ => Err("Unsupported statement: "@ + rule_name(c.rule)),
    }
}

/// What the statement nodes among the children of a block build to, in order.
pub open spec fn stmts_spec(ns: Seq<ParseNode>) -> Result<Seq<StmtModel>, Seq<char>>
    decreases ns.len(),
{
    if ns.len() == 0 {
        Ok(Seq::empty())
    } else {
        match stmts_spec(ns.drop_last()) {
            Ok(p) => if ns.last().rule == Rule::Statement {
                match stmt_spec(ns.last()) {
                    Ok(x) => Ok(p.push(x)),
                    Err(e) => Err(e),
                }
            } else {
                Ok(p)
            },
            Err(e) => Err(e),
        }
    }
}

/// What a parameter node (type name, then name) builds to.
pub open spec fn param_spec(n: ParseNode) -> Result<ParamModel, Seq<char>> {
    let type_text = n.children@[0].text@;
    match type_of_name(type_text) {
        Some(t) => Ok(ParamModel { name: n.children@[1].text@, param_type: t }),
        None => Err(unknown_type_message(type_text)),
    }
}

/// What the parameter nodes among the children of a parameter list build to, in order.
pub open spec fn params_spec(ns: Seq<ParseNode>) -> Result<Seq<ParamModel>, Seq<char>>
    decreases ns.len(),
{
    if ns.len() == 0 {
        Ok(Seq::empty())
    } else {
        match params_spec(ns.drop_last()) {
            Ok(p) => if ns.last().rule == Rule::Parameter {
                match param_spec(ns.last()) {
                    Ok(x) => Ok(p.push(x)),
                    Err(e) => Err(e),
                }
            } else {
                Ok(p)
            },
            Err(e) => Err(e),
        }
    }
}

/// The function definition node has a parameter list.
pub open spec fn has_parameter_list(n: ParseNode) -> bool {
    n.children@[1].rule == Rule::ParameterList
}

/// What the parameters of a function definition node build to; none without a list.
pub open spec fn params_spec_of(n: ParseNode) -> Result<Seq<ParamModel>, Seq<char>> {
    if has_parameter_list(n) {
        params_spec(n.children@[1].children@)
    } else {
        Ok(Seq::empty())
    }
}

/// The value of what a build returned: the program's model, or the error's text.
pub open spec fn program_result(r: Result<Program, String>) -> Result<Seq<DefinitionModel>, Seq<char>> {
    match r {
        Ok(p) => Ok(p@),
        Err(m) => Err(m@),
    }
}

/// Builds are independent of one another: any two results that builders returned for the
/// same top-level nodes, whichever builders made them and in whichever order, are equal.
pub proof fn lemma_builds_agree(nodes: Seq<ParseNode>, r1: Result<Program, String>, r2: Result<Program, String>)
    requires
        program_result(r1) == program_spec(nodes),
        program_result(r2) == program_spec(nodes),
    ensures
        program_result(r1) == program_result(r2),
{
}

/// The text of a function definition node's return type.
pub open spec fn return_type_text(n: ParseNode) -> Seq<char> {
    if has_parameter_list(n) {
        n.children@[2].text@
    } else {
        n.children@[1].text@
    }
}

/// The block node of a function definition node.
pub open spec fn body_node(n: ParseNode) -> ParseNode {
    if has_parameter_list(n) {
        n.children@[3]
    } else {
        n.children@[2]
    }
}

/// What a function definition node builds to: name, optional parameter list, return type
/// and block, read in that order; the first failure wins.
pub open spec fn function_spec(n: ParseNode) -> Result<FunctionModel, Seq<char>> {
    let params = params_spec_of(n);
    let ret_text = return_type_text(n);
    match params {
        Ok(ps) => match type_of_name(ret_text) {
            Some(t) => match stmts_spec(body_node(n).children@) {
                Ok(body) => Ok(
                    FunctionModel { name: n.children@[0].text@, parameters: ps, return_type: t, body },
                ),
                Err(e) => Err(e),
            },
            None => Err(unknown_type_message(ret_text)),
        },
        Err(e) => Err(e),
    }
}

/// What a sequence of top-level nodes builds to: end-of-input markers are skipped, function
/// definitions are built, anything else is an error; the first failure wins.
pub open spec fn program_spec(ns: Seq<ParseNode>) -> Result<Seq<DefinitionModel>, Seq<char>>
    decreases ns.len(),
{
    if ns.len() == 0 {
        Ok(Seq::empty())
    } else {
        match program_spec(ns.drop_last()) {
            Ok(p) => {
                let last = ns.last();
                match last.rule {
                    Rule::Eoi => Ok(p),
                    Rule::FunctionDefinition => match function_spec(last) {
                        Ok(f) => Ok(p.push(DefinitionModel::Function(f))),
                        Err(e) => Err(e),
                    },
                    _ => Err("Unexpected rule at top level: "@ + rule_name(last.rule)),
                }
            },
            Err(e) => Err(e),
        }
    }
}

/// A failure on a prefix of the statements is the failure of the whole sequence.
proof fn lemma_stmts_prefix_err(ns: Seq<ParseNode>, i: int)
    requires
        0 <= i <= ns.len(),
        stmts_spec(ns.take(i)) is Err,
    ensures
        stmts_spec(ns) == stmts_spec(ns.take(i)),
    decreases ns.len() - i,
{
    if i < ns.len() {
        assert(ns.take(i + 1).drop_last() == ns.take(i));
        lemma_stmts_prefix_err(ns, i + 1);
    } else {
        assert(ns.take(i) == ns);
    }
}

/// A failure on a prefix of the parameters is the failure of the whole sequence.
proof fn lemma_params_prefix_err(ns: Seq<ParseNode>, i: int)
    requires
        0 <= i <= ns.len(),
        params_spec(ns.take(i)) is Err,
    ensures
        params_spec(ns) == params_spec(ns.take(i)),
    decreases ns.len() - i,
{
    if i < ns.len() {
        assert(ns.take(i + 1).drop_last() == ns.take(i));
        lemma_params_prefix_err(ns, i + 1);
    } else {
        assert(ns.take(i) == ns);
    }
}

/// A failure on a prefix of the top-level nodes is the failure of the whole sequence.
proof fn lemma_program_prefix_err(ns: Seq<ParseNode>, i: int)
    requires
        0 <= i <= ns.len(),
        program_spec(ns.take(i)) is Err,
    ensures
        program_spec(ns) == program_spec(ns.take(i)),
    decreases ns.len() - i,
{
    if i < ns.len() {
        assert(ns.take(i + 1).drop_last() == ns.take(i));
        lemma_program_prefix_err(ns, i + 1);
    } else {
        assert(ns.take(i) == ns);
    }
}

/// A single function definition followed by the end-of-input marker, whose parameter and
/// return types are recognised and whose body builds, yields exactly one function definition
/// with the source's name, parameters and return type.
pub proof fn lemma_single_function(f: ParseNode, eoi: ParseNode)
    requires
        well_formed(f),
        f.rule == Rule::FunctionDefinition,
        eoi.rule == Rule::Eoi,
        params_spec_of(f) is Ok,
        type_of_name(return_type_text(f)) is Some,
        stmts_spec(body_node(f).children@) is Ok,
    ensures
        program_spec(seq![f, eoi]) is Ok,
        program_spec(seq![f, eoi])->Ok_0.len() == 1,
        ({
            let DefinitionModel::Function(m) = program_spec(seq![f, eoi])->Ok_0[0];
            &&& m.name == f.children@[0].text@
            &&& params_spec_of(f) == Ok::<Seq<ParamModel>, Seq<char>>(m.parameters)
            &&& type_of_name(return_type_text(f)) == Some(m.return_type)
        }),
{
    let ns = seq![f, eoi];
    assert(ns.drop_last() == seq![f]);
    assert(ns.last() == eoi);
    assert(seq![f].drop_last() == Seq::<ParseNode>::empty());
    assert(seq![f].last() == f);
    reveal_with_fuel(program_spec, 3);
}

/// A boolean literal is true exactly when its text is `true`; any other text gives false.
pub proof fn lemma_boolean_literal(n: ParseNode)
    requires
        n.children.len() >= 1,
        n.children@[0].rule == Rule::BooleanLiteral,
    ensures
        literal_spec(n) == Ok::<ExprModel, Seq<char>>(
            ExprModel::Literal(LiteralModel::Bool(n.children@[0].text@ == "true"@)),
        ),
        n.children@[0].text@ != "true"@ ==> literal_spec(n) == Ok::<ExprModel, Seq<char>>(
            ExprModel::Literal(LiteralModel::Bool(false)),
        ),
{
}

/// An integer literal whose digits exceed the 64-bit signed range is an error, never a
/// wrapped value.
pub proof fn lemma_integer_overflow(n: ParseNode)
    requires
        n.children.len() >= 1,
        n.children@[0].rule == Rule::IntegerLiteral,
        all_digits(n.children@[0].text@),
        n.children@[0].text@.len() > 0,
        digits_value(n.children@[0].text@) > i64::MAX,
    ensures
        literal_spec(n) == Err::<ExprModel, Seq<char>>(
            "Invalid integer literal: "@ + n.children@[0].text@,
        ),
{
    let t = n.children@[0].text@;
    assert(t[0] != '-' && t[0] != '+') by {
        assert('0' <= t[0] <= '9');
    }
}

/// A statement whose expression is anything but a function call is rejected as an
/// unsupported statement expression.
pub proof fn lemma_bare_expression_statement(n: ParseNode)
    requires
        n.children.len() >= 1,
        n.children@[0].rule == Rule::Expression,
        n.children@[0].children.len() >= 1,
        n.children@[0].children@[0].rule != Rule::FunctionCall,
    ensures
        stmt_spec(n) == Err::<StmtModel, Seq<char>>(
            "Unsupported statement expression: "@ + rule_name(n.children@[0].children@[0].rule),
        ),
{
}

/// A failing statement in a function body fails the whole program: no partial AST.
pub proof fn lemma_failing_body(f: ParseNode, eoi: ParseNode)
    requires
        well_formed(f),
        f.rule == Rule::FunctionDefinition,
        eoi.rule == Rule::Eoi,
        params_spec_of(f) is Ok,
        type_of_name(return_type_text(f)) is Some,
        stmts_spec(body_node(f).children@) is Err,
    ensures
        program_spec(seq![f, eoi]) == Err::<Seq<DefinitionModel>, Seq<char>>(
            stmts_spec(body_node(f).children@)->Err_0,
        ),
{
    let ns = seq![f, eoi];
    assert(ns.drop_last() == seq![f]);
    assert(ns.last() == eoi);
    assert(seq![f].drop_last() == Seq::<ParseNode>::empty());
    assert(seq![f].last() == f);
    reveal_with_fuel(program_spec, 3);
}

/// A failure on a prefix of the arguments is the failure of the whole list.
proof fn lemma_args_prefix_err(ns: Seq<ParseNode>, i: int)
    requires
        0 <= i <= ns.len(),
        args_spec(ns.take(i)) is Err,
    ensures
        args_spec(ns) == args_spec(ns.take(i)),
    decreases ns.len() - i,
{
    if i < ns.len() {
        assert(ns.take(i + 1).drop_last() == ns.take(i));
        lemma_args_prefix_err(ns, i + 1);
    } else {
        assert(ns.take(i) == ns);
    }
}

/// Builds the AST from the parse tree that a grammar engine produced.
pub struct RelieveAstBuilder;

impl RelieveAstBuilder {
    pub fn new() -> (r: Self) {
        RelieveAstBuilder
    }

    fn parse_expression(&self, n: &ParseNode) -> (r: Result<Expression, String>)
        requires
            well_formed(*n),
            n.rule == Rule::Expression,
        ensures
            match r {
                Ok(e) => expr_spec(*n) == Ok::<ExprModel, Seq<char>>(e@),
                Err(m) => expr_spec(*n) == Err::<ExprModel, Seq<char>>(m@),
            },
        decreases *n, 1nat,
    {
        proof {
            lemma_all_well_formed_index(n.children@, 0);
        }
        let c = &n.children[0];
        match c.rule {
            Rule::Literal => self.parse_literal(c),
            Rule::Identifier => Ok(Expression::Identifier(c.text.clone())),
            Rule::FunctionCall => match self.parse_function_call(c) {
                Ok(call) => Ok(Expression::FunctionCall(call)),
                Err(e) => Err(e),
            },
            _ => Err(String::from_str("Unsupported expression: ").concat(c.rule.name())),
        }
    }

    fn parse_function_call(&self, n: &ParseNode) -> (r: Result<FunctionCall, String>)
        requires
            well_formed(*n),
            n.rule == Rule::FunctionCall,
        ensures
            match r {
                Ok(c) => call_spec(*n) == Ok::<CallModel, Seq<char>>(c@),
                Err(m) => call_spec(*n) == Err::<CallModel, Seq<char>>(m@),
            },
        decreases *n, 1nat,
    {
        let name = n.children[0].text.clone();
        let mut arguments: Vec<Expression> = Vec::new();
        if n.children.len() >= 2 {
            let list = &n.children[1];
            proof {
                lemma_all_well_formed_index(n.children@, 1);
            }
            let k = list.children.len();
            let mut i: usize = 0;
            while i < k
                invariant
                    k == list.children.len(),
                    i <= k,
                    well_formed(*list),
                    well_formed(*n),
                    n.rule == Rule::FunctionCall,
                    n.children.len() >= 2,
                    *list == n.children@[1],
                    args_spec(list.children@.take(i as int)) == Ok::<Seq<ExprModel>, Seq<char>>(
                        exprs_view(arguments@),
                    ),
                decreases k - i,
            {
                assert(list.children@.take(i + 1).drop_last() == list.children@.take(i as int));
                assert(list.children@.take(i + 1).last() == list.children@[i as int]);
                proof {
                    lemma_all_well_formed_index(list.children@, i as int);
                    assert(n.children@[1].children@[i as int].rule == Rule::Expression);
                    assert(decreases_to!(n.children => n.children@));
                    assert(decreases_to!(n.children@ => n.children@[1]));
                    assert(decreases_to!(list.children => list.children@));
                    assert(decreases_to!(list.children@ => list.children@[i as int]));
                }
                match self.parse_expression(&list.children[i]) {
                    Ok(e) => {
                        proof {
                            assert(arguments@.push(e).drop_last() == arguments@);
                        }
                        arguments.push(e);
                    },
                    Err(m) => {
                        proof {
                            lemma_args_prefix_err(list.children@, i as int + 1);
                        }
                        return Err(m);
                    },
                }
                i = i + 1;
            }
            assert(list.children@.take(k as int) == list.children@);
        }
        Ok(FunctionCall { name, arguments })
    }

    /// Builds the program from the top-level nodes of a parse tree.
    pub fn parse_program(&self, nodes: &Vec<ParseNode>) -> (r: Result<Program, String>)
        requires
            all_well_formed(nodes@),
        ensures
            program_result(r) == program_spec(nodes@),
    {
        let mut program = Program { definitions: Vec::new() };
        let k = nodes.len();
        let mut i: usize = 0;
        assert(nodes@.take(0) == Seq::<ParseNode>::empty());
        assert(program@ == Seq::<DefinitionModel>::empty());
        while i < k
            invariant
                k == nodes.len(),
                i <= k,
                all_well_formed(nodes@),
                program_spec(nodes@.take(i as int)) == Ok::<Seq<DefinitionModel>, Seq<char>>(
                    program@,
                ),
            decreases k - i,
        {
            assert(nodes@.take(i + 1).drop_last() == nodes@.take(i as int));
            assert(nodes@.take(i + 1).last() == nodes@[i as int]);
            let node = &nodes[i];
            match node.rule {
                Rule::Eoi => {},
                Rule::FunctionDefinition => {
                    proof {
                        lemma_all_well_formed_index(nodes@, i as int);
                    }
                    match self.parse_function_definition(node) {
                        Ok(f) => {
                            let d = Definition::Function(f);
                            proof {
                                assert(program.definitions@.push(d).map_values(|d: Definition| d@)
                                    == program@.push(d@));
                            }
                            program.definitions.push(d);
                        },
                        Err(m) => {
                            proof {
                                lemma_program_prefix_err(nodes@, i as int + 1);
                            }
                            return Err(m);
                        },
                    }
                },
                _ => {
                    proof {
                        lemma_program_prefix_err(nodes@, i as int + 1);
                    }
                    return Err(
                        String::from_str("Unexpected rule at top level: ").concat(node.rule.name()),
                    );
                },
            }
            i = i + 1;
        }
        assert(nodes@.take(k as int) == nodes@);
        Ok(program)
    }

    fn parse_function_definition(&self, n: &ParseNode) -> (r: Result<FunctionDefinition, String>)
        requires
            well_formed(*n),
            n.rule == Rule::FunctionDefinition,
        ensures
            match r {
                Ok(f) => function_spec(*n) == Ok::<FunctionModel, Seq<char>>(f@),
                Err(m) => function_spec(*n) == Err::<FunctionModel, Seq<char>>(m@),
            },
    {
        let name = n.children[0].text.clone();
        let mut parameters: Vec<Parameter> = Vec::new();
        let has_list = n.children[1].rule == Rule::ParameterList;
        if has_list {
            let list = &n.children[1];
            let k = list.children.len();
            let mut i: usize = 0;
            proof {
                lemma_all_well_formed_index(n.children@, 1);
            }
            assert(list.children@.take(0) == Seq::<ParseNode>::empty());
            assert(parameters@.map_values(|p: Parameter| p@) == Seq::<ParamModel>::empty());
            while i < k
                invariant
                    k == list.children.len(),
                    i <= k,
                    well_formed(*list),
                    well_formed(*n),
                    n.rule == Rule::FunctionDefinition,
                    *list == n.children@[1],
                    has_parameter_list(*n),
                    params_spec(list.children@.take(i as int)) == Ok::<Seq<ParamModel>, Seq<char>>(
                        parameters@.map_values(|p: Parameter| p@),
                    ),
                decreases k - i,
            {
                assert(list.children@.take(i + 1).drop_last() == list.children@.take(i as int));
                assert(list.children@.take(i + 1).last() == list.children@[i as int]);
                let p = &list.children[i];
                if p.rule == Rule::Parameter {
                    proof {
                        lemma_all_well_formed_index(list.children@, i as int);
                    }
                    match resolve_type_name(p.children[0].text.as_str()) {
                        Ok(t) => {
                            let param = Parameter { name: p.children[1].text.clone(), param_type: t };
                            proof {
                                assert(parameters@.push(param).map_values(|p: Parameter| p@)
                                    == parameters@.map_values(|p: Parameter| p@).push(param@));
                            }
                            parameters.push(param);
                        },
                        Err(m) => {
                            proof {
                                lemma_params_prefix_err(list.children@, i as int + 1);
                            }
                            return Err(m);
                        },
                    }
                }
                i = i + 1;
            }
            assert(list.children@.take(k as int) == list.children@);
        } else {
            assert(parameters@.map_values(|p: Parameter| p@) == Seq::<ParamModel>::empty());
        }
        assert(params_spec_of(*n) == Ok::<Seq<ParamModel>, Seq<char>>(
            parameters@.map_values(|p: Parameter| p@),
        ));
        let k: usize = if has_list { 2 } else { 1 };
        let return_type = match resolve_type_name(n.children[k].text.as_str()) {
            Ok(t) => t,
            Err(m) => return Err(m),
        };
        proof {
            lemma_all_well_formed_index(n.children@, k + 1);
        }
        let body = match self.parse_block(&n.children[k + 1]) {
            Ok(b) => b,
            Err(m) => return Err(m),
        };
        Ok(FunctionDefinition { name, parameters, return_type, body })
    }

    /// Resolves a type name written in the source to its type tag.
    pub fn parse_type_name(&self, text: &str) -> (r: Result<RelieveType, String>)
        ensures
            match r {
                Ok(t) => type_of_name(text@) == Some(t),
                Err(m) => type_of_name(text@) is None && m@ == unknown_type_message(
                    text@,
                ),
            },
    {
        resolve_type_name(text)
    }

    fn parse_statement(&self, n: &ParseNode) -> (r: Result<Statement, String>)
        requires
            well_formed(*n),
            n.rule == Rule::Statement,
        ensures
            match r {
                Ok(st) => stmt_spec(*n) == Ok::<StmtModel, Seq<char>>(st@),
                Err(m) => stmt_spec(*n) == Err::<StmtModel, Seq<char>>(m@),
            },
    {
        proof {
            lemma_all_well_formed_index(n.children@, 0);
        }
        let c = &n.children[0];
        match c.rule {
            Rule::VariableDeclaration => {
                proof {
                    lemma_all_well_formed_index(c.children@, 2);
                }
                let name = c.children[0].text.clone();
                let type_hint = match resolve_type_name(c.children[1].text.as_str()) {
                    Ok(t) => t,
                    Err(m) => return Err(m),
                };
                let initializer = match self.parse_expression(&c.children[2]) {
                    Ok(e) => e,
                    Err(m) => return Err(m),
                };
                Ok(Statement::VariableDeclaration {
                    name,
                    is_mutable: false,
                    type_hint: Some(type_hint),
                    initializer,
                })
            },
            Rule::Expression => {
                proof {
                    lemma_all_well_formed_index(c.children@, 0);
                }
                let x = &c.children[0];
                if x.rule == Rule::FunctionCall {
                    match self.parse_function_call(x) {
                        Ok(call) => Ok(Statement::FunctionCall(call)),
                        Err(m) => Err(m),
                    }
                } else {
                    Err(String::from_str("Unsupported statement expression: ").concat(x.rule.name()))
                }
            },
            _ => Err(String::from_str("Unsupported statement: ").concat(c.rule.name())),
        }
    }

    fn parse_block(&self, n: &ParseNode) -> (r: Result<Block, String>)
        requires
            well_formed(*n),
        ensures
            match r {
                Ok(b) => stmts_spec(n.children@) == Ok::<Seq<StmtModel>, Seq<char>>(b@),
                Err(m) => stmts_spec(n.children@) == Err::<Seq<StmtModel>, Seq<char>>(m@),
            },
    {
        let mut statements: Vec<Statement> = Vec::new();
        let k = n.children.len();
        let mut i: usize = 0;
        assert(n.children@.take(0) == Seq::<ParseNode>::empty());
        assert(statements@.map_values(|s: Statement| s@) == Seq::<StmtModel>::empty());
        while i < k
            invariant
                k == n.children.len(),
                i <= k,
                well_formed(*n),
                stmts_spec(n.children@.take(i as int)) == Ok::<Seq<StmtModel>, Seq<char>>(
                    statements@.map_values(|s: Statement| s@),
                ),
            decreases k - i,
        {
            assert(n.children@.take(i + 1).drop_last() == n.children@.take(i as int));
            assert(n.children@.take(i + 1).last() == n.children@[i as int]);
            if n.children[i].rule == Rule::Statement {
                proof {
                    lemma_all_well_formed_index(n.children@, i as int);
                }
                match self.parse_statement(&n.children[i]) {
                    Ok(st) => {
                        proof {
                            assert(statements@.push(st).map_values(|s: Statement| s@)
                                == statements@.map_values(|s: Statement| s@).push(st@));
                        }
                        statements.push(st);
                    },
                    Err(m) => {
                        proof {
                            lemma_stmts_prefix_err(n.children@, i as int + 1);
                        }
                        return Err(m);
                    },
                }
            }
            i = i + 1;
        }
        assert(n.children@.take(k as int) == n.children@);
        Ok(Block { statements })
    }

    fn parse_literal(&self, n: &ParseNode) -> (r: Result<Expression, String>)
        requires
            well_formed(*n),
            n.rule == Rule::Literal,
        ensures
            match r {
                Ok(e) => literal_spec(*n) == Ok::<ExprModel, Seq<char>>(e@),
                Err(m) => literal_spec(*n) == Err::<ExprModel, Seq<char>>(m@),
            },
    {
        let c = &n.children[0];
        match c.rule {
            Rule::StringLiteral => {
                let t = c.text.as_str();
                let len = t.unicode_len();
                let s = if len >= 2 {
                    String::from_str(t.substring_char(1, len - 1))
                } else {
                    String::new()
                };
                Ok(Expression::Literal(LiteralValue::String(s)))
            },
            Rule::IntegerLiteral => match parse_i64(c.text.as_str()) {
                Some(v) => Ok(Expression::Literal(LiteralValue::Integer(v))),
                None => Err(String::from_str("Invalid integer literal: ").concat(c.text.as_str())),
            },
            Rule::BooleanLiteral => {
                let b = text_is(c.text.as_str(), "true");
                Ok(Expression::Literal(LiteralValue::Boolean(b)))
            },
            _ => Err(String::from_str("Unsupported literal: ").concat(c.rule.name())),
        }
    }
}

} // verus!
