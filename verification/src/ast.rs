//! The abstract syntax tree: a closed family of statement and expression
//! nodes.  Every node carries the token that introduced it and has a
//! canonical textual rendering (`string`), whose exact content is given by
//! the `render_*` spec functions: the rendering fully parenthesizes
//! precedence, so left-associative infix chains read as nested
//! subexpressions.

use vstd::prelude::*;

use crate::strutil::{int_chars, int_to_string, push_str_chars, string_from_chars};
use crate::token::Token;

verus! {

/// The mathematical value of an expression: the node structure with tokens
/// stripped and every text field taken as a character sequence.
#[verifier::ext_equal]
pub ghost enum ExprV {
    Ident { name: Seq<char> },
    Int { value: i64 },
    Bool { value: bool },
    Null,
    Str { value: Seq<char> },
    Prefix { op: Seq<char>, right: Box<ExprV> },
    Infix { op: Seq<char>, left: Box<ExprV>, right: Box<ExprV> },
    If { cond: Box<ExprV>, cons: Seq<StmtV>, alt: Option<Seq<StmtV>> },
    Fun { params: Seq<Seq<char>>, body: Seq<StmtV> },
    Call { callee: Box<ExprV>, args: Seq<ExprV> },
    Index { collection: Box<ExprV>, index: Box<ExprV> },
    Array { items: Seq<ExprV> },
}

/// The mathematical value of a statement.
#[verifier::ext_equal]
pub ghost enum StmtV {
    Let { name: Seq<char>, value: ExprV, rec: bool },
    Return { value: ExprV },
    Def { name: Seq<char>, params: Seq<Seq<char>>, body: Seq<StmtV> },
    Expr { value: ExprV },
    Block { statements: Seq<StmtV> },
}

// ===== The executable node types =====

/// A name appearing in source text.
pub struct Identifier {
    pub token: Token,
    pub value: String,
}

/// `let [rec] name = value;`
pub struct LetStatement {
    pub token: Token,
    pub name: Identifier,
    pub value: Box<Expression>,
    pub rec: bool,
}

/// `def name(params) { body }`
pub struct DefStatement {
    pub token: Token,
    pub name: Identifier,
    pub parameters: Vec<Identifier>,
    pub body: BlockStatement,
}

/// `return value;`
pub struct ReturnStatement {
    pub token: Token,
    pub return_value: Box<Expression>,
}

/// An expression in statement position; its value is discarded.
pub struct ExpressionStatement {
    pub token: Token,
    pub expression: Box<Expression>,
}

/// An integer literal.
pub struct IntegerLiteral {
    pub token: Token,
    pub value: i64,
}

/// `true` or `false`.
pub struct BooleanLiteral {
    pub token: Token,
    pub value: bool,
}

/// `null`.
pub struct NullLiteral {
    pub token: Token,
}

/// A string literal; `value` is the text between the quotes.
pub struct StringLiteral {
    pub token: Token,
    pub value: String,
}

/// `!right` or `-right`.
pub struct PrefixExpression {
    pub token: Token,
    pub operator: String,
    pub right: Box<Expression>,
}

/// `left op right`.
pub struct InfixExpression {
    pub token: Token,
    pub operator: String,
    pub left: Box<Expression>,
    pub right: Box<Expression>,
}

/// `if (condition) { consequence } [ else { alternative } ]`.
pub struct IfExpression {
    pub token: Token,
    pub condition: Box<Expression>,
    pub consequence: BlockStatement,
    pub alternative: Option<BlockStatement>,
}

/// `{ statements }`.
pub struct BlockStatement {
    pub token: Token,
    pub statements: Vec<Statement>,
}

/// `fun(params) { body }`.
pub struct FunctionLiteral {
    pub token: Token,
    pub parameters: Vec<Identifier>,
    pub body: BlockStatement,
}

/// `callee(arguments)`; the callee is an identifier or a function literal.
pub struct CallExpression {
    pub token: Token,
    pub function: Box<Expression>,
    pub arguments: Vec<Expression>,
}

/// `collection[index]`.
pub struct IndexExpression {
    pub token: Token,
    pub collection: Box<Expression>,
    pub index: Box<Expression>,
}

/// `[items]`.
pub struct ArrayExpression {
    pub token: Token,
    pub items: Vec<Expression>,
}

/// The closed set of expression variants.
pub enum Expression {
    Identifier(Identifier),
    Integer(IntegerLiteral),
    Boolean(BooleanLiteral),
    Null(NullLiteral),
    Str(StringLiteral),
    Prefix(PrefixExpression),
    Infix(InfixExpression),
    If(IfExpression),
    Function(FunctionLiteral),
    Call(CallExpression),
    Index(IndexExpression),
    Array(ArrayExpression),
}

/// The closed set of statement variants.
pub enum Statement {
    Let(LetStatement),
    Return(ReturnStatement),
    Def(DefStatement),
    Expression(ExpressionStatement),
    Block(BlockStatement),
}

/// An ordered sequence of statements evaluated at top level.
pub struct Program {
    pub statements: Vec<Statement>,
}

// ===== Views =====

/// The names of a parameter list.
pub open spec fn idents_view(ps: Seq<Identifier>) -> Seq<Seq<char>> {
    ps.map_values(|id: Identifier| id.value@)
}

/// The value of an expression node.
pub open spec fn expr_view(e: Expression) -> ExprV
    decreases e, 0nat,
{
    match e {
        Expression::Identifier(id) => ExprV::Ident { name: id.value@ },
        Expression::Integer(n) => ExprV::Int { value: n.value },
        Expression::Boolean(b) => ExprV::Bool { value: b.value },
        Expression::Null(_) => ExprV::Null,
        Expression::Str(s) => ExprV::Str { value: s.value@ },
        Expression::Prefix(p) => ExprV::Prefix {
            op: p.operator@,
            right: Box::new(expr_view(*p.right)),
        },
        Expression::Infix(ix) => ExprV::Infix {
            op: ix.operator@,
            left: Box::new(expr_view(*ix.left)),
            right: Box::new(expr_view(*ix.right)),
        },
        Expression::If(ifx) => ExprV::If {
            cond: Box::new(expr_view(*ifx.condition)),
            cons: stmts_view(ifx.consequence.statements@),
            alt: match ifx.alternative {
                Some(b) => Some(stmts_view(b.statements@)),
                None => None,
            },
        },
        Expression::Function(f) => ExprV::Fun {
            params: idents_view(f.parameters@),
            body: stmts_view(f.body.statements@),
        },
        Expression::Call(c) => ExprV::Call {
            callee: Box::new(expr_view(*c.function)),
            args: exprs_view(c.arguments@),
        },
        Expression::Index(ix) => ExprV::Index {
            collection: Box::new(expr_view(*ix.collection)),
            index: Box::new(expr_view(*ix.index)),
        },
        Expression::Array(a) => ExprV::Array { items: exprs_view(a.items@) },
    }
}

/// The values of a sequence of expressions.
pub open spec fn exprs_view(es: Seq<Expression>) -> Seq<ExprV>
    decreases es, 0nat,
{
    if es.len() == 0 {
        Seq::empty()
    } else {
        exprs_view(es.drop_last()).push(expr_view(es.last()))
    }
}

/// The value of a statement node.
pub open spec fn stmt_view(s: Statement) -> StmtV
    decreases s, 0nat,
{
    match s {
        Statement::Let(ls) => StmtV::Let {
            name: ls.name.value@,
            value: expr_view(*ls.value),
            rec: ls.rec,
        },
        Statement::Return(rs) => StmtV::Return { value: expr_view(*rs.return_value) },
        Statement::Def(ds) => StmtV::Def {
            name: ds.name.value@,
            params: idents_view(ds.parameters@),
            body: stmts_view(ds.body.statements@),
        },
        Statement::Expression(es) => StmtV::Expr { value: expr_view(*es.expression) },
        Statement::Block(b) => StmtV::Block { statements: stmts_view(b.statements@) },
    }
}

/// The values of a sequence of statements.
pub open spec fn stmts_view(ss: Seq<Statement>) -> Seq<StmtV>
    decreases ss, 0nat,
{
    if ss.len() == 0 {
        Seq::empty()
    } else {
        stmts_view(ss.drop_last()).push(stmt_view(ss.last()))
    }
}

impl View for Expression {
    type V = ExprV;

    open spec fn view(&self) -> ExprV {
        expr_view(*self)
    }
}

impl View for Statement {
    type V = StmtV;

    open spec fn view(&self) -> StmtV {
        stmt_view(*self)
    }
}

impl View for Program {
    type V = Seq<StmtV>;

    open spec fn view(&self) -> Seq<StmtV> {
        stmts_view(self.statements@)
    }
}

/// `stmts_view` maps the sequence element by element.
pub proof fn lemma_stmts_view_len(ss: Seq<Statement>)
    ensures
        stmts_view(ss).len() == ss.len(),
        forall|i: int| 0 <= i < ss.len() ==> stmts_view(ss)[i] == stmt_view(ss[i]),
    decreases ss.len(),
{
    if ss.len() > 0 {
        lemma_stmts_view_len(ss.drop_last());
    }
}

/// `exprs_view` maps the sequence element by element.
pub proof fn lemma_exprs_view_len(es: Seq<Expression>)
    ensures
        exprs_view(es).len() == es.len(),
        forall|i: int| 0 <= i < es.len() ==> exprs_view(es)[i] == expr_view(es[i]),
    decreases es.len(),
{
    if es.len() > 0 {
        lemma_exprs_view_len(es.drop_last());
    }
}

// ===== Well-formedness =====

/// An expression is well-formed when every call's callee is an identifier or
/// a function literal, recursively.
pub open spec fn expr_wf(e: ExprV) -> bool
    decreases e, 0nat,
{
    match e {
        ExprV::Ident { .. } => true,
        ExprV::Int { .. } => true,
        ExprV::Bool { .. } => true,
        ExprV::Null => true,
        ExprV::Str { .. } => true,
        ExprV::Prefix { right, .. } => expr_wf(*right),
        ExprV::Infix { left, right, .. } => expr_wf(*left) && expr_wf(*right),
        ExprV::If { cond, cons, alt } => expr_wf(*cond) && stmts_wf(cons) && match alt {
            Some(b) => stmts_wf(b),
            None => true,
        },
        ExprV::Fun { body, .. } => stmts_wf(body),
        ExprV::Call { callee, args } => (*callee matches ExprV::Ident { .. } || *callee
            matches ExprV::Fun { .. }) && expr_wf(*callee) && exprs_wf(args),
        ExprV::Index { collection, index } => expr_wf(*collection) && expr_wf(*index),
        ExprV::Array { items } => exprs_wf(items),
    }
}

/// Every expression of the sequence is well-formed.
pub open spec fn exprs_wf(es: Seq<ExprV>) -> bool
    decreases es, 0nat,
{
    if es.len() == 0 {
        true
    } else {
        exprs_wf(es.drop_last()) && expr_wf(es.last())
    }
}

/// A statement is well-formed when the expressions inside it are.
pub open spec fn stmt_wf(s: StmtV) -> bool
    decreases s, 0nat,
{
    match s {
        StmtV::Let { value, .. } => expr_wf(value),
        StmtV::Return { value } => expr_wf(value),
        StmtV::Def { body, .. } => stmts_wf(body),
        StmtV::Expr { value } => expr_wf(value),
        StmtV::Block { statements } => stmts_wf(statements),
    }
}

/// Every statement of the sequence is well-formed.
pub open spec fn stmts_wf(ss: Seq<StmtV>) -> bool
    decreases ss, 0nat,
{
    if ss.len() == 0 {
        true
    } else {
        stmts_wf(ss.drop_last()) && stmt_wf(ss.last())
    }
}

// ===== The canonical rendering =====

/// Joins rendered parts with a separator.
pub open spec fn join_chars(parts: Seq<Seq<char>>, sep: Seq<char>) -> Seq<char>
    decreases parts.len(),
{
    if parts.len() == 0 {
        Seq::empty()
    } else if parts.len() == 1 {
        parts[0]
    } else {
        parts[0].add(sep).add(join_chars(parts.drop_first(), sep))
    }
}

/// Appending one more part extends the join by a separator and the part.
pub proof fn lemma_join_push(parts: Seq<Seq<char>>, p: Seq<char>, sep: Seq<char>)
    ensures
        parts.len() == 0 ==> join_chars(parts.push(p), sep) == p,
        parts.len() > 0 ==> join_chars(parts.push(p), sep) == join_chars(parts, sep).add(sep).add(
            p,
        ),
    decreases parts.len(),
{
    let whole = parts.push(p);
    if parts.len() == 0 {
        assert(whole.len() == 1);
        assert(whole[0] == p);
    } else {
        assert(whole.drop_first() =~= parts.drop_first().push(p));
        lemma_join_push(parts.drop_first(), p, sep);
        if parts.len() == 1 {
            assert(parts.drop_first().len() == 0);
            assert(join_chars(whole, sep) == whole[0].add(sep).add(p));
            assert(whole[0] == parts[0]);
            assert(join_chars(parts, sep) == parts[0]);
        } else {
            assert(join_chars(whole, sep) == whole[0].add(sep).add(
                join_chars(parts.drop_first().push(p), sep),
            ));
            assert(whole[0] == parts[0]);
            assert(join_chars(parts.drop_first().push(p), sep) == join_chars(
                parts.drop_first(),
                sep,
            ).add(sep).add(p));
            assert(parts[0].add(sep).add(join_chars(parts.drop_first(), sep).add(sep).add(p))
                =~= parts[0].add(sep).add(join_chars(parts.drop_first(), sep)).add(sep).add(p));
        }
    }
}

/// The canonical rendering of an expression.  Prefix and infix nodes are
/// always parenthesized, so precedence and association are explicit in the
/// text.
pub open spec fn render_expr(e: ExprV) -> Seq<char>
    decreases e, 0nat,
{
    match e {
        ExprV::Ident { name } => name,
        ExprV::Int { value } => int_chars(value as int),
        ExprV::Bool { value } => if value {
            "true"@
        } else {
            "false"@
        },
        ExprV::Null => "null"@,
        ExprV::Str { value } => value,
        ExprV::Prefix { op, right } => "("@.add(op).add(render_expr(*right)).add(")"@),
        ExprV::Infix { op, left, right } => "("@.add(render_expr(*left)).add(" "@).add(op).add(
            " "@,
        ).add(render_expr(*right)).add(")"@),
        ExprV::If { cond, cons, alt } => {
            let head = "if ("@.add(render_expr(*cond)).add(") "@).add(render_block(cons));
            match alt {
                Some(b) => head.add(" else "@).add(render_block(b)),
                None => head,
            }
        },
        ExprV::Fun { params, body } => "fun("@.add(join_chars(params, ","@)).add(") "@).add(
            render_block(body),
        ),
        ExprV::Call { callee, args } => render_expr(*callee).add("("@).add(
            join_chars(render_exprs(args), ", "@),
        ).add(")"@),
        ExprV::Index { collection, index } => render_expr(*collection).add("["@).add(
            render_expr(*index),
        ).add("]"@),
        ExprV::Array { items } => "["@.add(join_chars(render_exprs(items), ", "@)).add("]"@),
    }
}

/// The renderings of a sequence of expressions.
pub open spec fn render_exprs(es: Seq<ExprV>) -> Seq<Seq<char>>
    decreases es, 0nat,
{
    if es.len() == 0 {
        Seq::empty()
    } else {
        render_exprs(es.drop_last()).push(render_expr(es.last()))
    }
}

/// The canonical rendering of a statement.
pub open spec fn render_stmt(s: StmtV) -> Seq<char>
    decreases s, 0nat,
{
    match s {
        StmtV::Let { name, value, rec } => {
            let head = if rec {
                "let rec "@
            } else {
                "let "@
            };
            head.add(name).add(" = "@).add(render_expr(value)).add(";"@)
        },
        StmtV::Return { value } => "return "@.add(render_expr(value)).add(";"@),
        StmtV::Def { name, params, body } => "def "@.add(name).add("("@).add(
            join_chars(params, ","@),
        ).add(") "@).add(render_block(body)),
        StmtV::Expr { value } => render_expr(value).add(";"@),
        StmtV::Block { statements } => render_block(statements),
    }
}

/// The renderings of a sequence of statements.
pub open spec fn render_stmts(ss: Seq<StmtV>) -> Seq<Seq<char>>
    decreases ss, 0nat,
{
    if ss.len() == 0 {
        Seq::empty()
    } else {
        render_stmts(ss.drop_last()).push(render_stmt(ss.last()))
    }
}

/// The canonical rendering of a block: the statements joined by single
/// spaces, between braces.
pub open spec fn render_block(ss: Seq<StmtV>) -> Seq<char>
    decreases ss, 1nat,
{
    "{ "@.add(join_chars(render_stmts(ss), " "@)).add(" }"@)
}

/// The canonical rendering of a program: statement renderings joined by
/// newlines.
pub open spec fn render_program(ss: Seq<StmtV>) -> Seq<char> {
    join_chars(render_stmts(ss), "\n"@)
}

/// The rendering law for infix expressions: an infix node always renders as
/// its parenthesized left rendering, the operator and the parenthesized
/// right rendering, so nested applications of left-associative operators
/// appear as nested parenthesized subexpressions.
pub proof fn lemma_render_infix_parenthesizes(op: Seq<char>, left: ExprV, right: ExprV)
    ensures
        render_expr(ExprV::Infix { op, left: Box::new(left), right: Box::new(right) }) == "("@.add(
            render_expr(left),
        ).add(" "@).add(op).add(" "@).add(render_expr(right)).add(")"@),
        render_expr(ExprV::Prefix { op, right: Box::new(right) }) == "("@.add(op).add(
            render_expr(right),
        ).add(")"@),
{
}

// ===== Rendering, executably =====

fn render_params_into(ps: &Vec<Identifier>, out: &mut Vec<char>)
    ensures
        final(out)@ == old(out)@.add(join_chars(idents_view(ps@), ","@)),
{
    let ghost base = out@;
    let mut i: usize = 0;
    while i < ps.len()
        invariant
            i <= ps.len(),
            out@ == base.add(join_chars(idents_view(ps@).take(i as int), ","@)),
        decreases ps.len() - i,
    {
        if i > 0 {
            push_str_chars(out, ",");
        }
        push_str_chars(out, ps[i].value.as_str());
        proof {
            let views = idents_view(ps@);
            lemma_join_push(views.take(i as int), views[i as int], ","@);
            assert(views.take(i + 1) =~= views.take(i as int).push(views[i as int]));
            if i == 0 {
                assert(out@ =~= base.add(join_chars(views.take(i + 1), ","@)));
            } else {
                assert(out@ =~= base.add(join_chars(views.take(i + 1), ","@)));
            }
        }
        i = i + 1;
    }
    proof {
        assert(idents_view(ps@).take(ps@.len() as int) =~= idents_view(ps@));
    }
}

/// The parameter names joined by commas, as renderings use them.
pub fn render_params_string(ps: &Vec<Identifier>) -> (r: String)
    ensures
        r@ == join_chars(idents_view(ps@), ","@),
{
    let mut out: Vec<char> = Vec::new();
    render_params_into(ps, &mut out);
    string_from_chars(&out)
}

fn render_expr_into(e: &Expression, out: &mut Vec<char>)
    ensures
        final(out)@ == old(out)@.add(render_expr(expr_view(*e))),
    decreases *e, 2nat,
{
    match e {
        Expression::Identifier(id) => {
            push_str_chars(out, id.value.as_str());
        },
        Expression::Integer(n) => {
            let s = int_to_string(n.value);
            push_str_chars(out, s.as_str());
        },
        Expression::Boolean(b) => {
            if b.value {
                push_str_chars(out, "true");
            } else {
                push_str_chars(out, "false");
            }
        },
        Expression::Null(_) => {
            push_str_chars(out, "null");
        },
        Expression::Str(s) => {
            push_str_chars(out, s.value.as_str());
        },
        Expression::Prefix(p) => {
            push_str_chars(out, "(");
            push_str_chars(out, p.operator.as_str());
            render_expr_into(&p.right, out);
            push_str_chars(out, ")");
            proof {
                assert(out@ =~= old(out)@.add(render_expr(expr_view(*e))));
            }
        },
        Expression::Infix(ix) => {
            push_str_chars(out, "(");
            render_expr_into(&ix.left, out);
            push_str_chars(out, " ");
            push_str_chars(out, ix.operator.as_str());
            push_str_chars(out, " ");
            render_expr_into(&ix.right, out);
            push_str_chars(out, ")");
            proof {
                assert(out@ =~= old(out)@.add(render_expr(expr_view(*e))));
            }
        },
        Expression::If(ifx) => {
            push_str_chars(out, "if (");
            render_expr_into(&ifx.condition, out);
            push_str_chars(out, ") ");
            render_block_into(&ifx.consequence, out);
            match &ifx.alternative {
                Some(alt) => {
                    push_str_chars(out, " else ");
                    render_block_into(alt, out);
                },
                None => {},
            }
            proof {
                assert(out@ =~= old(out)@.add(render_expr(expr_view(*e))));
            }
        },
        Expression::Function(f) => {
            push_str_chars(out, "fun(");
            render_params_into(&f.parameters, out);
            push_str_chars(out, ") ");
            render_block_into(&f.body, out);
            proof {
                assert(out@ =~= old(out)@.add(render_expr(expr_view(*e))));
            }
        },
        Expression::Call(c) => {
            render_expr_into(&c.function, out);
            push_str_chars(out, "(");
            render_exprs_into(&c.arguments, out);
            push_str_chars(out, ")");
            proof {
                assert(out@ =~= old(out)@.add(render_expr(expr_view(*e))));
            }
        },
        Expression::Index(ix) => {
            render_expr_into(&ix.collection, out);
            push_str_chars(out, "[");
            render_expr_into(&ix.index, out);
            push_str_chars(out, "]");
            proof {
                assert(out@ =~= old(out)@.add(render_expr(expr_view(*e))));
            }
        },
        Expression::Array(a) => {
            push_str_chars(out, "[");
            render_exprs_into(&a.items, out);
            push_str_chars(out, "]");
            proof {
                assert(out@ =~= old(out)@.add(render_expr(expr_view(*e))));
            }
        },
    }
}

/// Renders a comma-separated expression list.
fn render_exprs_into(es: &Vec<Expression>, out: &mut Vec<char>)
    ensures
        final(out)@ == old(out)@.add(join_chars(render_exprs(exprs_view(es@)), ", "@)),
    decreases *es, 3nat,
{
    let ghost base = out@;
    let ghost views = exprs_view(es@);
    proof {
        lemma_exprs_view_len(es@);
    }
    let mut i: usize = 0;
    while i < es.len()
        invariant
            i <= es.len(),
            views == exprs_view(es@),
            views.len() == es@.len(),
            forall|j: int| 0 <= j < es@.len() ==> views[j] == expr_view(es@[j]),
            out@ == base.add(join_chars(render_exprs(views.take(i as int)), ", "@)),
        decreases es@.len() - i,
    {
        if i > 0 {
            push_str_chars(out, ", ");
        }
        render_expr_into(&es[i], out);
        proof {
            let parts = render_exprs(views.take(i as int));
            lemma_join_push(parts, render_expr(views[i as int]), ", "@);
            assert(views.take(i + 1).drop_last() =~= views.take(i as int));
            assert(render_exprs(views.take(i + 1)) == parts.push(render_expr(views[i as int])));
            assert(out@ =~= base.add(join_chars(render_exprs(views.take(i + 1)), ", "@)));
        }
        i = i + 1;
    }
    proof {
        assert(views.take(views.len() as int) =~= views);
    }
}

/// Renders the statements of a block, joined by single spaces.
fn render_stmts_into(ss: &Vec<Statement>, out: &mut Vec<char>)
    ensures
        final(out)@ == old(out)@.add(join_chars(render_stmts(stmts_view(ss@)), " "@)),
    decreases *ss, 3nat,
{
    let ghost base = out@;
    let ghost views = stmts_view(ss@);
    proof {
        lemma_stmts_view_len(ss@);
    }
    let mut i: usize = 0;
    while i < ss.len()
        invariant
            i <= ss.len(),
            views == stmts_view(ss@),
            views.len() == ss@.len(),
            forall|j: int| 0 <= j < ss@.len() ==> views[j] == stmt_view(ss@[j]),
            out@ == base.add(join_chars(render_stmts(views.take(i as int)), " "@)),
        decreases ss@.len() - i,
    {
        if i > 0 {
            push_str_chars(out, " ");
        }
        render_stmt_into(&ss[i], out);
        proof {
            let parts = render_stmts(views.take(i as int));
            lemma_join_push(parts, render_stmt(views[i as int]), " "@);
            assert(views.take(i + 1).drop_last() =~= views.take(i as int));
            assert(render_stmts(views.take(i + 1)) == parts.push(render_stmt(views[i as int])));
            assert(out@ =~= base.add(join_chars(render_stmts(views.take(i + 1)), " "@)));
        }
        i = i + 1;
    }
    proof {
        assert(views.take(views.len() as int) =~= views);
    }
}

fn render_block_into(b: &BlockStatement, out: &mut Vec<char>)
    ensures
        final(out)@ == old(out)@.add(render_block(stmts_view(b.statements@))),
    decreases *b, 4nat,
{
    push_str_chars(out, "{ ");
    render_stmts_into(&b.statements, out);
    push_str_chars(out, " }");
    proof {
        assert(out@ =~= old(out)@.add(render_block(stmts_view(b.statements@))));
    }
}

fn render_stmt_into(s: &Statement, out: &mut Vec<char>)
    ensures
        final(out)@ == old(out)@.add(render_stmt(stmt_view(*s))),
    decreases *s, 2nat,
{
    match s {
        Statement::Let(ls) => {
            if ls.rec {
                push_str_chars(out, "let rec ");
            } else {
                push_str_chars(out, "let ");
            }
            push_str_chars(out, ls.name.value.as_str());
            push_str_chars(out, " = ");
            render_expr_into(&ls.value, out);
            push_str_chars(out, ";");
            proof {
                assert(out@ =~= old(out)@.add(render_stmt(stmt_view(*s))));
            }
        },
        Statement::Return(rs) => {
            push_str_chars(out, "return ");
            render_expr_into(&rs.return_value, out);
            push_str_chars(out, ";");
            proof {
                assert(out@ =~= old(out)@.add(render_stmt(stmt_view(*s))));
            }
        },
        Statement::Def(ds) => {
            push_str_chars(out, "def ");
            push_str_chars(out, ds.name.value.as_str());
            push_str_chars(out, "(");
            render_params_into(&ds.parameters, out);
            push_str_chars(out, ") ");
            render_block_into(&ds.body, out);
            proof {
                assert(out@ =~= old(out)@.add(render_stmt(stmt_view(*s))));
            }
        },
        Statement::Expression(es) => {
            render_expr_into(&es.expression, out);
            push_str_chars(out, ";");
            proof {
                assert(out@ =~= old(out)@.add(render_stmt(stmt_view(*s))));
            }
        },
        Statement::Block(b) => {
            render_block_into(b, out);
        },
    }
}

// ===== Constructors, renderings and clones of the node types =====

impl Identifier {
    /// Builds an identifier node for `value`.
    pub fn new(token: Token, value: &str) -> (r: Self)
        ensures
            r.token@ == token@,
            r.value@ == value@,
    {
        Identifier { token, value: value.to_owned() }
    }

    /// The literal of the token that introduced this node.
    pub fn token_literal(&self) -> (r: String)
        ensures
            r@ == self.token@.literal,
    {
        self.token.literal.clone()
    }

    /// The canonical rendering: the name itself.
    pub fn string(&self) -> (r: String)
        ensures
            r@ == self.value@,
    {
        self.value.clone()
    }
}

impl Clone for Identifier {
    fn clone(&self) -> (r: Self)
        ensures
            r.token@ == self.token@,
            r.value@ == self.value@,
    {
        Identifier { token: self.token.clone(), value: self.value.clone() }
    }
}

pub(crate) fn clone_idents(ps: &Vec<Identifier>) -> (r: Vec<Identifier>)
    ensures
        idents_view(r@) == idents_view(ps@),
{
    let mut r: Vec<Identifier> = Vec::new();
    let mut i: usize = 0;
    while i < ps.len()
        invariant
            i <= ps.len(),
            r@.len() == i,
            forall|j: int| 0 <= j < i ==> r@[j].value@ == ps@[j].value@,
        decreases ps.len() - i,
    {
        r.push(ps[i].clone());
        i = i + 1;
    }
    proof {
        assert(idents_view(r@) =~= idents_view(ps@));
    }
    r
}

/// Clones an expression tree; the clone has the same value.
pub fn clone_expr(e: &Expression) -> (r: Expression)
    ensures
        expr_view(r) == expr_view(*e),
    decreases *e, 2nat,
{
    match e {
        Expression::Identifier(id) => Expression::Identifier(id.clone()),
        Expression::Integer(n) => Expression::Integer(
            IntegerLiteral { token: n.token.clone(), value: n.value },
        ),
        Expression::Boolean(b) => Expression::Boolean(
            BooleanLiteral { token: b.token.clone(), value: b.value },
        ),
        Expression::Null(n) => Expression::Null(NullLiteral { token: n.token.clone() }),
        Expression::Str(s) => Expression::Str(
            StringLiteral { token: s.token.clone(), value: s.value.clone() },
        ),
        Expression::Prefix(p) => Expression::Prefix(
            PrefixExpression {
                token: p.token.clone(),
                operator: p.operator.clone(),
                right: Box::new(clone_expr(&p.right)),
            },
        ),
        Expression::Infix(ix) => Expression::Infix(
            InfixExpression {
                token: ix.token.clone(),
                operator: ix.operator.clone(),
                left: Box::new(clone_expr(&ix.left)),
                right: Box::new(clone_expr(&ix.right)),
            },
        ),
        Expression::If(ifx) => {
            let alternative = match &ifx.alternative {
                Some(b) => Some(clone_block(b)),
                None => None,
            };
            Expression::If(
                IfExpression {
                    token: ifx.token.clone(),
                    condition: Box::new(clone_expr(&ifx.condition)),
                    consequence: clone_block(&ifx.consequence),
                    alternative,
                },
            )
        },
        Expression::Function(f) => Expression::Function(
            FunctionLiteral {
                token: f.token.clone(),
                parameters: clone_idents(&f.parameters),
                body: clone_block(&f.body),
            },
        ),
        Expression::Call(c) => Expression::Call(
            CallExpression {
                token: c.token.clone(),
                function: Box::new(clone_expr(&c.function)),
                arguments: clone_exprs(&c.arguments),
            },
        ),
        Expression::Index(ix) => Expression::Index(
            IndexExpression {
                token: ix.token.clone(),
                collection: Box::new(clone_expr(&ix.collection)),
                index: Box::new(clone_expr(&ix.index)),
            },
        ),
        Expression::Array(a) => Expression::Array(
            ArrayExpression { token: a.token.clone(), items: clone_exprs(&a.items) },
        ),
    }
}

fn clone_exprs(es: &Vec<Expression>) -> (r: Vec<Expression>)
    ensures
        exprs_view(r@) == exprs_view(es@),
    decreases *es, 3nat,
{
    proof {
        lemma_exprs_view_len(es@);
    }
    let mut r: Vec<Expression> = Vec::new();
    let mut i: usize = 0;
    while i < es.len()
        invariant
            i <= es.len(),
            r@.len() == i,
            forall|j: int| 0 <= j < es@.len() ==> exprs_view(es@)[j] == expr_view(es@[j]),
            forall|j: int| 0 <= j < i ==> expr_view(r@[j]) == expr_view(es@[j]),
        decreases es@.len() - i,
    {
        let c = clone_expr(&es[i]);
        r.push(c);
        i = i + 1;
    }
    proof {
        lemma_exprs_view_len(r@);
        assert(exprs_view(r@) =~= exprs_view(es@));
    }
    r
}

/// Clones a statement tree; the clone has the same value.
pub fn clone_stmt(s: &Statement) -> (r: Statement)
    ensures
        stmt_view(r) == stmt_view(*s),
    decreases *s, 2nat,
{
    match s {
        Statement::Let(ls) => Statement::Let(
            LetStatement {
                token: ls.token.clone(),
                name: ls.name.clone(),
                value: Box::new(clone_expr(&ls.value)),
                rec: ls.rec,
            },
        ),
        Statement::Return(rs) => Statement::Return(
            ReturnStatement {
                token: rs.token.clone(),
                return_value: Box::new(clone_expr(&rs.return_value)),
            },
        ),
        Statement::Def(ds) => Statement::Def(
            DefStatement {
                token: ds.token.clone(),
                name: ds.name.clone(),
                parameters: clone_idents(&ds.parameters),
                body: clone_block(&ds.body),
            },
        ),
        Statement::Expression(es) => Statement::Expression(
            ExpressionStatement {
                token: es.token.clone(),
                expression: Box::new(clone_expr(&es.expression)),
            },
        ),
        Statement::Block(b) => Statement::Block(clone_block(b)),
    }
}

fn clone_stmts(ss: &Vec<Statement>) -> (r: Vec<Statement>)
    ensures
        stmts_view(r@) == stmts_view(ss@),
    decreases *ss, 3nat,
{
    proof {
        lemma_stmts_view_len(ss@);
    }
    let mut r: Vec<Statement> = Vec::new();
    let mut i: usize = 0;
    while i < ss.len()
        invariant
            i <= ss.len(),
            r@.len() == i,
            forall|j: int| 0 <= j < ss@.len() ==> stmts_view(ss@)[j] == stmt_view(ss@[j]),
            forall|j: int| 0 <= j < i ==> stmt_view(r@[j]) == stmt_view(ss@[j]),
        decreases ss@.len() - i,
    {
        let c = clone_stmt(&ss[i]);
        r.push(c);
        i = i + 1;
    }
    proof {
        lemma_stmts_view_len(r@);
        assert(stmts_view(r@) =~= stmts_view(ss@));
    }
    r
}

/// Clones a block; the clone has the same value.
pub fn clone_block(b: &BlockStatement) -> (r: BlockStatement)
    ensures
        stmts_view(r.statements@) == stmts_view(b.statements@),
    decreases *b, 4nat,
{
    BlockStatement { token: b.token.clone(), statements: clone_stmts(&b.statements) }
}

impl Program {
    /// Builds a program from its statements.
    pub fn new(statements: Vec<Statement>) -> (r: Self)
        ensures
            r == (Program { statements }),
    {
        Program { statements }
    }

    /// Programs have no introducing token; a fixed name stands in.
    pub fn token_literal(&self) -> (r: String)
        ensures
            r@ == "Program"@,
    {
        "Program".to_owned()
    }

    /// The canonical rendering: statement renderings joined by newlines.
    pub fn string(&self) -> (r: String)
        ensures
            r@ == render_program(self@),
    {
        let mut out: Vec<char> = Vec::new();
        let ghost views = stmts_view(self.statements@);
        proof {
            lemma_stmts_view_len(self.statements@);
        }
        let mut i: usize = 0;
        while i < self.statements.len()
            invariant
                i <= self.statements.len(),
                views == stmts_view(self.statements@),
                views.len() == self.statements@.len(),
                forall|j: int|
                    0 <= j < self.statements@.len() ==> views[j] == stmt_view(
                        self.statements@[j],
                    ),
                out@ == join_chars(render_stmts(views.take(i as int)), "\n"@),
            decreases self.statements@.len() - i,
        {
            if i > 0 {
                push_str_chars(&mut out, "\n");
            }
            render_stmt_into(&self.statements[i], &mut out);
            proof {
                let parts = render_stmts(views.take(i as int));
                lemma_join_push(parts, render_stmt(views[i as int]), "\n"@);
                assert(views.take(i + 1).drop_last() =~= views.take(i as int));
                assert(render_stmts(views.take(i + 1)) == parts.push(
                    render_stmt(views[i as int]),
                ));
                assert(out@ =~= join_chars(render_stmts(views.take(i + 1)), "\n"@));
            }
            i = i + 1;
        }
        proof {
            assert(views.take(views.len() as int) =~= views);
        }
        string_from_chars(&out)
    }
}

impl Expression {
    /// The literal of the token that introduced this node.
    pub fn token_literal(&self) -> (r: String)
        ensures
            r@ == self.token()@.literal,
    {
        match self {
            Expression::Identifier(n) => n.token.literal.clone(),
            Expression::Integer(n) => n.token.literal.clone(),
            Expression::Boolean(n) => n.token.literal.clone(),
            Expression::Null(n) => n.token.literal.clone(),
            Expression::Str(n) => n.token.literal.clone(),
            Expression::Prefix(n) => n.token.literal.clone(),
            Expression::Infix(n) => n.token.literal.clone(),
            Expression::If(n) => n.token.literal.clone(),
            Expression::Function(n) => n.token.literal.clone(),
            Expression::Call(n) => n.token.literal.clone(),
            Expression::Index(n) => n.token.literal.clone(),
            Expression::Array(n) => n.token.literal.clone(),
        }
    }

    /// The token that introduced this node.
    pub open spec fn token(&self) -> Token {
        match self {
            Expression::Identifier(n) => n.token,
            Expression::Integer(n) => n.token,
            Expression::Boolean(n) => n.token,
            Expression::Null(n) => n.token,
            Expression::Str(n) => n.token,
            Expression::Prefix(n) => n.token,
            Expression::Infix(n) => n.token,
            Expression::If(n) => n.token,
            Expression::Function(n) => n.token,
            Expression::Call(n) => n.token,
            Expression::Index(n) => n.token,
            Expression::Array(n) => n.token,
        }
    }

    /// The canonical rendering of this expression.
    pub fn string(&self) -> (r: String)
        ensures
            r@ == render_expr(self@),
    {
        let mut out: Vec<char> = Vec::new();
        render_expr_into(self, &mut out);
        string_from_chars(&out)
    }
}

impl Statement {
    /// The canonical rendering of this statement.
    pub fn string(&self) -> (r: String)
        ensures
            r@ == render_stmt(self@),
    {
        let mut out: Vec<char> = Vec::new();
        render_stmt_into(self, &mut out);
        string_from_chars(&out)
    }
}

impl LetStatement {
    /// Builds a `let` statement; `rec` marks `let rec`.
    pub fn new(token: Token, name: Identifier, value: Box<Expression>, rec: bool) -> (r: Self)
        ensures
            r == (LetStatement { token, name, value, rec }),
    {
        LetStatement { token, name, value, rec }
    }

    /// The literal of the token that introduced this node.
    pub fn token_literal(&self) -> (r: String)
        ensures
            r@ == self.token@.literal,
    {
        self.token.literal.clone()
    }

    /// The canonical rendering, `let [rec] name = value;`.
    pub fn string(&self) -> (r: String)
        ensures
            r@ == render_stmt(
                StmtV::Let {
                    name: self.name.value@,
                    value: expr_view(*self.value),
                    rec: self.rec,
                },
            ),
    {
        let mut out: Vec<char> = Vec::new();
        if self.rec {
            push_str_chars(&mut out, "let rec ");
        } else {
            push_str_chars(&mut out, "let ");
        }
        push_str_chars(&mut out, self.name.value.as_str());
        push_str_chars(&mut out, " = ");
        render_expr_into(&self.value, &mut out);
        push_str_chars(&mut out, ";");
        proof {
            assert(out@ =~= render_stmt(
                StmtV::Let { name: self.name.value@, value: expr_view(*self.value), rec: self.rec },
            ));
        }
        string_from_chars(&out)
    }
}

impl ReturnStatement {
    /// Builds a `return` statement.
    pub fn new(token: Token, return_value: Box<Expression>) -> (r: Self)
        ensures
            r == (ReturnStatement { token, return_value }),
    {
        ReturnStatement { token, return_value }
    }

    /// The literal of the token that introduced this node.
    pub fn token_literal(&self) -> (r: String)
        ensures
            r@ == self.token@.literal,
    {
        self.token.literal.clone()
    }

    /// The canonical rendering, `return value;`.
    pub fn string(&self) -> (r: String)
        ensures
            r@ == render_stmt(StmtV::Return { value: expr_view(*self.return_value) }),
    {
        let mut out: Vec<char> = Vec::new();
        push_str_chars(&mut out, "return ");
        render_expr_into(&self.return_value, &mut out);
        push_str_chars(&mut out, ";");
        proof {
            assert(out@ =~= render_stmt(StmtV::Return { value: expr_view(*self.return_value) }));
        }
        string_from_chars(&out)
    }
}

impl DefStatement {
    /// Builds a `def` statement.
    pub fn new(token: Token, name: Identifier, parameters: Vec<Identifier>, body: BlockStatement) -> (r:
        Self)
        ensures
            r == (DefStatement { token, name, parameters, body }),
    {
        DefStatement { token, name, parameters, body }
    }

    /// The literal of the token that introduced this node.
    pub fn token_literal(&self) -> (r: String)
        ensures
            r@ == self.token@.literal,
    {
        self.token.literal.clone()
    }

    /// The canonical rendering, `def name(params) { body }`.
    pub fn string(&self) -> (r: String)
        ensures
            r@ == render_stmt(
                StmtV::Def {
                    name: self.name.value@,
                    params: idents_view(self.parameters@),
                    body: stmts_view(self.body.statements@),
                },
            ),
    {
        let mut out: Vec<char> = Vec::new();
        push_str_chars(&mut out, "def ");
        push_str_chars(&mut out, self.name.value.as_str());
        push_str_chars(&mut out, "(");
        render_params_into(&self.parameters, &mut out);
        push_str_chars(&mut out, ") ");
        render_block_into(&self.body, &mut out);
        proof {
            assert(out@ =~= render_stmt(
                StmtV::Def {
                    name: self.name.value@,
                    params: idents_view(self.parameters@),
                    body: stmts_view(self.body.statements@),
                },
            ));
        }
        string_from_chars(&out)
    }
}

impl ExpressionStatement {
    /// Builds an expression statement.
    pub fn new(token: Token, expression: Box<Expression>) -> (r: Self)
        ensures
            r == (ExpressionStatement { token, expression }),
    {
        ExpressionStatement { token, expression }
    }

    /// The literal of the token that introduced this node.
    pub fn token_literal(&self) -> (r: String)
        ensures
            r@ == self.token@.literal,
    {
        self.token.literal.clone()
    }

    /// The canonical rendering, `value;`.
    pub fn string(&self) -> (r: String)
        ensures
            r@ == render_stmt(StmtV::Expr { value: expr_view(*self.expression) }),
    {
        let mut out: Vec<char> = Vec::new();
        render_expr_into(&self.expression, &mut out);
        push_str_chars(&mut out, ";");
        proof {
            assert(out@ =~= render_stmt(StmtV::Expr { value: expr_view(*self.expression) }));
        }
        string_from_chars(&out)
    }
}

impl BlockStatement {
    /// Builds a block from its statements.
    pub fn new(token: Token, statements: Vec<Statement>) -> (r: Self)
        ensures
            r == (BlockStatement { token, statements }),
    {
        BlockStatement { token, statements }
    }

    /// The literal of the token that introduced this node.
    pub fn token_literal(&self) -> (r: String)
        ensures
            r@ == self.token@.literal,
    {
        self.token.literal.clone()
    }

    /// The canonical rendering, `{ statements }`.
    pub fn string(&self) -> (r: String)
        ensures
            r@ == render_block(stmts_view(self.statements@)),
    {
        let mut out: Vec<char> = Vec::new();
        render_block_into(self, &mut out);
        string_from_chars(&out)
    }
}

impl IntegerLiteral {
    /// Builds an integer literal node.
    pub fn new(token: Token, value: i64) -> (r: Self)
        ensures
            r == (IntegerLiteral { token, value }),
    {
        IntegerLiteral { token, value }
    }

    /// The literal of the token that introduced this node.
    pub fn token_literal(&self) -> (r: String)
        ensures
            r@ == self.token@.literal,
    {
        self.token.literal.clone()
    }

    /// The canonical rendering: the value in decimal.
    pub fn string(&self) -> (r: String)
        ensures
            r@ == int_chars(self.value as int),
    {
        int_to_string(self.value)
    }
}

impl BooleanLiteral {
    /// Builds a boolean literal node.
    pub fn new(token: Token, value: bool) -> (r: Self)
        ensures
            r == (BooleanLiteral { token, value }),
    {
        BooleanLiteral { token, value }
    }

    /// The literal of the token that introduced this node.
    pub fn token_literal(&self) -> (r: String)
        ensures
            r@ == self.token@.literal,
    {
        self.token.literal.clone()
    }

    /// The canonical rendering: `true` or `false`.
    pub fn string(&self) -> (r: String)
        ensures
            self.value ==> r@ == "true"@,
            !self.value ==> r@ == "false"@,
    {
        if self.value {
            "true".to_owned()
        } else {
            "false".to_owned()
        }
    }
}

impl NullLiteral {
    /// Builds a null literal node.
    pub fn new(token: Token) -> (r: Self)
        ensures
            r == (NullLiteral { token }),
    {
        NullLiteral { token }
    }

    /// The literal of the token that introduced this node.
    pub fn token_literal(&self) -> (r: String)
        ensures
            r@ == self.token@.literal,
    {
        self.token.literal.clone()
    }

    /// The canonical rendering: `null`.
    pub fn string(&self) -> (r: String)
        ensures
            r@ == "null"@,
    {
        "null".to_owned()
    }
}

impl StringLiteral {
    /// Builds a string literal node; `value` is the text between the quotes.
    pub fn new(token: Token, value: &str) -> (r: Self)
        ensures
            r.token@ == token@,
            r.value@ == value@,
    {
        StringLiteral { token, value: value.to_owned() }
    }

    /// The literal of the token that introduced this node.
    pub fn token_literal(&self) -> (r: String)
        ensures
            r@ == self.token@.literal,
    {
        self.token.literal.clone()
    }

    /// The canonical rendering: the text itself.
    pub fn string(&self) -> (r: String)
        ensures
            r@ == self.value@,
    {
        self.value.clone()
    }
}

impl PrefixExpression {
    /// Builds a prefix expression node.
    pub fn new(token: Token, operator: &str, right: Box<Expression>) -> (r: Self)
        ensures
            r.token@ == token@,
            r.operator@ == operator@,
            r.right == right,
    {
        PrefixExpression { token, operator: operator.to_owned(), right }
    }

    /// The literal of the token that introduced this node.
    pub fn token_literal(&self) -> (r: String)
        ensures
            r@ == self.token@.literal,
    {
        self.token.literal.clone()
    }

    /// The canonical rendering, `(op right)`.
    pub fn string(&self) -> (r: String)
        ensures
            r@ == render_expr(
                ExprV::Prefix { op: self.operator@, right: Box::new(expr_view(*self.right)) },
            ),
    {
        let mut out: Vec<char> = Vec::new();
        push_str_chars(&mut out, "(");
        push_str_chars(&mut out, self.operator.as_str());
        render_expr_into(&self.right, &mut out);
        push_str_chars(&mut out, ")");
        proof {
            assert(out@ =~= render_expr(
                ExprV::Prefix { op: self.operator@, right: Box::new(expr_view(*self.right)) },
            ));
        }
        string_from_chars(&out)
    }
}

impl InfixExpression {
    /// Builds an infix expression node.
    pub fn new(token: Token, operator: &str, left: Box<Expression>, right: Box<Expression>) -> (r:
        Self)
        ensures
            r.token@ == token@,
            r.operator@ == operator@,
            r.left == left,
            r.right == right,
    {
        InfixExpression { token, operator: operator.to_owned(), left, right }
    }

    /// The literal of the token that introduced this node.
    pub fn token_literal(&self) -> (r: String)
        ensures
            r@ == self.token@.literal,
    {
        self.token.literal.clone()
    }

    /// The canonical rendering, `(left op right)`.
    pub fn string(&self) -> (r: String)
        ensures
            r@ == render_expr(
                ExprV::Infix {
                    op: self.operator@,
                    left: Box::new(expr_view(*self.left)),
                    right: Box::new(expr_view(*self.right)),
                },
            ),
    {
        let mut out: Vec<char> = Vec::new();
        push_str_chars(&mut out, "(");
        render_expr_into(&self.left, &mut out);
        push_str_chars(&mut out, " ");
        push_str_chars(&mut out, self.operator.as_str());
        push_str_chars(&mut out, " ");
        render_expr_into(&self.right, &mut out);
        push_str_chars(&mut out, ")");
        proof {
            assert(out@ =~= render_expr(
                ExprV::Infix {
                    op: self.operator@,
                    left: Box::new(expr_view(*self.left)),
                    right: Box::new(expr_view(*self.right)),
                },
            ));
        }
        string_from_chars(&out)
    }
}

impl IfExpression {
    /// Builds an `if` expression node.
    pub fn new(
        token: Token,
        condition: Box<Expression>,
        consequence: BlockStatement,
        alternative: Option<BlockStatement>,
    ) -> (r: Self)
        ensures
            r == (IfExpression { token, condition, consequence, alternative }),
    {
        IfExpression { token, condition, consequence, alternative }
    }

    /// The literal of the token that introduced this node.
    pub fn token_literal(&self) -> (r: String)
        ensures
            r@ == self.token@.literal,
    {
        self.token.literal.clone()
    }
}

impl FunctionLiteral {
    /// Builds a function literal node.
    pub fn new(token: Token, parameters: Vec<Identifier>, body: BlockStatement) -> (r: Self)
        ensures
            r == (FunctionLiteral { token, parameters, body }),
    {
        FunctionLiteral { token, parameters, body }
    }

    /// The literal of the token that introduced this node.
    pub fn token_literal(&self) -> (r: String)
        ensures
            r@ == self.token@.literal,
    {
        self.token.literal.clone()
    }
}

impl CallExpression {
    /// Builds a call expression node.
    pub fn new(token: Token, function: Box<Expression>, arguments: Vec<Expression>) -> (r: Self)
        ensures
            r == (CallExpression { token, function, arguments }),
    {
        CallExpression { token, function, arguments }
    }

    /// The literal of the token that introduced this node.
    pub fn token_literal(&self) -> (r: String)
        ensures
            r@ == self.token@.literal,
    {
        self.token.literal.clone()
    }
}

impl IndexExpression {
    /// Builds an index expression node.
    pub fn new(token: Token, collection: Box<Expression>, index: Box<Expression>) -> (r: Self)
        ensures
            r == (IndexExpression { token, collection, index }),
    {
        IndexExpression { token, collection, index }
    }

    /// The literal of the token that introduced this node.
    pub fn token_literal(&self) -> (r: String)
        ensures
            r@ == self.token@.literal,
    {
        self.token.literal.clone()
    }
}

impl ArrayExpression {
    /// Builds an array expression node.
    pub fn new(token: Token, items: Vec<Expression>) -> (r: Self)
        ensures
            r == (ArrayExpression { token, items }),
    {
        ArrayExpression { token, items }
    }

    /// The literal of the token that introduced this node.
    pub fn token_literal(&self) -> (r: String)
        ensures
            r@ == self.token@.literal,
    {
        self.token.literal.clone()
    }
}

} // verus!
