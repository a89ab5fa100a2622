//! The tree-walking evaluator.
//!
//! The `*_s` spec functions give the language's big-step semantics: what any
//! program evaluates to, how the environment changes, what is printed and
//! how the `let rec` self-function slot moves.  The executable evaluator is
//! proved to follow them exactly.  Evaluation is bounded by a call-depth
//! budget (`MAX_CALL_DEPTH`); a program that nests calls deeper fails with
//! an error instead of exhausting the stack.  Integer arithmetic wraps on
//! overflow, division truncates toward zero, and division by zero is an
//! error.

use vstd::prelude::*;

use crate::ast::{exprs_view, expr_view, idents_view, stmt_view, stmts_view, ArrayExpression, BlockStatement, CallExpression, DefStatement, ExprV, Expression, IfExpression, IndexExpression, InfixExpression, LetStatement, PrefixExpression, Program, ReturnStatement, Statement, StmtV};
use crate::object::{
    clone_env, clone_function, clone_object, env_child, env_empty, env_insert, env_lookup,
    env_view, obj_view, objs_view, Array, Boolean, Builtin, BuiltinFn, EnvV, Environment,
    Function, Integer, Null, ObjV, Object, ReturnValue, SelfRef, StringObject,
};
use crate::object::inspect_obj;
use crate::object::{clone_objects, lemma_objs_view_len};
use crate::strutil::{concat2, concat3, int_chars, int_to_string, nat_chars, push_str_chars, str_eq, string_from_chars, u64_to_string};

verus! {

/// How deep calls may nest before evaluation stops with an error.  The
/// bound exists so that a verified evaluation is total: a runaway recursion
/// fails with a reported error instead of exhausting the native stack.
pub const MAX_CALL_DEPTH: u64 = 1000;

/// An evaluation error: a message fatal to the current top-level evaluation.
pub struct EvaluatorError {
    pub error_message: String,
}

impl EvaluatorError {
    /// Builds an error carrying `error_message`.
    pub fn new(error_message: &str) -> (r: Self)
        ensures
            r.error_message@ == error_message@,
    {
        Self { error_message: error_message.to_owned() }
    }
}

/// The mathematical value of a function object.
#[verifier::ext_equal]
pub ghost struct FunV {
    pub params: Seq<Seq<char>>,
    pub body: Seq<StmtV>,
    pub env: Option<EnvV>,
}

/// The interpreter state an evaluation threads along besides the
/// environment: the current self-function slot and the text printed so far.
#[verifier::ext_equal]
pub ghost struct EvalSt {
    pub self_fn: Option<FunV>,
    pub output: Seq<char>,
}

/// The outcome of evaluating an expression: a value or an error, plus the
/// state afterwards.  Expressions never change the caller's environment.
#[verifier::ext_equal]
pub ghost struct ExprR {
    pub res: Result<ObjV, Seq<char>>,
    pub st: EvalSt,
}

/// The outcome of evaluating a statement or statement list: a value or an
/// error, the environment afterwards and the state afterwards.
#[verifier::ext_equal]
pub ghost struct StmtR {
    pub res: Result<ObjV, Seq<char>>,
    pub env: EnvV,
    pub st: EvalSt,
}

/// The outcome of evaluating an argument list left to right.
#[verifier::ext_equal]
pub ghost struct ArgsR {
    pub res: Result<Seq<ObjV>, Seq<char>>,
    pub st: EvalSt,
}

/// The value of a function object, seen as a `FunV`.
pub open spec fn fun_view(f: Function) -> FunV {
    FunV {
        params: idents_view(f.parameters@),
        body: stmts_view(f.body.statements@),
        env: match f.env {
            Some(e) => Some(env_view(e)),
            None => None,
        },
    }
}

/// The function value an `ObjV::Fun` holds.
pub open spec fn fun_of_obj(o: ObjV) -> FunV
    recommends
        o matches ObjV::Fun { .. },
{
    match o {
        ObjV::Fun { params, body, env } => FunV { params, body, env },
        _ => FunV { params: Seq::empty(), body: Seq::empty(), env: None },
    }
}

/// Truthiness, as `if` uses it: `true` is true, `false` is false, an
/// integer is true exactly when it is nonzero, and every other value
/// (including `null`) is false.
pub open spec fn truthy(o: ObjV) -> bool {
    match o {
        ObjV::Bool { value } => value,
        ObjV::Int { value } => value != 0,
        _ => false,
    }
}

/// Heterogeneous equality, as `==` uses it: integers compare by value,
/// booleans by value, `null` equals `null`, and any other pair of values is
/// unequal.  In particular a boolean never equals an integer and `null`
/// equals nothing else.
pub open spec fn obj_eq(l: ObjV, r: ObjV) -> bool {
    match (l, r) {
        (ObjV::Int { value: a }, ObjV::Int { value: b }) => a == b,
        (ObjV::Bool { value: a }, ObjV::Bool { value: b }) => a == b,
        (ObjV::Null, ObjV::Null) => true,
        _ => false,
    }
}

/// Truncated (toward zero) integer division.
pub open spec fn div_trunc(a: int, b: int) -> int
    recommends
        b != 0,
{
    let q = abs_int(a) / abs_int(b);
    if (a < 0) != (b < 0) {
        -q
    } else {
        q
    }
}

/// The absolute value of an integer.
pub open spec fn abs_int(a: int) -> int {
    if a < 0 {
        -a
    } else {
        a
    }
}

/// Division on machine integers: truncated, with the one overflowing case
/// wrapping like the machine operation.
pub open spec fn wrap_div(a: i64, b: i64) -> i64
    recommends
        b != 0,
{
    if a == i64::MIN && b == -1 {
        i64::MIN
    } else {
        div_trunc(a as int, b as int) as i64
    }
}

/// Negation on machine integers, wrapping on the one overflowing case.
pub open spec fn wrap_neg(a: i64) -> i64 {
    if a == i64::MIN {
        i64::MIN
    } else {
        (-(a as int)) as i64
    }
}

/// The builtin table: the five builtin names and nothing else.
pub open spec fn lookup_builtin(name: Seq<char>) -> Option<Builtin> {
    if name == "len"@ {
        Some(Builtin::Len)
    } else if name == "print"@ {
        Some(Builtin::Print)
    } else if name == "println"@ {
        Some(Builtin::Println)
    } else if name == "push"@ {
        Some(Builtin::Push)
    } else if name == "tail"@ {
        Some(Builtin::Tail)
    } else {
        None
    }
}

/// What one integer operator yields on two integer operands.
pub open spec fn int_infix_result(op: Seq<char>, a: i64, b: i64) -> Result<ObjV, Seq<char>> {
    if op == "+"@ {
        Ok(ObjV::Int { value: vstd::wrapping::i64_specs::wrapping_add(a, b) })
    } else if op == "-"@ {
        Ok(ObjV::Int { value: vstd::wrapping::i64_specs::wrapping_sub(a, b) })
    } else if op == "*"@ {
        Ok(ObjV::Int { value: vstd::wrapping::i64_specs::wrapping_mul(a, b) })
    } else if op == "/"@ {
        if b == 0 {
            Err("Division by zero"@)
        } else {
            Ok(ObjV::Int { value: wrap_div(a, b) })
        }
    } else if op == ">"@ {
        Ok(ObjV::Bool { value: a > b })
    } else if op == "<"@ {
        Ok(ObjV::Bool { value: a < b })
    } else if op == ">="@ {
        Ok(ObjV::Bool { value: a >= b })
    } else if op == "<="@ {
        Ok(ObjV::Bool { value: a <= b })
    } else {
        Err("Unknown integer infix operator"@)
    }
}

/// What one builtin call yields: `len` measures an array, `print` and
/// `println` append an inspect form to the output, `push` appends to a copy
/// of an array, `tail` drops the head of a nonempty array.
pub open spec fn builtin_apply_s(b: Builtin, args: Seq<ObjV>, st: EvalSt) -> ExprR {
    match b {
        Builtin::Len => {
            if args.len() != 1 {
                ExprR { res: Err("len expects exactly one argument"@), st }
            } else {
                match args[0] {
                    ObjV::Arr { items } => ExprR {
                        res: Ok(ObjV::Int { value: items.len() as i64 }),
                        st,
                    },
                    _ => ExprR { res: Err("Builtin function len expects array argument"@), st },
                }
            }
        },
        Builtin::Print => {
            if args.len() != 1 {
                ExprR { res: Err("print expects exactly one argument"@), st }
            } else {
                ExprR {
                    res: Ok(ObjV::Null),
                    st: EvalSt { self_fn: st.self_fn, output: st.output.add(inspect_obj(args[0])) },
                }
            }
        },
        Builtin::Println => {
            if args.len() != 1 {
                ExprR { res: Err("print expects exactly one argument"@), st }
            } else {
                ExprR {
                    res: Ok(ObjV::Null),
                    st: EvalSt {
                        self_fn: st.self_fn,
                        output: st.output.add(inspect_obj(args[0])).add("\n"@),
                    },
                }
            }
        },
        Builtin::Push => {
            if args.len() != 2 {
                ExprR { res: Err("push expects exactly two arguments"@), st }
            } else {
                match args[0] {
                    ObjV::Arr { items } => ExprR {
                        res: Ok(ObjV::Arr { items: items.push(args[1]) }),
                        st,
                    },
                    _ => ExprR {
                        res: Err("push expects the first argument to be an array"@),
                        st,
                    },
                }
            }
        },
        Builtin::Tail => {
            if args.len() != 1 {
                ExprR { res: Err("tail expects exactly one arguments"@), st }
            } else {
                match args[0] {
                    ObjV::Arr { items } => {
                        if items.len() == 0 {
                            ExprR { res: Err("tail expects a non-empty list"@), st }
                        } else {
                            ExprR { res: Ok(ObjV::Arr { items: items.drop_first() }), st }
                        }
                    },
                    _ => ExprR { res: Err("tail expects the argument to be an array"@), st },
                }
            }
        },
    }
}

/// Binds parameters to arguments, left to right, in the given scope.
pub open spec fn bind_params(scope: EnvV, params: Seq<Seq<char>>, args: Seq<ObjV>) -> EnvV
    recommends
        params.len() == args.len(),
    decreases params.len(),
{
    if params.len() == 0 {
        scope
    } else {
        env_insert(
            bind_params(scope, params.drop_last(), args.drop_last()),
            params.last(),
            args.last(),
        )
    }
}

/// The message of an out-of-bounds index error.
pub open spec fn index_error_msg(i: i64, n: nat) -> Seq<char> {
    "Out of bounds array access. Index is "@.add(int_chars(i as int)).add(
        " but array length is "@,
    ).add(nat_chars(n as int))
}

/// What evaluating one expression yields.  The environment is read, never
/// changed: bindings made inside blocks and calls live in frames of their
/// own.  `fuel` bounds how deep function calls may still nest; a call with
/// no fuel left fails.
pub open spec fn eval_expr_s(fuel: nat, e: ExprV, env: EnvV, st: EvalSt) -> ExprR
    decreases fuel, e, 0nat, 1nat,
{
    match e {
        ExprV::Int { value } => ExprR { res: Ok(ObjV::Int { value }), st },
        ExprV::Bool { value } => ExprR { res: Ok(ObjV::Bool { value }), st },
        ExprV::Null => ExprR { res: Ok(ObjV::Null), st },
        ExprV::Str { value } => ExprR { res: Ok(ObjV::Str { value }), st },
        ExprV::Ident { name } => {
            match env_lookup(env, name) {
                Some(v) => ExprR { res: Ok(v), st },
                None => match lookup_builtin(name) {
                    Some(b) => ExprR { res: Ok(ObjV::Builtin { which: b }), st },
                    None => ExprR { res: Err("Unknown identifier: "@.add(name)), st },
                },
            }
        },
        ExprV::Fun { params, body } => ExprR {
            res: Ok(ObjV::Fun { params, body, env: Some(env_child(env)) }),
            st,
        },
        ExprV::Prefix { op, right } => {
            if op == "!"@ {
                let r = eval_expr_s(fuel, *right, env, st);
                match r.res {
                    Ok(v) => match v {
                        ObjV::Bool { value } => ExprR {
                            res: Ok(ObjV::Bool { value: !value }),
                            st: r.st,
                        },
                        _ => ExprR {
                            res: Err("Expected boolean expression after bang operator"@),
                            st: r.st,
                        },
                    },
                    Err(m) => ExprR { res: Err(m), st: r.st },
                }
            } else if op == "-"@ {
                let r = eval_expr_s(fuel, *right, env, st);
                match r.res {
                    Ok(v) => match v {
                        ObjV::Int { value } => ExprR {
                            res: Ok(ObjV::Int { value: wrap_neg(value) }),
                            st: r.st,
                        },
                        _ => ExprR {
                            res: Err("Expected integer expression after minus operator"@),
                            st: r.st,
                        },
                    },
                    Err(m) => ExprR { res: Err(m), st: r.st },
                }
            } else {
                ExprR { res: Err("Unknown operator in prefix expression"@), st }
            }
        },
        ExprV::Infix { op, left, right } => {
            if op == "=="@ || op == "!="@ {
                let rl = eval_expr_s(fuel, *left, env, st);
                match rl.res {
                    Ok(lv) => {
                        let rr = eval_expr_s(fuel, *right, env, rl.st);
                        match rr.res {
                            Ok(rv) => {
                                let eq = obj_eq(lv, rv);
                                ExprR {
                                    res: Ok(
                                        ObjV::Bool {
                                            value: if op == "=="@ {
                                                eq
                                            } else {
                                                !eq
                                            },
                                        },
                                    ),
                                    st: rr.st,
                                }
                            },
                            Err(m) => ExprR { res: Err(m), st: rr.st },
                        }
                    },
                    Err(m) => ExprR { res: Err(m), st: rl.st },
                }
            } else if op == "+"@ || op == "-"@ || op == "*"@ || op == "/"@ || op == ">"@ || op
                == "<"@ || op == ">="@ || op == "<="@ {
                let rl = eval_expr_s(fuel, *left, env, st);
                match rl.res {
                    Ok(lv) => {
                        let rr = eval_expr_s(fuel, *right, env, rl.st);
                        match rr.res {
                            Ok(rv) => {
                                match (lv, rv) {
                                    (ObjV::Int { value: a }, ObjV::Int { value: b }) => ExprR {
                                        res: int_infix_result(op, a, b),
                                        st: rr.st,
                                    },
                                    _ => ExprR {
                                        res: Err(
                                            "Expected integer expressions in infix expression"@,
                                        ),
                                        st: rr.st,
                                    },
                                }
                            },
                            Err(m) => ExprR { res: Err(m), st: rr.st },
                        }
                    },
                    Err(m) => ExprR { res: Err(m), st: rl.st },
                }
            } else {
                ExprR { res: Err("Unknown operator in infix expression"@), st }
            }
        },
        ExprV::If { cond, cons, alt } => {
            let rc = eval_expr_s(fuel, *cond, env, st);
            match rc.res {
                Ok(cv) => {
                    if truthy(cv) {
                        let rb = eval_stmts_s(fuel, cons, false, env_child(env), rc.st);
                        ExprR { res: rb.res, st: rb.st }
                    } else {
                        match alt {
                            Some(b) => {
                                let rb = eval_stmts_s(fuel, b, false, env_child(env), rc.st);
                                ExprR { res: rb.res, st: rb.st }
                            },
                            None => ExprR { res: Ok(ObjV::Null), st: rc.st },
                        }
                    }
                },
                Err(m) => ExprR { res: Err(m), st: rc.st },
            }
        },
        ExprV::Array { items } => {
            let ra = eval_exprs_s(fuel, items, env, st);
            match ra.res {
                Ok(vs) => ExprR { res: Ok(ObjV::Arr { items: vs }), st: ra.st },
                Err(m) => ExprR { res: Err(m), st: ra.st },
            }
        },
        ExprV::Index { collection, index } => {
            let ri = eval_expr_s(fuel, *index, env, st);
            match ri.res {
                Ok(iv) => {
                    match iv {
                        ObjV::Int { value: i } => {
                            let rc = eval_expr_s(fuel, *collection, env, ri.st);
                            match rc.res {
                                Ok(cv) => {
                                    match cv {
                                        ObjV::Arr { items } => {
                                            if 0 <= i < items.len() {
                                                ExprR { res: Ok(items[i as int]), st: rc.st }
                                            } else {
                                                ExprR {
                                                    res: Err(index_error_msg(i, items.len())),
                                                    st: rc.st,
                                                }
                                            }
                                        },
                                        _ => ExprR {
                                            res: Err(
                                                "Expected collection to be an array when the index is an integer literal"@,
                                            ),
                                            st: rc.st,
                                        },
                                    }
                                },
                                Err(m) => ExprR { res: Err(m), st: rc.st },
                            }
                        },
                        _ => ExprR {
                            res: Err("Expected index to be an integer literal"@),
                            st: ri.st,
                        },
                    }
                },
                Err(m) => ExprR { res: Err(m), st: ri.st },
            }
        },
        ExprV::Call { callee, args } => {
            let ra = eval_exprs_s(fuel, args, env, st);
            match ra.res {
                Ok(vs) => eval_call_s(fuel, *callee, vs, env, ra.st),
                Err(m) => ExprR { res: Err(m), st: ra.st },
            }
        },
    }
}

/// What calling `callee` on already-evaluated arguments yields.  A function
/// literal becomes a closure and is applied at once.  An identifier is
/// resolved in the environment: the self-reference sentinel calls the
/// current self-function; a function value is applied with the
/// self-function slot set to it for the duration of the call; a name bound
/// to anything else is an error; an unbound name falls back to the builtin
/// table.  Any other callee form is an error.
pub open spec fn eval_call_s(fuel: nat, callee: ExprV, args: Seq<ObjV>, env: EnvV, st: EvalSt) -> ExprR
    decreases fuel, callee, 0nat, 0nat,
{
    match callee {
        ExprV::Fun { params, body } => {
            let f = FunV { params, body, env: Some(env_child(env)) };
            if fuel == 0 {
                ExprR { res: Err("Maximum call depth exceeded"@), st }
            } else {
                apply_fun_s((fuel - 1) as nat, f, args, env, st)
            }
        },
        ExprV::Ident { name } => {
            match env_lookup(env, name) {
                Some(v) => {
                    match v {
                        ObjV::SelfRef => {
                            match st.self_fn {
                                Some(f) => {
                                    if fuel == 0 {
                                        ExprR { res: Err("Maximum call depth exceeded"@), st }
                                    } else {
                                        apply_fun_s((fuel - 1) as nat, f, args, env, st)
                                    }
                                },
                                None => ExprR {
                                    res: Err(
                                        "Expected self_fn to be Some when evaluating recursive function"@,
                                    ),
                                    st,
                                },
                            }
                        },
                        ObjV::Fun { .. } => {
                            let f = fun_of_obj(v);
                            if fuel == 0 {
                                ExprR { res: Err("Maximum call depth exceeded"@), st }
                            } else {
                                let st1 = EvalSt { self_fn: Some(f), output: st.output };
                                let r = apply_fun_s((fuel - 1) as nat, f, args, env, st1);
                                ExprR {
                                    res: r.res,
                                    st: EvalSt { self_fn: st.self_fn, output: r.st.output },
                                }
                            }
                        },
                        _ => ExprR {
                            res: Err(
                                "Expected function literal in call expression. "@.add(name).add(
                                    " is not a function literal"@,
                                ),
                            ),
                            st,
                        },
                    }
                },
                None => {
                    match lookup_builtin(name) {
                        Some(b) => builtin_apply_s(b, args, st),
                        None => ExprR { res: Err("Unknown identifier: "@.add(name)), st },
                    }
                },
            }
        },
        _ => ExprR {
            res: Err("Expected function literal or identifier in call expression"@),
            st,
        },
    }
}

/// What applying a function to already-evaluated arguments yields: the
/// arity must match; parameters are bound in the closure's captured
/// environment, or, for a non-closure (`def`) function, in a fresh frame
/// over the caller's environment, which is how a `def` body resolves its
/// own name at each call; then the body runs with return-unwrapping.
pub open spec fn apply_fun_s(fuel: nat, f: FunV, args: Seq<ObjV>, call_env: EnvV, st: EvalSt) -> ExprR
    decreases fuel, f.body, 0nat, 2nat,
{
    if f.params.len() != args.len() {
        ExprR {
            res: Err(
                "Mismatched number of parameters: "@.add(nat_chars(f.params.len() as int)).add(
                    " != "@,
                ).add(nat_chars(args.len() as int)),
            ),
            st,
        }
    } else {
        let scope = match f.env {
            Some(captured) => captured,
            None => env_child(call_env),
        };
        let bound = bind_params(scope, f.params, args);
        let r = eval_stmts_s(fuel, f.body, true, bound, st);
        ExprR { res: r.res, st: r.st }
    }
}

/// What evaluating a list of expressions, left to right, yields: the first
/// error aborts the list.
pub open spec fn eval_exprs_s(fuel: nat, es: Seq<ExprV>, env: EnvV, st: EvalSt) -> ArgsR
    decreases fuel, es, 0nat, 0nat,
{
    if es.len() == 0 {
        ArgsR { res: Ok(Seq::empty()), st }
    } else {
        let r0 = eval_expr_s(fuel, es[0], env, st);
        match r0.res {
            Ok(v) => {
                let rr = eval_exprs_s(fuel, es.drop_first(), env, r0.st);
                match rr.res {
                    Ok(vs) => ArgsR { res: Ok(seq![v].add(vs)), st: rr.st },
                    Err(m) => ArgsR { res: Err(m), st: rr.st },
                }
            },
            Err(m) => ArgsR { res: Err(m), st: r0.st },
        }
    }
}

/// What evaluating one statement yields.
pub open spec fn eval_stmt_s(fuel: nat, s: StmtV, env: EnvV, st: EvalSt) -> StmtR
    decreases fuel, s, 0nat, 1nat,
{
    match s {
        StmtV::Expr { value } => {
            let r = eval_expr_s(fuel, value, env, st);
            StmtR { res: r.res, env, st: r.st }
        },
        StmtV::Return { value } => {
            let r = eval_expr_s(fuel, value, env, st);
            match r.res {
                Ok(v) => StmtR { res: Ok(ObjV::Ret { value: Box::new(v) }), env, st: r.st },
                Err(m) => StmtR { res: Err(m), env, st: r.st },
            }
        },
        StmtV::Let { name, value, rec } => {
            if rec {
                let env1 = env_insert(env, name, ObjV::SelfRef);
                let r = eval_expr_s(fuel, value, env1, st);
                match r.res {
                    Ok(v) => StmtR {
                        res: Ok(ObjV::Null),
                        env: env_insert(env1, name, v),
                        st: r.st,
                    },
                    Err(m) => StmtR { res: Err(m), env: env1, st: r.st },
                }
            } else {
                let r = eval_expr_s(fuel, value, env, st);
                match r.res {
                    Ok(v) => StmtR { res: Ok(ObjV::Null), env: env_insert(env, name, v), st: r.st },
                    Err(m) => StmtR { res: Err(m), env, st: r.st },
                }
            }
        },
        StmtV::Def { name, params, body } => {
            let f = ObjV::Fun { params, body, env: None };
            StmtR { res: Ok(ObjV::Null), env: env_insert(env, name, f), st }
        },
        StmtV::Block { statements } => {
            let r = eval_stmts_s(fuel, statements, false, env_child(env), st);
            StmtR { res: r.res, env, st: r.st }
        },
    }
}

/// What evaluating a statement list yields: the value of the last
/// statement, or the integer sentinel `69` for an empty list.  A statement
/// that evaluates to a return marker stops the list; with `unwrap` set (at
/// the program top level and at function boundaries) the marker is opened
/// and its value returned, otherwise the marker itself propagates further
/// out.  That is what lets `return` inside a nested block leave the
/// enclosing function.
pub open spec fn eval_stmts_s(fuel: nat, ss: Seq<StmtV>, unwrap: bool, env: EnvV, st: EvalSt) -> StmtR
    decreases fuel, ss, 0nat, 0nat,
{
    if ss.len() == 0 {
        StmtR { res: Ok(ObjV::Int { value: 69 }), env, st }
    } else {
        let r0 = eval_stmt_s(fuel, ss[0], env, st);
        match r0.res {
            Ok(v) => {
                if v matches ObjV::Ret { .. } {
                    if unwrap {
                        let inner = match v {
                            ObjV::Ret { value } => *value,
                            _ => v,
                        };
                        StmtR { res: Ok(inner), env: r0.env, st: r0.st }
                    } else {
                        StmtR { res: Ok(v), env: r0.env, st: r0.st }
                    }
                } else if ss.len() == 1 {
                    StmtR { res: Ok(v), env: r0.env, st: r0.st }
                } else {
                    eval_stmts_s(fuel, ss.drop_first(), unwrap, r0.env, r0.st)
                }
            },
            Err(m) => StmtR { res: Err(m), env: r0.env, st: r0.st },
        }
    }
}

/// What evaluating a whole program yields: its statements run in the given
/// environment itself (the top level is transparent), with return markers
/// unwrapped at the top.
pub open spec fn eval_program_s(fuel: nat, prog: Seq<StmtV>, env: EnvV, st: EvalSt) -> StmtR {
    eval_stmts_s(fuel, prog, true, env, st)
}

/// Return unwinding: at a function boundary (or the program top level),
/// `return e;` followed by any further statements yields exactly the value
/// of `e`; the later statements are never run, so no further output is
/// printed and the environment gains no further bindings.
pub proof fn lemma_return_unwinds(
    fuel: nat,
    value: ExprV,
    rest: Seq<StmtV>,
    env: EnvV,
    st: EvalSt,
)
    ensures
        ({
            let r = eval_expr_s(fuel, value, env, st);
            let whole = eval_stmts_s(
                fuel,
                seq![StmtV::Return { value }].add(rest),
                true,
                env,
                st,
            );
            match r.res {
                Ok(v) => whole.res == Ok::<ObjV, Seq<char>>(v) && whole.st == r.st && whole.env
                    == env,
                Err(m) => whole.res == Err::<ObjV, Seq<char>>(m) && whole.st == r.st,
            }
        }),
{
    let ss = seq![StmtV::Return { value }].add(rest);
    assert(ss.len() == 1 + rest.len());
    assert(ss[0] == (StmtV::Return { value }));
    let r = eval_expr_s(fuel, value, env, st);
    let r0 = eval_stmt_s(fuel, ss[0], env, st);
    match r.res {
        Ok(v) => {
            assert(r0.res == Ok::<ObjV, Seq<char>>(ObjV::Ret { value: Box::new(v) }));
            assert(r0.env == env);
            assert(r0.st == r.st);
            let marker = ObjV::Ret { value: Box::new(v) };
            assert(marker matches ObjV::Ret { .. });
            assert((match marker {
                ObjV::Ret { value } => *value,
                _ => marker,
            }) == v);
        },
        Err(m) => {
            assert(r0.res == Err::<ObjV, Seq<char>>(m));
        },
    }
}

/// Closure capture: evaluating a `fun` literal captures the enclosing
/// environment at that moment, as a fresh scope over it; it has no other
/// effect.
pub proof fn lemma_fun_captures_environment(
    fuel: nat,
    params: Seq<Seq<char>>,
    body: Seq<StmtV>,
    env: EnvV,
    st: EvalSt,
)
    ensures
        eval_expr_s(fuel, ExprV::Fun { params, body }, env, st) == (ExprR {
            res: Ok(ObjV::Fun { params, body, env: Some(env_child(env)) }),
            st,
        }),
{
}

/// Non-capture of `def`: a `def` statement binds its name to a function
/// value that captures no environment at all; the body instead resolves
/// names, its own included, against the environment of each call.
pub proof fn lemma_def_captures_nothing(
    fuel: nat,
    name: Seq<char>,
    params: Seq<Seq<char>>,
    body: Seq<StmtV>,
    env: EnvV,
    st: EvalSt,
)
    ensures
        eval_stmt_s(fuel, StmtV::Def { name, params, body }, env, st) == (StmtR {
            res: Ok(ObjV::Null),
            env: env_insert(env, name, ObjV::Fun { params, body, env: None }),
            st,
        }),
{
}

/// Cross-type equality: `==` holds exactly of two integers with the same
/// value, two booleans with the same value, or two nulls.  Every other
/// pair of values is unequal: in particular `1 == true`, `0 == false`,
/// `null == 0` and `null == false` are all false.
pub proof fn lemma_cross_type_equality(l: ObjV, r: ObjV)
    ensures
        obj_eq(l, r) <==> ((l matches ObjV::Int { value: a } && r matches ObjV::Int { value: b }
            && a == b) || (l matches ObjV::Bool { value: a } && r matches ObjV::Bool {
            value: b,
        } && a == b) || (l matches ObjV::Null && r matches ObjV::Null)),
        !obj_eq(ObjV::Int { value: 1 }, ObjV::Bool { value: true }),
        !obj_eq(ObjV::Int { value: 0 }, ObjV::Bool { value: false }),
        !obj_eq(ObjV::Null, ObjV::Int { value: 0 }),
        !obj_eq(ObjV::Null, ObjV::Bool { value: false }),
{
}

/// Truthiness: only `true` and nonzero integers are truthy; `false`, zero
/// and every non-boolean, non-integer value (null, strings, arrays,
/// functions) are falsy.
pub proof fn lemma_truthiness(o: ObjV)
    ensures
        truthy(o) <==> ((o matches ObjV::Bool { value } && value) || (o matches ObjV::Int { value }
            && value != 0)),
{
}

/// Whether an executable result mirrors a semantic result exactly.
pub open spec fn matches_result(s: Result<ObjV, Seq<char>>, r: Result<Object, EvaluatorError>) -> bool {
    match r {
        Ok(o) => s == Ok::<ObjV, Seq<char>>(obj_view(o)),
        Err(e) => s == Err::<ObjV, Seq<char>>(e.error_message@),
    }
}

/// Whether an executable argument-list result mirrors a semantic one.
pub open spec fn matches_args_result(
    s: Result<Seq<ObjV>, Seq<char>>,
    r: Result<Vec<Object>, EvaluatorError>,
) -> bool {
    match r {
        Ok(vs) => s == Ok::<Seq<ObjV>, Seq<char>>(objs_view(vs@)),
        Err(e) => s == Err::<Seq<ObjV>, Seq<char>>(e.error_message@),
    }
}

// ===== The evaluator, executably =====

/// The evaluator: the builtin table, the `let rec` self-function slot, and
/// the text printed by `print` and `println` so far.  The caller takes the
/// output with `take_output` and writes it out.
pub struct Evaluator {
    pub builtin_fns: Vec<(String, BuiltinFn)>,
    pub self_fn: Option<Box<Function>>,
    pub output: Vec<char>,
}

/// The interpreter state an evaluator holds, as the semantics sees it.
pub open spec fn st_view(ev: Evaluator) -> EvalSt {
    EvalSt {
        self_fn: match ev.self_fn {
            Some(f) => Some(fun_view(*f)),
            None => None,
        },
        output: ev.output@,
    }
}

/// Whether a value is truthy, as `if` decides it.
pub fn is_truthy(o: &Object) -> (r: bool)
    ensures
        r == truthy(obj_view(*o)),
{
    match o {
        Object::Boolean(b) => b.value,
        Object::Integer(n) => n.value != 0,
        _ => false,
    }
}

/// Heterogeneous equality on values, as `==` decides it.
fn objects_equal(l: &Object, r: &Object) -> (res: bool)
    ensures
        res == obj_eq(obj_view(*l), obj_view(*r)),
{
    match (l, r) {
        (Object::Integer(a), Object::Integer(b)) => a.value == b.value,
        (Object::Boolean(a), Object::Boolean(b)) => a.value == b.value,
        (Object::Null(_), Object::Null(_)) => true,
        _ => false,
    }
}

/// Truncated division on machine integers, wrapping on the one overflowing
/// case; never panics.
fn div_i64(a: i64, b: i64) -> (r: i64)
    requires
        b != 0,
    ensures
        r == wrap_div(a, b),
{
    if a == i64::MIN && b == -1 {
        return i64::MIN;
    }
    let neg: bool = (a < 0) != (b < 0);
    let ma: u64 = if a >= 0 {
        a as u64
    } else {
        ((-1 - a) as u64) + 1
    };
    let mb: u64 = if b >= 0 {
        b as u64
    } else {
        ((-1 - b) as u64) + 1
    };
    proof {
        assert(ma == abs_int(a as int));
        assert(mb == abs_int(b as int));
        assert(mb >= 1);
    }
    let q: u64 = ma / mb;
    proof {
        assert(q == abs_int(a as int) / abs_int(b as int));
        assert(q <= ma) by (nonlinear_arith)
            requires
                q == ma as int / mb as int,
                mb >= 1,
                ma >= 0,
        ;
    }
    if neg {
        if q >= 0x8000_0000_0000_0000u64 {
            proof {
                assert(q == 0x8000_0000_0000_0000);
                assert(wrap_div(a, b) == i64::MIN);
            }
            i64::MIN
        } else {
            proof {
                assert(-(q as int) >= i64::MIN as int);
                assert(wrap_div(a, b) == -(q as int));
            }
            0i64 - (q as i64)
        }
    } else {
        proof {
            if a >= 0 && b >= 0 {
                assert(q <= ma <= i64::MAX as u64);
            } else {
                // Both negative; `ma == 2^63` would force `b == -1`, which the
                // wrapping case above already handled.
                assert(a < 0 && b < 0);
                if ma == 0x8000_0000_0000_0000u64 {
                    assert(mb >= 2);
                    assert(q <= ma as int / 2) by (nonlinear_arith)
                        requires
                            q == ma as int / mb as int,
                            mb >= 2,
                            ma >= 0,
                    ;
                } else {
                    assert(ma <= i64::MAX as u64 + 1);
                    assert(ma < 0x8000_0000_0000_0000u64);
                }
            }
            assert(q <= i64::MAX as u64);
            assert(wrap_div(a, b) == q as int);
        }
        q as i64
    }
}

impl Evaluator {
    /// The builtin table holds exactly the five builtins, under their names.
    pub open spec fn builtins_wf(&self) -> bool {
        &&& self.builtin_fns@.len() == 5
        &&& self.builtin_fns@[0].0@ == "len"@ && self.builtin_fns@[0].1.builtin == Builtin::Len
        &&& self.builtin_fns@[1].0@ == "print"@ && self.builtin_fns@[1].1.builtin
            == Builtin::Print
        &&& self.builtin_fns@[2].0@ == "println"@ && self.builtin_fns@[2].1.builtin
            == Builtin::Println
        &&& self.builtin_fns@[3].0@ == "push"@ && self.builtin_fns@[3].1.builtin == Builtin::Push
        &&& self.builtin_fns@[4].0@ == "tail"@ && self.builtin_fns@[4].1.builtin == Builtin::Tail
    }

    /// Builds an evaluator: the builtin table filled, no self-function, no
    /// output yet.
    pub fn new() -> (r: Self)
        ensures
            r.builtins_wf(),
            st_view(r) == (EvalSt { self_fn: None, output: Seq::<char>::empty() }),
    {
        let mut builtin_fns: Vec<(String, BuiltinFn)> = Vec::new();
        builtin_fns.push(("len".to_owned(), BuiltinFn::new(Builtin::Len)));
        builtin_fns.push(("print".to_owned(), BuiltinFn::new(Builtin::Print)));
        builtin_fns.push(("println".to_owned(), BuiltinFn::new(Builtin::Println)));
        builtin_fns.push(("push".to_owned(), BuiltinFn::new(Builtin::Push)));
        builtin_fns.push(("tail".to_owned(), BuiltinFn::new(Builtin::Tail)));
        let output: Vec<char> = Vec::new();
        proof {
            assert(output@ =~= Seq::<char>::empty());
        }
        let r = Evaluator { builtin_fns, self_fn: None, output };
        proof {
            assert(st_view(r) =~= (EvalSt { self_fn: None, output: Seq::<char>::empty() }));
        }
        r
    }

    /// Hands the text printed so far to the caller and clears the buffer.
    pub fn take_output(&mut self) -> (r: String)
        ensures
            r@ == old(self).output@,
            final(self).output@ == Seq::<char>::empty(),
            final(self).builtin_fns == old(self).builtin_fns,
            final(self).self_fn == old(self).self_fn,
    {
        let s = string_from_chars(&self.output);
        let empty: Vec<char> = Vec::new();
        proof {
            assert(empty@ =~= Seq::<char>::empty());
        }
        self.output = empty;
        s
    }

    /// Resolves a name against the builtin table.
    fn lookup_builtin_fn(&self, name: &String) -> (r: Option<Builtin>)
        requires
            self.builtins_wf(),
        ensures
            r == lookup_builtin(name@),
    {
        if str_eq(name, "len") {
            Some(Builtin::Len)
        } else if str_eq(name, "print") {
            Some(Builtin::Print)
        } else if str_eq(name, "println") {
            Some(Builtin::Println)
        } else if str_eq(name, "push") {
            Some(Builtin::Push)
        } else if str_eq(name, "tail") {
            Some(Builtin::Tail)
        } else {
            None
        }
    }

    /// Invokes one builtin on already-evaluated arguments.
    fn apply_builtin(&mut self, b: Builtin, args: Vec<Object>) -> (r: Result<Object, EvaluatorError>)
        ensures
            final(self).builtin_fns == old(self).builtin_fns,
            ({
                let s = builtin_apply_s(b, objs_view(args@), st_view(*old(self)));
                st_view(*final(self)) == s.st && matches_result(s.res, r)
            }),
    {
        proof {
            lemma_objs_view_len(args@);
        }
        match b {
            Builtin::Len => {
                if args.len() != 1 {
                    Err(EvaluatorError::new("len expects exactly one argument"))
                } else {
                    match &args[0] {
                        Object::Array(a) => {
                            proof {
                                lemma_objs_view_len(a.items@);
                            }
                            let n: i64 = #[verifier::truncate] (a.items.len() as i64);
                            Ok(Object::Integer(Integer { value: n }))
                        },
                        _ => Err(EvaluatorError::new("Builtin function len expects array argument")),
                    }
                }
            },
            Builtin::Print => {
                if args.len() != 1 {
                    Err(EvaluatorError::new("print expects exactly one argument"))
                } else {
                    let text = args[0].inspect();
                    push_str_chars(&mut self.output, text.as_str());
                    Ok(Object::Null(Null {}))
                }
            },
            Builtin::Println => {
                if args.len() != 1 {
                    Err(EvaluatorError::new("print expects exactly one argument"))
                } else {
                    let text = args[0].inspect();
                    push_str_chars(&mut self.output, text.as_str());
                    push_str_chars(&mut self.output, "\n");
                    Ok(Object::Null(Null {}))
                }
            },
            Builtin::Push => {
                if args.len() != 2 {
                    Err(EvaluatorError::new("push expects exactly two arguments"))
                } else {
                    match &args[0] {
                        Object::Array(a) => {
                            let mut items = clone_objects(&a.items);
                            let ghost base = items@;
                            let appended = clone_object(&args[1]);
                            let ghost av = obj_view(appended);
                            items.push(appended);
                            proof {
                                assert(items@.drop_last() =~= base);
                                assert(items@.last() == items@[items@.len() - 1]);
                                assert(objs_view(items@) == objs_view(base).push(av));
                                assert(objs_view(items@) =~= objs_view(a.items@).push(
                                    obj_view(args@[1]),
                                ));
                            }
                            Ok(Object::Array(Array { items }))
                        },
                        _ => Err(
                            EvaluatorError::new("push expects the first argument to be an array"),
                        ),
                    }
                }
            },
            Builtin::Tail => {
                if args.len() != 1 {
                    Err(EvaluatorError::new("tail expects exactly one arguments"))
                } else {
                    match &args[0] {
                        Object::Array(a) => {
                            if a.items.len() == 0 {
                                proof {
                                    lemma_objs_view_len(a.items@);
                                }
                                Err(EvaluatorError::new("tail expects a non-empty list"))
                            } else {
                                proof {
                                    lemma_objs_view_len(a.items@);
                                }
                                let mut items: Vec<Object> = Vec::new();
                                let mut i: usize = 1;
                                while i < a.items.len()
                                    invariant
                                        1 <= i <= a.items@.len(),
                                        items@.len() == i - 1,
                                        forall|j: int|
                                            0 <= j < i - 1 ==> obj_view(items@[j]) == obj_view(
                                                a.items@[j + 1],
                                            ),
                                    decreases a.items@.len() - i,
                                {
                                    items.push(clone_object(&a.items[i]));
                                    i = i + 1;
                                }
                                proof {
                                    lemma_objs_view_len(items@);
                                    lemma_objs_view_len(a.items@);
                                    assert(objs_view(items@) =~= objs_view(a.items@).drop_first());
                                }
                                Ok(Object::Array(Array { items }))
                            }
                        },
                        _ => Err(EvaluatorError::new("tail expects the argument to be an array")),
                    }
                }
            },
        }
    }

    /// Evaluates one expression.  The environment is only read; the printed
    /// output and the self-function slot move as the semantics says.
    fn eval_expression(&mut self, e: &Expression, env: &Environment, fuel: u64) -> (r: Result<
        Object,
        EvaluatorError,
    >)
        requires
            old(self).builtins_wf(),
        ensures
            final(self).builtin_fns == old(self).builtin_fns,
            ({
                let s = eval_expr_s(fuel as nat, expr_view(*e), env_view(*env), st_view(*old(self)));
                st_view(*final(self)) == s.st && matches_result(s.res, r)
            }),
        decreases fuel, *e, 5nat,
    {
        match e {
            Expression::Integer(n) => Ok(Object::Integer(Integer { value: n.value })),
            Expression::Boolean(b) => Ok(Object::Boolean(Boolean { value: b.value })),
            Expression::Null(_) => Ok(Object::Null(Null {})),
            Expression::Str(s) => Ok(Object::Str(StringObject { value: s.value.clone() })),
            Expression::Identifier(id) => {
                match env.get(id.value.as_str()) {
                    Some(o) => Ok(clone_object(o)),
                    None => {
                        match self.lookup_builtin_fn(&id.value) {
                            Some(b) => Ok(Object::Builtin(BuiltinFn { builtin: b })),
                            None => Err(
                                EvaluatorError {
                                    error_message: concat2(
                                        "Unknown identifier: ",
                                        id.value.as_str(),
                                    ),
                                },
                            ),
                        }
                    },
                }
            },
            Expression::Function(f) => {
                let captured = Environment::new_wrapped(env);
                Ok(
                    Object::Function(
                        Function {
                            parameters: crate::ast::clone_idents(&f.parameters),
                            body: crate::ast::clone_block(&f.body),
                            env: Some(captured),
                        },
                    ),
                )
            },
            Expression::Prefix(p) => self.eval_prefix_expression(p, env, fuel),
            Expression::Infix(ix) => self.eval_infix_expression(ix, env, fuel),
            Expression::If(ifx) => self.eval_if_expression(ifx, env, fuel),
            Expression::Array(a) => self.eval_array_expression(a, env, fuel),
            Expression::Index(ix) => self.eval_index_expression(ix, env, fuel),
            Expression::Call(c) => self.eval_call_expression(c, env, fuel),
        }
    }

    /// Dispatches a prefix expression on its operator.
    fn eval_prefix_expression(&mut self, p: &PrefixExpression, env: &Environment, fuel: u64) -> (r:
        Result<Object, EvaluatorError>)
        requires
            old(self).builtins_wf(),
        ensures
            final(self).builtin_fns == old(self).builtin_fns,
            ({
                let s = eval_expr_s(
                    fuel as nat,
                    expr_view(Expression::Prefix(*p)),
                    env_view(*env),
                    st_view(*old(self)),
                );
                st_view(*final(self)) == s.st && matches_result(s.res, r)
            }),
        decreases fuel, *p, 9nat,
    {
        if str_eq(&p.operator, "!") {
            self.eval_bang_expression(&p.right, env, fuel)
        } else if str_eq(&p.operator, "-") {
            self.eval_minus_expression(&p.right, env, fuel)
        } else {
            Err(EvaluatorError::new("Unknown operator in prefix expression"))
        }
    }

    /// `!right`: the operand must be a boolean; yields its negation.
    fn eval_bang_expression(&mut self, right: &Expression, env: &Environment, fuel: u64) -> (r:
        Result<Object, EvaluatorError>)
        requires
            old(self).builtins_wf(),
        ensures
            final(self).builtin_fns == old(self).builtin_fns,
            ({
                let s = eval_expr_s(
                    fuel as nat,
                    ExprV::Prefix { op: "!"@, right: Box::new(expr_view(*right)) },
                    env_view(*env),
                    st_view(*old(self)),
                );
                st_view(*final(self)) == s.st && matches_result(s.res, r)
            }),
        decreases fuel, *right, 6nat,
    {
        match self.eval_expression(right, env, fuel) {
            Ok(v) => {
                match v {
                    Object::Boolean(b) => Ok(Object::Boolean(Boolean { value: !b.value })),
                    _ => Err(EvaluatorError::new("Expected boolean expression after bang operator")),
                }
            },
            Err(e) => Err(e),
        }
    }

    /// `-right`: the operand must be an integer; yields its negation,
    /// wrapping on the one overflowing case.
    fn eval_minus_expression(&mut self, right: &Expression, env: &Environment, fuel: u64) -> (r:
        Result<Object, EvaluatorError>)
        requires
            old(self).builtins_wf(),
        ensures
            final(self).builtin_fns == old(self).builtin_fns,
            ({
                let s = eval_expr_s(
                    fuel as nat,
                    ExprV::Prefix { op: "-"@, right: Box::new(expr_view(*right)) },
                    env_view(*env),
                    st_view(*old(self)),
                );
                st_view(*final(self)) == s.st && matches_result(s.res, r)
            }),
        decreases fuel, *right, 6nat,
    {
        proof {
            reveal_strlit("!");
            reveal_strlit("-");
            assert("-"@ =~= seq!['-']);
            assert("!"@ =~= seq!['!']);
            assert("-"@[0] == '-' && "!"@[0] == '!');
            assert("-"@ != "!"@);
        }
        let rv = self.eval_expression(right, env, fuel);
        match rv {
            Ok(v) => {
                match v {
                    Object::Integer(n) => {
                        let value: i64 = if n.value == i64::MIN {
                            i64::MIN
                        } else {
                            -n.value
                        };
                        Ok(Object::Integer(Integer { value }))
                    },
                    _ => Err(
                        EvaluatorError::new("Expected integer expression after minus operator"),
                    ),
                }
            },
            Err(e) => Err(e),
        }
    }

    /// Dispatches an infix expression: `==` and `!=` compare values of any
    /// type; the arithmetic and ordering operators need integer operands.
    fn eval_infix_expression(&mut self, ix: &InfixExpression, env: &Environment, fuel: u64) -> (r:
        Result<Object, EvaluatorError>)
        requires
            old(self).builtins_wf(),
        ensures
            final(self).builtin_fns == old(self).builtin_fns,
            ({
                let s = eval_expr_s(
                    fuel as nat,
                    expr_view(Expression::Infix(*ix)),
                    env_view(*env),
                    st_view(*old(self)),
                );
                st_view(*final(self)) == s.st && matches_result(s.res, r)
            }),
        decreases fuel, *ix, 9nat,
    {
        if str_eq(&ix.operator, "==") || str_eq(&ix.operator, "!=") {
            self.eval_equality_infix_expression(ix, env, fuel)
        } else if str_eq(&ix.operator, "+") || str_eq(&ix.operator, "-") || str_eq(
            &ix.operator,
            "*",
        ) || str_eq(&ix.operator, "/") || str_eq(&ix.operator, ">") || str_eq(&ix.operator, "<")
            || str_eq(&ix.operator, ">=") || str_eq(&ix.operator, "<=") {
            self.eval_integer_infix_expression(ix, env, fuel)
        } else {
            Err(EvaluatorError::new("Unknown operator in infix expression"))
        }
    }

    /// Arithmetic and ordering on integers; addition, subtraction and
    /// multiplication wrap, division truncates and rejects a zero divisor.
    fn eval_integer_infix_expression(
        &mut self,
        ix: &InfixExpression,
        env: &Environment,
        fuel: u64,
    ) -> (r: Result<Object, EvaluatorError>)
        requires
            old(self).builtins_wf(),
            ix.operator@ == "+"@ || ix.operator@ == "-"@ || ix.operator@ == "*"@ || ix.operator@
                == "/"@ || ix.operator@ == ">"@ || ix.operator@ == "<"@ || ix.operator@ == ">="@
                || ix.operator@ == "<="@,
            ix.operator@ != "=="@,
            ix.operator@ != "!="@,
        ensures
            final(self).builtin_fns == old(self).builtin_fns,
            ({
                let s = eval_expr_s(
                    fuel as nat,
                    expr_view(Expression::Infix(*ix)),
                    env_view(*env),
                    st_view(*old(self)),
                );
                st_view(*final(self)) == s.st && matches_result(s.res, r)
            }),
        decreases fuel, *ix, 8nat,
    {
        let rl = self.eval_expression(&ix.left, env, fuel);
        match rl {
            Ok(lv) => {
                let rr = self.eval_expression(&ix.right, env, fuel);
                match rr {
                    Ok(rv) => {
                        match (&lv, &rv) {
                            (Object::Integer(la), Object::Integer(rb)) => {
                                let a = la.value;
                                let b = rb.value;
                                if str_eq(&ix.operator, "+") {
                                    Ok(Object::Integer(Integer { value: a.wrapping_add(b) }))
                                } else if str_eq(&ix.operator, "-") {
                                    Ok(Object::Integer(Integer { value: a.wrapping_sub(b) }))
                                } else if str_eq(&ix.operator, "*") {
                                    Ok(Object::Integer(Integer { value: a.wrapping_mul(b) }))
                                } else if str_eq(&ix.operator, "/") {
                                    if b == 0 {
                                        Err(EvaluatorError::new("Division by zero"))
                                    } else {
                                        Ok(Object::Integer(Integer { value: div_i64(a, b) }))
                                    }
                                } else if str_eq(&ix.operator, ">") {
                                    Ok(Object::Boolean(Boolean { value: a > b }))
                                } else if str_eq(&ix.operator, "<") {
                                    Ok(Object::Boolean(Boolean { value: a < b }))
                                } else if str_eq(&ix.operator, ">=") {
                                    Ok(Object::Boolean(Boolean { value: a >= b }))
                                } else if str_eq(&ix.operator, "<=") {
                                    Ok(Object::Boolean(Boolean { value: a <= b }))
                                } else {
                                    Err(EvaluatorError::new("Unknown integer infix operator"))
                                }
                            },
                            _ => Err(
                                EvaluatorError::new(
                                    "Expected integer expressions in infix expression",
                                ),
                            ),
                        }
                    },
                    Err(e) => Err(e),
                }
            },
            Err(e) => Err(e),
        }
    }

    /// `==` and `!=` across types: values of different kinds are unequal.
    fn eval_equality_infix_expression(
        &mut self,
        ix: &InfixExpression,
        env: &Environment,
        fuel: u64,
    ) -> (r: Result<Object, EvaluatorError>)
        requires
            old(self).builtins_wf(),
            ix.operator@ == "=="@ || ix.operator@ == "!="@,
        ensures
            final(self).builtin_fns == old(self).builtin_fns,
            ({
                let s = eval_expr_s(
                    fuel as nat,
                    expr_view(Expression::Infix(*ix)),
                    env_view(*env),
                    st_view(*old(self)),
                );
                st_view(*final(self)) == s.st && matches_result(s.res, r)
            }),
        decreases fuel, *ix, 8nat,
    {
        let rl = self.eval_expression(&ix.left, env, fuel);
        match rl {
            Ok(lv) => {
                let rr = self.eval_expression(&ix.right, env, fuel);
                match rr {
                    Ok(rv) => {
                        let eq = objects_equal(&lv, &rv);
                        let value: bool = if str_eq(&ix.operator, "==") {
                            eq
                        } else {
                            !eq
                        };
                        Ok(Object::Boolean(Boolean { value }))
                    },
                    Err(e) => Err(e),
                }
            },
            Err(e) => Err(e),
        }
    }

    /// `if`: evaluates the condition; a truthy value runs the consequence
    /// in a fresh scope, otherwise the alternative runs, or the result is
    /// `null` when there is none.
    fn eval_if_expression(&mut self, ifx: &IfExpression, env: &Environment, fuel: u64) -> (r:
        Result<Object, EvaluatorError>)
        requires
            old(self).builtins_wf(),
        ensures
            final(self).builtin_fns == old(self).builtin_fns,
            ({
                let s = eval_expr_s(
                    fuel as nat,
                    expr_view(Expression::If(*ifx)),
                    env_view(*env),
                    st_view(*old(self)),
                );
                st_view(*final(self)) == s.st && matches_result(s.res, r)
            }),
        decreases fuel, *ifx, 9nat,
    {
        let rc = self.eval_expression(&ifx.condition, env, fuel);
        match rc {
            Ok(cv) => {
                if is_truthy(&cv) {
                    let mut wrapped = Environment::new_wrapped(env);
                    self.eval_block_statement(&ifx.consequence.statements, &mut wrapped, false, fuel)
                } else {
                    match &ifx.alternative {
                        Some(alt) => {
                            let mut wrapped = Environment::new_wrapped(env);
                            self.eval_block_statement(&alt.statements, &mut wrapped, false, fuel)
                        },
                        None => Ok(Object::Null(Null {})),
                    }
                }
            },
            Err(e) => Err(e),
        }
    }

    /// `[items]`: evaluates the items left to right into an array value.
    fn eval_array_expression(&mut self, a: &ArrayExpression, env: &Environment, fuel: u64) -> (r:
        Result<Object, EvaluatorError>)
        requires
            old(self).builtins_wf(),
        ensures
            final(self).builtin_fns == old(self).builtin_fns,
            ({
                let s = eval_expr_s(
                    fuel as nat,
                    expr_view(Expression::Array(*a)),
                    env_view(*env),
                    st_view(*old(self)),
                );
                st_view(*final(self)) == s.st && matches_result(s.res, r)
            }),
        decreases fuel, *a, 9nat,
    {
        match self.eval_expr_list(&a.items, env, fuel) {
            Ok(items) => Ok(Object::Array(Array { items })),
            Err(e) => Err(e),
        }
    }

    /// `collection[index]`: the index is evaluated first and must be an
    /// integer, the collection must be an array, and the index must be in
    /// bounds.
    fn eval_index_expression(&mut self, ix: &IndexExpression, env: &Environment, fuel: u64) -> (r:
        Result<Object, EvaluatorError>)
        requires
            old(self).builtins_wf(),
        ensures
            final(self).builtin_fns == old(self).builtin_fns,
            ({
                let s = eval_expr_s(
                    fuel as nat,
                    expr_view(Expression::Index(*ix)),
                    env_view(*env),
                    st_view(*old(self)),
                );
                st_view(*final(self)) == s.st && matches_result(s.res, r)
            }),
        decreases fuel, *ix, 9nat,
    {
        let ri = self.eval_expression(&ix.index, env, fuel);
        match ri {
            Ok(iv) => {
                match iv {
                    Object::Integer(ival) => {
                        let i = ival.value;
                        let rc = self.eval_expression(&ix.collection, env, fuel);
                        match rc {
                            Ok(cv) => {
                                match cv {
                                    Object::Array(arr) => {
                                        proof {
                                            lemma_objs_view_len(arr.items@);
                                        }
                                        if 0 <= i && (i as u64) < (arr.items.len() as u64) {
                                            let idx = i as usize;
                                            Ok(clone_object(&arr.items[idx]))
                                        } else {
                                            let mut m: Vec<char> = Vec::new();
                                            push_str_chars(
                                                &mut m,
                                                "Out of bounds array access. Index is ",
                                            );
                                            let it = int_to_string(i);
                                            push_str_chars(&mut m, it.as_str());
                                            push_str_chars(&mut m, " but array length is ");
                                            let lt = u64_to_string(arr.items.len() as u64);
                                            push_str_chars(&mut m, lt.as_str());
                                            proof {
                                                assert(m@ =~= index_error_msg(
                                                    ival.value,
                                                    objs_view(arr.items@).len(),
                                                ));
                                            }
                                            Err(EvaluatorError { error_message: string_from_chars(&m) })
                                        }
                                    },
                                    _ => Err(
                                        EvaluatorError::new(
                                            "Expected collection to be an array when the index is an integer literal",
                                        ),
                                    ),
                                }
                            },
                            Err(e) => Err(e),
                        }
                    },
                    _ => Err(EvaluatorError::new("Expected index to be an integer literal")),
                }
            },
            Err(e) => Err(e),
        }
    }

    /// Evaluates a list of expressions left to right; the first error
    /// aborts.
    fn eval_expr_list(&mut self, es: &Vec<Expression>, env: &Environment, fuel: u64) -> (r: Result<
        Vec<Object>,
        EvaluatorError,
    >)
        requires
            old(self).builtins_wf(),
        ensures
            final(self).builtin_fns == old(self).builtin_fns,
            ({
                let s = eval_exprs_s(
                    fuel as nat,
                    exprs_view(es@),
                    env_view(*env),
                    st_view(*old(self)),
                );
                st_view(*final(self)) == s.st && matches_args_result(s.res, r)
            }),
        decreases fuel, *es, 7nat,
    {
        let ghost views = exprs_view(es@);
        let ghost env0 = env_view(*env);
        let ghost whole = eval_exprs_s(fuel as nat, views, env0, st_view(*self));
        proof {
            crate::ast::lemma_exprs_view_len(es@);
            assert(views.skip(0) =~= views);
        }
        let mut out: Vec<Object> = Vec::new();
        proof {
            assert(out@.len() == 0);
            assert(objs_view(out@) =~= Seq::<ObjV>::empty());
            let rest0 = eval_exprs_s(fuel as nat, views, env0, st_view(*self));
            match rest0.res {
                Ok(vs) => {
                    assert(objs_view(out@).add(vs) =~= vs);
                },
                Err(_) => {},
            }
        }
        let mut i: usize = 0;
        while i < es.len()
            invariant
                old(self).builtins_wf(),
                self.builtins_wf(),
                self.builtin_fns == old(self).builtin_fns,
                i <= es@.len(),
                views == exprs_view(es@),
                views.len() == es@.len(),
                forall|j: int| 0 <= j < es@.len() ==> views[j] == expr_view(es@[j]),
                env0 == env_view(*env),
                whole == eval_exprs_s(fuel as nat, views, env0, st_view(*old(self))),
                ({
                    let rest = eval_exprs_s(fuel as nat, views.skip(i as int), env0, st_view(*self));
                    whole == (match rest.res {
                        Ok(vs) => ArgsR { res: Ok(objs_view(out@).add(vs)), st: rest.st },
                        Err(m) => ArgsR { res: Err(m), st: rest.st },
                    })
                }),
            decreases es@.len() - i,
        {
            let ghost st_before = st_view(*self);
            let rv = self.eval_expression(&es[i], env, fuel);
            proof {
                assert(views.skip(i as int).len() > 0);
                assert(views.skip(i as int)[0] == views[i as int]);
                assert(views.skip(i as int).drop_first() =~= views.skip(i + 1));
            }
            match rv {
                Ok(v) => {
                    let ghost prev = out@;
                    out.push(v);
                    proof {
                        assert(out@.drop_last() =~= prev);
                        crate::object::lemma_objs_view_len(out@);
                        assert(objs_view(out@) == objs_view(prev).push(obj_view(v)));
                        let rest_new = eval_exprs_s(
                            fuel as nat,
                            views.skip(i + 1),
                            env0,
                            st_view(*self),
                        );
                        match rest_new.res {
                            Ok(vs) => {
                                assert(objs_view(prev).add(seq![obj_view(v)].add(vs))
                                    =~= objs_view(out@).add(vs));
                            },
                            Err(_) => {},
                        }
                    }
                    i = i + 1;
                },
                Err(e) => {
                    return Err(e);
                },
            }
        }
        proof {
            assert(views.skip(views.len() as int).len() == 0);
            assert(objs_view(out@).add(Seq::<ObjV>::empty()) =~= objs_view(out@));
        }
        Ok(out)
    }

    /// Resolves and performs a call whose arguments are already evaluated.
    fn eval_call_expression(&mut self, c: &CallExpression, env: &Environment, fuel: u64) -> (r:
        Result<Object, EvaluatorError>)
        requires
            old(self).builtins_wf(),
        ensures
            final(self).builtin_fns == old(self).builtin_fns,
            ({
                let s = eval_expr_s(
                    fuel as nat,
                    expr_view(Expression::Call(*c)),
                    env_view(*env),
                    st_view(*old(self)),
                );
                st_view(*final(self)) == s.st && matches_result(s.res, r)
            }),
        decreases fuel, *c, 9nat,
    {
        let ra = self.eval_expr_list(&c.arguments, env, fuel);
        let arguments = match ra {
            Ok(vs) => vs,
            Err(e) => {
                return Err(e);
            },
        };
        match &*c.function {
            Expression::Function(fl) => {
                proof {
                    assert(expr_view(*c.function) == (ExprV::Fun {
                        params: idents_view(fl.parameters@),
                        body: stmts_view(fl.body.statements@),
                    }));
                }
                if fuel == 0 {
                    proof {
                        let ra_s = eval_exprs_s(
                            fuel as nat,
                            exprs_view(c.arguments@),
                            env_view(*env),
                            st_view(*old(self)),
                        );
                        let cs = eval_call_s(
                            fuel as nat,
                            expr_view(*c.function),
                            objs_view(arguments@),
                            env_view(*env),
                            ra_s.st,
                        );
                        assert(cs.res == Err::<ObjV, Seq<char>>(
                            "Maximum call depth exceeded"@,
                        ));
                    }
                    return Err(EvaluatorError::new("Maximum call depth exceeded"));
                }
                let captured = Environment::new_wrapped(env);
                let f = Function {
                    parameters: crate::ast::clone_idents(&fl.parameters),
                    body: crate::ast::clone_block(&fl.body),
                    env: Some(captured),
                };
                self.apply_function(Box::new(f), arguments, env, fuel - 1)
            },
            Expression::Identifier(id) => {
                proof {
                    assert(expr_view(*c.function) == (ExprV::Ident { name: id.value@ }));
                }
                let looked = env.get(id.value.as_str());
                match looked {
                    Some(o) => {
                        match o {
                            Object::SelfRef(_) => {
                                let sf: Option<Function> = match &self.self_fn {
                                    Some(bf) => Some(clone_function(bf)),
                                    None => None,
                                };
                                match sf {
                                    Some(f) => {
                                        if fuel == 0 {
                                        proof {
                                            let ra_s = eval_exprs_s(
                                                fuel as nat,
                                                exprs_view(c.arguments@),
                                                env_view(*env),
                                                st_view(*old(self)),
                                            );
                                            let cs = eval_call_s(
                                                fuel as nat,
                                                expr_view(*c.function),
                                                objs_view(arguments@),
                                                env_view(*env),
                                                ra_s.st,
                                            );
                                            assert(cs.res == Err::<ObjV, Seq<char>>(
                                                "Maximum call depth exceeded"@,
                                            ));
                                        }
                                            return Err(
                                                EvaluatorError::new("Maximum call depth exceeded"),
                                            );
                                        }
                                        self.apply_function(Box::new(f), arguments, env, fuel - 1)
                                    },
                                    None => Err(
                                        EvaluatorError::new(
                                            "Expected self_fn to be Some when evaluating recursive function",
                                        ),
                                    ),
                                }
                            },
                            Object::Function(f0) => {
                                let f = clone_function(f0);
                                if fuel == 0 {
                                proof {
                                    let ra_s = eval_exprs_s(
                                        fuel as nat,
                                        exprs_view(c.arguments@),
                                        env_view(*env),
                                        st_view(*old(self)),
                                    );
                                    let cs = eval_call_s(
                                        fuel as nat,
                                        expr_view(*c.function),
                                        objs_view(arguments@),
                                        env_view(*env),
                                        ra_s.st,
                                    );
                                    assert(cs.res == Err::<ObjV, Seq<char>>(
                                        "Maximum call depth exceeded"@,
                                    ));
                                }
                                    return Err(EvaluatorError::new("Maximum call depth exceeded"));
                                }
                                let saved: Option<Box<Function>> = match &self.self_fn {
                                    Some(bf) => Some(Box::new(clone_function(bf))),
                                    None => None,
                                };
                                self.self_fn = Some(Box::new(clone_function(&f)));
                                let ret = self.apply_function(Box::new(f), arguments, env, fuel - 1);
                                self.self_fn = saved;
                                ret
                            },
                            _ => Err(
                                EvaluatorError {
                                    error_message: concat3(
                                        "Expected function literal in call expression. ",
                                        id.value.as_str(),
                                        " is not a function literal",
                                    ),
                                },
                            ),
                        }
                    },
                    None => {
                        match self.lookup_builtin_fn(&id.value) {
                            Some(b) => self.apply_builtin(b, arguments),
                            None => Err(
                                EvaluatorError {
                                    error_message: concat2(
                                        "Unknown identifier: ",
                                        id.value.as_str(),
                                    ),
                                },
                            ),
                        }
                    },
                }
            },
            _ => {
                proof {
                    assert(!(expr_view(*c.function) matches ExprV::Fun { .. }) && !(expr_view(
                        *c.function,
                    ) matches ExprV::Ident { .. }));
                }
                Err(EvaluatorError::new("Expected function literal or identifier in call expression"))
            },
        }
    }

    /// Applies a function to already-evaluated arguments: checks the arity,
    /// binds the parameters in the right scope and runs the body with
    /// return-unwrapping.
    fn apply_function(
        &mut self,
        function: Box<Function>,
        arguments: Vec<Object>,
        env: &Environment,
        fuel: u64,
    ) -> (r: Result<Object, EvaluatorError>)
        requires
            old(self).builtins_wf(),
        ensures
            final(self).builtin_fns == old(self).builtin_fns,
            ({
                let s = apply_fun_s(
                    fuel as nat,
                    fun_view(*function),
                    objs_view(arguments@),
                    env_view(*env),
                    st_view(*old(self)),
                );
                st_view(*final(self)) == s.st && matches_result(s.res, r)
            }),
        decreases fuel, function.body.statements, 8nat,
    {
        let ghost fv = fun_view(*function);
        let ghost argsv = objs_view(arguments@);
        proof {
            lemma_objs_view_len(arguments@);
        }
        if function.parameters.len() != arguments.len() {
            let mut m: Vec<char> = Vec::new();
            push_str_chars(&mut m, "Mismatched number of parameters: ");
            let pa = u64_to_string(function.parameters.len() as u64);
            push_str_chars(&mut m, pa.as_str());
            push_str_chars(&mut m, " != ");
            let pb = u64_to_string(arguments.len() as u64);
            push_str_chars(&mut m, pb.as_str());
            proof {
                assert(m@ =~= "Mismatched number of parameters: "@.add(
                    nat_chars(fv.params.len() as int),
                ).add(" != "@).add(nat_chars(argsv.len() as int)));
            }
            return Err(EvaluatorError { error_message: string_from_chars(&m) });
        }
        let f = *function;
        let parameters = f.parameters;
        let body = f.body;
        let fenv = f.env;
        let mut scope: Environment = match fenv {
            Some(captured) => captured,
            None => Environment::new_wrapped(env),
        };
        let ghost scope0 = env_view(scope);
        proof {
            assert(idents_view(parameters@).take(0) =~= Seq::<Seq<char>>::empty());
            assert(argsv.take(0) =~= Seq::<ObjV>::empty());
        }
        let mut i: usize = 0;
        while i < parameters.len()
            invariant
                i <= parameters@.len(),
                parameters@.len() == arguments@.len(),
                argsv == objs_view(arguments@),
                argsv.len() == arguments@.len(),
                forall|j: int| 0 <= j < arguments@.len() ==> argsv[j] == obj_view(arguments@[j]),
                env_view(scope) == bind_params(
                    scope0,
                    idents_view(parameters@).take(i as int),
                    argsv.take(i as int),
                ),
            decreases parameters@.len() - i,
        {
            let value = clone_object(&arguments[i]);
            let ghost pre = env_view(scope);
            scope.insert(&parameters[i], value);
            proof {
                let pv = idents_view(parameters@);
                assert(pv.len() == parameters@.len());
                assert(pv[i as int] == parameters@[i as int].value@);
                assert(pv.take(i + 1).drop_last() =~= pv.take(i as int));
                assert(argsv.take(i + 1).drop_last() =~= argsv.take(i as int));
                assert(pv.take(i + 1).last() == pv[i as int]);
                assert(argsv.take(i + 1).last() == argsv[i as int]);
                assert(env_view(scope) == bind_params(scope0, pv.take(i + 1), argsv.take(i + 1)));
            }
            i = i + 1;
        }
        proof {
            assert(idents_view(parameters@).take(parameters@.len() as int) =~= idents_view(
                parameters@,
            ));
            assert(argsv.take(arguments@.len() as int) =~= argsv);
        }
        self.eval_block_statement(&body.statements, &mut scope, true, fuel)
    }

    /// `let [rec] name = value;`: binds the name in the current frame;
    /// with `rec`, the name is first bound to the self-reference sentinel so
    /// the value can mention itself.
    fn eval_let_statement(&mut self, ls: &LetStatement, env: &mut Environment, fuel: u64) -> (r:
        Result<Object, EvaluatorError>)
        requires
            old(self).builtins_wf(),
        ensures
            final(self).builtin_fns == old(self).builtin_fns,
            ({
                let s = eval_stmt_s(
                    fuel as nat,
                    stmt_view(Statement::Let(*ls)),
                    env_view(*old(env)),
                    st_view(*old(self)),
                );
                st_view(*final(self)) == s.st && env_view(*final(env)) == s.env && matches_result(
                    s.res,
                    r,
                )
            }),
        decreases fuel, *ls, 8nat,
    {
        if ls.rec {
            env.insert(&ls.name, Object::SelfRef(SelfRef {}));
            let rv = self.eval_expression(&ls.value, env, fuel);
            match rv {
                Ok(v) => {
                    env.insert(&ls.name, v);
                    Ok(Object::Null(Null {}))
                },
                Err(e) => Err(e),
            }
        } else {
            let rv = self.eval_expression(&ls.value, env, fuel);
            match rv {
                Ok(v) => {
                    env.insert(&ls.name, v);
                    Ok(Object::Null(Null {}))
                },
                Err(e) => Err(e),
            }
        }
    }

    /// `return value;`: wraps the value in the return marker.
    fn eval_return_statement(&mut self, rs: &ReturnStatement, env: &Environment, fuel: u64) -> (r:
        Result<Object, EvaluatorError>)
        requires
            old(self).builtins_wf(),
        ensures
            final(self).builtin_fns == old(self).builtin_fns,
            ({
                let s = eval_stmt_s(
                    fuel as nat,
                    stmt_view(Statement::Return(*rs)),
                    env_view(*env),
                    st_view(*old(self)),
                );
                st_view(*final(self)) == s.st && matches_result(s.res, r)
            }),
        decreases fuel, *rs, 8nat,
    {
        match self.eval_expression(&rs.return_value, env, fuel) {
            Ok(v) => Ok(Object::ReturnValue(ReturnValue { value: Box::new(v) })),
            Err(e) => Err(e),
        }
    }

    /// `def name(params) { body }`: binds the name to a non-closure
    /// function.
    fn eval_def_statement(&mut self, ds: &DefStatement, env: &mut Environment) -> (r: Result<
        Object,
        EvaluatorError,
    >)
        ensures
            final(self).builtin_fns == old(self).builtin_fns,
            st_view(*final(self)) == st_view(*old(self)),
            env_view(*final(env)) == env_insert(
                env_view(*old(env)),
                ds.name.value@,
                ObjV::Fun {
                    params: idents_view(ds.parameters@),
                    body: stmts_view(ds.body.statements@),
                    env: None,
                },
            ),
            r matches Ok(o) && obj_view(o) == ObjV::Null,
    {
        let f = Function {
            parameters: crate::ast::clone_idents(&ds.parameters),
            body: crate::ast::clone_block(&ds.body),
            env: None,
        };
        env.insert(&ds.name, Object::Function(f));
        Ok(Object::Null(Null {}))
    }

    /// Evaluates one statement, updating the environment it runs in.
    fn eval_statement(&mut self, s: &Statement, env: &mut Environment, fuel: u64) -> (r: Result<
        Object,
        EvaluatorError,
    >)
        requires
            old(self).builtins_wf(),
        ensures
            final(self).builtin_fns == old(self).builtin_fns,
            ({
                let sp = eval_stmt_s(
                    fuel as nat,
                    stmt_view(*s),
                    env_view(*old(env)),
                    st_view(*old(self)),
                );
                st_view(*final(self)) == sp.st && env_view(*final(env)) == sp.env
                    && matches_result(sp.res, r)
            }),
        decreases fuel, *s, 9nat,
    {
        match s {
            Statement::Let(ls) => self.eval_let_statement(ls, env, fuel),
            Statement::Return(rs) => self.eval_return_statement(rs, env, fuel),
            Statement::Def(ds) => self.eval_def_statement(ds, env),
            Statement::Expression(es) => self.eval_expression(&es.expression, env, fuel),
            Statement::Block(b) => {
                let mut wrapped = Environment::new_wrapped(env);
                self.eval_block_statement(&b.statements, &mut wrapped, false, fuel)
            },
        }
    }

    /// Evaluates a list of statements: the value of the last one, with
    /// return markers stopping the list early, unwrapped at function
    /// boundaries (`unwrap`) and passed outward otherwise.
    fn eval_block_statement(
        &mut self,
        ss: &Vec<Statement>,
        env: &mut Environment,
        unwrap: bool,
        fuel: u64,
    ) -> (r: Result<Object, EvaluatorError>)
        requires
            old(self).builtins_wf(),
        ensures
            final(self).builtin_fns == old(self).builtin_fns,
            ({
                let sp = eval_stmts_s(
                    fuel as nat,
                    stmts_view(ss@),
                    unwrap,
                    env_view(*old(env)),
                    st_view(*old(self)),
                );
                st_view(*final(self)) == sp.st && env_view(*final(env)) == sp.env
                    && matches_result(sp.res, r)
            }),
        decreases fuel, *ss, 4nat,
    {
        let ghost views = stmts_view(ss@);
        let ghost whole = eval_stmts_s(fuel as nat, views, unwrap, env_view(*env), st_view(*self));
        proof {
            crate::ast::lemma_stmts_view_len(ss@);
            assert(views.skip(0) =~= views);
        }
        let mut ret: Object = Object::Integer(Integer { value: 69 });
        let mut i: usize = 0;
        while i < ss.len()
            invariant
                old(self).builtins_wf(),
                self.builtins_wf(),
                self.builtin_fns == old(self).builtin_fns,
                i <= ss@.len(),
                views == stmts_view(ss@),
                views.len() == ss@.len(),
                forall|j: int| 0 <= j < ss@.len() ==> views[j] == stmt_view(ss@[j]),
                whole == eval_stmts_s(
                    fuel as nat,
                    views,
                    unwrap,
                    env_view(*old(env)),
                    st_view(*old(self)),
                ),
                i < views.len() || views.len() == 0 ==> whole == eval_stmts_s(
                    fuel as nat,
                    views.skip(i as int),
                    unwrap,
                    env_view(*env),
                    st_view(*self),
                ),
                i == views.len() && views.len() > 0 ==> whole == (StmtR {
                    res: Ok(obj_view(ret)),
                    env: env_view(*env),
                    st: st_view(*self),
                }),
                views.len() == 0 ==> obj_view(ret) == (ObjV::Int { value: 69 }) && env_view(*env)
                    == env_view(*old(env)) && st_view(*self) == st_view(*old(self)),
            decreases ss@.len() - i,
        {
            let rv = self.eval_statement(&ss[i], env, fuel);
            proof {
                assert(views.skip(i as int).len() > 0);
                assert(views.skip(i as int)[0] == views[i as int]);
                assert(views.skip(i as int).drop_first() =~= views.skip(i + 1));
            }
            match rv {
                Ok(o) => {
                    let is_ret: bool = match &o {
                        Object::ReturnValue(_) => true,
                        _ => false,
                    };
                    if is_ret {
                        match o {
                            Object::ReturnValue(marker) => {
                                if unwrap {
                                    return Ok(*marker.value);
                                } else {
                                    return Ok(Object::ReturnValue(marker));
                                }
                            },
                            _ => {
                                proof {
                                    assert(false);
                                }
                                return Ok(ret);
                            },
                        }
                    } else {
                        ret = o;
                        i = i + 1;
                    }
                },
                Err(e) => {
                    return Err(e);
                },
            }
        }
        proof {
            if views.len() > 0 {
            } else {
                assert(whole == eval_stmts_s(
                    fuel as nat,
                    views,
                    unwrap,
                    env_view(*old(env)),
                    st_view(*old(self)),
                ));
                assert(whole.res == Ok::<ObjV, Seq<char>>(ObjV::Int { value: 69 }));
            }
        }
        Ok(ret)
    }

    /// Evaluates a whole program against `env`, with the depth budget
    /// `MAX_CALL_DEPTH`: the statements run at top level (bindings land in
    /// `env` itself), return markers are unwrapped, and the first error
    /// stops evaluation.
    pub fn eval(&mut self, program: &Program, env: &mut Environment) -> (r: Result<
        Object,
        EvaluatorError,
    >)
        requires
            old(self).builtins_wf(),
        ensures
            final(self).builtin_fns == old(self).builtin_fns,
            final(self).builtins_wf(),
            ({
                let sp = eval_program_s(
                    MAX_CALL_DEPTH as nat,
                    program@,
                    env_view(*old(env)),
                    st_view(*old(self)),
                );
                st_view(*final(self)) == sp.st && env_view(*final(env)) == sp.env
                    && matches_result(sp.res, r)
            }),
    {
        self.eval_block_statement(&program.statements, env, true, MAX_CALL_DEPTH)
    }
}

} // verus!
