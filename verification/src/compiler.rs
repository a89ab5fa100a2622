//! An embryonic bytecode compiler: it walks a program and emits an
//! `OpConstant` instruction for every integer literal it finds inside
//! expression statements and infix expressions, collecting the constants in
//! a pool.  Nothing else is compiled yet, and the evaluator does not use
//! it.

use vstd::prelude::*;

use crate::ast::{expr_view, stmt_view, stmts_view, ExprV, Expression, Program, Statement, StmtV};
use crate::code::{instruction_bytes, make_instruction, OpCode};
use crate::object::{objs_view, Integer, ObjV, Object};

verus! {

/// A compilation state: the bytes emitted so far, the constant pool, and
/// whether the constant pool has overflowed its two-byte index space.
#[verifier::ext_equal]
pub ghost struct CompR {
    pub code: Seq<u8>,
    pub consts: Seq<ObjV>,
    pub err: bool,
}

/// What compiling one expression adds to a state: an integer literal puts
/// its value in the pool and emits `OpConstant` with its index; an infix
/// expression compiles its left then its right operand; everything else
/// adds nothing.  Once the error flag is set, the state is frozen.
pub open spec fn compile_expr_s(e: ExprV, acc: CompR) -> CompR
    decreases e,
{
    if acc.err {
        acc
    } else {
        match e {
            ExprV::Int { value } => {
                if acc.consts.len() > 0xffff {
                    CompR { code: acc.code, consts: acc.consts, err: true }
                } else {
                    CompR {
                        code: acc.code.add(
                            instruction_bytes(
                                OpCode::OpConstant,
                                seq![acc.consts.len() as u32],
                            ),
                        ),
                        consts: acc.consts.push(ObjV::Int { value }),
                        err: false,
                    }
                }
            },
            ExprV::Infix { left, right, .. } => compile_expr_s(
                *right,
                compile_expr_s(*left, acc),
            ),
            _ => acc,
        }
    }
}

/// What compiling one statement adds: only expression statements compile.
pub open spec fn compile_stmt_s(s: StmtV, acc: CompR) -> CompR {
    if acc.err {
        acc
    } else {
        match s {
            StmtV::Expr { value } => compile_expr_s(value, acc),
            _ => acc,
        }
    }
}

/// What compiling a statement list adds, left to right.
pub open spec fn compile_stmts_s(ss: Seq<StmtV>, acc: CompR) -> CompR
    decreases ss.len(),
{
    if ss.len() == 0 {
        acc
    } else {
        compile_stmts_s(ss.drop_first(), compile_stmt_s(ss[0], acc))
    }
}

/// A frozen (overflowed) state stays frozen, whatever else is compiled.
proof fn lemma_expr_frozen(e: ExprV, acc: CompR)
    requires
        acc.err,
    ensures
        compile_expr_s(e, acc) == acc,
{
}

/// A frozen state stays frozen through a whole statement list.
proof fn lemma_stmts_frozen(ss: Seq<StmtV>, acc: CompR)
    requires
        acc.err,
    ensures
        compile_stmts_s(ss, acc) == acc,
    decreases ss.len(),
{
    if ss.len() > 0 {
        lemma_stmts_frozen(ss.drop_first(), acc);
    }
}

/// A compilation error, carrying a message.
pub struct CompilerError {
    pub error_message: String,
}

impl CompilerError {
    /// Builds an error carrying `error_message`.
    pub fn new(error_message: String) -> (r: Self)
        ensures
            r.error_message == error_message,
    {
        Self { error_message }
    }
}

/// The compiler: the bytes emitted so far and the constant pool.
pub struct Compiler {
    pub instructions: Vec<u8>,
    pub constants: Vec<Object>,
}

/// The compilation state a compiler holds.
pub open spec fn comp_view(c: Compiler) -> CompR {
    CompR { code: c.instructions@, consts: objs_view(c.constants@), err: false }
}

impl Compiler {
    /// Builds a compiler with no code and no constants.
    pub fn new() -> (r: Self)
        ensures
            r.instructions@ == Seq::<u8>::empty(),
            objs_view(r.constants@) == Seq::<ObjV>::empty(),
    {
        let instructions: Vec<u8> = Vec::new();
        let constants: Vec<Object> = Vec::new();
        proof {
            assert(objs_view(constants@) =~= Seq::<ObjV>::empty());
        }
        Compiler { instructions, constants }
    }

    /// Adds a constant to the pool and returns its index, which must still
    /// fit the two-byte operand width.
    pub fn add_constant(&mut self, object: Object) -> (r: u32)
        requires
            old(self).constants@.len() <= 0xffff,
        ensures
            final(self).instructions == old(self).instructions,
            objs_view(final(self).constants@) == objs_view(old(self).constants@).push(
                crate::object::obj_view(object),
            ),
            r == old(self).constants@.len(),
    {
        let ghost prev = self.constants@;
        self.constants.push(object);
        proof {
            assert(self.constants@.drop_last() =~= prev);
        }
        (self.constants.len() - 1) as u32
    }

    /// Compiles one expression into the current state.
    fn compile_expression(&mut self, e: &Expression) -> (r: Result<(), CompilerError>)
        ensures
            ({
                let out = compile_expr_s(expr_view(*e), comp_view(*old(self)));
                final(self).instructions@ == out.code && objs_view(final(self).constants@)
                    == out.consts && (r is Ok <==> !out.err)
            }),
        decreases *e,
    {
        match e {
            Expression::Integer(n) => {
                if self.constants.len() > 0xffff {
                    proof {
                        crate::object::lemma_objs_view_len(self.constants@);
                    }
                    return Err(CompilerError::new("Too many constants".to_owned()));
                }
                proof {
                    crate::object::lemma_objs_view_len(self.constants@);
                }
                let index = self.add_constant(Object::Integer(Integer { value: n.value }));
                let mut operands: Vec<u32> = Vec::new();
                operands.push(index);
                proof {
                    assert(operands@ =~= seq![index]);
                }
                let mut ins = make_instruction(OpCode::OpConstant, operands);
                self.instructions.append(&mut ins);
                Ok(())
            },
            Expression::Infix(ix) => {
                match self.compile_expression(&ix.left) {
                    Ok(_) => {},
                    Err(er) => {
                        proof {
                            let mid = compile_expr_s(expr_view(*ix.left), comp_view(*old(self)));
                            lemma_expr_frozen(expr_view(*ix.right), mid);
                        }
                        return Err(er);
                    },
                }
                self.compile_expression(&ix.right)
            },
            _ => Ok(()),
        }
    }

    /// Compiles one statement into the current state.
    fn compile_statement(&mut self, s: &Statement) -> (r: Result<(), CompilerError>)
        ensures
            ({
                let out = compile_stmt_s(stmt_view(*s), comp_view(*old(self)));
                final(self).instructions@ == out.code && objs_view(final(self).constants@)
                    == out.consts && (r is Ok <==> !out.err)
            }),
        decreases *s,
    {
        match s {
            Statement::Expression(es) => self.compile_expression(&es.expression),
            _ => Ok(()),
        }
    }

    /// Compiles a whole program: its statements, left to right; stops at
    /// the first constant-pool overflow.
    pub fn compile(&mut self, program: &Program) -> (r: Result<(), CompilerError>)
        ensures
            ({
                let out = compile_stmts_s(program@, comp_view(*old(self)));
                final(self).instructions@ == out.code && objs_view(final(self).constants@)
                    == out.consts && (r is Ok <==> !out.err)
            }),
    {
        let ghost views = stmts_view(program.statements@);
        let ghost acc0 = comp_view(*self);
        proof {
            crate::ast::lemma_stmts_view_len(program.statements@);
            assert(views.skip(0) =~= views);
        }
        let mut i: usize = 0;
        while i < program.statements.len()
            invariant
                i <= program.statements@.len(),
                views == stmts_view(program.statements@),
                views.len() == program.statements@.len(),
                forall|j: int|
                    0 <= j < program.statements@.len() ==> views[j] == stmt_view(
                        program.statements@[j],
                    ),
                acc0 == comp_view(*old(self)),
                views == program@,
                compile_stmts_s(views, acc0) == compile_stmts_s(
                    views.skip(i as int),
                    comp_view(*self),
                ),
            decreases program.statements@.len() - i,
        {
            let ghost acc_cur = comp_view(*self);
            let rs = self.compile_statement(&program.statements[i]);
            proof {
                assert(views.skip(i as int).len() > 0);
                assert(views.skip(i as int)[0] == views[i as int]);
                assert(views.skip(i as int).drop_first() =~= views.skip(i + 1));
            }
            match rs {
                Ok(_) => {},
                Err(er) => {
                    proof {
                        let out = compile_stmt_s(views[i as int], acc_cur);
                        lemma_stmts_frozen(views.skip(i + 1), out);
                        assert(compile_stmts_s(views, acc0) == out);
                        assert(compile_stmts_s(program@, comp_view(*old(self))) == out);
                    }
                    return Err(er);
                },
            }
            i = i + 1;
        }
        proof {
            assert(views.skip(views.len() as int).len() == 0);
        }
        Ok(())
    }
}

} // verus!
