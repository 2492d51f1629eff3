//! The translator: lowers an AST into bytecode for the
//! [executor](crate::runtime::executor), by structural recursion over the
//! nodes. Each node lowers to a deterministic sequence of opcodes, given by
//! [`translate_spec`]. The translator is total: it cannot fail on any AST.

use vstd::prelude::*;

use crate::compiler::ast::{ast_view, asts_view, lemma_asts_view, lemma_names_view, names_view, AstNode, AstV, Number};
use crate::runtime::bytecode::{lemma_ops_view, ops_view, Bytecode, OpCode, OpV};

verus! {

/// The bytecode that an AST node translates to.
///
/// - A literal pushes its value; an identifier loads its binding.
/// - An assignment translates its value, then stores it.
/// - A binary operation translates its left operand, then its right, then
///   applies the operation; a unary operation translates its operand, then
///   applies the operation.
/// - A call translates each argument in source order, loads the callee, and
///   calls it with the argument count.
/// - A function definition binds each declared parameter name, first
///   declared first, and then runs the body; the definition itself only
///   pushes the function value.
/// - `return` translates its value (if any) and returns 1 or 0 values;
///   `break` and `continue` lower to their opcodes.
/// - Control-flow statements lower to one tree-shaped opcode each, carrying
///   the translations of their parts; a block concatenates the translations
///   of its statements.
pub open spec fn translate_spec(ast: AstV) -> Seq<OpV>
    decreases ast, 0int,
{
    match ast {
        AstV::Identifier(name) => seq![OpV::Load(name)],
        AstV::NumberLiteral(num) => match num {
            Number::Integer(x) => seq![OpV::PushInteger(x)],
            Number::Float(bits) => seq![OpV::PushFloat(bits)],
        },
        AstV::StringLiteral(s) => seq![OpV::PushString(s)],
        AstV::BooleanLiteral(x) => seq![OpV::PushBool(x)],
        AstV::NilLiteral => seq![OpV::PushNil],
        AstV::FunctionCall { identifier, args } => translate_all(args) + seq![
            OpV::Load(identifier),
            OpV::Call(args.len()),
        ],
        AstV::FunctionDef { args, body } => seq![
            OpV::PushFunction(param_stores(args) + translate_spec(*body)),
        ],
        AstV::UnaryOperation { kind, operand } => translate_spec(*operand) + seq![
            OpV::UnaryOperation(kind),
        ],
        AstV::BinaryOperation { kind, left, right } => translate_spec(*left) + translate_spec(
            *right,
        ) + seq![OpV::BinaryOperation(kind)],
        AstV::Assignment { identifier, value } => translate_spec(*value) + seq![
            OpV::Store(identifier),
        ],
        AstV::Return { value } => match value {
            Some(v) => translate_spec(*v) + seq![OpV::Return(1)],
            None => seq![OpV::Return(0)],
        },
        AstV::Break => seq![OpV::Break],
        AstV::Continue => seq![OpV::Continue],
        AstV::If { condition, body, else_body } => seq![
            OpV::If {
                condition: translate_spec(*condition),
                body: translate_spec(*body),
                else_body: match else_body {
                    Some(e) => Some(translate_spec(*e)),
                    None => None,
                },
            },
        ],
        AstV::For { initialization, condition, increment, body } => seq![
            OpV::For {
                initialization: match initialization {
                    Some(x) => Some(translate_spec(*x)),
                    None => None,
                },
                condition: match condition {
                    Some(x) => Some(translate_spec(*x)),
                    None => None,
                },
                increment: match increment {
                    Some(x) => Some(translate_spec(*x)),
                    None => None,
                },
                body: translate_spec(*body),
            },
        ],
        AstV::While { condition, body } => seq![
            OpV::While { condition: translate_spec(*condition), body: translate_spec(*body) },
        ],
        AstV::Loop { body } => seq![OpV::Loop { body: translate_spec(*body) }],
        AstV::Block(nodes) => translate_all(nodes),
    }
}

/// The concatenation of the translations of a sequence of nodes.
pub open spec fn translate_all(nodes: Seq<AstV>) -> Seq<OpV>
    decreases nodes, 1int,
{
    if nodes.len() == 0 {
        Seq::empty()
    } else {
        translate_spec(nodes[0]) + translate_all(nodes.drop_first())
    }
}

/// One store opcode per declared parameter name, first declared first.
pub open spec fn param_stores(names: Seq<Seq<char>>) -> Seq<OpV>
    decreases names,
{
    if names.len() == 0 {
        Seq::empty()
    } else {
        seq![OpV::Store(names[0])] + param_stores(names.drop_first())
    }
}

/// Translates an AST node into bytecode which can be executed on a state.
pub fn translate_node(ast: &AstNode) -> (r: Bytecode)
    ensures
        ops_view(r.inner@) == translate_spec(ast_view(*ast)),
{
    let mut out: Vec<OpCode> = Vec::new();
    proof {
        assert(ops_view(out@) =~= Seq::<OpV>::empty());
    }
    translate_into(ast, &mut out);
    Bytecode { inner: out }
}

/// Append the translation of a node to the output.
fn translate_into(ast: &AstNode, out: &mut Vec<OpCode>)
    ensures
        ops_view(final(out)@) == ops_view(old(out)@) + translate_spec(ast_view(*ast)),
    decreases *ast, 0int,
{
    let ghost pre = out@;
    match ast {
        AstNode::Identifier(name) => {
            out.push(OpCode::Load(name.clone()));
            proof {
                lemma_push_one(pre, out@, OpV::Load(name@));
            }
        },
        AstNode::NumberLiteral(num) => match num {
            Number::Integer(x) => {
                out.push(OpCode::PushInteger(*x));
                proof {
                    lemma_push_one(pre, out@, OpV::PushInteger(*x));
                }
            },
            Number::Float(bits) => {
                out.push(OpCode::PushFloat(*bits));
                proof {
                    lemma_push_one(pre, out@, OpV::PushFloat(*bits));
                }
            },
        },
        AstNode::StringLiteral(s) => {
            out.push(OpCode::PushString(s.clone()));
            proof {
                lemma_push_one(pre, out@, OpV::PushString(s@));
            }
        },
        AstNode::BooleanLiteral(x) => {
            out.push(OpCode::PushBool(*x));
            proof {
                lemma_push_one(pre, out@, OpV::PushBool(*x));
            }
        },
        AstNode::NilLiteral => {
            out.push(OpCode::PushNil);
            proof {
                lemma_push_one(pre, out@, OpV::PushNil);
            }
        },
        AstNode::FunctionCall { identifier, args } => {
            proof {
                assert(args@.skip(0) =~= args@);
                assert(decreases_to!(*ast => args@));
                lemma_asts_view(args@);
                assert(asts_view(args@).skip(0) =~= asts_view(args@));
            }
            translate_each(args, 0, out);
            let ghost mid = out@;
            out.push(OpCode::Load(identifier.clone()));
            let ghost mid2 = out@;
            out.push(OpCode::Call(args.len()));
            proof {
                lemma_push_one(mid, mid2, OpV::Load(identifier@));
                lemma_push_one(mid2, out@, OpV::Call(args@.len() as nat));
                assert(args@.skip(0) =~= args@);
                assert(ops_view(out@) =~= ops_view(pre) + translate_spec(ast_view(*ast)));
            }
        },
        AstNode::FunctionDef { args, body } => {
            let mut translated_body: Vec<OpCode> = Vec::new();
            proof {
                assert(ops_view(translated_body@) =~= Seq::<OpV>::empty());
                lemma_names_view(args@);
                assert(names_view(args@).skip(0) =~= names_view(args@));
            }
            push_param_stores(args, 0, &mut translated_body);
            translate_into(body, &mut translated_body);
            let ghost tb = translated_body@;
            out.push(OpCode::PushFunction(translated_body));
            proof {
                assert(ops_view(tb) =~= param_stores(names_view(args@)) + translate_spec(ast_view(**body)));
                lemma_push_one(pre, out@, OpV::PushFunction(ops_view(tb)));
                assert(ops_view(out@) =~= ops_view(pre) + translate_spec(ast_view(*ast)));
            }
        },
        AstNode::UnaryOperation { kind, operand } => {
            translate_into(operand, out);
            let ghost mid = out@;
            out.push(OpCode::UnaryOperation(*kind));
            proof {
                lemma_push_one(mid, out@, OpV::UnaryOperation(*kind));
                assert(ops_view(out@) =~= ops_view(pre) + translate_spec(ast_view(*ast)));
            }
        },
        AstNode::BinaryOperation { kind, left, right } => {
            translate_into(left, out);
            translate_into(right, out);
            let ghost mid = out@;
            out.push(OpCode::BinaryOperation(*kind));
            proof {
                lemma_push_one(mid, out@, OpV::BinaryOperation(*kind));
                assert(ops_view(out@) =~= ops_view(pre) + translate_spec(ast_view(*ast)));
            }
        },
        AstNode::Assignment { identifier, value } => {
            translate_into(value, out);
            let ghost mid = out@;
            out.push(OpCode::Store(identifier.clone()));
            proof {
                lemma_push_one(mid, out@, OpV::Store(identifier@));
                assert(ops_view(out@) =~= ops_view(pre) + translate_spec(ast_view(*ast)));
            }
        },
        AstNode::Return { value } => match value {
            Some(v) => {
                translate_into(v, out);
                let ghost mid = out@;
                out.push(OpCode::Return(1));
                proof {
                    lemma_push_one(mid, out@, OpV::Return(1nat));
                    assert(ops_view(out@) =~= ops_view(pre) + translate_spec(ast_view(*ast)));
                }
            },
            None => {
                out.push(OpCode::Return(0));
                proof {
                    lemma_push_one(pre, out@, OpV::Return(0nat));
                }
            },
        },
        AstNode::Break => {
            out.push(OpCode::Break);
            proof {
                lemma_push_one(pre, out@, OpV::Break);
            }
        },
        AstNode::Continue => {
            out.push(OpCode::Continue);
            proof {
                lemma_push_one(pre, out@, OpV::Continue);
            }
        },
        AstNode::If { condition, body, else_body } => {
            let cond_ops = translate_sub(condition);
            let body_ops = translate_sub(body);
            let else_ops = match else_body {
                Some(e) => Some(translate_sub(e).inner),
                None => None,
            };
            let ghost cv = cond_ops.inner@;
            let ghost bv = body_ops.inner@;
            let ghost ev: Option<Seq<OpV>> = match &else_ops {
                Some(e) => Some(ops_view(e@)),
                None => None,
            };
            out.push(
                OpCode::If { condition: cond_ops.inner, body: body_ops.inner, else_body: else_ops },
            );
            proof {
                lemma_push_one(
                    pre,
                    out@,
                    OpV::If { condition: ops_view(cv), body: ops_view(bv), else_body: ev },
                );
                assert(ops_view(out@) =~= ops_view(pre) + translate_spec(ast_view(*ast)));
            }
        },
        AstNode::For { initialization, condition, increment, body } => {
            let init_ops = match initialization {
                Some(x) => Some(translate_sub(x).inner),
                None => None,
            };
            let cond_ops = match condition {
                Some(x) => Some(translate_sub(x).inner),
                None => None,
            };
            let incr_ops = match increment {
                Some(x) => Some(translate_sub(x).inner),
                None => None,
            };
            let body_ops = translate_sub(body);
            let ghost iv: Option<Seq<OpV>> = match &init_ops {
                Some(x) => Some(ops_view(x@)),
                None => None,
            };
            let ghost cnd: Option<Seq<OpV>> = match &cond_ops {
                Some(x) => Some(ops_view(x@)),
                None => None,
            };
            let ghost nv: Option<Seq<OpV>> = match &incr_ops {
                Some(x) => Some(ops_view(x@)),
                None => None,
            };
            let ghost bv = body_ops.inner@;
            out.push(
                OpCode::For {
                    initialization: init_ops,
                    condition: cond_ops,
                    increment: incr_ops,
                    body: body_ops.inner,
                },
            );
            proof {
                lemma_push_one(
                    pre,
                    out@,
                    OpV::For {
                        initialization: iv,
                        condition: cnd,
                        increment: nv,
                        body: ops_view(bv),
                    },
                );
                assert(ops_view(out@) =~= ops_view(pre) + translate_spec(ast_view(*ast)));
            }
        },
        AstNode::While { condition, body } => {
            let cond_ops = translate_sub(condition);
            let body_ops = translate_sub(body);
            let ghost cv = cond_ops.inner@;
            let ghost bv = body_ops.inner@;
            out.push(OpCode::While { condition: cond_ops.inner, body: body_ops.inner });
            proof {
                lemma_push_one(
                    pre,
                    out@,
                    OpV::While { condition: ops_view(cv), body: ops_view(bv) },
                );
                assert(ops_view(out@) =~= ops_view(pre) + translate_spec(ast_view(*ast)));
            }
        },
        AstNode::Loop { body } => {
            let body_ops = translate_sub(body);
            let ghost bv = body_ops.inner@;
            out.push(OpCode::Loop { body: body_ops.inner });
            proof {
                lemma_push_one(pre, out@, OpV::Loop { body: ops_view(bv) });
                assert(ops_view(out@) =~= ops_view(pre) + translate_spec(ast_view(*ast)));
            }
        },
        AstNode::Block(nodes) => {
            proof {
                assert(nodes@.skip(0) =~= nodes@);
                assert(decreases_to!(*ast => nodes@));
                lemma_asts_view(nodes@);
                assert(asts_view(nodes@).skip(0) =~= asts_view(nodes@));
            }
            translate_each(nodes, 0, out);
        },
    }
}

/// The translation of one node as a fresh bytecode container.
fn translate_sub(ast: &AstNode) -> (r: Bytecode)
    ensures
        ops_view(r.inner@) == translate_spec(ast_view(*ast)),
    decreases *ast, 1int,
{
    let mut out: Vec<OpCode> = Vec::new();
    proof {
        assert(ops_view(out@) =~= Seq::<OpV>::empty());
    }
    translate_into(ast, &mut out);
    proof {
        assert(Seq::<OpV>::empty() + translate_spec(ast_view(*ast)) =~= translate_spec(ast_view(*ast)));
    }
    Bytecode { inner: out }
}

/// Append the translations of the nodes from position `i` on.
fn translate_each(nodes: &Vec<AstNode>, i: usize, out: &mut Vec<OpCode>)
    requires
        i <= nodes@.len(),
    ensures
        ops_view(final(out)@) == ops_view(old(out)@) + translate_all(
            asts_view(nodes@).skip(i as int),
        ),
    decreases nodes@.skip(i as int), 2int,
{
    proof {
        lemma_asts_view(nodes@);
    }
    if i == nodes.len() {
        proof {
            assert(asts_view(nodes@).skip(i as int) =~= Seq::<AstV>::empty());
            assert(ops_view(out@) =~= ops_view(out@) + translate_all(
                asts_view(nodes@).skip(i as int),
            ));
        }
    } else {
        proof {
            assert(nodes@.skip(i as int)[0] == nodes@[i as int]);
            assert(decreases_to!(nodes@.skip(i as int) => nodes@.skip(i as int)[0]));
            assert(nodes@.skip(i as int).drop_first() =~= nodes@.skip(i + 1));
            assert(decreases_to!(nodes@.skip(i as int) => nodes@.skip(i as int).drop_first()));
        }
        translate_into(&nodes[i], out);
        translate_each(nodes, i + 1, out);
        proof {
            assert(asts_view(nodes@).skip(i as int)[0] == ast_view(nodes@[i as int]));
            assert(asts_view(nodes@).skip(i as int).drop_first() =~= asts_view(nodes@).skip(
                i + 1,
            ));
            assert(ops_view(out@) =~= ops_view(old(out)@) + translate_all(
                asts_view(nodes@).skip(i as int),
            ));
        }
    }
}

/// Append one store opcode per parameter name, from position `i` on.
fn push_param_stores(names: &Vec<String>, i: usize, out: &mut Vec<OpCode>)
    requires
        i <= names@.len(),
    ensures
        ops_view(final(out)@) == ops_view(old(out)@) + param_stores(
            names_view(names@).skip(i as int),
        ),
    decreases names@.len() - i,
{
    proof {
        lemma_names_view(names@);
    }
    if i == names.len() {
        proof {
            assert(names_view(names@).skip(i as int) =~= Seq::<Seq<char>>::empty());
            assert(ops_view(out@) =~= ops_view(out@) + param_stores(
                names_view(names@).skip(i as int),
            ));
        }
    } else {
        let ghost pre = out@;
        out.push(OpCode::Store(names[i].clone()));
        proof {
            lemma_push_one(pre, out@, OpV::Store(names@[i as int]@));
        }
        push_param_stores(names, i + 1, out);
        proof {
            assert(names_view(names@).skip(i as int).drop_first() =~= names_view(names@).skip(
                i + 1,
            ));
            assert(names_view(names@).skip(i as int)[0] == names@[i as int]@);
            assert(ops_view(out@) =~= ops_view(old(out)@) + param_stores(
                names_view(names@).skip(i as int),
            ));
        }
    }
}

/// Pushing one opcode appends its model.
proof fn lemma_push_one(pre: Seq<OpCode>, post: Seq<OpCode>, v: OpV)
    requires
        post == pre.push(post.last()),
        crate::runtime::bytecode::op_view(post.last()) == v,
    ensures
        ops_view(post) == ops_view(pre) + seq![v],
{
    lemma_ops_view(pre);
    lemma_ops_view(post);
    assert(ops_view(post) =~= ops_view(pre) + seq![v]);
}

} // verus!
