//! The mutable execution state and the recursive evaluator.
//!
//! All frames live on one growable variable stack: a call remembers the
//! stack length, pushes the receiver, the evaluated arguments and `Nil` for
//! the remaining locals, moves the frame base there, runs the body, and
//! truncates back. Every path through the evaluator leaves the stack length
//! and the frame base exactly as it found them, so a program that returns
//! normally ends with the stack as empty as it began.
//!
//! The evaluator carries a step budget ([`State::fuel`]): each statement,
//! each call and each loop iteration consumes one step, and a program that
//! outlives the budget ends in a fatal error. A fresh state's budget is far
//! beyond anything a terminating program reaches.
//!
//! Besides the frame discipline, every function here promises agreement
//! with the specification-level evaluator of [`crate::semantics`]: wherever
//! that specification decides an evaluation, the computed stack, budget and
//! outcome are exactly the specified ones ([`agrees_expr`],
//! [`agrees_stmt`]).

use crate::eq::VALUE_DEPTH;
use crate::host::Host;
use crate::ir::{
    block_wf, data_wf, expr_wf, exprs_wf, lemma_block_wf_index, lemma_expr_wf_widen,
    lemma_exprs_wf_index, lemma_pairs_lookup_in_range, BinaryOperator, Block, Data,
    Exec, Expr, Literal, NaryOperator, Reference, TernaryOperator, UnaryOperator,
};
use crate::plugins::plugin_call;
use crate::semantics::{
    args_spec, call_spec, dowhile_spec, eval_spec, exec_all_spec, exec_spec, forloop_spec,
    while_spec, ExprFlow, StmtFlow,
};
use crate::value::{
    heap_extends, heap_wf, lemma_heap_wf_add_struct, lemma_heap_wf_grow, value_valid, Fatal, Heap,
    Struct, Value,
};
use vstd::prelude::*;

verus! {

broadcast use crate::value::lemma_value_valid_extends, crate::value::lemma_heap_extends_trans;

/// The mutable state of a running program: the variable stack, the current
/// frame's base, the heap of shared cells, and the remaining step budget.
pub struct State {
    pub variables: Vec<Value>,
    pub variables_begin: usize,
    pub heap: Heap,
    pub fuel: u64,
}

/// How many slots the current frame spans.
pub open spec fn frame_size(s: State) -> int {
    s.variables@.len() - s.variables_begin
}

/// The state is consistent: the frame base is within the stack, the heap is
/// well-formed, and every stack slot holds a valid value.
pub open spec fn state_wf(s: State, data: Data) -> bool {
    &&& heap_wf(s.heap, data)
    &&& s.variables_begin <= s.variables@.len()
    &&& forall|i: int|
        0 <= i < s.variables@.len() ==> value_valid(#[trigger] s.variables@[i], s.heap, data)
}

impl State {
    /// A fresh state: empty stack, empty heap, full step budget.
    pub fn new() -> (s: Self)
        ensures
            s.variables@.len() == 0,
            s.variables_begin == 0,
            s.heap.strings@.len() == 0,
            s.heap.lists@.len() == 0,
            s.heap.structs@.len() == 0,
            s.fuel == u64::MAX,
    {
        State { variables: Vec::new(), variables_begin: 0, heap: Heap::new(), fuel: u64::MAX }
    }

    /// Render the fatal diagnostic for `die`: the display form of the value
    /// carried out of the program. The embedding program prints it and
    /// exits with a failure status.
    pub fn die<H: Host>(&self, data: &Data, host: &mut H, value: Value) -> (f: Fatal)
        requires
            data_wf(*data),
            state_wf(*self, *data),
            value_valid(value, self.heap, *data),
        ensures
            crate::display::can_display(value, *data, self.heap, VALUE_DEPTH as nat)
                ==> f.message@ == crate::display::display(
                value,
                *data,
                self.heap,
                VALUE_DEPTH as nat,
            ),
    {
        let mut rendered = String::new();
        match value.fmt(data, &self.heap, host, &mut rendered, VALUE_DEPTH) {
            Result::Ok(_) => Fatal { message: rendered },
            Result::Err(f) => f,
        }
    }
}

/// The stack slots are still valid after one is overwritten with a valid
/// value.
proof fn lemma_vars_update_valid(vars: Seq<Value>, idx: int, v: Value, heap: Heap, data: Data)
    requires
        forall|i: int| 0 <= i < vars.len() ==> value_valid(#[trigger] vars[i], heap, data),
        value_valid(v, heap, data),
        0 <= idx < vars.len(),
    ensures
        forall|i: int|
            0 <= i < vars.update(idx, v).len() ==> value_valid(
                #[trigger] vars.update(idx, v)[i],
                heap,
                data,
            ),
{
    assert forall|i: int| 0 <= i < vars.update(idx, v).len() implies value_valid(
        #[trigger] vars.update(idx, v)[i],
        heap,
        data,
    ) by {
        if i != idx {
            assert(vars.update(idx, v)[i] == vars[i]);
        }
    }
}

/// The state is still consistent after an operation that only grew or
/// mutated the heap, keeping it well-formed.
pub(crate) proof fn lemma_state_wf_heap_change(pre: State, post: State, data: Data)
    requires
        state_wf(pre, data),
        post.variables == pre.variables,
        post.variables_begin == pre.variables_begin,
        heap_wf(post.heap, data),
        heap_extends(post.heap, pre.heap),
    ensures
        state_wf(post, data),
{
    assert forall|i: int| 0 <= i < post.variables@.len() implies value_valid(
        #[trigger] post.variables@[i],
        post.heap,
        data,
    ) by {
        assert(value_valid(pre.variables@[i], pre.heap, data));
    }
}

/// The executable evaluator agrees with one specification step: where the
/// specification decides an expression, the stack, the budget, the heap
/// (untouched) and the outcome are exactly as it says.
pub open spec fn agrees_expr(
    step: Option<(Seq<Value>, nat, ExprFlow)>,
    pre: State,
    post: State,
    r: Result<Value, Fatal>,
) -> bool {
    match step {
        Option::None => true,
        Option::Some(t) => {
            &&& post.variables@ == t.0
            &&& post.fuel as nat == t.1
            &&& post.heap == pre.heap
            &&& post.variables_begin == pre.variables_begin
            &&& match t.2 {
                ExprFlow::Value(v) => r == Ok::<Value, Fatal>(v),
                ExprFlow::Fatal(m) => r matches Err(f) && f.message@ == m,
            }
        },
    }
}

/// As [`agrees_expr`], for statements and calls: falling through is
/// `Ok(None)`, a return is `Ok(Some(v))`.
pub open spec fn agrees_stmt(
    step: Option<(Seq<Value>, nat, StmtFlow)>,
    pre: State,
    post: State,
    r: Result<Option<Value>, Fatal>,
) -> bool {
    match step {
        Option::None => true,
        Option::Some(t) => {
            &&& post.variables@ == t.0
            &&& post.fuel as nat == t.1
            &&& post.heap == pre.heap
            &&& post.variables_begin == pre.variables_begin
            &&& match t.2 {
                StmtFlow::Done => r == Ok::<Option<Value>, Fatal>(None),
                StmtFlow::Return(v) => r == Ok::<Option<Value>, Fatal>(Some(v)),
                StmtFlow::Fatal(m) => r matches Err(f) && f.message@ == m,
            }
        },
    }
}

/// `Some` return values pass upward; an absent value is the caller's `Nil`.
fn or_nil(v: Option<Value>) -> (r: Value)
    ensures
        r == match v {
            Option::Some(inner) => inner,
            Option::None => Value::Nil,
        },
{
    match v {
        Option::Some(inner) => inner,
        Option::None => Value::Nil,
    }
}

/// Write a value into the current frame's slot `k`.
fn set_variable(state: &mut State, k: usize, value: Value, data: &Data)
    requires
        data_wf(*data),
        state_wf(*old(state), *data),
        k < frame_size(*old(state)),
        value_valid(value, old(state).heap, *data),
    ensures
        state_wf(*final(state), *data),
        final(state).variables@.len() == old(state).variables@.len(),
        final(state).variables_begin == old(state).variables_begin,
        final(state).heap == old(state).heap,
        final(state).fuel == old(state).fuel,
        final(state).variables@ == old(state).variables@.update(
            old(state).variables_begin + k,
            value,
        ),
{
    // Reading the length also bounds `begin + k` within the machine's
    // word range.
    let n = state.variables.len();
    let idx = state.variables_begin + k;
    proof {
        lemma_vars_update_valid(state.variables@, idx as int, value, state.heap, *data);
    }
    state.variables.set(idx, value);
}

/// Evaluate an expression. The stack length and the frame base are left as
/// they were; the heap only grows (and its cells mutate); the result is a
/// valid value.
#[verifier::loop_isolation(false)]
#[verifier::rlimit(100)]
pub(crate) fn eval<H: Host>(e: &Expr, data: &Data, state: &mut State, host: &mut H) -> (r: Result<
    Value,
    Fatal,
>)
    requires
        data_wf(*data),
        state_wf(*old(state), *data),
        expr_wf(*e, *data, frame_size(*old(state))),
    ensures
        state_wf(*final(state), *data),
        final(state).variables@.len() == old(state).variables@.len(),
        final(state).variables_begin == old(state).variables_begin,
        heap_extends(final(state).heap, old(state).heap),
        final(state).fuel <= old(state).fuel,
        r matches Ok(v) ==> value_valid(v, final(state).heap, *data),
        *e matches Expr::Literal { literal } ==> match literal {
            Literal::Nil => r == Ok::<Value, Fatal>(Value::Nil),
            Literal::IterEnd => r == Ok::<Value, Fatal>(Value::IterEnd),
            Literal::Bool(b) => r == Ok::<Value, Fatal>(Value::Bool(b)),
            Literal::Int(i) => r == Ok::<Value, Fatal>(Value::Int(i)),
            Literal::Float(bits) => r == Ok::<Value, Fatal>(Value::Float(bits)),
            Literal::Str(text) => {
                &&& r matches Ok(v)
                &&& v == Value::Str(old(state).heap.strings@.len() as usize)
                &&& final(state).heap.strings@[old(state).heap.strings@.len() as int]@ == text@
            },
        },
        *e matches Expr::Reference { reference } ==> match reference {
            Reference::Variable(k) => r == Ok::<Value, Fatal>(
                old(state).variables@[old(state).variables_begin + k],
            ) && *final(state) == *old(state),
            Reference::Function(f) => r == Ok::<Value, Fatal>(Value::Function(f)) && *final(state)
                == *old(state),
        },
        agrees_expr(
            eval_spec(
                *e,
                *data,
                old(state).heap,
                old(state).variables@,
                old(state).variables_begin as int,
                old(state).fuel as nat,
            ),
            *old(state),
            *final(state),
            r,
        ),
    decreases state.fuel, e, 0int,
{
    match e {
        Expr::Literal { literal } => match literal {
            Literal::Nil => Ok(Value::Nil),
            Literal::IterEnd => Ok(Value::IterEnd),
            Literal::Bool(b) => Ok(Value::Bool(*b)),
            Literal::Int(i) => Ok(Value::Int(*i)),
            Literal::Float(bits) => Ok(Value::Float(*bits)),
            Literal::Str(text) => {
                let ghost pre = *state;
                let id = state.heap.new_string(text.clone());
                proof {
                    lemma_heap_wf_grow(pre.heap, state.heap, *data);
                    lemma_state_wf_heap_change(pre, *state, *data);
                }
                Ok(Value::Str(id))
            },
        },
        Expr::Reference { reference } => match reference {
            Reference::Variable(k) => {
                // Reading the length also bounds `begin + k` within the
                // machine's word range.
                let n = state.variables.len();
                let idx = state.variables_begin + *k;
                Ok(state.variables[idx].clone())
            },
            Reference::Function(f) => Ok(Value::Function(*f)),
        },
        Expr::UnaryOperation { operator, expr } => {
            let v = eval(expr, data, state, host)?;
            let ghost pre = *state;
            match operator {
                UnaryOperator::Not => Ok(v.not()),
                UnaryOperator::BitNot => Ok(v.bitnot()),
                UnaryOperator::Minus => Ok(v.minus(host)),
                UnaryOperator::Type => {
                    let r = v.typename(data, &mut state.heap);
                    proof {
                        lemma_state_wf_heap_change(pre, *state, *data);
                    }
                    Ok(r)
                },
                UnaryOperator::Error => Ok(v.err()),
                UnaryOperator::Bool => Ok(v.bool()),
                UnaryOperator::Int => v.to_int(host),
                UnaryOperator::Float => v.float(host),
                UnaryOperator::Str => {
                    let r = v.str(data, &mut state.heap, host);
                    proof {
                        lemma_state_wf_heap_change(pre, *state, *data);
                    }
                    r
                },
                UnaryOperator::Len => Ok(v.len(&state.heap, data)),
                UnaryOperator::Print => v.print(data, &state.heap, host),
                UnaryOperator::Read => {
                    let r = v.read(&mut state.heap, data, host);
                    proof {
                        lemma_state_wf_heap_change(pre, *state, *data);
                    }
                    Ok(r)
                },
            }
        },
        Expr::BinaryOperation { operator, left, right } => match operator {
            BinaryOperator::And => {
                let cond = eval(left, data, state, host)?;
                if cond.is_truthy() {
                    eval(right, data, state, host)
                } else {
                    Ok(cond)
                }
            },
            BinaryOperator::Or => {
                let cond = eval(left, data, state, host)?;
                if cond.is_truthy() {
                    Ok(cond)
                } else {
                    eval(right, data, state, host)
                }
            },
            _ => {
                let a = eval(left, data, state, host)?;
                let b = eval(right, data, state, host)?;
                let ghost pre = *state;
                let r = match operator {
                    BinaryOperator::Add => Ok(a.add(b, &mut state.heap, host, data)),
                    BinaryOperator::Sub => Ok(a.sub(b, host)),
                    BinaryOperator::Mul => Ok(a.mul(b, &mut state.heap, host, data)),
                    BinaryOperator::Div => a.div(b, host),
                    BinaryOperator::Modulo => a.modulo(b, host),
                    BinaryOperator::GetItem => Ok(a.getitem(b, &mut state.heap, data)),
                    BinaryOperator::Eq => {
                        let equal = a.eq(&b, &state.heap, host, data, VALUE_DEPTH)?;
                        Ok(Value::Bool(equal))
                    },
                    BinaryOperator::Is => Ok(Value::Bool(a.is(&b))),
                    BinaryOperator::Lt => Ok(a.lt(b, host)),
                    BinaryOperator::Leq => Ok(a.leq(b, host)),
                    BinaryOperator::BitAnd => Ok(a.bitand(b)),
                    BinaryOperator::BitOr => Ok(a.bitor(b)),
                    BinaryOperator::BitXor => Ok(a.bitxor(b)),
                    BinaryOperator::LeftShift => a.leftshift(b),
                    BinaryOperator::RightShift => a.rightshift(b),
                    BinaryOperator::Push => Ok(a.push(b, &mut state.heap, data)),
                    BinaryOperator::Remove => Ok(a.remove(b, &mut state.heap, data)),
                    BinaryOperator::Index => a.index(b, &state.heap, host, data, VALUE_DEPTH),
                    BinaryOperator::Join => a.join(data, &mut state.heap, host, b),
                    BinaryOperator::Write => Ok(a.write(b, &mut state.heap, data, host)),
                    // Unreachable: the short-circuit operators are handled
                    // before both operands are evaluated.
                    BinaryOperator::And => Ok(Value::Nil),
                    BinaryOperator::Or => Ok(Value::Nil),
                };
                proof {
                    lemma_state_wf_heap_change(pre, *state, *data);
                }
                r
            },
        },
        Expr::TernaryOperation { operator, first, second, third } => match operator {
            TernaryOperator::Branch => {
                let cond = eval(first, data, state, host)?;
                if cond.is_truthy() {
                    eval(second, data, state, host)
                } else {
                    eval(third, data, state, host)
                }
            },
            TernaryOperator::SetItem => {
                let target = eval(first, data, state, host)?;
                let key = eval(second, data, state, host)?;
                let item = eval(third, data, state, host)?;
                let ghost pre = *state;
                let r = target.setitem(key, item, &mut state.heap, data);
                proof {
                    lemma_state_wf_heap_change(pre, *state, *data);
                }
                Ok(r)
            },
        },
        Expr::NaryOperation { operator, parameters } => match operator {
            NaryOperator::List => {
                let items = eval_each(parameters, data, state, host)?;
                let ghost pre = *state;
                let ghost content = items@;
                let id = state.heap.new_list(items);
                proof {
                    crate::value::lemma_heap_wf_add_list(pre.heap, state.heap, *data, content);
                    lemma_state_wf_heap_change(pre, *state, *data);
                }
                Ok(Value::List(id))
            },
        },
        Expr::Call { callable, parameters } => {
            let target = eval(callable, data, state, host)?;
            match target {
                Value::Function(f) => {
                    let ret = call(data, state, host, f, parameters, None)?;
                    Ok(or_nil(ret))
                },
                Value::Method { function_id, instance } => {
                    let ret = call(
                        data,
                        state,
                        host,
                        function_id,
                        parameters,
                        Some(Value::Struct(instance)),
                    )?;
                    Ok(or_nil(ret))
                },
                Value::Struct(st) => {
                    let proto = state.heap.structs[st].prototype;
                    let found = data.prototypes[proto].find_method(
                        data.reserved_idents.__call__,
                    );
                    match found {
                        Option::Some(fid) => {
                            proof {
                                lemma_pairs_lookup_in_range(
                                    data.prototypes@[proto as int].method_map@,
                                    data.reserved_idents.__call__,
                                    data.functions@.len() as int,
                                );
                            }
                            let ret = call(
                                data,
                                state,
                                host,
                                fid,
                                parameters,
                                Some(Value::Struct(st)),
                            )?;
                            Ok(or_nil(ret))
                        },
                        Option::None => {
                            let ghost pre = *state;
                            let r = Value::new_err(&mut state.heap, "NotCallable");
                            proof {
                                lemma_heap_wf_grow(pre.heap, state.heap, *data);
                                lemma_state_wf_heap_change(pre, *state, *data);
                                assert(crate::value::value_ids_ok(
                                    Value::Str(pre.heap.strings@.len() as usize),
                                    state.heap.strings@.len() as int,
                                    state.heap.lists@.len() as int,
                                    state.heap.structs@.len() as int,
                                    data.functions@.len() as int,
                                ));
                            }
                            Ok(r)
                        },
                    }
                },
                _ => {
                    let ghost pre = *state;
                    let r = Value::new_err(&mut state.heap, "NotCallable");
                    proof {
                        lemma_heap_wf_grow(pre.heap, state.heap, *data);
                        lemma_state_wf_heap_change(pre, *state, *data);
                        assert(crate::value::value_ids_ok(
                            Value::Str(pre.heap.strings@.len() as usize),
                            state.heap.strings@.len() as int,
                            state.heap.lists@.len() as int,
                            state.heap.structs@.len() as int,
                            data.functions@.len() as int,
                        ));
                    }
                    Ok(r)
                },
            }
        },
        Expr::Plugin { id, parameters } => plugin_call(data, state, host, *id, parameters),
        Expr::Struct { prototype, values } => {
            let items = eval_each(values, data, state, host)?;
            let ghost pre = *state;
            let ghost content = items@;
            let id = state.heap.new_struct(Struct { prototype: *prototype, values: items });
            proof {
                lemma_heap_wf_add_struct(
                    pre.heap,
                    state.heap,
                    *data,
                    *prototype as int,
                    content,
                );
                lemma_state_wf_heap_change(pre, *state, *data);
            }
            Ok(Value::Struct(id))
        },
        Expr::SetVar { variable, expr } => {
            let v = eval(expr, data, state, host)?;
            match variable {
                Reference::Variable(k) => {
                    set_variable(state, *k, v.clone(), data);
                    Ok(v)
                },
                Reference::Function(_) => Err(
                    Fatal { message: "cannot assign to a function".to_owned() },
                ),
            }
        },
        Expr::SetField { instance, field_id, value } => {
            let target = eval(instance, data, state, host)?;
            let v = eval(value, data, state, host)?;
            match target {
                Value::Struct(st) => {
                    let proto = state.heap.structs[st].prototype;
                    let found = data.prototypes[proto].find_field(*field_id);
                    match found {
                        Option::Some(slot) => {
                            proof {
                                lemma_pairs_lookup_in_range(
                                    data.prototypes@[proto as int].field_map@,
                                    *field_id,
                                    data.prototypes@[proto as int].field_map@.len() as int,
                                );
                            }
                            let ghost pre = *state;
                            state.heap.struct_set(st, slot, v.clone());
                            proof {
                                crate::value::lemma_heap_wf_struct_set(
                                    pre.heap,
                                    state.heap,
                                    *data,
                                    st as int,
                                    slot as int,
                                    v,
                                );
                                lemma_state_wf_heap_change(pre, *state, *data);
                            }
                            Ok(v)
                        },
                        Option::None => Err(
                            Fatal { message: "field does not exist".to_owned() },
                        ),
                    }
                },
                _ => Ok(v),
            }
        },
        Expr::GetField { instance, field_id } => {
            let target = eval(instance, data, state, host)?;
            let ghost pre = *state;
            let r = target.get_field(data, &mut state.heap, *field_id);
            proof {
                lemma_state_wf_heap_change(pre, *state, *data);
            }
            Ok(r)
        },
        Expr::Die { expr, range } => {
            let v = eval(expr, data, state, host)?;
            let wrapped = v.err();
            Err(state.die(data, host, wrapped))
        },
        Expr::OrDie { expr, range } => {
            let v = eval(expr, data, state, host)?;
            match &v {
                Value::Error(_) => Err(state.die(data, host, v)),
                _ => Ok(v),
            }
        },
    }
}

/// Evaluate a sequence of expressions left to right, collecting the values.
#[verifier::loop_isolation(false)]
fn eval_each<H: Host>(es: &Vec<Expr>, data: &Data, state: &mut State, host: &mut H) -> (r: Result<
    Vec<Value>,
    Fatal,
>)
    requires
        data_wf(*data),
        state_wf(*old(state), *data),
        exprs_wf(es@, *data, frame_size(*old(state))),
    ensures
        state_wf(*final(state), *data),
        final(state).variables@.len() == old(state).variables@.len(),
        final(state).variables_begin == old(state).variables_begin,
        heap_extends(final(state).heap, old(state).heap),
        final(state).fuel <= old(state).fuel,
        r matches Ok(items) ==> items@.len() == es@.len() && forall|i: int|
            0 <= i < items@.len() ==> value_valid(#[trigger] items@[i], final(state).heap, *data),
    decreases state.fuel, es, 0int,
{
    let mut items: Vec<Value> = Vec::new();
    let n = es.len();
    let mut i: usize = 0;
    while i < n
        invariant
            state_wf(*state, *data),
            state.variables@.len() == old(state).variables@.len(),
            state.variables_begin == old(state).variables_begin,
            heap_extends(state.heap, old(state).heap),
            state.fuel <= old(state).fuel,
            0 <= i <= n,
            items@.len() == i,
            forall|j: int|
                0 <= j < items@.len() ==> value_valid(#[trigger] items@[j], state.heap, *data),
        decreases state.fuel, n - i,
    {
        proof {
            lemma_exprs_wf_index(es@, *data, frame_size(*old(state)), i as int);
        }
        let ghost mid = *state;
        let v = eval(&es[i], data, state, host)?;
        proof {
            assert forall|j: int| 0 <= j < items@.len() implies value_valid(
                #[trigger] items@[j],
                state.heap,
                *data,
            ) by {
                assert(value_valid(items@[j], mid.heap, *data));
            }
        }
        items.push(v);
        i = i + 1;
    }
    Ok(items)
}

/// Run every statement of a block in order; the first `Return` stops the
/// block and hands its value upward. An empty block produces no value.
#[verifier::loop_isolation(false)]
#[verifier::rlimit(60)]
fn exec_all<H: Host>(block: &Block, data: &Data, state: &mut State, host: &mut H) -> (r: Result<
    Option<Value>,
    Fatal,
>)
    requires
        data_wf(*data),
        state_wf(*old(state), *data),
        block_wf(block@, *data, frame_size(*old(state))),
    ensures
        state_wf(*final(state), *data),
        final(state).variables@.len() == old(state).variables@.len(),
        final(state).variables_begin == old(state).variables_begin,
        heap_extends(final(state).heap, old(state).heap),
        final(state).fuel <= old(state).fuel,
        r matches Ok(Some(v)) ==> value_valid(v, final(state).heap, *data),
        block@.len() == 0 ==> r == Ok::<Option<Value>, Fatal>(None),
        agrees_stmt(
            exec_all_spec(
                block@,
                *data,
                old(state).heap,
                old(state).variables@,
                old(state).variables_begin as int,
                old(state).fuel as nat,
            ),
            *old(state),
            *final(state),
            r,
        ),
    decreases state.fuel, block, 0int,
{
    let ghost w0 = exec_all_spec(
        block@,
        *data,
        old(state).heap,
        old(state).variables@,
        old(state).variables_begin as int,
        old(state).fuel as nat,
    );
    proof {
        assert(block@.skip(0) =~= block@);
    }
    let n = block.len();
    let mut i: usize = 0;
    while i < n
        invariant
            state_wf(*state, *data),
            state.variables@.len() == old(state).variables@.len(),
            state.variables_begin == old(state).variables_begin,
            heap_extends(state.heap, old(state).heap),
            state.fuel <= old(state).fuel,
            0 <= i <= n,
            w0 is None || (w0 == exec_all_spec(
                block@.skip(i as int),
                *data,
                old(state).heap,
                state.variables@,
                old(state).variables_begin as int,
                state.fuel as nat,
            ) && state.heap == old(state).heap),
        decreases state.fuel, n - i,
    {
        proof {
            lemma_block_wf_index(block@, *data, frame_size(*old(state)), i as int);
            assert(block@.skip(i as int)[0] == block@[i as int]);
            assert(block@.skip(i as int).skip(1) =~= block@.skip(i as int + 1));
        }
        let ret = exec(&block[i], data, state, host)?;
        if let Option::Some(v) = ret {
            return Ok(Some(v));
        }
        i = i + 1;
    }
    proof {
        assert(block@.skip(n as int).len() == 0);
    }
    Ok(None)
}

/// Run one statement, producing an optional return value.
#[verifier::loop_isolation(false)]
#[verifier::rlimit(100)]
fn exec<H: Host>(s: &Exec, data: &Data, state: &mut State, host: &mut H) -> (r: Result<
    Option<Value>,
    Fatal,
>)
    requires
        data_wf(*data),
        state_wf(*old(state), *data),
        crate::ir::exec_wf(*s, *data, frame_size(*old(state))),
    ensures
        state_wf(*final(state), *data),
        final(state).variables@.len() == old(state).variables@.len(),
        final(state).variables_begin == old(state).variables_begin,
        heap_extends(final(state).heap, old(state).heap),
        final(state).fuel <= old(state).fuel,
        r matches Ok(Some(v)) ==> value_valid(v, final(state).heap, *data),
        agrees_stmt(
            exec_spec(
                *s,
                *data,
                old(state).heap,
                old(state).variables@,
                old(state).variables_begin as int,
                old(state).fuel as nat,
            ),
            *old(state),
            *final(state),
            r,
        ),
    decreases state.fuel, s, 0int,
{
    if state.fuel == 0 {
        return Err(Fatal { message: "execution budget exhausted".to_owned() });
    }
    state.fuel = state.fuel - 1;
    match s {
        Exec::While { condition, block } => {
            let ghost w0 = while_spec(
                *condition,
                block@,
                *data,
                old(state).heap,
                old(state).variables@,
                old(state).variables_begin as int,
                (old(state).fuel - 1) as nat,
            );
            loop
                invariant
                    state_wf(*state, *data),
                    state.variables@.len() == old(state).variables@.len(),
                    state.variables_begin == old(state).variables_begin,
                    heap_extends(state.heap, old(state).heap),
                    state.fuel <= old(state).fuel,
                    w0 is None || (w0 == while_spec(
                        *condition,
                        block@,
                        *data,
                        old(state).heap,
                        state.variables@,
                        old(state).variables_begin as int,
                        state.fuel as nat,
                    ) && state.heap == old(state).heap),
                decreases state.fuel,
            {
                if state.fuel == 0 {
                    return Err(Fatal { message: "execution budget exhausted".to_owned() });
                }
                state.fuel = state.fuel - 1;
                let cond = eval(condition, data, state, host)?;
                if !cond.is_truthy() {
                    return Ok(None);
                }
                let ret = exec_all(block, data, state, host)?;
                if let Option::Some(v) = ret {
                    return Ok(Some(v));
                }
            }
        },
        Exec::DoWhile { block, condition } => {
            let ghost w0 = dowhile_spec(
                block@,
                *condition,
                *data,
                old(state).heap,
                old(state).variables@,
                old(state).variables_begin as int,
                (old(state).fuel - 1) as nat,
            );
            loop
                invariant
                    state_wf(*state, *data),
                    state.variables@.len() == old(state).variables@.len(),
                    state.variables_begin == old(state).variables_begin,
                    heap_extends(state.heap, old(state).heap),
                    state.fuel <= old(state).fuel,
                    w0 is None || (w0 == dowhile_spec(
                        block@,
                        *condition,
                        *data,
                        old(state).heap,
                        state.variables@,
                        old(state).variables_begin as int,
                        state.fuel as nat,
                    ) && state.heap == old(state).heap),
                decreases state.fuel,
            {
                if state.fuel == 0 {
                    return Err(Fatal { message: "execution budget exhausted".to_owned() });
                }
                state.fuel = state.fuel - 1;
                let ret = exec_all(block, data, state, host)?;
                if let Option::Some(v) = ret {
                    return Ok(Some(v));
                }
                let cond = eval(condition, data, state, host)?;
                if !cond.is_truthy() {
                    return Ok(None);
                }
            }
        },
        Exec::ForLoop { variable, iterator, block } => {
            let it = eval(iterator, data, state, host)?;
            let ghost pre = *state;
            let stepper = it.get_field(data, &mut state.heap, data.reserved_idents.next);
            proof {
                lemma_state_wf_heap_change(pre, *state, *data);
            }
            match stepper {
                Value::Method { function_id, instance } => {
                    let no_args: Vec<Expr> = Vec::new();
                    let k = match variable {
                        Reference::Variable(k) => *k,
                        Reference::Function(_) => {
                            return Err(
                                Fatal { message: "cannot assign to a function".to_owned() },
                            );
                        },
                    };
                    let ghost fl0 = exec_spec(
                        *s,
                        *data,
                        old(state).heap,
                        old(state).variables@,
                        old(state).variables_begin as int,
                        old(state).fuel as nat,
                    );
                    proof {
                        assert(no_args@ =~= Seq::<Expr>::empty());
                    }
                    loop
                        invariant
                            state_wf(*state, *data),
                            state.variables@.len() == old(state).variables@.len(),
                            state.variables_begin == old(state).variables_begin,
                            heap_extends(state.heap, old(state).heap),
                            state.fuel <= old(state).fuel,
                            value_valid(it, state.heap, *data),
                            function_id < data.functions@.len(),
                            k < frame_size(*state),
                            block_wf(block@, *data, frame_size(*state)),
                            no_args@ == Seq::<Expr>::empty(),
                            fl0 is None || (fl0 == forloop_spec(
                                k,
                                function_id,
                                it,
                                block@,
                                *data,
                                old(state).heap,
                                state.variables@,
                                old(state).variables_begin as int,
                                state.fuel as nat,
                            ) && state.heap == old(state).heap),
                        decreases state.fuel,
                    {
                        if state.fuel == 0 {
                            return Err(
                                Fatal { message: "execution budget exhausted".to_owned() },
                            );
                        }
                        state.fuel = state.fuel - 1;
                        proof {
                            assert(exprs_wf(no_args@, *data, frame_size(*state)));
                        }
                        let ret = call(
                            data,
                            state,
                            host,
                            function_id,
                            &no_args,
                            Some(it.clone()),
                        )?;
                        let step = or_nil(ret);
                        if let Value::IterEnd = step {
                            return Ok(None);
                        }
                        set_variable(state, k, step, data);
                        let ret = exec_all(block, data, state, host)?;
                        if let Option::Some(v) = ret {
                            return Ok(Some(v));
                        }
                    }
                },
                _ => Ok(None),
            }
        },
        Exec::Branch { condition, then, otherwise } => {
            let cond = eval(condition, data, state, host)?;
            if cond.is_truthy() {
                exec_all(then, data, state, host)
            } else {
                exec_all(otherwise, data, state, host)
            }
        },
        Exec::Return { expr } => {
            let v = eval(expr, data, state, host)?;
            Ok(Some(v))
        },
        Exec::Expr { expr } => {
            let v = eval(expr, data, state, host)?;
            Ok(None)
        },
    }
}

/// Invoke a program function: push the receiver, the evaluated arguments
/// and the remaining locals, move the frame base, run the body, and drop
/// the frame. The stack length and frame base come back exactly as they
/// were — this is the discipline that empties the stack by program exit.
#[verifier::loop_isolation(false)]
#[verifier::rlimit(100)]
fn call<H: Host>(
    data: &Data,
    state: &mut State,
    host: &mut H,
    function_id: usize,
    parameters: &Vec<Expr>,
    instance: Option<Value>,
) -> (r: Result<Option<Value>, Fatal>)
    requires
        data_wf(*data),
        state_wf(*old(state), *data),
        function_id < data.functions@.len(),
        exprs_wf(parameters@, *data, frame_size(*old(state))),
        instance matches Some(v) ==> value_valid(v, old(state).heap, *data),
    ensures
        state_wf(*final(state), *data),
        final(state).variables@.len() == old(state).variables@.len(),
        final(state).variables_begin == old(state).variables_begin,
        heap_extends(final(state).heap, old(state).heap),
        final(state).fuel <= old(state).fuel,
        r matches Ok(Some(v)) ==> value_valid(v, final(state).heap, *data),
        old(state).fuel == 0 ==> r is Err,
        r is Ok ==> final(state).fuel < old(state).fuel,
        old(state).fuel > 0 && instance is None && parameters@.len() != data.functions@[
            function_id as int
        ].parameters@.len() ==> r is Err,
        old(state).fuel > 0 && instance is None && parameters@.len() == 0 && data.functions@[
            function_id as int
        ].parameters@.len() == 0 && data.functions@[function_id as int].body@.len() == 0 ==> r
            == Ok::<Option<Value>, Fatal>(None),
        agrees_stmt(
            call_spec(
                function_id,
                parameters@,
                instance,
                *data,
                old(state).heap,
                old(state).variables@,
                old(state).variables_begin as int,
                old(state).fuel as nat,
            ),
            *old(state),
            *final(state),
            r,
        ),
    decreases state.fuel, parameters, 0int,
{
    if state.fuel == 0 {
        return Err(Fatal { message: "execution budget exhausted".to_owned() });
    }
    state.fuel = state.fuel - 1;
    let expected = data.functions[function_id].parameters.len();
    let with_self = instance.is_some();
    let arity_ok = if with_self {
        expected >= 1 && parameters.len() == expected - 1
    } else {
        parameters.len() == expected
    };
    if !arity_ok {
        return Err(Fatal { message: "argument count mismatch in call".to_owned() });
    }
    let new_begin = state.variables.len();
    if let Option::Some(inst) = instance {
        state.variables.push(inst);
    }
    let ghost a0 = args_spec(
        parameters@,
        *data,
        old(state).heap,
        state.variables@,
        old(state).variables_begin as int,
        (old(state).fuel - 1) as nat,
    );
    proof {
        assert(parameters@.skip(0) =~= parameters@);
    }
    let n = parameters.len();
    let mut i: usize = 0;
    while i < n
        invariant
            state_wf(*state, *data),
            state.variables_begin == old(state).variables_begin,
            state.variables@.len() == new_begin + (if with_self {
                1int
            } else {
                0int
            }) + i,
            heap_extends(state.heap, old(state).heap),
            state.fuel < old(state).fuel,
            0 <= i <= n,
            a0 is None || (a0 == args_spec(
                parameters@.skip(i as int),
                *data,
                old(state).heap,
                state.variables@,
                old(state).variables_begin as int,
                state.fuel as nat,
            ) && state.heap == old(state).heap),
        decreases state.fuel, n - i,
    {
        proof {
            lemma_exprs_wf_index(parameters@, *data, frame_size(*old(state)), i as int);
            lemma_expr_wf_widen(
                parameters@[i as int],
                *data,
                frame_size(*old(state)),
                frame_size(*state),
            );
            assert(parameters@.skip(i as int)[0] == parameters@[i as int]);
            assert(parameters@.skip(i as int).skip(1) =~= parameters@.skip(i as int + 1));
        }
        let arg = match eval(&parameters[i], data, state, host) {
            Result::Ok(v) => v,
            Result::Err(f) => {
                state.variables.truncate(new_begin);
                proof {
                    lemma_truncate_keeps_valid(state.variables@, *state, *data);
                }
                return Err(f);
            },
        };
        state.variables.push(arg);
        i = i + 1;
    }
    proof {
        assert(parameters@.skip(n as int).len() == 0);
    }
    let ghost vars_args = state.variables@;
    let ghost fuel_args = state.fuel;
    let nvars = data.functions[function_id].variables.len();
    let nparams = data.functions[function_id].parameters.len();
    let extra = nvars - nparams;
    let mut j: usize = 0;
    while j < extra
        invariant
            state_wf(*state, *data),
            state.variables_begin == old(state).variables_begin,
            state.variables@.len() == new_begin + nparams + j,
            heap_extends(state.heap, old(state).heap),
            state.fuel < old(state).fuel,
            0 <= j <= extra,
            state.fuel == fuel_args,
            a0 matches Some(t) ==> t == (vars_args, fuel_args as nat, Option::<Seq<char>>::None)
                && state.heap == old(state).heap,
            state.variables@ == vars_args + Seq::new(j as nat, |q: int| Value::Nil),
        decreases extra - j,
    {
        state.variables.push(Value::Nil);
        proof {
            assert(state.variables@ =~= vars_args + Seq::new(j as nat + 1, |q: int| Value::Nil));
        }
        j = j + 1;
    }
    let old_begin = state.variables_begin;
    state.variables_begin = new_begin;
    proof {
        assert(frame_size(*state) == nvars);
        assert(block_wf(
            data.functions@[function_id as int].body@,
            *data,
            frame_size(*state),
        ));
    }
    let ret = exec_all(&data.functions[function_id].body, data, state, host);
    state.variables.truncate(new_begin);
    state.variables_begin = old_begin;
    proof {
        lemma_truncate_keeps_valid(state.variables@, *state, *data);
    }
    match ret {
        Result::Ok(v) => Ok(v),
        Result::Err(f) => Err(f),
    }
}

/// A truncated stack still holds valid values (it is a prefix of one that
/// did).
proof fn lemma_truncate_keeps_valid(vars: Seq<Value>, s: State, data: Data)
    requires
        heap_wf(s.heap, data),
        vars == s.variables@,
        forall|i: int| 0 <= i < vars.len() ==> value_valid(#[trigger] vars[i], s.heap, data),
    ensures
        forall|i: int|
            0 <= i < s.variables@.len() ==> value_valid(#[trigger] s.variables@[i], s.heap, data),
{
}

/// The first function of the program with the given name.
pub open spec fn find_function(functions: Seq<crate::ir::Function>, name: Seq<char>) -> Option<
    int,
>
    decreases functions.len(),
{
    if functions.len() == 0 {
        None
    } else if functions[0].name@ == name {
        Some(0)
    } else {
        match find_function(functions.skip(1), name) {
            Option::None => None,
            Option::Some(i) => Some(i + 1),
        }
    }
}

/// Look up a function by name and invoke it with the given argument
/// expressions. `None` when no function has that name; otherwise the
/// function's return value, if it produced one.
///
/// The stack length and the frame base always come back as they were: a
/// program started on a fresh state that returns normally leaves the frame
/// stack empty.
#[verifier::loop_isolation(false)]
pub fn call_by_name<H: Host>(
    data: &Data,
    state: &mut State,
    host: &mut H,
    function_name: &str,
    parameters: &Vec<Expr>,
) -> (r: Result<Option<Value>, Fatal>)
    requires
        data_wf(*data),
        state_wf(*old(state), *data),
        exprs_wf(parameters@, *data, frame_size(*old(state))),
    ensures
        state_wf(*final(state), *data),
        final(state).variables@.len() == old(state).variables@.len(),
        final(state).variables_begin == old(state).variables_begin,
        heap_extends(final(state).heap, old(state).heap),
        final(state).fuel <= old(state).fuel,
        r matches Ok(Some(v)) ==> value_valid(v, final(state).heap, *data),
        find_function(data.functions@, function_name@) is None ==> r == Ok::<
            Option<Value>,
            Fatal,
        >(None) && *final(state) == *old(state),
        find_function(data.functions@, function_name@) is Some ==> {
            let f = data.functions@[find_function(data.functions@, function_name@)->Some_0];
            &&& (old(state).fuel == 0 ==> r is Err)
            &&& (r is Ok ==> final(state).fuel < old(state).fuel)
            &&& (old(state).fuel > 0 && parameters@.len() != f.parameters@.len() ==> r is Err)
            &&& (old(state).fuel > 0 && parameters@.len() == 0 && f.parameters@.len() == 0
                && f.body@.len() == 0 ==> r == Ok::<Option<Value>, Fatal>(None))
            &&& agrees_stmt(
                call_spec(
                    find_function(data.functions@, function_name@)->Some_0 as usize,
                    parameters@,
                    None,
                    *data,
                    old(state).heap,
                    old(state).variables@,
                    old(state).variables_begin as int,
                    old(state).fuel as nat,
                ),
                *old(state),
                *final(state),
                r,
            )
        },
{
    proof {
        assert(data.functions@.skip(0) =~= data.functions@);
    }
    let target = function_name.to_owned();
    let n = data.functions.len();
    let mut i: usize = 0;
    while i < n
        invariant
            *state == *old(state),
            0 <= i <= n,
            target@ == function_name@,
            find_function(data.functions@, function_name@) == match find_function(
                data.functions@.skip(i as int),
                function_name@,
            ) {
                Option::None => Option::<int>::None,
                Option::Some(k) => Option::<int>::Some(k + i),
            },
        decreases n - i,
    {
        proof {
            assert(data.functions@.skip(i as int)[0] == data.functions@[i as int]);
            assert(data.functions@.skip(i as int).skip(1) =~= data.functions@.skip(i as int + 1));
        }
        if data.functions[i].name == target {
            proof {
                assert(find_function(data.functions@.skip(i as int), function_name@) == Some(
                    0int,
                ));
            }
            return call(data, state, host, i, parameters, None);
        }
        i = i + 1;
    }
    proof {
        assert(data.functions@.skip(n as int).len() == 0);
    }
    Ok(None)
}

} // verus!
