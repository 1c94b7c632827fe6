//! The evaluator's specification: a fuel-exact mathematical mirror of the
//! interpreter.
//!
//! [`eval_spec`] and its companions walk the same tree the executable
//! evaluator walks, over a mathematical state (the variable stack as a
//! sequence, the frame base, the remaining step budget) against a heap they
//! never change. Wherever the outcome rests on the host — float arithmetic,
//! file access, the rendering of a float — or on a change to the heap
//! (allocating or mutating a shared cell), they answer `None`: undecided.
//! Everywhere else they give the exact stack, budget and outcome, and the
//! evaluator's contracts promise agreement. In particular the whole
//! integer/boolean fragment, variable access and assignment, short-circuit
//! `and`/`or`, branching, loops, the call protocol and return propagation
//! are pinned.

use crate::arith::{is_float_pair, is_small_num, small_int_of, trunc_div};
use crate::display::{can_display, display};
use crate::eq::{byte_offset, eq_spec, find_eq_spec, find_sub_from, VALUE_DEPTH};
use crate::ir::{pairs_lookup, BinaryOperator, Data, Exec, Expr, Literal, Reference,
    TernaryOperator, UnaryOperator};
use crate::misc::floor_mod;
use crate::value::{bool_spec, err_spec, is_spec, is_truthy_spec, norm_index, Heap, Value};
use vstd::prelude::*;
use vstd::wrapping::i64_specs;

verus! {

/// What evaluating an expression produced: a value, or a fatal termination
/// carrying its diagnostic.
pub enum ExprFlow {
    Value(Value),
    Fatal(Seq<char>),
}

/// What running a statement (or a call) produced: fell through, returned a
/// value, or terminated fatally.
pub enum StmtFlow {
    Done,
    Return(Value),
    Fatal(Seq<char>),
}

/// The budget, bounded: the specification recurses on this so that its own
/// termination is structural; on every reachable path the budget already is
/// below the bound and the cap changes nothing.
pub open spec fn at_most(fuel: nat, bound: nat) -> nat {
    if fuel < bound {
        fuel
    } else {
        bound
    }
}

/// Evaluate an expression: the stack, budget and outcome afterwards, or
/// `None` where a host operation or a heap change decides.
pub open spec fn eval_spec(
    e: Expr,
    data: Data,
    heap: Heap,
    vars: Seq<Value>,
    begin: int,
    fuel: nat,
) -> Option<(Seq<Value>, nat, ExprFlow)>
    decreases fuel, e, 0int,
{
    match e {
        Expr::Literal { literal } => match literal {
            Literal::Nil => Some((vars, fuel, ExprFlow::Value(Value::Nil))),
            Literal::IterEnd => Some((vars, fuel, ExprFlow::Value(Value::IterEnd))),
            Literal::Bool(b) => Some((vars, fuel, ExprFlow::Value(Value::Bool(b)))),
            Literal::Int(i) => Some((vars, fuel, ExprFlow::Value(Value::Int(i)))),
            Literal::Float(bits) => Some((vars, fuel, ExprFlow::Value(Value::Float(bits)))),
            Literal::Str(_) => None,
        },
        Expr::Reference { reference } => match reference {
            Reference::Variable(k) => Some((vars, fuel, ExprFlow::Value(vars[begin + k]))),
            Reference::Function(f) => Some((vars, fuel, ExprFlow::Value(Value::Function(f)))),
        },
        Expr::UnaryOperation { operator, expr } => match eval_spec(
            *expr,
            data,
            heap,
            vars,
            begin,
            fuel,
        ) {
            Option::None => None,
            Option::Some((v1, f1, ExprFlow::Fatal(m))) => Some((v1, f1, ExprFlow::Fatal(m))),
            Option::Some((v1, f1, ExprFlow::Value(v))) => match unary_spec(operator, v, data, heap) {
                Option::None => None,
                Option::Some(flow) => Some((v1, f1, flow)),
            },
        },
        Expr::BinaryOperation { operator, left, right } => match eval_spec(
            *left,
            data,
            heap,
            vars,
            begin,
            fuel,
        ) {
            Option::None => None,
            Option::Some((v1, f1, ExprFlow::Fatal(m))) => Some((v1, f1, ExprFlow::Fatal(m))),
            Option::Some((v1, f1, ExprFlow::Value(a))) => match operator {
                BinaryOperator::And => if is_truthy_spec(a) {
                    eval_spec(*right, data, heap, v1, begin, at_most(f1, fuel))
                } else {
                    Some((v1, f1, ExprFlow::Value(a)))
                },
                BinaryOperator::Or => if is_truthy_spec(a) {
                    Some((v1, f1, ExprFlow::Value(a)))
                } else {
                    eval_spec(*right, data, heap, v1, begin, at_most(f1, fuel))
                },
                _ => match eval_spec(*right, data, heap, v1, begin, at_most(f1, fuel)) {
                    Option::None => None,
                    Option::Some((v2, f2, ExprFlow::Fatal(m))) => Some(
                        (v2, f2, ExprFlow::Fatal(m)),
                    ),
                    Option::Some((v2, f2, ExprFlow::Value(b))) => match binary_spec(
                        operator,
                        a,
                        b,
                        heap,
                    ) {
                        Option::None => None,
                        Option::Some(flow) => Some((v2, f2, flow)),
                    },
                },
            },
        },
        Expr::TernaryOperation { operator, first, second, third } => match eval_spec(
            *first,
            data,
            heap,
            vars,
            begin,
            fuel,
        ) {
            Option::None => None,
            Option::Some((v1, f1, ExprFlow::Fatal(m))) => Some((v1, f1, ExprFlow::Fatal(m))),
            Option::Some((v1, f1, ExprFlow::Value(a))) => match operator {
                TernaryOperator::Branch => if is_truthy_spec(a) {
                    eval_spec(*second, data, heap, v1, begin, at_most(f1, fuel))
                } else {
                    eval_spec(*third, data, heap, v1, begin, at_most(f1, fuel))
                },
                TernaryOperator::SetItem => match eval_spec(
                    *second,
                    data,
                    heap,
                    v1,
                    begin,
                    at_most(f1, fuel),
                ) {
                    Option::None => None,
                    Option::Some((v2, f2, ExprFlow::Fatal(m))) => Some(
                        (v2, f2, ExprFlow::Fatal(m)),
                    ),
                    Option::Some((v2, f2, ExprFlow::Value(key))) => match eval_spec(
                        *third,
                        data,
                        heap,
                        v2,
                        begin,
                        at_most(f2, fuel),
                    ) {
                        Option::None => None,
                        Option::Some((v3, f3, ExprFlow::Fatal(m))) => Some(
                            (v3, f3, ExprFlow::Fatal(m)),
                        ),
                        Option::Some((v3, f3, ExprFlow::Value(item))) => match (a, key) {
                            (Value::List(l), Value::Int(i)) => {
                                let xs = heap.lists@[l as int]@;
                                let idx = norm_index(i as int, xs.len() as int);
                                if 0 <= idx < xs.len() {
                                    // An in-range assignment mutates the
                                    // shared cell: undecided here.
                                    None
                                } else {
                                    Some((v3, f3, ExprFlow::Value(Value::Nil)))
                                }
                            },
                            _ => Some((v3, f3, ExprFlow::Value(Value::Nil))),
                        },
                    },
                },
            },
        },
        Expr::NaryOperation { operator, parameters } => None,
        Expr::Call { callable, parameters } => match eval_spec(
            *callable,
            data,
            heap,
            vars,
            begin,
            fuel,
        ) {
            Option::None => None,
            Option::Some((v1, f1, ExprFlow::Fatal(m))) => Some((v1, f1, ExprFlow::Fatal(m))),
            Option::Some((v1, f1, ExprFlow::Value(c))) => match c {
                Value::Function(f) => as_expr_flow(
                    call_spec(f, parameters@, None, data, heap, v1, begin, at_most(f1, fuel)),
                ),
                Value::Method { function_id, instance } => as_expr_flow(
                    call_spec(
                        function_id,
                        parameters@,
                        Some(Value::Struct(instance)),
                        data,
                        heap,
                        v1,
                        begin,
                        at_most(f1, fuel),
                    ),
                ),
                Value::Struct(st) => {
                    let proto = heap.structs@[st as int].prototype;
                    match pairs_lookup(
                        data.prototypes@[proto as int].method_map@,
                        data.reserved_idents.__call__,
                    ) {
                        Option::Some(fid) => as_expr_flow(
                            call_spec(
                                fid,
                                parameters@,
                                Some(Value::Struct(st)),
                                data,
                                heap,
                                v1,
                                begin,
                                at_most(f1, fuel),
                            ),
                        ),
                        Option::None => None,
                    }
                },
                _ => None,
            },
        },
        Expr::Plugin { id, parameters } => plugin_spec(parameters@, data, heap, vars, begin, fuel),
        Expr::Struct { prototype, values } => None,
        Expr::SetVar { variable, expr } => match eval_spec(*expr, data, heap, vars, begin, fuel) {
            Option::None => None,
            Option::Some((v1, f1, ExprFlow::Fatal(m))) => Some((v1, f1, ExprFlow::Fatal(m))),
            Option::Some((v1, f1, ExprFlow::Value(v))) => match variable {
                Reference::Variable(k) => Some(
                    (v1.update(begin + k, v), f1, ExprFlow::Value(v)),
                ),
                Reference::Function(_) => Some(
                    (v1, f1, ExprFlow::Fatal("cannot assign to a function"@)),
                ),
            },
        },
        Expr::SetField { instance, field_id, value } => match eval_spec(
            *instance,
            data,
            heap,
            vars,
            begin,
            fuel,
        ) {
            Option::None => None,
            Option::Some((v1, f1, ExprFlow::Fatal(m))) => Some((v1, f1, ExprFlow::Fatal(m))),
            Option::Some((v1, f1, ExprFlow::Value(target))) => match eval_spec(
                *value,
                data,
                heap,
                v1,
                begin,
                at_most(f1, fuel),
            ) {
                Option::None => None,
                Option::Some((v2, f2, ExprFlow::Fatal(m))) => Some((v2, f2, ExprFlow::Fatal(m))),
                Option::Some((v2, f2, ExprFlow::Value(v))) => match target {
                    Value::Struct(st) => {
                        let proto = heap.structs@[st as int].prototype;
                        match pairs_lookup(data.prototypes@[proto as int].field_map@, field_id) {
                            Option::Some(_) => None,
                            Option::None => Some(
                                (v2, f2, ExprFlow::Fatal("field does not exist"@)),
                            ),
                        }
                    },
                    _ => Some((v2, f2, ExprFlow::Value(v))),
                },
            },
        },
        Expr::GetField { instance, field_id } => match eval_spec(
            *instance,
            data,
            heap,
            vars,
            begin,
            fuel,
        ) {
            Option::None => None,
            Option::Some((v1, f1, ExprFlow::Fatal(m))) => Some((v1, f1, ExprFlow::Fatal(m))),
            Option::Some((v1, f1, ExprFlow::Value(target))) => match target {
                Value::Struct(st) => {
                    let proto = heap.structs@[st as int].prototype;
                    match pairs_lookup(data.prototypes@[proto as int].field_map@, field_id) {
                        Option::Some(slot) => Some(
                            (
                                v1,
                                f1,
                                ExprFlow::Value(heap.structs@[st as int].values@[slot as int]),
                            ),
                        ),
                        Option::None => match pairs_lookup(
                            data.prototypes@[proto as int].method_map@,
                            field_id,
                        ) {
                            Option::Some(fid) => Some(
                                (
                                    v1,
                                    f1,
                                    ExprFlow::Value(
                                        Value::Method { function_id: fid, instance: st },
                                    ),
                                ),
                            ),
                            Option::None => None,
                        },
                    }
                },
                _ => Some((v1, f1, ExprFlow::Value(Value::Nil))),
            },
        },
        Expr::Die { expr, range } => match eval_spec(*expr, data, heap, vars, begin, fuel) {
            Option::None => None,
            Option::Some((v1, f1, ExprFlow::Fatal(m))) => Some((v1, f1, ExprFlow::Fatal(m))),
            Option::Some((v1, f1, ExprFlow::Value(v))) => {
                let wrapped = err_spec(v);
                if can_display(wrapped, data, heap, VALUE_DEPTH as nat) {
                    Some((v1, f1, ExprFlow::Fatal(display(wrapped, data, heap, VALUE_DEPTH as nat))))
                } else {
                    None
                }
            },
        },
        Expr::OrDie { expr, range } => match eval_spec(*expr, data, heap, vars, begin, fuel) {
            Option::None => None,
            Option::Some((v1, f1, ExprFlow::Fatal(m))) => Some((v1, f1, ExprFlow::Fatal(m))),
            Option::Some((v1, f1, ExprFlow::Value(v))) => if v is Error {
                if can_display(v, data, heap, VALUE_DEPTH as nat) {
                    Some((v1, f1, ExprFlow::Fatal(display(v, data, heap, VALUE_DEPTH as nat))))
                } else {
                    None
                }
            } else {
                Some((v1, f1, ExprFlow::Value(v)))
            },
        },
    }
}

/// What looking up the loop stepper on the iterator gives, exactly as
/// field access does: a field wins over a method of the same name, a miss
/// allocates an error value (undecided here), and a non-struct iterator
/// gives `Nil`.
pub open spec fn stepper_spec(it: Value, data: Data, heap: Heap) -> Option<Value> {
    match it {
        Value::Struct(st) => {
            let proto = heap.structs@[st as int].prototype;
            match pairs_lookup(
                data.prototypes@[proto as int].field_map@,
                data.reserved_idents.next,
            ) {
                Option::Some(slot) => Some(heap.structs@[st as int].values@[slot as int]),
                Option::None => match pairs_lookup(
                    data.prototypes@[proto as int].method_map@,
                    data.reserved_idents.next,
                ) {
                    Option::Some(fid) => Some(Value::Method { function_id: fid, instance: st }),
                    Option::None => None,
                },
            }
        },
        _ => Some(Value::Nil),
    }
}

/// A call's flow seen from the call expression: an absent return value is
/// the caller's `Nil`.
pub open spec fn as_expr_flow(step: Option<(Seq<Value>, nat, StmtFlow)>) -> Option<
    (Seq<Value>, nat, ExprFlow),
> {
    match step {
        Option::None => None,
        Option::Some((v, f, StmtFlow::Done)) => Some((v, f, ExprFlow::Value(Value::Nil))),
        Option::Some((v, f, StmtFlow::Return(r))) => Some((v, f, ExprFlow::Value(r))),
        Option::Some((v, f, StmtFlow::Fatal(m))) => Some((v, f, ExprFlow::Fatal(m))),
    }
}

/// A unary operator applied to a value, where the heap is only read.
pub open spec fn unary_spec(op: UnaryOperator, v: Value, data: Data, heap: Heap) -> Option<
    ExprFlow,
> {
    match op {
        UnaryOperator::Not => Some(ExprFlow::Value(Value::Bool(!is_truthy_spec(v)))),
        UnaryOperator::BitNot => match v {
            Value::Int(a) => Some(ExprFlow::Value(Value::Int(!a))),
            _ => Some(ExprFlow::Value(Value::Nil)),
        },
        UnaryOperator::Minus => if is_small_num(v) {
            Some(ExprFlow::Value(Value::Int(i64_specs::wrapping_sub(0, small_int_of(v)))))
        } else if v is Float {
            None
        } else {
            Some(ExprFlow::Value(Value::Nil))
        },
        UnaryOperator::Type => None,
        UnaryOperator::Error => Some(ExprFlow::Value(err_spec(v))),
        UnaryOperator::Bool => Some(ExprFlow::Value(bool_spec(v))),
        UnaryOperator::Int => match v {
            Value::Bool(b) => Some(ExprFlow::Value(Value::Int(if b { 1i64 } else { 0i64 }))),
            Value::Int(_) => Some(ExprFlow::Value(v)),
            Value::Float(_) => None,
            Value::Str(_) => Some(ExprFlow::Fatal("int() of a string is not implemented"@)),
            _ => Some(ExprFlow::Value(Value::Nil)),
        },
        UnaryOperator::Float => match v {
            Value::Float(_) => Some(ExprFlow::Value(v)),
            Value::Bool(_) => None,
            Value::Int(_) => None,
            Value::Str(_) => Some(ExprFlow::Fatal("float() of a string is not implemented"@)),
            _ => Some(ExprFlow::Value(Value::Nil)),
        },
        UnaryOperator::Str => None,
        UnaryOperator::Len => match v {
            Value::Str(s) => if heap.strings@[s as int]@.len() <= i64::MAX {
                Some(ExprFlow::Value(Value::Int(heap.strings@[s as int]@.len() as i64)))
            } else {
                None
            },
            Value::List(l) => if heap.lists@[l as int]@.len() <= i64::MAX {
                Some(ExprFlow::Value(Value::Int(heap.lists@[l as int]@.len() as i64)))
            } else {
                None
            },
            _ => Some(ExprFlow::Value(Value::Nil)),
        },
        UnaryOperator::Print => if can_display(v, data, heap, VALUE_DEPTH as nat) {
            Some(ExprFlow::Value(Value::Nil))
        } else {
            None
        },
        UnaryOperator::Read => None,
    }
}

/// A (non-short-circuit) binary operator applied to two values, where the
/// heap is only read.
pub open spec fn binary_spec(op: BinaryOperator, a: Value, b: Value, heap: Heap) -> Option<
    ExprFlow,
> {
    match op {
        BinaryOperator::Add => if is_small_num(a) && is_small_num(b) {
            Some(ExprFlow::Value(Value::Int(i64_specs::wrapping_add(
                small_int_of(a),
                small_int_of(b),
            ))))
        } else if is_float_pair(a, b) || (a is Str && b is Str) || (a is List && b is List) {
            None
        } else {
            Some(ExprFlow::Value(Value::Nil))
        },
        BinaryOperator::Sub => if is_small_num(a) && is_small_num(b) {
            Some(ExprFlow::Value(Value::Int(i64_specs::wrapping_sub(
                small_int_of(a),
                small_int_of(b),
            ))))
        } else if is_float_pair(a, b) {
            None
        } else {
            Some(ExprFlow::Value(Value::Nil))
        },
        BinaryOperator::Mul => if is_small_num(a) && is_small_num(b) {
            Some(ExprFlow::Value(Value::Int(i64_specs::wrapping_mul(
                small_int_of(a),
                small_int_of(b),
            ))))
        } else if is_float_pair(a, b) || (a is Str && b is Int) || (a is List && b is Int) {
            None
        } else {
            Some(ExprFlow::Value(Value::Nil))
        },
        BinaryOperator::Div => if is_small_num(a) && is_small_num(b) {
            let x = small_int_of(a);
            let y = small_int_of(b);
            if y == 0 {
                Some(ExprFlow::Fatal("division by zero"@))
            } else if x == i64::MIN && y == -1 {
                Some(ExprFlow::Fatal("integer overflow in division"@))
            } else {
                Some(ExprFlow::Value(Value::Int(trunc_div(x as int, y as int) as i64)))
            }
        } else if is_float_pair(a, b) {
            None
        } else if a is Str && b is Str {
            Some(ExprFlow::Fatal("string division is not implemented"@))
        } else {
            Some(ExprFlow::Value(Value::Nil))
        },
        BinaryOperator::Modulo => if is_small_num(a) && is_small_num(b) {
            let x = small_int_of(a);
            let y = small_int_of(b);
            if y == 0 {
                Some(ExprFlow::Fatal("remainder by zero"@))
            } else {
                Some(ExprFlow::Value(Value::Int(floor_mod(x as int, y as int) as i64)))
            }
        } else if is_float_pair(a, b) {
            None
        } else if a is Str && b is Str {
            Some(ExprFlow::Fatal("string remainder is not implemented"@))
        } else {
            Some(ExprFlow::Value(Value::Nil))
        },
        BinaryOperator::GetItem => match (a, b) {
            (Value::Str(_), Value::Int(_)) => None,
            (Value::List(l), Value::Int(i)) => {
                let xs = heap.lists@[l as int]@;
                let idx = norm_index(i as int, xs.len() as int);
                if 0 <= idx < xs.len() {
                    Some(ExprFlow::Value(xs[idx]))
                } else {
                    Some(ExprFlow::Value(Value::Nil))
                }
            },
            _ => Some(ExprFlow::Value(Value::Nil)),
        },
        BinaryOperator::Eq => match eq_spec(a, b, heap, VALUE_DEPTH as nat) {
            Option::Some(x) => Some(ExprFlow::Value(Value::Bool(x))),
            Option::None => None,
        },
        BinaryOperator::Is => Some(ExprFlow::Value(Value::Bool(is_spec(a, b)))),
        BinaryOperator::Lt => if is_small_num(a) && is_small_num(b) {
            Some(ExprFlow::Value(Value::Bool(small_int_of(a) < small_int_of(b))))
        } else if is_float_pair(a, b) {
            None
        } else {
            Some(ExprFlow::Value(Value::Nil))
        },
        BinaryOperator::Leq => if is_small_num(a) && is_small_num(b) {
            Some(ExprFlow::Value(Value::Bool(small_int_of(a) <= small_int_of(b))))
        } else if is_float_pair(a, b) {
            None
        } else {
            Some(ExprFlow::Value(Value::Nil))
        },
        BinaryOperator::BitAnd => match (a, b) {
            (Value::Int(x), Value::Int(y)) => Some(ExprFlow::Value(Value::Int(x & y))),
            _ => Some(ExprFlow::Value(Value::Nil)),
        },
        BinaryOperator::BitOr => match (a, b) {
            (Value::Int(x), Value::Int(y)) => Some(ExprFlow::Value(Value::Int(x | y))),
            _ => Some(ExprFlow::Value(Value::Nil)),
        },
        BinaryOperator::BitXor => match (a, b) {
            (Value::Int(x), Value::Int(y)) => Some(ExprFlow::Value(Value::Int(x ^ y))),
            _ => Some(ExprFlow::Value(Value::Nil)),
        },
        BinaryOperator::LeftShift => match (a, b) {
            (Value::Int(x), Value::Int(y)) => if 0 <= y < 64 {
                Some(ExprFlow::Value(Value::Int(x << (y as u32))))
            } else {
                Some(ExprFlow::Fatal("shift amount out of range"@))
            },
            _ => Some(ExprFlow::Value(Value::Nil)),
        },
        BinaryOperator::RightShift => match (a, b) {
            (Value::Int(x), Value::Int(y)) => if 0 <= y < 64 {
                Some(ExprFlow::Value(Value::Int(x >> (y as u32))))
            } else {
                Some(ExprFlow::Fatal("shift amount out of range"@))
            },
            _ => Some(ExprFlow::Value(Value::Nil)),
        },
        BinaryOperator::And => None,
        BinaryOperator::Or => None,
        BinaryOperator::Push => if a is List {
            None
        } else {
            Some(ExprFlow::Value(Value::Nil))
        },
        BinaryOperator::Remove => if a is List && b is Int {
            None
        } else {
            Some(ExprFlow::Value(Value::Nil))
        },
        BinaryOperator::Index => match a {
            Value::Str(h) => match b {
                Value::Str(n) => match find_sub_from(
                    heap.strings@[h as int]@,
                    heap.strings@[n as int]@,
                    0,
                ) {
                    Option::Some(i) => {
                        let off = byte_offset(heap.strings@[h as int]@, i);
                        if off <= usize::MAX && off <= i64::MAX {
                            Some(ExprFlow::Value(Value::Int(off as i64)))
                        } else {
                            None
                        }
                    },
                    Option::None => Some(ExprFlow::Value(Value::Nil)),
                },
                _ => Some(ExprFlow::Value(Value::Nil)),
            },
            Value::List(l) => match find_eq_spec(
                heap.lists@[l as int]@,
                b,
                heap,
                VALUE_DEPTH as nat,
            ) {
                Option::None => None,
                Option::Some(Option::None) => Some(ExprFlow::Value(Value::Nil)),
                Option::Some(Option::Some(i)) => if i <= i64::MAX {
                    Some(ExprFlow::Value(Value::Int(i as i64)))
                } else {
                    None
                },
            },
            _ => Some(ExprFlow::Value(Value::Nil)),
        },
        BinaryOperator::Join => if a is List && b is Str {
            None
        } else {
            Some(ExprFlow::Value(Value::Nil))
        },
        BinaryOperator::Write => None,
    }
}

/// The `split` plugin seen from its argument expressions: the arity fatal,
/// and `Nil` whenever an argument is not a string; a successful split
/// allocates the pieces and is undecided here (the split of given strings
/// is pinned exactly by the verified splitter itself).
pub open spec fn plugin_spec(
    params: Seq<Expr>,
    data: Data,
    heap: Heap,
    vars: Seq<Value>,
    begin: int,
    fuel: nat,
) -> Option<(Seq<Value>, nat, ExprFlow)>
    decreases fuel, params, 1int,
{
    if params.len() != 2 {
        Some((vars, fuel, ExprFlow::Fatal("wrong number of arguments to split()"@)))
    } else {
        match eval_spec(params[0], data, heap, vars, begin, fuel) {
            Option::None => None,
            Option::Some((v1, f1, ExprFlow::Fatal(m))) => Some((v1, f1, ExprFlow::Fatal(m))),
            Option::Some((v1, f1, ExprFlow::Value(a))) => match eval_spec(
                params[1],
                data,
                heap,
                v1,
                begin,
                at_most(f1, fuel),
            ) {
                Option::None => None,
                Option::Some((v2, f2, ExprFlow::Fatal(m))) => Some((v2, f2, ExprFlow::Fatal(m))),
                Option::Some((v2, f2, ExprFlow::Value(b))) => if a is Str && b is Str {
                    None
                } else {
                    Some((v2, f2, ExprFlow::Value(Value::Nil)))
                },
            },
        }
    }
}

/// Run one statement.
pub open spec fn exec_spec(
    s: Exec,
    data: Data,
    heap: Heap,
    vars: Seq<Value>,
    begin: int,
    fuel: nat,
) -> Option<(Seq<Value>, nat, StmtFlow)>
    decreases fuel, s, 0int,
{
    if fuel == 0 {
        Some((vars, fuel, StmtFlow::Fatal("execution budget exhausted"@)))
    } else {
        let f1 = (fuel - 1) as nat;
        match s {
            Exec::While { condition, block } => while_spec(
                condition,
                block@,
                data,
                heap,
                vars,
                begin,
                f1,
            ),
            Exec::DoWhile { block, condition } => dowhile_spec(
                block@,
                condition,
                data,
                heap,
                vars,
                begin,
                f1,
            ),
            Exec::ForLoop { variable, iterator, block } => match eval_spec(
                iterator,
                data,
                heap,
                vars,
                begin,
                f1,
            ) {
                Option::None => None,
                Option::Some((v1, f2, ExprFlow::Fatal(m))) => Some((v1, f2, StmtFlow::Fatal(m))),
                Option::Some((v1, f2, ExprFlow::Value(it))) => match stepper_spec(
                    it,
                    data,
                    heap,
                ) {
                    Option::None => None,
                    Option::Some(stepper) => match stepper {
                        Value::Method { function_id, instance } => match variable {
                            Reference::Variable(k) => forloop_spec(
                                k,
                                function_id,
                                it,
                                block@,
                                data,
                                heap,
                                v1,
                                begin,
                                at_most(f2, f1),
                            ),
                            Reference::Function(_) => Some(
                                (v1, f2, StmtFlow::Fatal("cannot assign to a function"@)),
                            ),
                        },
                        _ => Some((v1, f2, StmtFlow::Done)),
                    },
                },
            },
            Exec::Branch { condition, then, otherwise } => match eval_spec(
                condition,
                data,
                heap,
                vars,
                begin,
                f1,
            ) {
                Option::None => None,
                Option::Some((v1, f2, ExprFlow::Fatal(m))) => Some((v1, f2, StmtFlow::Fatal(m))),
                Option::Some((v1, f2, ExprFlow::Value(c))) => if is_truthy_spec(c) {
                    exec_all_spec(then@, data, heap, v1, begin, at_most(f2, f1))
                } else {
                    exec_all_spec(otherwise@, data, heap, v1, begin, at_most(f2, f1))
                },
            },
            Exec::Return { expr } => match eval_spec(expr, data, heap, vars, begin, f1) {
                Option::None => None,
                Option::Some((v1, f2, ExprFlow::Fatal(m))) => Some((v1, f2, StmtFlow::Fatal(m))),
                Option::Some((v1, f2, ExprFlow::Value(v))) => Some((v1, f2, StmtFlow::Return(v))),
            },
            Exec::Expr { expr } => match eval_spec(expr, data, heap, vars, begin, f1) {
                Option::None => None,
                Option::Some((v1, f2, ExprFlow::Fatal(m))) => Some((v1, f2, StmtFlow::Fatal(m))),
                Option::Some((v1, f2, ExprFlow::Value(_))) => Some((v1, f2, StmtFlow::Done)),
            },
        }
    }
}

/// One `while` iteration after another: test, run, repeat while truthy.
pub open spec fn while_spec(
    condition: Expr,
    block: Seq<Exec>,
    data: Data,
    heap: Heap,
    vars: Seq<Value>,
    begin: int,
    fuel: nat,
) -> Option<(Seq<Value>, nat, StmtFlow)>
    decreases fuel, condition, 1int,
{
    if fuel == 0 {
        Some((vars, fuel, StmtFlow::Fatal("execution budget exhausted"@)))
    } else {
        let f1 = (fuel - 1) as nat;
        match eval_spec(condition, data, heap, vars, begin, f1) {
            Option::None => None,
            Option::Some((v1, f2, ExprFlow::Fatal(m))) => Some((v1, f2, StmtFlow::Fatal(m))),
            Option::Some((v1, f2, ExprFlow::Value(c))) => if !is_truthy_spec(c) {
                Some((v1, f2, StmtFlow::Done))
            } else {
                match exec_all_spec(block, data, heap, v1, begin, at_most(f2, f1)) {
                    Option::None => None,
                    Option::Some((v2, f3, StmtFlow::Done)) => while_spec(
                        condition,
                        block,
                        data,
                        heap,
                        v2,
                        begin,
                        at_most(f3, f1),
                    ),
                    Option::Some((v2, f3, flow)) => Some((v2, f3, flow)),
                }
            },
        }
    }
}

/// One `do`-`while` pass after another: run, test, repeat while truthy.
pub open spec fn dowhile_spec(
    block: Seq<Exec>,
    condition: Expr,
    data: Data,
    heap: Heap,
    vars: Seq<Value>,
    begin: int,
    fuel: nat,
) -> Option<(Seq<Value>, nat, StmtFlow)>
    decreases fuel, condition, 1int,
{
    if fuel == 0 {
        Some((vars, fuel, StmtFlow::Fatal("execution budget exhausted"@)))
    } else {
        let f1 = (fuel - 1) as nat;
        match exec_all_spec(block, data, heap, vars, begin, f1) {
            Option::None => None,
            Option::Some((v1, f2, StmtFlow::Done)) => match eval_spec(
                condition,
                data,
                heap,
                v1,
                begin,
                at_most(f2, f1),
            ) {
                Option::None => None,
                Option::Some((v2, f3, ExprFlow::Fatal(m))) => Some((v2, f3, StmtFlow::Fatal(m))),
                Option::Some((v2, f3, ExprFlow::Value(c))) => if is_truthy_spec(c) {
                    dowhile_spec(block, condition, data, heap, v2, begin, at_most(f3, f1))
                } else {
                    Some((v2, f3, StmtFlow::Done))
                },
            },
            Option::Some((v1, f2, flow)) => Some((v1, f2, flow)),
        }
    }
}

/// One `for`-loop round after another: call the stepper, stop on the
/// sentinel, bind the step and run the body.
pub open spec fn forloop_spec(
    k: usize,
    function_id: usize,
    it: Value,
    block: Seq<Exec>,
    data: Data,
    heap: Heap,
    vars: Seq<Value>,
    begin: int,
    fuel: nat,
) -> Option<(Seq<Value>, nat, StmtFlow)>
    decreases fuel, block, 1int,
{
    if fuel == 0 {
        Some((vars, fuel, StmtFlow::Fatal("execution budget exhausted"@)))
    } else {
        let f1 = (fuel - 1) as nat;
        match call_spec(function_id, Seq::<Expr>::empty(), Some(it), data, heap, vars, begin, f1) {
            Option::None => None,
            Option::Some((v1, f2, StmtFlow::Fatal(m))) => Some((v1, f2, StmtFlow::Fatal(m))),
            Option::Some((v1, f2, step_flow)) => {
                let step = match step_flow {
                    StmtFlow::Return(v) => v,
                    _ => Value::Nil,
                };
                if step is IterEnd {
                    Some((v1, f2, StmtFlow::Done))
                } else {
                    match exec_all_spec(
                        block,
                        data,
                        heap,
                        v1.update(begin + k, step),
                        begin,
                        at_most(f2, f1),
                    ) {
                        Option::None => None,
                        Option::Some((v2, f3, StmtFlow::Done)) => forloop_spec(
                            k,
                            function_id,
                            it,
                            block,
                            data,
                            heap,
                            v2,
                            begin,
                            at_most(f3, f1),
                        ),
                        Option::Some((v2, f3, flow)) => Some((v2, f3, flow)),
                    }
                }
            },
        }
    }
}

/// Run the statements of a block in order; the first `Return` stops it.
pub open spec fn exec_all_spec(
    b: Seq<Exec>,
    data: Data,
    heap: Heap,
    vars: Seq<Value>,
    begin: int,
    fuel: nat,
) -> Option<(Seq<Value>, nat, StmtFlow)>
    decreases fuel, b, 0int,
{
    if b.len() == 0 {
        Some((vars, fuel, StmtFlow::Done))
    } else {
        match exec_spec(b[0], data, heap, vars, begin, fuel) {
            Option::None => None,
            Option::Some((v1, f1, StmtFlow::Done)) => exec_all_spec(
                b.skip(1),
                data,
                heap,
                v1,
                begin,
                at_most(f1, fuel),
            ),
            Option::Some((v1, f1, flow)) => Some((v1, f1, flow)),
        }
    }
}

/// Evaluate argument expressions left to right, pushing each result onto
/// the stack; a fatal argument aborts the sequence.
pub open spec fn args_spec(
    es: Seq<Expr>,
    data: Data,
    heap: Heap,
    vars: Seq<Value>,
    begin: int,
    fuel: nat,
) -> Option<(Seq<Value>, nat, Option<Seq<char>>)>
    decreases fuel, es, 0int,
{
    if es.len() == 0 {
        Some((vars, fuel, None))
    } else {
        match eval_spec(es[0], data, heap, vars, begin, fuel) {
            Option::None => None,
            Option::Some((v1, f1, ExprFlow::Fatal(m))) => Some((v1, f1, Some(m))),
            Option::Some((v1, f1, ExprFlow::Value(v))) => args_spec(
                es.skip(1),
                data,
                heap,
                v1.push(v),
                begin,
                at_most(f1, fuel),
            ),
        }
    }
}

/// The call protocol: arity check, receiver and arguments pushed, locals
/// reserved, the body run in the new frame, the frame dropped. The stack
/// afterwards is exactly the stack before.
pub open spec fn call_spec(
    function_id: usize,
    params: Seq<Expr>,
    instance: Option<Value>,
    data: Data,
    heap: Heap,
    vars: Seq<Value>,
    begin: int,
    fuel: nat,
) -> Option<(Seq<Value>, nat, StmtFlow)>
    decreases fuel, params, 1int,
{
    if fuel == 0 {
        Some((vars, fuel, StmtFlow::Fatal("execution budget exhausted"@)))
    } else {
        let f1 = (fuel - 1) as nat;
        let expected = data.functions@[function_id as int].parameters@.len();
        let arity_ok = match instance {
            Option::Some(_) => expected >= 1 && params.len() == expected - 1,
            Option::None => params.len() == expected,
        };
        if !arity_ok {
            Some((vars, f1, StmtFlow::Fatal("argument count mismatch in call"@)))
        } else {
            let new_begin = vars.len() as int;
            let vars0 = match instance {
                Option::Some(inst) => vars.push(inst),
                Option::None => vars,
            };
            match args_spec(params, data, heap, vars0, begin, f1) {
                Option::None => None,
                Option::Some((av, f2, Option::Some(m))) => Some(
                    (av.take(new_begin), f2, StmtFlow::Fatal(m)),
                ),
                Option::Some((vars1, f2, Option::None)) => {
                    let nvars = data.functions@[function_id as int].variables@.len();
                    let extra = if expected <= nvars {
                        (nvars - expected) as nat
                    } else {
                        0
                    };
                    let vars2 = vars1 + Seq::new(extra, |i: int| Value::Nil);
                    match exec_all_spec(
                        data.functions@[function_id as int].body@,
                        data,
                        heap,
                        vars2,
                        new_begin,
                        at_most(f2, f1),
                    ) {
                        Option::None => None,
                        Option::Some((vars3, f3, flow)) => Some(
                            (vars3.take(new_begin), f3, flow),
                        ),
                    }
                },
            }
        }
    }
}

} // verus!
