//! The arithmetic, comparison and bitwise operators of the value domain.
//!
//! Numeric operands span booleans, integers and floats, with implicit
//! promotion: a boolean counts as 0 or 1, and any float operand makes the
//! result a float (computed by the host). Integer arithmetic wraps on
//! overflow. Unsupported operand combinations return `Nil`; only division
//! and remainder by zero, a division overflow, an out-of-range shift and
//! the unimplemented string division are fatal.

use crate::host::Host;
use crate::ir::Data;
use crate::misc::{floor_mod, modulo};
use crate::value::{
    heap_extends, heap_wf, lemma_heap_wf_add_list, lemma_heap_wf_grow, list_cell_added, value_valid,
    Fatal, Heap, Value,
};
use vstd::prelude::*;
use vstd::string::{StrSliceExecFns, StringExecFns};
use vstd::wrapping::i64_specs;

verus! {

/// A numeric value that is not a float: a boolean or an integer.
pub open spec fn is_small_num(v: Value) -> bool {
    v is Bool || v is Int
}

/// The integer a boolean or integer operand stands for.
pub open spec fn small_int_of(v: Value) -> i64 {
    match v {
        Value::Bool(b) => if b {
            1
        } else {
            0
        },
        Value::Int(i) => i,
        _ => 0,
    }
}

/// A numeric value: a boolean, an integer or a float.
pub open spec fn is_numeric(v: Value) -> bool {
    v is Bool || v is Int || v is Float
}

/// A numeric pair of which at least one side is a float: the operation is
/// carried out by the host on promoted floats.
pub open spec fn is_float_pair(a: Value, b: Value) -> bool {
    is_numeric(a) && is_numeric(b) && (a is Float || b is Float)
}

/// `s` repeated `n` times.
pub open spec fn repeat_seq<T>(s: Seq<T>, n: nat) -> Seq<T>
    decreases n,
{
    if n == 0 {
        Seq::empty()
    } else {
        repeat_seq(s, (n - 1) as nat) + s
    }
}

/// Truncating integer division: the magnitudes are divided and the sign is
/// put back, as machine division does.
pub open spec fn trunc_div(a: int, b: int) -> int {
    let q = (vstd::math::abs(a) / vstd::math::abs(b)) as int;
    if (a < 0) != (b < 0) {
        -q
    } else {
        q
    }
}

impl Value {
    /// Promote a boolean or integer operand to the integer it stands for.
    /// Only called on such operands.
    fn small_int(&self) -> (r: i64)
        requires
            is_small_num(*self),
        ensures
            r == small_int_of(*self),
    {
        match self {
            Value::Bool(b) => if *b {
                1
            } else {
                0
            },
            Value::Int(i) => *i,
            _ => 0,
        }
    }

    /// Promote a numeric operand to float bits through the host.
    fn float_bits<H: Host>(&self, host: &mut H) -> u64
        requires
            is_numeric(*self),
    {
        match self {
            Value::Bool(b) => host.float_of_int(if *b { 1 } else { 0 }),
            Value::Int(i) => host.float_of_int(*i),
            Value::Float(bits) => *bits,
            _ => 0,
        }
    }

    /// The `add` operator: numeric addition with promotion, string
    /// concatenation (into a fresh cell), list concatenation (into a fresh
    /// shared cell), `Nil` otherwise.
    pub fn add<H: Host>(self, right: Value, heap: &mut Heap, host: &mut H, data: &Data) -> (r:
        Value)
        requires
            value_valid(self, *old(heap), *data),
            value_valid(right, *old(heap), *data),
            heap_wf(*old(heap), *data),
        ensures
            heap_extends(*final(heap), *old(heap)),
            heap_wf(*final(heap), *data),
            value_valid(r, *final(heap), *data),
            is_small_num(self) && is_small_num(right) ==> r == Value::Int(
                i64_specs::wrapping_add(small_int_of(self), small_int_of(right)),
            ) && *final(heap) == *old(heap),
            is_float_pair(self, right) ==> r is Float && *final(heap) == *old(heap),
            self matches Value::Str(a) ==> right matches Value::Str(b) ==> {
                &&& r == Value::Str(old(heap).strings@.len() as usize)
                &&& final(heap).strings@.len() == old(heap).strings@.len() + 1
                &&& final(heap).strings@[old(heap).strings@.len() as int]@ == old(
                    heap,
                ).strings@[a as int]@ + old(heap).strings@[b as int]@
                &&& final(heap).lists@ == old(heap).lists@
                &&& final(heap).structs@ == old(heap).structs@
            },
            self matches Value::List(a) ==> right matches Value::List(b) ==> {
                &&& r == Value::List(old(heap).lists@.len() as usize)
                &&& list_cell_added(
                    *final(heap),
                    *old(heap),
                    old(heap).lists@[a as int]@ + old(heap).lists@[b as int]@,
                )
            },
            !(is_numeric(self) && is_numeric(right)) && !(self is Str && right is Str) && !(self
                is List && right is List) ==> r == Value::Nil && *final(heap) == *old(heap),
    {
        match (&self, &right) {
            (Value::Float(_), Value::Bool(_))
            | (Value::Float(_), Value::Int(_))
            | (Value::Float(_), Value::Float(_))
            | (Value::Bool(_), Value::Float(_))
            | (Value::Int(_), Value::Float(_)) => {
                let a = self.float_bits(host);
                let b = right.float_bits(host);
                Value::Float(host.float_add(a, b))
            },
            (Value::Bool(_), Value::Bool(_))
            | (Value::Bool(_), Value::Int(_))
            | (Value::Int(_), Value::Bool(_))
            | (Value::Int(_), Value::Int(_)) => {
                Value::Int(self.small_int().wrapping_add(right.small_int()))
            },
            (Value::Str(a), Value::Str(b)) => {
                let mut out = heap.strings[*a].clone();
                out.append(heap.strings[*b].as_str());
                let id = heap.new_string(out);
                proof {
                    lemma_heap_wf_grow(*old(heap), *heap, *data);
                }
                Value::Str(id)
            },
            (Value::List(a), Value::List(b)) => {
                let mut out: Vec<Value> = Vec::new();
                append_list_items(&mut out, heap, *a, data);
                append_list_items(&mut out, heap, *b, data);
                let ghost content = out@;
                let id = heap.new_list(out);
                proof {
                    lemma_heap_wf_add_list(*old(heap), *heap, *data, content);
                }
                Value::List(id)
            },
            _ => Value::Nil,
        }
    }

    /// The `sub` operator: numeric subtraction with promotion, `Nil` on
    /// anything else.
    pub fn sub<H: Host>(self, right: Value, host: &mut H) -> (r: Value)
        ensures
            is_small_num(self) && is_small_num(right) ==> r == Value::Int(
                i64_specs::wrapping_sub(small_int_of(self), small_int_of(right)),
            ),
            is_float_pair(self, right) ==> r is Float,
            !(is_numeric(self) && is_numeric(right)) ==> r == Value::Nil,
    {
        match (&self, &right) {
            (Value::Float(_), Value::Bool(_))
            | (Value::Float(_), Value::Int(_))
            | (Value::Float(_), Value::Float(_))
            | (Value::Bool(_), Value::Float(_))
            | (Value::Int(_), Value::Float(_)) => {
                let a = self.float_bits(host);
                let b = right.float_bits(host);
                Value::Float(host.float_sub(a, b))
            },
            (Value::Bool(_), Value::Bool(_))
            | (Value::Bool(_), Value::Int(_))
            | (Value::Int(_), Value::Bool(_))
            | (Value::Int(_), Value::Int(_)) => {
                Value::Int(self.small_int().wrapping_sub(right.small_int()))
            },
            _ => Value::Nil,
        }
    }

    /// The unary `minus` operator: numeric negation with promotion (the
    /// most negative integer wraps to itself), `Nil` on anything else.
    pub fn minus<H: Host>(self, host: &mut H) -> (r: Value)
        ensures
            is_small_num(self) ==> r == Value::Int(i64_specs::wrapping_sub(0, small_int_of(self))),
            self is Float ==> r is Float,
            !is_numeric(self) ==> r == Value::Nil,
    {
        match &self {
            Value::Bool(_) | Value::Int(_) => Value::Int(0i64.wrapping_sub(self.small_int())),
            Value::Float(bits) => Value::Float(host.float_neg(*bits)),
            _ => Value::Nil,
        }
    }

    /// The `mul` operator: numeric multiplication with promotion; a string
    /// or list times a non-negative integer repeats it into a fresh cell
    /// (an empty one for a negative factor); `Nil` otherwise.
    pub fn mul<H: Host>(self, right: Value, heap: &mut Heap, host: &mut H, data: &Data) -> (r:
        Value)
        requires
            value_valid(self, *old(heap), *data),
            value_valid(right, *old(heap), *data),
            heap_wf(*old(heap), *data),
        ensures
            heap_extends(*final(heap), *old(heap)),
            heap_wf(*final(heap), *data),
            value_valid(r, *final(heap), *data),
            is_small_num(self) && is_small_num(right) ==> r == Value::Int(
                i64_specs::wrapping_mul(small_int_of(self), small_int_of(right)),
            ) && *final(heap) == *old(heap),
            is_float_pair(self, right) ==> r is Float && *final(heap) == *old(heap),
            self matches Value::Str(s) ==> right matches Value::Int(n) ==> {
                &&& r == Value::Str(old(heap).strings@.len() as usize)
                &&& final(heap).strings@.len() == old(heap).strings@.len() + 1
                &&& final(heap).strings@[old(heap).strings@.len() as int]@ == repeat_seq(
                    old(heap).strings@[s as int]@,
                    if n >= 0 {
                        n as nat
                    } else {
                        0nat
                    },
                )
                &&& final(heap).lists@ == old(heap).lists@
                &&& final(heap).structs@ == old(heap).structs@
            },
            self matches Value::List(l) ==> right matches Value::Int(n) ==> {
                &&& r == Value::List(old(heap).lists@.len() as usize)
                &&& list_cell_added(
                    *final(heap),
                    *old(heap),
                    repeat_seq(
                        old(heap).lists@[l as int]@,
                        if n >= 0 {
                            n as nat
                        } else {
                            0nat
                        },
                    ),
                )
            },
            !(is_numeric(self) && is_numeric(right)) && !(self is Str && right is Int) && !(self
                is List && right is Int) ==> r == Value::Nil && *final(heap) == *old(heap),
    {
        match (&self, &right) {
            (Value::Float(_), Value::Bool(_))
            | (Value::Float(_), Value::Int(_))
            | (Value::Float(_), Value::Float(_))
            | (Value::Bool(_), Value::Float(_))
            | (Value::Int(_), Value::Float(_)) => {
                let a = self.float_bits(host);
                let b = right.float_bits(host);
                Value::Float(host.float_mul(a, b))
            },
            (Value::Bool(_), Value::Bool(_))
            | (Value::Bool(_), Value::Int(_))
            | (Value::Int(_), Value::Bool(_))
            | (Value::Int(_), Value::Int(_)) => {
                Value::Int(self.small_int().wrapping_mul(right.small_int()))
            },
            (Value::Str(s), Value::Int(n)) => {
                let count: u64 = if *n >= 0 {
                    *n as u64
                } else {
                    0
                };
                let mut out = String::new();
                let mut done: u64 = 0;
                while done < count
                    invariant
                        done <= count,
                        *s < heap.strings@.len(),
                        out@ == repeat_seq(heap.strings@[*s as int]@, done as nat),
                    decreases count - done,
                {
                    out.append(heap.strings[*s].as_str());
                    done = done + 1;
                }
                let id = heap.new_string(out);
                proof {
                    lemma_heap_wf_grow(*old(heap), *heap, *data);
                }
                Value::Str(id)
            },
            (Value::List(l), Value::Int(n)) => {
                let count: u64 = if *n >= 0 {
                    *n as u64
                } else {
                    0
                };
                let mut out: Vec<Value> = Vec::new();
                let mut done: u64 = 0;
                while done < count
                    invariant
                        done <= count,
                        *l < heap.lists@.len(),
                        heap_wf(*heap, *data),
                        out@ == repeat_seq(heap.lists@[*l as int]@, done as nat),
                    decreases count - done,
                {
                    append_list_items(&mut out, heap, *l, data);
                    done = done + 1;
                }
                let ghost content = out@;
                proof {
                    assert forall|j: int| 0 <= j < content.len() implies value_valid(
                        #[trigger] content[j],
                        *heap,
                        *data,
                    ) by {
                        lemma_repeat_values_valid(
                            heap.lists@[*l as int]@,
                            if *n >= 0 {
                                *n as nat
                            } else {
                                0nat
                            },
                            *heap,
                            *data,
                            j,
                        );
                    }
                }
                let id = heap.new_list(out);
                proof {
                    lemma_heap_wf_add_list(*old(heap), *heap, *data, content);
                }
                Value::List(id)
            },
            _ => Value::Nil,
        }
    }

    /// The `div` operator: integer division truncates; division by zero and
    /// the one overflowing division are fatal, as is string division (left
    /// unimplemented by design). Non-numeric combinations give `Nil`.
    pub fn div<H: Host>(self, right: Value, host: &mut H) -> (r: Result<Value, Fatal>)
        ensures
            is_small_num(self) && is_small_num(right) ==> {
                let a = small_int_of(self);
                let b = small_int_of(right);
                if b == 0 {
                    r matches Err(f) && f.message@ == "division by zero"@
                } else if a == i64::MIN && b == -1 {
                    r matches Err(f) && f.message@ == "integer overflow in division"@
                } else {
                    r == Ok::<Value, Fatal>(Value::Int(trunc_div(a as int, b as int) as i64))
                }
            },
            is_float_pair(self, right) ==> (r matches Ok(v) && v is Float),
            self is Str && right is Str ==> (r matches Err(f) && f.message@
                == "string division is not implemented"@),
            !(is_numeric(self) && is_numeric(right)) && !(self is Str && right is Str) ==> r
                == Ok::<Value, Fatal>(Value::Nil),
    {
        match (&self, &right) {
            (Value::Float(_), Value::Bool(_))
            | (Value::Float(_), Value::Int(_))
            | (Value::Float(_), Value::Float(_))
            | (Value::Bool(_), Value::Float(_))
            | (Value::Int(_), Value::Float(_)) => {
                let a = self.float_bits(host);
                let b = right.float_bits(host);
                Ok(Value::Float(host.float_div(a, b)))
            },
            (Value::Bool(_), Value::Bool(_))
            | (Value::Bool(_), Value::Int(_))
            | (Value::Int(_), Value::Bool(_))
            | (Value::Int(_), Value::Int(_)) => {
                let a = self.small_int();
                let b = right.small_int();
                if b == 0 {
                    Err(Fatal { message: "division by zero".to_owned() })
                } else if a == i64::MIN && b == -1 {
                    Err(Fatal { message: "integer overflow in division".to_owned() })
                } else {
                    Ok(Value::Int(div_trunc(a, b)))
                }
            },
            (Value::Str(_), Value::Str(_)) => Err(
                Fatal { message: "string division is not implemented".to_owned() },
            ),
            _ => Ok(Value::Nil),
        }
    }

    /// The `modulo` operator: the remainder takes the sign of the divisor
    /// (see [`floor_mod`]); a zero divisor is fatal, as is the unimplemented
    /// string remainder. Non-numeric combinations give `Nil`.
    pub fn modulo<H: Host>(self, right: Value, host: &mut H) -> (r: Result<Value, Fatal>)
        ensures
            is_small_num(self) && is_small_num(right) ==> {
                let a = small_int_of(self);
                let b = small_int_of(right);
                if b == 0 {
                    r matches Err(f) && f.message@ == "remainder by zero"@
                } else {
                    r == Ok::<Value, Fatal>(Value::Int(floor_mod(a as int, b as int) as i64))
                }
            },
            is_float_pair(self, right) ==> (r matches Ok(v) && v is Float),
            self is Str && right is Str ==> (r matches Err(f) && f.message@
                == "string remainder is not implemented"@),
            !(is_numeric(self) && is_numeric(right)) && !(self is Str && right is Str) ==> r
                == Ok::<Value, Fatal>(Value::Nil),
    {
        match (&self, &right) {
            (Value::Float(_), Value::Bool(_))
            | (Value::Float(_), Value::Int(_))
            | (Value::Float(_), Value::Float(_))
            | (Value::Bool(_), Value::Float(_))
            | (Value::Int(_), Value::Float(_)) => {
                let a = self.float_bits(host);
                let b = right.float_bits(host);
                Ok(Value::Float(host.float_modulo(a, b)))
            },
            (Value::Bool(_), Value::Bool(_))
            | (Value::Bool(_), Value::Int(_))
            | (Value::Int(_), Value::Bool(_))
            | (Value::Int(_), Value::Int(_)) => {
                let a = self.small_int();
                let b = right.small_int();
                if b == 0 {
                    Err(Fatal { message: "remainder by zero".to_owned() })
                } else {
                    Ok(Value::Int(modulo(a, b)))
                }
            },
            (Value::Str(_), Value::Str(_)) => Err(
                Fatal { message: "string remainder is not implemented".to_owned() },
            ),
            _ => Ok(Value::Nil),
        }
    }

    /// The `lt` operator, defined over the numeric cross-product only;
    /// other combinations give `Nil`.
    pub fn lt<H: Host>(self, other: Value, host: &mut H) -> (r: Value)
        ensures
            is_small_num(self) && is_small_num(other) ==> r == Value::Bool(
                small_int_of(self) < small_int_of(other),
            ),
            is_float_pair(self, other) ==> r is Bool,
            !(is_numeric(self) && is_numeric(other)) ==> r == Value::Nil,
    {
        match (&self, &other) {
            (Value::Float(_), Value::Bool(_))
            | (Value::Float(_), Value::Int(_))
            | (Value::Float(_), Value::Float(_))
            | (Value::Bool(_), Value::Float(_))
            | (Value::Int(_), Value::Float(_)) => {
                let a = self.float_bits(host);
                let b = other.float_bits(host);
                Value::Bool(host.float_lt(a, b))
            },
            (Value::Bool(_), Value::Bool(_))
            | (Value::Bool(_), Value::Int(_))
            | (Value::Int(_), Value::Bool(_))
            | (Value::Int(_), Value::Int(_)) => Value::Bool(
                self.small_int() < other.small_int(),
            ),
            _ => Value::Nil,
        }
    }

    /// The `leq` operator, defined over the numeric cross-product only;
    /// other combinations give `Nil`.
    pub fn leq<H: Host>(self, other: Value, host: &mut H) -> (r: Value)
        ensures
            is_small_num(self) && is_small_num(other) ==> r == Value::Bool(
                small_int_of(self) <= small_int_of(other),
            ),
            is_float_pair(self, other) ==> r is Bool,
            !(is_numeric(self) && is_numeric(other)) ==> r == Value::Nil,
    {
        match (&self, &other) {
            (Value::Float(_), Value::Bool(_))
            | (Value::Float(_), Value::Int(_))
            | (Value::Float(_), Value::Float(_))
            | (Value::Bool(_), Value::Float(_))
            | (Value::Int(_), Value::Float(_)) => {
                let a = self.float_bits(host);
                let b = other.float_bits(host);
                Value::Bool(host.float_leq(a, b))
            },
            (Value::Bool(_), Value::Bool(_))
            | (Value::Bool(_), Value::Int(_))
            | (Value::Int(_), Value::Bool(_))
            | (Value::Int(_), Value::Int(_)) => Value::Bool(
                self.small_int() <= other.small_int(),
            ),
            _ => Value::Nil,
        }
    }

    /// The `bitnot` operator, defined on integers only.
    pub fn bitnot(self) -> (r: Value)
        ensures
            self matches Value::Int(a) ==> r == Value::Int(!a),
            !(self is Int) ==> r == Value::Nil,
    {
        match self {
            Value::Int(a) => Value::Int(!a),
            _ => Value::Nil,
        }
    }

    /// The `bitand` operator, defined on integer pairs only.
    pub fn bitand(self, other: Value) -> (r: Value)
        ensures
            self matches Value::Int(a) ==> other matches Value::Int(b) ==> r == Value::Int(a & b),
            !(self is Int && other is Int) ==> r == Value::Nil,
    {
        match (self, other) {
            (Value::Int(a), Value::Int(b)) => Value::Int(a & b),
            _ => Value::Nil,
        }
    }

    /// The `bitor` operator, defined on integer pairs only.
    pub fn bitor(self, other: Value) -> (r: Value)
        ensures
            self matches Value::Int(a) ==> other matches Value::Int(b) ==> r == Value::Int(a | b),
            !(self is Int && other is Int) ==> r == Value::Nil,
    {
        match (self, other) {
            (Value::Int(a), Value::Int(b)) => Value::Int(a | b),
            _ => Value::Nil,
        }
    }

    /// The `bitxor` operator, defined on integer pairs only.
    pub fn bitxor(self, other: Value) -> (r: Value)
        ensures
            self matches Value::Int(a) ==> other matches Value::Int(b) ==> r == Value::Int(a ^ b),
            !(self is Int && other is Int) ==> r == Value::Nil,
    {
        match (self, other) {
            (Value::Int(a), Value::Int(b)) => Value::Int(a ^ b),
            _ => Value::Nil,
        }
    }

    /// The `leftshift` operator, defined on integer pairs; a shift amount
    /// outside the 64-bit range is fatal.
    pub fn leftshift(self, other: Value) -> (r: Result<Value, Fatal>)
        ensures
            self matches Value::Int(a) ==> other matches Value::Int(b) ==> if 0 <= b < 64 {
                r == Ok::<Value, Fatal>(Value::Int(a << (b as u32)))
            } else {
                r matches Err(f) && f.message@ == "shift amount out of range"@
            },
            !(self is Int && other is Int) ==> r == Ok::<Value, Fatal>(Value::Nil),
    {
        match (self, other) {
            (Value::Int(a), Value::Int(b)) => {
                if 0 <= b && b < 64 {
                    Ok(Value::Int(a << (b as u32)))
                } else {
                    Err(Fatal { message: "shift amount out of range".to_owned() })
                }
            },
            _ => Ok(Value::Nil),
        }
    }

    /// The `rightshift` operator, defined on integer pairs; a shift amount
    /// outside the 64-bit range is fatal.
    pub fn rightshift(self, other: Value) -> (r: Result<Value, Fatal>)
        ensures
            self matches Value::Int(a) ==> other matches Value::Int(b) ==> if 0 <= b < 64 {
                r == Ok::<Value, Fatal>(Value::Int(a >> (b as u32)))
            } else {
                r matches Err(f) && f.message@ == "shift amount out of range"@
            },
            !(self is Int && other is Int) ==> r == Ok::<Value, Fatal>(Value::Nil),
    {
        match (self, other) {
            (Value::Int(a), Value::Int(b)) => {
                if 0 <= b && b < 64 {
                    Ok(Value::Int(a >> (b as u32)))
                } else {
                    Err(Fatal { message: "shift amount out of range".to_owned() })
                }
            },
            _ => Ok(Value::Nil),
        }
    }
}

/// Append a copy of every element of the list cell `l` onto `out`.
fn append_list_items(out: &mut Vec<Value>, heap: &Heap, l: usize, data: &Data) -> (nothing: ())
    requires
        l < heap.lists@.len(),
    ensures
        final(out)@ == old(out)@ + heap.lists@[l as int]@,
{
    proof {
        assert(old(out)@ + heap.lists@[l as int]@.take(0) =~= old(out)@);
    }
    let n = heap.lists[l].len();
    let mut i: usize = 0;
    while i < n
        invariant
            i <= n,
            l < heap.lists@.len(),
            n == heap.lists@[l as int]@.len(),
            out@ == old(out)@ + heap.lists@[l as int]@.take(i as int),
        decreases n - i,
    {
        out.push(heap.lists[l][i].clone());
        proof {
            assert(old(out)@ + heap.lists@[l as int]@.take(i as int + 1) =~= (old(out)@
                + heap.lists@[l as int]@.take(i as int)).push(heap.lists@[l as int]@[i as int]));
        }
        i = i + 1;
    }
    proof {
        assert(heap.lists@[l as int]@.take(n as int) =~= heap.lists@[l as int]@);
    }
}

/// Compute truncating division from the magnitudes, mirroring
/// [`trunc_div`].
fn div_trunc(a: i64, b: i64) -> (r: i64)
    requires
        b != 0,
        !(a == i64::MIN && b == -1),
    ensures
        r == trunc_div(a as int, b as int),
{
    let la: u64 = if a >= 0 {
        a as u64
    } else {
        #[verifier::truncate] ((-(a as i128)) as u64)
    };
    let rb: u64 = if b > 0 {
        b as u64
    } else {
        #[verifier::truncate] ((-(b as i128)) as u64)
    };
    let q: u64 = la / rb;
    proof {
        let qi = la as int / rb as int;
        vstd::arithmetic::div_mod::lemma_fundamental_div_mod(la as int, rb as int);
        assert(qi <= la as int && (rb >= 2 ==> 2 * qi <= la as int)) by (nonlinear_arith)
            requires
                la as int == rb as int * qi + (la as int % rb as int),
                0 <= la as int % rb as int,
                rb >= 1,
                qi >= 0,
        ;
    }
    if (a < 0) != (b < 0) {
        if q == 0 {
            0
        } else {
            #[verifier::truncate] ((-(q as i128)) as i64)
        }
    } else {
        q as i64
    }
}

/// Every element of a repetition of a list of valid values is valid.
proof fn lemma_repeat_values_valid(
    xs: Seq<Value>,
    n: nat,
    heap: Heap,
    data: crate::ir::Data,
    j: int,
)
    requires
        forall|k: int| 0 <= k < xs.len() ==> value_valid(#[trigger] xs[k], heap, data),
        0 <= j < repeat_seq(xs, n).len(),
    ensures
        value_valid(repeat_seq(xs, n)[j], heap, data),
    decreases n,
{
    if n > 0 {
        if j < repeat_seq(xs, (n - 1) as nat).len() {
            lemma_repeat_values_valid(xs, (n - 1) as nat, heap, data, j);
        } else {
            assert(repeat_seq(xs, n)[j] == xs[j - repeat_seq(xs, (n - 1) as nat).len()]);
        }
    }
}

} // verus!
