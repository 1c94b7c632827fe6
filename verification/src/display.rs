//! The display function: the conventional rendering of a value, used by the
//! `print`, `str` and `join` operators and by fatal diagnostics.
//!
//! Strings are quoted, lists bracketed and comma-separated, structs rendered
//! as `Name{field = value, …}` in the prototype's field order, functions as
//! `name()`, bound methods as `name(bound)`, errors as `err(…)`. Because
//! shared cells can form cycles, rendering carries the same depth budget as
//! comparison; a too-deep value is a fatal error. The rendering of a float
//! is the host's business: [`can_display`] excludes it, and the contracts
//! pin the rendered text exactly wherever it holds.

use crate::eq::VALUE_DEPTH;
use crate::host::Host;
use crate::ir::{data_wf, ident_name, Data};
use crate::value::{
    heap_extends, heap_wf, lemma_heap_wf_grow, value_valid, Fatal, Heap, Value,
};
use vstd::prelude::*;
use vstd::string::{StrSliceExecFns, StringExecFns};

verus! {

/// The digit character for one decimal digit.
pub open spec fn digit_char(d: int) -> char {
    if d == 0 {
        '0'
    } else if d == 1 {
        '1'
    } else if d == 2 {
        '2'
    } else if d == 3 {
        '3'
    } else if d == 4 {
        '4'
    } else if d == 5 {
        '5'
    } else if d == 6 {
        '6'
    } else if d == 7 {
        '7'
    } else if d == 8 {
        '8'
    } else {
        '9'
    }
}

/// The decimal digits of a non-negative number, most significant first.
pub open spec fn dec_rep(n: nat) -> Seq<char>
    decreases n,
{
    if n < 10 {
        seq![digit_char(n as int)]
    } else {
        dec_rep(n / 10) + seq![digit_char((n % 10) as int)]
    }
}

/// The decimal rendering of an integer, with a leading minus sign when
/// negative.
pub open spec fn int_display(n: int) -> Seq<char> {
    if n < 0 {
        seq!['-'] + dec_rep((-n) as nat)
    } else {
        dec_rep(n as nat)
    }
}

/// Whether the rendering of the value is pinned by the value and the heap
/// alone: false when a float occurs anywhere in it (the host renders those)
/// or the value is deeper than the budget.
pub open spec fn can_display(v: Value, data: Data, heap: Heap, depth: nat) -> bool
    decreases depth, 0int, v,
{
    if depth == 0 {
        false
    } else {
        match v {
            Value::Float(_) => false,
            Value::Error(inner) => can_display(*inner, data, heap, (depth - 1) as nat),
            Value::List(l) => can_display_all(
                heap.lists@[l as int]@,
                data,
                heap,
                (depth - 1) as nat,
            ),
            Value::Struct(st) => can_display_all(
                heap.structs@[st as int].values@,
                data,
                heap,
                (depth - 1) as nat,
            ),
            _ => true,
        }
    }
}

/// Every value of the sequence can be displayed.
pub open spec fn can_display_all(vs: Seq<Value>, data: Data, heap: Heap, depth: nat) -> bool
    decreases depth, 1int, vs,
{
    vs.len() == 0 || (can_display(vs[0], data, heap, depth) && can_display_all(
        vs.skip(1),
        data,
        heap,
        depth,
    ))
}

/// The display form of a value. Meaningful wherever [`can_display`] holds.
pub open spec fn display(v: Value, data: Data, heap: Heap, depth: nat) -> Seq<char>
    decreases depth, 0int, v,
{
    if depth == 0 {
        Seq::empty()
    } else {
        match v {
            Value::Nil => "nil"@,
            Value::IterEnd => "iterend"@,
            Value::Error(inner) => "err("@ + display(*inner, data, heap, (depth - 1) as nat)
                + ")"@,
            Value::Bool(b) => if b {
                "true"@
            } else {
                "false"@
            },
            Value::Int(i) => int_display(i as int),
            Value::Float(_) => Seq::empty(),
            Value::Str(s) => "\""@ + heap.strings@[s as int]@ + "\""@,
            Value::List(l) => "["@ + display_join(
                heap.lists@[l as int]@,
                ", "@,
                data,
                heap,
                (depth - 1) as nat,
            ) + "]"@,
            Value::Struct(st) => data.prototypes@[heap.structs@[st as int].prototype as int].name@
                + "{"@ + display_fields(
                data.prototypes@[heap.structs@[st as int].prototype as int].field_map@,
                heap.structs@[st as int].values@,
                data,
                heap,
                (depth - 1) as nat,
            ) + "}"@,
            Value::Function(f) => data.functions@[f as int].name@ + "()"@,
            Value::Method { function_id, .. } => data.functions@[function_id as int].name@
                + "(bound)"@,
        }
    }
}

/// The display forms of the values, with the separator interposed.
pub open spec fn display_join(
    vs: Seq<Value>,
    sep: Seq<char>,
    data: Data,
    heap: Heap,
    depth: nat,
) -> Seq<char>
    decreases depth, 1int, vs,
{
    if vs.len() == 0 {
        Seq::empty()
    } else if vs.len() == 1 {
        display(vs[0], data, heap, depth)
    } else {
        display(vs[0], data, heap, depth) + sep + display_join(vs.skip(1), sep, data, heap, depth)
    }
}

/// The rendered fields of a struct: `name = value`, comma-separated, in the
/// prototype's field order.
pub open spec fn display_fields(
    entries: Seq<(usize, usize)>,
    values: Seq<Value>,
    data: Data,
    heap: Heap,
    depth: nat,
) -> Seq<char>
    decreases depth, 1int, entries,
{
    if entries.len() == 0 {
        Seq::empty()
    } else {
        let one = ident_name(data, entries[0].0) + " = "@ + display(
            values[entries[0].1 as int],
            data,
            heap,
            depth,
        );
        if entries.len() == 1 {
            one
        } else {
            one + ", "@ + display_fields(entries.skip(1), values, data, heap, depth)
        }
    }
}

/// Append the decimal digits of `m` to the string.
fn push_digits(m: u64, into: &mut String)
    ensures
        final(into)@ == old(into)@ + dec_rep(m as nat),
    decreases m,
{
    if m >= 10 {
        push_digits(m / 10, into);
    }
    let d = m % 10;
    let ds: &str = match d {
        0u64 => "0",
        1u64 => "1",
        2u64 => "2",
        3u64 => "3",
        4u64 => "4",
        5u64 => "5",
        6u64 => "6",
        7u64 => "7",
        8u64 => "8",
        _ => "9",
    };
    proof {
        reveal_strlit("0");
        reveal_strlit("1");
        reveal_strlit("2");
        reveal_strlit("3");
        reveal_strlit("4");
        reveal_strlit("5");
        reveal_strlit("6");
        reveal_strlit("7");
        reveal_strlit("8");
        reveal_strlit("9");
        assert(ds@ =~= seq![digit_char(d as int)]);
    }
    into.append(ds);
    proof {
        if m >= 10 {
            assert(final(into)@ =~= old(into)@ + dec_rep(m as nat));
        } else {
            assert(final(into)@ =~= old(into)@ + dec_rep(m as nat));
        }
    }
}

/// Append the decimal rendering of `n` to the string.
fn push_int(n: i64, into: &mut String)
    ensures
        final(into)@ == old(into)@ + int_display(n as int),
{
    let mag: u64 = if n >= 0 {
        n as u64
    } else {
        into.append("-");
        proof {
            reveal_strlit("-");
            assert("-"@ =~= seq!['-']);
        }
        #[verifier::truncate] ((-(n as i128)) as u64)
    };
    push_digits(mag, into);
    proof {
        assert(final(into)@ =~= old(into)@ + int_display(n as int));
    }
}

impl Value {
    /// Render the value onto `into`. Wherever [`can_display`] holds, the
    /// appended text is exactly [`display`]; floats are rendered by the
    /// host; a value deeper than the budget is fatal.
    pub fn fmt<H: Host>(
        &self,
        data: &Data,
        heap: &Heap,
        host: &mut H,
        into: &mut String,
        depth: u64,
    ) -> (r: Result<(), Fatal>)
        requires
            value_valid(*self, *heap, *data),
            heap_wf(*heap, *data),
            data_wf(*data),
        ensures
            can_display(*self, *data, *heap, depth as nat) ==> r is Ok && final(into)@ == old(into)@ + display(*self, *data, *heap, depth as nat),
        decreases depth, 0int, self,
    {
        if depth == 0 {
            return Err(Fatal { message: "value too deep to display".to_owned() });
        }
        match self {
            Value::Nil => {
                into.append("nil");
                Ok(())
            },
            Value::IterEnd => {
                into.append("iterend");
                Ok(())
            },
            Value::Error(inner) => {
                into.append("err(");
                let r = inner.fmt(data, heap, host, into, depth - 1);
                if r.is_err() {
                    return r;
                }
                into.append(")");
                proof {
                    if can_display(*self, *data, *heap, depth as nat) {
                        assert(final(into)@ =~= old(into)@ + display(
                            *self,
                            *data,
                            *heap,
                            depth as nat,
                        ));
                    }
                }
                Ok(())
            },
            Value::Bool(b) => {
                if *b {
                    into.append("true");
                } else {
                    into.append("false");
                }
                Ok(())
            },
            Value::Int(i) => {
                push_int(*i, into);
                Ok(())
            },
            Value::Float(bits) => {
                let rendered = host.float_display(*bits);
                into.append(rendered.as_str());
                Ok(())
            },
            Value::Str(s) => {
                into.append("\"");
                into.append(heap.strings[*s].as_str());
                into.append("\"");
                proof {
                    if can_display(*self, *data, *heap, depth as nat) {
                        assert(final(into)@ =~= old(into)@ + display(
                            *self,
                            *data,
                            *heap,
                            depth as nat,
                        ));
                    }
                }
                Ok(())
            },
            Value::List(l) => {
                into.append("[");
                let r = self.fmt_list_items(*l, ", ", data, heap, host, into, depth - 1);
                if r.is_err() {
                    return r;
                }
                into.append("]");
                proof {
                    if can_display(*self, *data, *heap, depth as nat) {
                        assert(final(into)@ =~= old(into)@ + display(
                            *self,
                            *data,
                            *heap,
                            depth as nat,
                        ));
                    }
                }
                Ok(())
            },
            Value::Struct(st) => {
                let proto = heap.structs[*st].prototype;
                into.append(data.prototypes[proto].name.as_str());
                into.append("{");
                let r = self.fmt_struct_fields(*st, data, heap, host, into, depth - 1);
                if r.is_err() {
                    return r;
                }
                into.append("}");
                proof {
                    if can_display(*self, *data, *heap, depth as nat) {
                        assert(final(into)@ =~= old(into)@ + display(
                            *self,
                            *data,
                            *heap,
                            depth as nat,
                        ));
                    }
                }
                Ok(())
            },
            Value::Function(f) => {
                into.append(data.functions[*f].name.as_str());
                into.append("()");
                proof {
                    assert(final(into)@ =~= old(into)@ + display(
                        *self,
                        *data,
                        *heap,
                        depth as nat,
                    ));
                }
                Ok(())
            },
            Value::Method { function_id, instance } => {
                into.append(data.functions[*function_id].name.as_str());
                into.append("(bound)");
                proof {
                    assert(final(into)@ =~= old(into)@ + display(
                        *self,
                        *data,
                        *heap,
                        depth as nat,
                    ));
                }
                Ok(())
            },
        }
    }

    /// Render the elements of the list cell `l`, separator-interposed;
    /// `self` is the list value, carried for the termination measure.
    #[verifier::loop_isolation(false)]
    fn fmt_list_items<H: Host>(
        &self,
        l: usize,
        sep: &str,
        data: &Data,
        heap: &Heap,
        host: &mut H,
        into: &mut String,
        depth: u64,
    ) -> (r: Result<(), Fatal>)
        requires
            heap_wf(*heap, *data),
            data_wf(*data),
            l < heap.lists@.len(),
        ensures
            can_display_all(heap.lists@[l as int]@, *data, *heap, depth as nat) ==> r is Ok
                && final(into)@ == old(into)@ + display_join(
                heap.lists@[l as int]@,
                sep@,
                *data,
                *heap,
                depth as nat,
            ),
        decreases depth, 1int, self,
    {
        let ghost xs = heap.lists@[l as int]@;
        let ghost start = into@;
        proof {
            assert(xs.skip(0) =~= xs);
        }
        let n = heap.lists[l].len();
        let mut k: usize = 0;
        while k < n
            invariant
                0 <= k <= n,
                can_display_all(xs, *data, *heap, depth as nat) ==> can_display_all(
                    xs.skip(k as int),
                    *data,
                    *heap,
                    depth as nat,
                ) && start + display_join(xs, sep@, *data, *heap, depth as nat) == into@
                    + display_join(xs.skip(k as int), sep@, *data, *heap, depth as nat),
            decreases n - k,
        {
            proof {
                assert(xs.skip(k as int)[0] == xs[k as int]);
                assert(xs.skip(k as int).skip(1) =~= xs.skip(k as int + 1));
            }
            let r = heap.lists[l][k].fmt(data, heap, host, into, depth);
            if r.is_err() {
                return r;
            }
            if k + 1 < n {
                into.append(sep);
            }
            proof {
                if can_display_all(xs, *data, *heap, depth as nat) {
                    assert(start + display_join(xs, sep@, *data, *heap, depth as nat) =~= into@
                        + display_join(xs.skip(k as int + 1), sep@, *data, *heap, depth as nat));
                }
            }
            k = k + 1;
        }
        proof {
            if can_display_all(xs, *data, *heap, depth as nat) {
                assert(final(into)@ =~= start + display_join(xs, sep@, *data, *heap, depth as nat));
            }
        }
        Ok(())
    }

    /// Render the fields of the struct cell `st` in prototype field order;
    /// `self` is the struct value, carried for the termination measure.
    #[verifier::loop_isolation(false)]
    fn fmt_struct_fields<H: Host>(
        &self,
        st: usize,
        data: &Data,
        heap: &Heap,
        host: &mut H,
        into: &mut String,
        depth: u64,
    ) -> (r: Result<(), Fatal>)
        requires
            heap_wf(*heap, *data),
            data_wf(*data),
            st < heap.structs@.len(),
        ensures
            can_display_all(heap.structs@[st as int].values@, *data, *heap, depth as nat) ==> r
                is Ok && final(into)@ == old(into)@ + display_fields(
                data.prototypes@[heap.structs@[st as int].prototype as int].field_map@,
                heap.structs@[st as int].values@,
                *data,
                *heap,
                depth as nat,
            ),
        decreases depth, 1int, self,
    {
        let ghost values = heap.structs@[st as int].values@;
        let ghost entries =
            data.prototypes@[heap.structs@[st as int].prototype as int].field_map@;
        let ghost start = into@;
        proof {
            assert(entries.skip(0) =~= entries);
        }
        let proto = heap.structs[st].prototype;
        let n = data.prototypes[proto].field_map.len();
        let mut k: usize = 0;
        while k < n
            invariant
                0 <= k <= n,
                can_display_all(values, *data, *heap, depth as nat) ==> start + display_fields(
                    entries,
                    values,
                    *data,
                    *heap,
                    depth as nat,
                ) == into@ + display_fields(
                    entries.skip(k as int),
                    values,
                    *data,
                    *heap,
                    depth as nat,
                ),
            decreases n - k,
        {
            proof {
                assert(entries.skip(k as int)[0] == entries[k as int]);
                assert(entries.skip(k as int).skip(1) =~= entries.skip(k as int + 1));
            }
            let (ident, slot) = data.prototypes[proto].field_map[k];
            let name = data.ident_name(ident);
            into.append(name.as_str());
            into.append(" = ");
            proof {
                if can_display_all(values, *data, *heap, depth as nat) {
                    lemma_can_display_all_index(values, *data, *heap, depth as nat, slot as int);
                }
            }
            let r = heap.structs[st].values[slot].fmt(data, heap, host, into, depth);
            if r.is_err() {
                return r;
            }
            if k + 1 < n {
                into.append(", ");
            }
            proof {
                if can_display_all(values, *data, *heap, depth as nat) {
                    assert(start + display_fields(entries, values, *data, *heap, depth as nat)
                        =~= into@ + display_fields(
                        entries.skip(k as int + 1),
                        values,
                        *data,
                        *heap,
                        depth as nat,
                    ));
                }
            }
            k = k + 1;
        }
        proof {
            if can_display_all(values, *data, *heap, depth as nat) {
                assert(final(into)@ =~= start + display_fields(
                    entries,
                    values,
                    *data,
                    *heap,
                    depth as nat,
                ));
            }
        }
        Ok(())
    }
}

/// Each value of a displayable sequence is displayable.
pub proof fn lemma_can_display_all_index(
    vs: Seq<Value>,
    data: Data,
    heap: Heap,
    depth: nat,
    i: int,
)
    requires
        can_display_all(vs, data, heap, depth),
        0 <= i < vs.len(),
    ensures
        can_display(vs[i], data, heap, depth),
    decreases i,
{
    if i > 0 {
        lemma_can_display_all_index(vs.skip(1), data, heap, depth, i - 1);
        assert(vs.skip(1)[i - 1] == vs[i]);
    }
}

/// Joining with the empty separator concatenates the display forms: the
/// rendering of `join(list, "")` is exactly the display forms of the
/// elements, one after the other, with nothing interposed.
pub proof fn lemma_join_empty_sep_concat(vs: Seq<Value>, data: Data, heap: Heap, depth: nat)
    ensures
        display_join(vs, Seq::empty(), data, heap, depth) == concat_displays(
            vs,
            data,
            heap,
            depth,
        ),
    decreases vs.len(),
{
    if vs.len() > 1 {
        lemma_join_empty_sep_concat(vs.skip(1), data, heap, depth);
        assert(display_join(vs, Seq::empty(), data, heap, depth) =~= concat_displays(
            vs,
            data,
            heap,
            depth,
        ));
    } else if vs.len() == 1 {
        assert(vs.skip(1).len() == 0);
        assert(concat_displays(vs.skip(1), data, heap, depth) =~= Seq::empty());
        assert(display_join(vs, Seq::empty(), data, heap, depth) =~= concat_displays(
            vs,
            data,
            heap,
            depth,
        ));
    }
}

/// The concatenation of the display forms of the values.
pub open spec fn concat_displays(vs: Seq<Value>, data: Data, heap: Heap, depth: nat) -> Seq<char>
    decreases vs.len(),
{
    if vs.len() == 0 {
        Seq::empty()
    } else {
        display(vs[0], data, heap, depth) + concat_displays(vs.skip(1), data, heap, depth)
    }
}

impl Value {
    /// The `str` coercion: the display form of the value as a fresh string
    /// cell.
    pub fn str<H: Host>(self, data: &Data, heap: &mut Heap, host: &mut H) -> (r: Result<
        Value,
        Fatal,
    >)
        requires
            value_valid(self, *old(heap), *data),
            heap_wf(*old(heap), *data),
            data_wf(*data),
        ensures
            heap_extends(*final(heap), *old(heap)),
            heap_wf(*final(heap), *data),
            final(heap).lists@ == old(heap).lists@,
            final(heap).structs@ == old(heap).structs@,
            r matches Ok(v) ==> v == Value::Str(old(heap).strings@.len() as usize) && final(heap).strings@.len() == old(heap).strings@.len() + 1,
            can_display(self, *data, *old(heap), VALUE_DEPTH as nat) ==> r is Ok && final(heap).strings@[old(heap).strings@.len() as int]@ == display(
                self,
                *data,
                *old(heap),
                VALUE_DEPTH as nat,
            ),
    {
        let mut out = String::new();
        let r = self.fmt(data, heap, host, &mut out, VALUE_DEPTH);
        if let Err(f) = r {
            return Err(f);
        }
        let id = heap.new_string(out);
        proof {
            lemma_heap_wf_grow(*old(heap), *heap, *data);
        }
        Ok(Value::Str(id))
    }

    /// The `print` operator: emit the display form of the value, followed
    /// by a newline, on the host's output stream; returns `Nil`.
    pub fn print<H: Host>(self, data: &Data, heap: &Heap, host: &mut H) -> (r: Result<
        Value,
        Fatal,
    >)
        requires
            value_valid(self, *heap, *data),
            heap_wf(*heap, *data),
            data_wf(*data),
        ensures
            r matches Ok(v) ==> v == Value::Nil,
            can_display(self, *data, *heap, VALUE_DEPTH as nat) ==> r is Ok,
    {
        let mut out = String::new();
        let r = self.fmt(data, heap, host, &mut out, VALUE_DEPTH);
        if let Err(f) = r {
            return Err(f);
        }
        host.print_line(out.as_str());
        Ok(Value::Nil)
    }

    /// The `join` operator: the display forms of the elements of a list,
    /// with a string separator interposed, as a fresh string cell. A
    /// non-string separator, or a non-list subject, gives `Nil`.
    pub fn join<H: Host>(&self, data: &Data, heap: &mut Heap, host: &mut H, other: Value) -> (r:
        Result<Value, Fatal>)
        requires
            value_valid(*self, *old(heap), *data),
            value_valid(other, *old(heap), *data),
            heap_wf(*old(heap), *data),
            data_wf(*data),
        ensures
            heap_extends(*final(heap), *old(heap)),
            heap_wf(*final(heap), *data),
            final(heap).lists@ == old(heap).lists@,
            final(heap).structs@ == old(heap).structs@,
            !(self is List && other is Str) ==> r == Ok::<Value, Fatal>(Value::Nil) && *final(heap) == *old(heap),
            self matches Value::List(l) ==> other matches Value::Str(sep) ==> (r matches Ok(v)
                ==> v == Value::Str(old(heap).strings@.len() as usize) && final(heap).strings@.len() == old(heap).strings@.len() + 1),
            self matches Value::List(l) ==> other matches Value::Str(sep) ==> (can_display_all(
                old(heap).lists@[l as int]@,
                *data,
                *old(heap),
                (VALUE_DEPTH - 1) as nat,
            ) ==> r is Ok && final(heap).strings@[old(heap).strings@.len() as int]@
                == display_join(
                old(heap).lists@[l as int]@,
                old(heap).strings@[sep as int]@,
                *data,
                *old(heap),
                (VALUE_DEPTH - 1) as nat,
            )),
    {
        match (self, &other) {
            (Value::List(l), Value::Str(sep)) => {
                let mut out = String::new();
                let sep_string = heap.strings[*sep].clone();
                let r = self.fmt_list_items(
                    *l,
                    sep_string.as_str(),
                    data,
                    heap,
                    host,
                    &mut out,
                    VALUE_DEPTH - 1,
                );
                if let Err(f) = r {
                    return Err(f);
                }
                let id = heap.new_string(out);
                proof {
                    lemma_heap_wf_grow(*old(heap), *heap, *data);
                }
                Ok(Value::Str(id))
            },
            _ => Ok(Value::Nil),
        }
    }
}

} // verus!
