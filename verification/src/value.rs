//! The runtime value domain: a tagged sum over plain data, with shared
//! mutable strings, lists and structs held in an arena ([`Heap`]).
//!
//! Sharing in the language is by reference: two names can alias one list,
//! and mutating through either is visible through both. Here a shared cell
//! is an index into the heap, so aliasing is index equality and the `is`
//! operator compares indices.

use crate::host::Host;
use crate::ir::{data_wf, lemma_pairs_lookup_in_range, pairs_lookup, Data};
use vstd::prelude::*;
use vstd::pervasive::VecAdditionalExecFns;
use vstd::string::StrSliceExecFns;

verus! {

/// A struct instance: the prototype it was built from and one value per
/// field slot.
#[derive(Debug)]
pub struct Struct {
    pub prototype: usize,
    pub values: Vec<Value>,
}

/// A runtime value. `Str`, `List` and `Struct` carry heap indices; `Float`
/// carries the bit pattern of a 64-bit float, which only the host
/// interprets.
#[derive(Debug)]
pub enum Value {
    Nil,
    /// Sentinel returned by an iterator's `next` method to end a loop.
    IterEnd,
    /// A value-level error; falsy, and never wraps another error.
    Error(Box<Value>),
    Bool(bool),
    Int(i64),
    Float(u64),
    /// Index into `Heap.strings`.
    Str(usize),
    /// Index into `Heap.lists`.
    List(usize),
    /// Index into `Heap.structs`.
    Struct(usize),
    /// Index into `Data.functions`.
    Function(usize),
    /// A method bound to the struct instance it was read from.
    Method { function_id: usize, instance: usize },
}

impl Clone for Value {
    fn clone(&self) -> (r: Self)
        ensures
            r == *self,
        decreases self,
    {
        match self {
            Value::Nil => Value::Nil,
            Value::IterEnd => Value::IterEnd,
            Value::Error(inner) => Value::Error(Box::new((**inner).clone())),
            Value::Bool(b) => Value::Bool(*b),
            Value::Int(i) => Value::Int(*i),
            Value::Float(bits) => Value::Float(*bits),
            Value::Str(i) => Value::Str(*i),
            Value::List(i) => Value::List(*i),
            Value::Struct(i) => Value::Struct(*i),
            Value::Function(f) => Value::Function(*f),
            Value::Method { function_id, instance } => Value::Method {
                function_id: *function_id,
                instance: *instance,
            },
        }
    }
}

/// The arena holding every shared cell. Cells are never freed while the
/// program runs (the language accepts cycles and does not collect them), so
/// an index stays valid forever and the arena only grows.
pub struct Heap {
    pub strings: Vec<String>,
    pub lists: Vec<Vec<Value>>,
    pub structs: Vec<Struct>,
}

/// A fatal termination: the rendered diagnostic of the `die` path. The
/// embedding program prints the message and exits with a failure status;
/// nothing is recovered.
#[derive(Debug)]
pub struct Fatal {
    pub message: String,
}

/// Every heap index (and function index) inside the value is below the
/// given arena sizes.
pub open spec fn value_ids_ok(v: Value, ns: int, nl: int, nst: int, nf: int) -> bool
    decreases v,
{
    match v {
        Value::Error(inner) => value_ids_ok(*inner, ns, nl, nst, nf),
        Value::Str(i) => i < ns,
        Value::List(i) => i < nl,
        Value::Struct(i) => i < nst,
        Value::Function(f) => f < nf,
        Value::Method { function_id, instance } => function_id < nf && instance < nst,
        _ => true,
    }
}

/// The value only points into the heap and the program.
pub open spec fn value_valid(v: Value, heap: Heap, data: Data) -> bool {
    value_ids_ok(
        v,
        heap.strings@.len() as int,
        heap.lists@.len() as int,
        heap.structs@.len() as int,
        data.functions@.len() as int,
    )
}

/// Every cell of the heap holds valid values; a struct cell matches its
/// prototype's field count.
pub open spec fn heap_wf(heap: Heap, data: Data) -> bool {
    &&& forall|i: int, j: int|
        0 <= i < heap.lists@.len() && 0 <= j < heap.lists@[i]@.len() ==> value_valid(
            #[trigger] heap.lists@[i]@[j],
            heap,
            data,
        )
    &&& forall|i: int|
        0 <= i < heap.structs@.len() ==> (#[trigger] heap.structs@[i]).prototype
            < data.prototypes@.len()
    &&& forall|i: int|
        0 <= i < heap.structs@.len() ==> (#[trigger] heap.structs@[i]).values@.len()
            == data.prototypes@[heap.structs@[i].prototype as int].field_map@.len()
    &&& forall|i: int, j: int|
        0 <= i < heap.structs@.len() && 0 <= j < heap.structs@[i].values@.len() ==> value_valid(
            #[trigger] heap.structs@[i].values@[j],
            heap,
            data,
        )
}

/// The new heap still holds everything the old one did: cells are only
/// added, strings are immutable, and a struct keeps its prototype and its
/// field count. List and struct contents may change; that is the language's
/// shared mutation.
pub open spec fn heap_extends(new: Heap, old: Heap) -> bool {
    &&& old.strings@.len() <= new.strings@.len()
    &&& forall|i: int|
        0 <= i < old.strings@.len() ==> (#[trigger] new.strings@[i])@ == old.strings@[i]@
    &&& old.lists@.len() <= new.lists@.len()
    &&& old.structs@.len() <= new.structs@.len()
    &&& forall|i: int|
        0 <= i < old.structs@.len() ==> (#[trigger] new.structs@[i]).prototype
            == old.structs@[i].prototype && new.structs@[i].values@.len()
            == old.structs@[i].values@.len()
}

/// Growing the heap keeps a value valid.
pub broadcast proof fn lemma_value_valid_extends(v: Value, old: Heap, new: Heap, data: Data)
    requires
        value_valid(v, old, data),
        heap_extends(new, old),
    ensures
        #![trigger value_valid(v, old, data), heap_extends(new, old)]
        value_valid(v, new, data),
    decreases v,
{
    match v {
        Value::Error(inner) => lemma_value_valid_extends(*inner, old, new, data),
        _ => {},
    }
}

/// Heap extension is transitive.
pub broadcast proof fn lemma_heap_extends_trans(c: Heap, b: Heap, a: Heap)
    requires
        heap_extends(c, b),
        heap_extends(b, a),
    ensures
        #![trigger heap_extends(c, b), heap_extends(b, a)]
        heap_extends(c, a),
{
}

/// Every heap extends itself.
pub proof fn lemma_heap_extends_refl(h: Heap)
    ensures
        heap_extends(h, h),
{
}

impl Heap {
    /// An empty arena.
    pub fn new() -> (heap: Heap)
        ensures
            heap.strings@.len() == 0,
            heap.lists@.len() == 0,
            heap.structs@.len() == 0,
    {
        Heap { strings: Vec::new(), lists: Vec::new(), structs: Vec::new() }
    }

    /// Intern a string, returning the fresh cell's index.
    pub fn new_string(&mut self, s: String) -> (id: usize)
        ensures
            id == old(self).strings@.len(),
            final(self).strings@ == old(self).strings@.push(s),
            final(self).lists@ == old(self).lists@,
            final(self).structs@ == old(self).structs@,
            heap_extends(*final(self), *old(self)),
    {
        let id = self.strings.len();
        self.strings.push(s);
        id
    }

    /// Allocate a fresh list cell.
    pub fn new_list(&mut self, items: Vec<Value>) -> (id: usize)
        ensures
            id == old(self).lists@.len(),
            final(self).lists@ == old(self).lists@.push(items),
            final(self).strings@ == old(self).strings@,
            final(self).structs@ == old(self).structs@,
            heap_extends(*final(self), *old(self)),
    {
        let id = self.lists.len();
        self.lists.push(items);
        id
    }

    /// Allocate a fresh struct cell.
    pub fn new_struct(&mut self, instance: Struct) -> (id: usize)
        ensures
            id == old(self).structs@.len(),
            final(self).structs@ == old(self).structs@.push(instance),
            final(self).strings@ == old(self).strings@,
            final(self).lists@ == old(self).lists@,
            heap_extends(*final(self), *old(self)),
    {
        let id = self.structs.len();
        self.structs.push(instance);
        id
    }
}

/// Truthiness: `Nil`, `IterEnd`, errors and `false` are falsy; every other
/// value — including every float and every empty container — is truthy.
pub open spec fn is_truthy_spec(v: Value) -> bool {
    match v {
        Value::Nil => false,
        Value::IterEnd => false,
        Value::Error(_) => false,
        Value::Bool(b) => b,
        _ => true,
    }
}

/// `err(v)`: wrap `v` unless it already is an error. Idempotent.
pub open spec fn err_spec(v: Value) -> Value {
    match v {
        Value::Error(_) => v,
        _ => Value::Error(Box::new(v)),
    }
}

/// `bool(v)`: the truthiness of `v` as a boolean value.
pub open spec fn bool_spec(v: Value) -> Value {
    Value::Bool(is_truthy_spec(v))
}

impl Value {
    /// Decide truthiness; this is what conditions, `and`/`or`, `bool` and
    /// `or_die` test.
    pub fn is_truthy(&self) -> (b: bool)
        ensures
            b == is_truthy_spec(*self),
    {
        match self {
            Value::Nil => false,
            Value::IterEnd => false,
            Value::Error(_) => false,
            Value::Bool(b) => *b,
            _ => true,
        }
    }

    /// The `not` operator: the negated truthiness.
    pub fn not(self) -> (r: Value)
        ensures
            r == Value::Bool(!is_truthy_spec(self)),
    {
        Value::Bool(!self.is_truthy())
    }

    /// The `bool` coercion.
    pub fn bool(self) -> (r: Value)
        ensures
            r == bool_spec(self),
    {
        Value::Bool(self.is_truthy())
    }

    /// The `err` operator: wrap the value as an error, unless it already is
    /// one.
    pub fn err(self) -> (r: Value)
        ensures
            r == err_spec(self),
    {
        match self {
            Value::Error(_) => self,
            _ => Value::Error(Box::new(self)),
        }
    }

    /// Build an error wrapping a freshly interned message string.
    pub fn new_err(heap: &mut Heap, message: &str) -> (r: Value)
        ensures
            final(heap).strings@.len() == old(heap).strings@.len() + 1,
            final(heap).strings@[old(heap).strings@.len() as int]@ == message@,
            final(heap).lists@ == old(heap).lists@,
            final(heap).structs@ == old(heap).structs@,
            heap_extends(*final(heap), *old(heap)),
            old(heap).strings@.len() <= usize::MAX,
            r matches Value::Error(inner) && *inner == Value::Str(
                old(heap).strings@.len() as usize,
            ),
    {
        let id = heap.new_string(message.to_owned());
        Value::Error(Box::new(Value::Str(id)))
    }
}

/// The heap after mutating one list cell: every other cell, and the string
/// and struct arenas, are untouched.
pub open spec fn list_cell_updated(new: Heap, old: Heap, l: int, content: Seq<Value>) -> bool {
    &&& new.strings@ == old.strings@
    &&& new.structs@ == old.structs@
    &&& new.lists@.len() == old.lists@.len()
    &&& new.lists@[l]@ == content
    &&& forall|k: int|
        0 <= k < old.lists@.len() && k != l ==> #[trigger] new.lists@[k] == old.lists@[k]
}

/// The heap after mutating one field of one struct cell.
pub open spec fn struct_cell_updated(new: Heap, old: Heap, st: int, slot: int, v: Value) -> bool {
    &&& new.strings@ == old.strings@
    &&& new.lists@ == old.lists@
    &&& new.structs@.len() == old.structs@.len()
    &&& new.structs@[st].prototype == old.structs@[st].prototype
    &&& new.structs@[st].values@ == old.structs@[st].values@.update(slot, v)
    &&& forall|k: int|
        0 <= k < old.structs@.len() && k != st ==> #[trigger] new.structs@[k] == old.structs@[k]
}

impl Heap {
    /// Append to a shared list cell in place.
    pub fn list_push(&mut self, l: usize, v: Value)
        requires
            l < old(self).lists@.len(),
        ensures
            list_cell_updated(*final(self), *old(self), l as int, old(self).lists@[l as int]@.push(v)),
            heap_extends(*final(self), *old(self)),
    {
        let mut tmp: Vec<Value> = Vec::new();
        self.lists.set_and_swap(l, &mut tmp);
        tmp.push(v);
        self.lists.set_and_swap(l, &mut tmp);
        proof {
            assert(final(self).lists@[l as int]@ =~= old(self).lists@[l as int]@.push(v));
        }
    }

    /// Remove one element of a shared list cell in place, returning it.
    pub fn list_take(&mut self, l: usize, idx: usize) -> (r: Value)
        requires
            l < old(self).lists@.len(),
            idx < old(self).lists@[l as int]@.len(),
        ensures
            r == old(self).lists@[l as int]@[idx as int],
            list_cell_updated(
                *final(self),
                *old(self),
                l as int,
                old(self).lists@[l as int]@.remove(idx as int),
            ),
            heap_extends(*final(self), *old(self)),
    {
        let mut tmp: Vec<Value> = Vec::new();
        self.lists.set_and_swap(l, &mut tmp);
        let r = tmp.remove(idx);
        self.lists.set_and_swap(l, &mut tmp);
        r
    }

    /// Overwrite one element of a shared list cell in place.
    pub fn list_set(&mut self, l: usize, idx: usize, v: Value)
        requires
            l < old(self).lists@.len(),
            idx < old(self).lists@[l as int]@.len(),
        ensures
            list_cell_updated(
                *final(self),
                *old(self),
                l as int,
                old(self).lists@[l as int]@.update(idx as int, v),
            ),
            heap_extends(*final(self), *old(self)),
    {
        let mut tmp: Vec<Value> = Vec::new();
        self.lists.set_and_swap(l, &mut tmp);
        tmp.set(idx, v);
        self.lists.set_and_swap(l, &mut tmp);
    }

    /// Overwrite one field slot of a shared struct cell in place.
    pub fn struct_set(&mut self, st: usize, slot: usize, v: Value)
        requires
            st < old(self).structs@.len(),
            slot < old(self).structs@[st as int].values@.len(),
        ensures
            struct_cell_updated(*final(self), *old(self), st as int, slot as int, v),
            heap_extends(*final(self), *old(self)),
    {
        let mut tmp: Struct = Struct { prototype: 0, values: Vec::new() };
        self.structs.set_and_swap(st, &mut tmp);
        tmp.values.set(slot, v);
        self.structs.set_and_swap(st, &mut tmp);
    }
}


/// Growing the heap (without touching list or struct cells) keeps it
/// well-formed.
pub proof fn lemma_heap_wf_grow(o: Heap, n: Heap, data: Data)
    requires
        heap_wf(o, data),
        heap_extends(n, o),
        n.lists@ == o.lists@,
        n.structs@ == o.structs@,
    ensures
        heap_wf(n, data),
{
    assert forall|i: int, j: int|
        0 <= i < n.lists@.len() && 0 <= j < n.lists@[i]@.len() implies value_valid(
        #[trigger] n.lists@[i]@[j],
        n,
        data,
    ) by {
        lemma_value_valid_extends(o.lists@[i]@[j], o, n, data);
    }
    assert forall|i: int, j: int|
        0 <= i < n.structs@.len() && 0 <= j < n.structs@[i].values@.len() implies value_valid(
        #[trigger] n.structs@[i].values@[j],
        n,
        data,
    ) by {
        lemma_value_valid_extends(o.structs@[i].values@[j], o, n, data);
    }
}

/// Appending a valid value to a list cell keeps the heap well-formed.
pub proof fn lemma_heap_wf_list_push(o: Heap, n: Heap, data: Data, l: int, v: Value)
    requires
        heap_wf(o, data),
        0 <= l < o.lists@.len(),
        value_valid(v, o, data),
        list_cell_updated(n, o, l, o.lists@[l]@.push(v)),
    ensures
        heap_wf(n, data),
{
    assert forall|i: int, j: int|
        0 <= i < n.lists@.len() && 0 <= j < n.lists@[i]@.len() implies value_valid(
        #[trigger] n.lists@[i]@[j],
        n,
        data,
    ) by {
        if i == l {
            if j < o.lists@[l]@.len() {
                assert(value_valid(o.lists@[i]@[j], o, data));
            }
        } else {
            assert(n.lists@[i] == o.lists@[i]);
            assert(value_valid(o.lists@[i]@[j], o, data));
        }
    }
}

/// Removing an element of a list cell keeps the heap well-formed.
pub proof fn lemma_heap_wf_list_remove(o: Heap, n: Heap, data: Data, l: int, idx: int)
    requires
        heap_wf(o, data),
        0 <= l < o.lists@.len(),
        0 <= idx < o.lists@[l]@.len(),
        list_cell_updated(n, o, l, o.lists@[l]@.remove(idx)),
    ensures
        heap_wf(n, data),
{
    assert forall|i: int, j: int|
        0 <= i < n.lists@.len() && 0 <= j < n.lists@[i]@.len() implies value_valid(
        #[trigger] n.lists@[i]@[j],
        n,
        data,
    ) by {
        if i == l {
            if j < idx {
                assert(n.lists@[i]@[j] == o.lists@[l]@[j]);
            } else {
                assert(n.lists@[i]@[j] == o.lists@[l]@[j + 1]);
            }
            assert(value_valid(o.lists@[i]@[if j < idx { j } else { j + 1 }], o, data));
        } else {
            assert(n.lists@[i] == o.lists@[i]);
            assert(value_valid(o.lists@[i]@[j], o, data));
        }
    }
}

/// Overwriting an element of a list cell with a valid value keeps the heap
/// well-formed.
pub proof fn lemma_heap_wf_list_set(o: Heap, n: Heap, data: Data, l: int, idx: int, v: Value)
    requires
        heap_wf(o, data),
        0 <= l < o.lists@.len(),
        0 <= idx < o.lists@[l]@.len(),
        value_valid(v, o, data),
        list_cell_updated(n, o, l, o.lists@[l]@.update(idx, v)),
    ensures
        heap_wf(n, data),
{
    assert forall|i: int, j: int|
        0 <= i < n.lists@.len() && 0 <= j < n.lists@[i]@.len() implies value_valid(
        #[trigger] n.lists@[i]@[j],
        n,
        data,
    ) by {
        if i == l {
            if j != idx {
                assert(n.lists@[i]@[j] == o.lists@[l]@[j]);
                assert(value_valid(o.lists@[i]@[j], o, data));
            }
        } else {
            assert(n.lists@[i] == o.lists@[i]);
            assert(value_valid(o.lists@[i]@[j], o, data));
        }
    }
}

/// Overwriting a struct field slot with a valid value keeps the heap
/// well-formed.
pub proof fn lemma_heap_wf_struct_set(o: Heap, n: Heap, data: Data, st: int, slot: int, v: Value)
    requires
        heap_wf(o, data),
        0 <= st < o.structs@.len(),
        0 <= slot < o.structs@[st].values@.len(),
        value_valid(v, o, data),
        struct_cell_updated(n, o, st, slot, v),
    ensures
        heap_wf(n, data),
{
    assert forall|i: int|
        0 <= i < n.structs@.len() implies (#[trigger] n.structs@[i]).prototype
        < data.prototypes@.len() && n.structs@[i].values@.len()
        == data.prototypes@[n.structs@[i].prototype as int].field_map@.len() by {
        if i != st {
            assert(n.structs@[i] == o.structs@[i]);
        }
        assert(o.structs@[i].prototype < data.prototypes@.len());
    }
    assert forall|i: int, j: int|
        0 <= i < n.structs@.len() && 0 <= j < n.structs@[i].values@.len() implies value_valid(
        #[trigger] n.structs@[i].values@[j],
        n,
        data,
    ) by {
        if i == st {
            if j != slot {
                assert(n.structs@[i].values@[j] == o.structs@[st].values@[j]);
                assert(value_valid(o.structs@[i].values@[j], o, data));
            }
        } else {
            assert(n.structs@[i] == o.structs@[i]);
            assert(value_valid(o.structs@[i].values@[j], o, data));
        }
    }
}


/// The heap after allocating one fresh list cell holding `content`.
pub open spec fn list_cell_added(new: Heap, old: Heap, content: Seq<Value>) -> bool {
    &&& new.strings@ == old.strings@
    &&& new.structs@ == old.structs@
    &&& new.lists@.len() == old.lists@.len() + 1
    &&& new.lists@[old.lists@.len() as int]@ == content
    &&& forall|k: int|
        0 <= k < old.lists@.len() ==> #[trigger] new.lists@[k] == old.lists@[k]
}

/// The heap after allocating one fresh struct cell.
pub open spec fn struct_cell_added(new: Heap, old: Heap, prototype: int, content: Seq<Value>) -> bool {
    &&& new.strings@ == old.strings@
    &&& new.lists@ == old.lists@
    &&& new.structs@.len() == old.structs@.len() + 1
    &&& new.structs@[old.structs@.len() as int].prototype == prototype
    &&& new.structs@[old.structs@.len() as int].values@ == content
    &&& forall|k: int|
        0 <= k < old.structs@.len() ==> #[trigger] new.structs@[k] == old.structs@[k]
}

/// Allocating a list of valid values keeps the heap well-formed.
pub proof fn lemma_heap_wf_add_list(o: Heap, n: Heap, data: Data, content: Seq<Value>)
    requires
        heap_wf(o, data),
        list_cell_added(n, o, content),
        forall|j: int| 0 <= j < content.len() ==> value_valid(#[trigger] content[j], o, data),
    ensures
        heap_wf(n, data),
        heap_extends(n, o),
{
    assert(heap_extends(n, o));
    assert forall|i: int, j: int|
        0 <= i < n.lists@.len() && 0 <= j < n.lists@[i]@.len() implies value_valid(
        #[trigger] n.lists@[i]@[j],
        n,
        data,
    ) by {
        if i < o.lists@.len() {
            assert(n.lists@[i] == o.lists@[i]);
            assert(value_valid(o.lists@[i]@[j], o, data));
            lemma_value_valid_extends(o.lists@[i]@[j], o, n, data);
        } else {
            assert(n.lists@[i]@[j] == content[j]);
            lemma_value_valid_extends(content[j], o, n, data);
        }
    }
    assert forall|i: int, j: int|
        0 <= i < n.structs@.len() && 0 <= j < n.structs@[i].values@.len() implies value_valid(
        #[trigger] n.structs@[i].values@[j],
        n,
        data,
    ) by {
        lemma_value_valid_extends(o.structs@[i].values@[j], o, n, data);
    }
}

/// Allocating a struct with valid field values and an existing prototype of
/// the matching field count keeps the heap well-formed.
pub proof fn lemma_heap_wf_add_struct(o: Heap, n: Heap, data: Data, prototype: int, content: Seq<Value>)
    requires
        heap_wf(o, data),
        struct_cell_added(n, o, prototype, content),
        0 <= prototype < data.prototypes@.len(),
        content.len() == data.prototypes@[prototype].field_map@.len(),
        forall|j: int| 0 <= j < content.len() ==> value_valid(#[trigger] content[j], o, data),
    ensures
        heap_wf(n, data),
        heap_extends(n, o),
{
    assert(heap_extends(n, o));
    assert forall|i: int, j: int|
        0 <= i < n.lists@.len() && 0 <= j < n.lists@[i]@.len() implies value_valid(
        #[trigger] n.lists@[i]@[j],
        n,
        data,
    ) by {
        lemma_value_valid_extends(o.lists@[i]@[j], o, n, data);
    }
    assert forall|i: int|
        0 <= i < n.structs@.len() implies (#[trigger] n.structs@[i]).prototype
        < data.prototypes@.len() && n.structs@[i].values@.len()
        == data.prototypes@[n.structs@[i].prototype as int].field_map@.len() by {
        if i < o.structs@.len() {
            assert(n.structs@[i] == o.structs@[i]);
        }
    }
    assert forall|i: int, j: int|
        0 <= i < n.structs@.len() && 0 <= j < n.structs@[i].values@.len() implies value_valid(
        #[trigger] n.structs@[i].values@[j],
        n,
        data,
    ) by {
        if i < o.structs@.len() {
            assert(n.structs@[i] == o.structs@[i]);
            lemma_value_valid_extends(o.structs@[i].values@[j], o, n, data);
        } else {
            lemma_value_valid_extends(content[j], o, n, data);
        }
    }
}

/// Normalise an item index: a negative index counts back from the end.
pub open spec fn norm_index(i: int, n: int) -> int {
    if i < 0 {
        n + i
    } else {
        i
    }
}

/// Reference identity: two values denote the same heap cell (or the same
/// function). Equal contents in distinct cells are not `is`-identical.
pub open spec fn is_spec(a: Value, b: Value) -> bool
    decreases a,
{
    match (a, b) {
        (Value::Error(l), Value::Error(r)) => is_spec(*l, *r),
        (Value::Str(l), Value::Str(r)) => l == r,
        (Value::List(l), Value::List(r)) => l == r,
        (Value::Struct(l), Value::Struct(r)) => l == r,
        (Value::Function(l), Value::Function(r)) => l == r,
        _ => false,
    }
}

impl Value {
    /// The `is` operator: reference identity on the shared variants, index
    /// equality on functions, false everywhere else.
    pub fn is(&self, other: &Value) -> (r: bool)
        ensures
            r == is_spec(*self, *other),
        decreases self,
    {
        match (self, other) {
            (Value::Error(l), Value::Error(r)) => l.is(r),
            (Value::Str(l), Value::Str(r)) => l == r,
            (Value::List(l), Value::List(r)) => l == r,
            (Value::Struct(l), Value::Struct(r)) => l == r,
            (Value::Function(l), Value::Function(r)) => l == r,
            _ => false,
        }
    }

    /// The `int` coercion: booleans and floats become integers (floats by
    /// truncation, decided by the host); `int` of a string is an
    /// unimplemented fatal; everything else gives `Nil`.
    pub fn to_int<H: Host>(self, host: &mut H) -> (r: Result<Value, Fatal>)
        ensures
            self matches Value::Bool(b) ==> r == Ok::<Value, Fatal>(
                Value::Int(if b { 1i64 } else { 0i64 }),
            ),
            self is Int ==> r == Ok::<Value, Fatal>(self),
            self is Float ==> (r matches Ok(v) && v is Int),
            self is Str ==> (r matches Err(f) && f.message@
                == "int() of a string is not implemented"@),
            !(self is Bool || self is Int || self is Float || self is Str) ==> r == Ok::<
                Value,
                Fatal,
            >(Value::Nil),
    {
        match self {
            Value::Bool(b) => Ok(Value::Int(if b { 1 } else { 0 })),
            Value::Int(_) => Ok(self),
            Value::Float(bits) => Ok(Value::Int(host.float_to_int(bits))),
            Value::Str(_) => Err(Fatal { message: "int() of a string is not implemented".to_owned() }),
            _ => Ok(Value::Nil),
        }
    }

    /// The `float` coercion: booleans and integers are converted by the
    /// host; `float` of a string is an unimplemented fatal; everything else
    /// gives `Nil`.
    pub fn float<H: Host>(self, host: &mut H) -> (r: Result<Value, Fatal>)
        ensures
            self is Bool || self is Int ==> (r matches Ok(v) && v is Float),
            self is Float ==> r == Ok::<Value, Fatal>(self),
            self is Str ==> (r matches Err(f) && f.message@
                == "float() of a string is not implemented"@),
            !(self is Bool || self is Int || self is Float || self is Str) ==> r == Ok::<
                Value,
                Fatal,
            >(Value::Nil),
    {
        match self {
            Value::Bool(b) => Ok(Value::Float(host.float_of_int(if b { 1 } else { 0 }))),
            Value::Int(i) => Ok(Value::Float(host.float_of_int(i))),
            Value::Float(_) => Ok(self),
            Value::Str(_) => Err(
                Fatal { message: "float() of a string is not implemented".to_owned() },
            ),
            _ => Ok(Value::Nil),
        }
    }

    /// The `len` operator: the character count of a string, the element
    /// count of a list, `Nil` for everything else.
    pub fn len(self, heap: &Heap, data: &Data) -> (r: Value)
        requires
            value_valid(self, *heap, *data),
        ensures
            self matches Value::Str(s) ==> (r is Int && (heap.strings@[s as int]@.len()
                <= i64::MAX ==> r == Value::Int(heap.strings@[s as int]@.len() as i64))),
            self matches Value::List(l) ==> (r is Int && (heap.lists@[l as int]@.len() <= i64::MAX
                ==> r == Value::Int(heap.lists@[l as int]@.len() as i64))),
            !(self is Str || self is List) ==> r == Value::Nil,
    {
        match self {
            Value::Str(s) => {
                let n = heap.strings[s].as_str().unicode_len();
                Value::Int(#[verifier::truncate] (n as i64))
            },
            Value::List(l) => {
                let n = heap.lists[l].len();
                Value::Int(#[verifier::truncate] (n as i64))
            },
            _ => Value::Nil,
        }
    }

    /// The `getitem` operator. On a string: the character at the position,
    /// as a fresh one-character string, or `Nil` out of range. On a list:
    /// a copy of the element. A negative index counts back from the end.
    pub fn getitem(self, other: Value, heap: &mut Heap, data: &Data) -> (r: Value)
        requires
            value_valid(self, *old(heap), *data),
            heap_wf(*old(heap), *data),
        ensures
            heap_extends(*final(heap), *old(heap)),
            heap_wf(*final(heap), *data),
            value_valid(r, *final(heap), *data),
            final(heap).lists@ == old(heap).lists@,
            final(heap).structs@ == old(heap).structs@,
            self matches Value::Str(s) ==> other matches Value::Int(i) ==> {
                let cs = old(heap).strings@[s as int]@;
                let idx = norm_index(i as int, cs.len() as int);
                if 0 <= idx < cs.len() {
                    &&& r matches Value::Str(f)
                    &&& f == old(heap).strings@.len()
                    &&& final(heap).strings@[f as int]@ =~= seq![cs[idx]]
                } else {
                    r == Value::Nil
                }
            },
            self matches Value::List(l) ==> other matches Value::Int(i) ==> {
                let xs = old(heap).lists@[l as int]@;
                let idx = norm_index(i as int, xs.len() as int);
                if 0 <= idx < xs.len() {
                    r == xs[idx] && *final(heap) == *old(heap)
                } else {
                    r == Value::Nil && *final(heap) == *old(heap)
                }
            },
            !(self is Str || self is List) || !(other is Int)
                ==> r == Value::Nil && *final(heap) == *old(heap),
    {
        match (self, other) {
            (Value::Str(s), Value::Int(i)) => {
                let n = heap.strings[s].as_str().unicode_len();
                let idx128: i128 = if i < 0 {
                    (n as i128) + (i as i128)
                } else {
                    i as i128
                };
                if 0 <= idx128 && idx128 < (n as i128) {
                    let idx = idx128 as usize;
                    let one = heap.strings[s].as_str().substring_char(idx, idx + 1).to_owned();
                    proof {
                        assert(one@ =~= seq![old(heap).strings@[s as int]@[idx as int]]);
                    }
                    let id = heap.new_string(one);
                    proof {
                        lemma_heap_wf_grow(*old(heap), *heap, *data);
                    }
                    Value::Str(id)
                } else {
                    Value::Nil
                }
            },
            (Value::List(l), Value::Int(i)) => {
                let n = heap.lists[l].len();
                let idx128: i128 = if i < 0 {
                    (n as i128) + (i as i128)
                } else {
                    i as i128
                };
                if 0 <= idx128 && idx128 < (n as i128) {
                    let idx = idx128 as usize;
                    heap.lists[l][idx].clone()
                } else {
                    Value::Nil
                }
            },
            _ => Value::Nil,
        }
    }

    /// The `push` operator: a mutating append onto a shared list; `Nil` on
    /// anything else. Always returns `Nil`.
    pub fn push(self, other: Value, heap: &mut Heap, data: &Data) -> (r: Value)
        requires
            value_valid(self, *old(heap), *data),
            value_valid(other, *old(heap), *data),
            heap_wf(*old(heap), *data),
        ensures
            r == Value::Nil,
            heap_extends(*final(heap), *old(heap)),
            heap_wf(*final(heap), *data),
            self matches Value::List(l) ==> list_cell_updated(
                *final(heap),
                *old(heap),
                l as int,
                old(heap).lists@[l as int]@.push(other),
            ),
            !(self is List) ==> *final(heap) == *old(heap),
    {
        match self {
            Value::List(l) => {
                heap.list_push(l, other);
                proof {
                    lemma_heap_wf_list_push(*old(heap), *heap, *data, l as int, other);
                }
                Value::Nil
            },
            _ => Value::Nil,
        }
    }

    /// The `remove` operator: in-place removal at an index, returning the
    /// removed element, or `Nil` when the index is out of range or the
    /// operands have the wrong types. A negative index counts back from the
    /// end.
    pub fn remove(self, other: Value, heap: &mut Heap, data: &Data) -> (r: Value)
        requires
            value_valid(self, *old(heap), *data),
            heap_wf(*old(heap), *data),
        ensures
            heap_extends(*final(heap), *old(heap)),
            heap_wf(*final(heap), *data),
            value_valid(r, *final(heap), *data),
            self matches Value::List(l) ==> other matches Value::Int(i) ==> {
                let xs = old(heap).lists@[l as int]@;
                let idx = norm_index(i as int, xs.len() as int);
                if 0 <= idx < xs.len() {
                    r == xs[idx] && list_cell_updated(
                        *final(heap),
                        *old(heap),
                        l as int,
                        xs.remove(idx),
                    )
                } else {
                    r == Value::Nil && *final(heap) == *old(heap)
                }
            },
            !(self is List && other is Int) ==> r == Value::Nil && *final(heap) == *old(heap),
    {
        match (self, other) {
            (Value::List(l), Value::Int(i)) => {
                let n = heap.lists[l].len();
                let idx128: i128 = if i < 0 {
                    (n as i128) + (i as i128)
                } else {
                    i as i128
                };
                if 0 <= idx128 && idx128 < (n as i128) {
                    let idx = idx128 as usize;
                    let r = heap.list_take(l, idx);
                    proof {
                        lemma_heap_wf_list_remove(*old(heap), *heap, *data, l as int, idx as int);
                    }
                    r
                } else {
                    Value::Nil
                }
            },
            _ => Value::Nil,
        }
    }

    /// The `setitem` operator: in-place assignment into a shared list;
    /// silently does nothing when the index is out of range or a type is
    /// wrong. Always returns `Nil`. A negative index counts back from the
    /// end.
    pub fn setitem(self, key: Value, item: Value, heap: &mut Heap, data: &Data) -> (r: Value)
        requires
            value_valid(self, *old(heap), *data),
            value_valid(item, *old(heap), *data),
            heap_wf(*old(heap), *data),
        ensures
            r == Value::Nil,
            heap_extends(*final(heap), *old(heap)),
            heap_wf(*final(heap), *data),
            self matches Value::List(l) ==> key matches Value::Int(i) ==> {
                let xs = old(heap).lists@[l as int]@;
                let idx = norm_index(i as int, xs.len() as int);
                if 0 <= idx < xs.len() {
                    list_cell_updated(*final(heap), *old(heap), l as int, xs.update(idx, item))
                } else {
                    *final(heap) == *old(heap)
                }
            },
            !(self is List && key is Int) ==> *final(heap) == *old(heap),
    {
        match (self, key) {
            (Value::List(l), Value::Int(i)) => {
                let n = heap.lists[l].len();
                let idx128: i128 = if i < 0 {
                    (n as i128) + (i as i128)
                } else {
                    i as i128
                };
                if 0 <= idx128 && idx128 < (n as i128) {
                    let idx = idx128 as usize;
                    heap.list_set(l, idx, item);
                    proof {
                        lemma_heap_wf_list_set(
                            *old(heap),
                            *heap,
                            *data,
                            l as int,
                            idx as int,
                            item,
                        );
                    }
                }
                Value::Nil
            },
            _ => Value::Nil,
        }
    }
}

/// The display name of a value's type.
pub open spec fn type_name_seq(v: Value, heap: Heap, data: Data) -> Seq<char> {
    match v {
        Value::Nil => "nil"@,
        Value::IterEnd => "iterend"@,
        Value::Error(_) => "err"@,
        Value::Bool(_) => "bool"@,
        Value::Int(_) => "int"@,
        Value::Float(_) => "float"@,
        Value::Str(_) => "str"@,
        Value::List(_) => "list"@,
        Value::Struct(i) => data.prototypes@[heap.structs@[i as int].prototype as int].name@,
        Value::Function(_) => "function"@,
        Value::Method { .. } => "function"@,
    }
}

impl Value {
    /// The `type` operator: the name of the value's type as a fresh string;
    /// a struct reports its prototype's name, and a bound method counts as
    /// a function.
    pub fn typename(self, data: &Data, heap: &mut Heap) -> (r: Value)
        requires
            value_valid(self, *old(heap), *data),
            heap_wf(*old(heap), *data),
        ensures
            heap_extends(*final(heap), *old(heap)),
            heap_wf(*final(heap), *data),
            final(heap).lists@ == old(heap).lists@,
            final(heap).structs@ == old(heap).structs@,
            final(heap).strings@.len() == old(heap).strings@.len() + 1,
            r matches Value::Str(f) && f == old(heap).strings@.len()
                && final(heap).strings@[f as int]@ == type_name_seq(self, *old(heap), *data),
    {
        let name: String = match &self {
            Value::Nil => "nil".to_owned(),
            Value::IterEnd => "iterend".to_owned(),
            Value::Error(_) => "err".to_owned(),
            Value::Bool(_) => "bool".to_owned(),
            Value::Int(_) => "int".to_owned(),
            Value::Float(_) => "float".to_owned(),
            Value::Str(_) => "str".to_owned(),
            Value::List(_) => "list".to_owned(),
            Value::Struct(i) => data.prototypes[heap.structs[*i].prototype].name.clone(),
            Value::Function(_) => "function".to_owned(),
            Value::Method { .. } => "function".to_owned(),
        };
        let id = heap.new_string(name);
        proof {
            lemma_heap_wf_grow(*old(heap), *heap, *data);
        }
        Value::Str(id)
    }
}


impl Value {
    /// The `read` operator: the contents of the file named by a string, as
    /// a fresh string cell, or an error value carrying the host's failure
    /// message; a non-string argument is a `TypeError` error value.
    pub fn read<H: Host>(self, heap: &mut Heap, data: &Data, host: &mut H) -> (r: Value)
        requires
            value_valid(self, *old(heap), *data),
            heap_wf(*old(heap), *data),
        ensures
            heap_extends(*final(heap), *old(heap)),
            heap_wf(*final(heap), *data),
            value_valid(r, *final(heap), *data),
            final(heap).lists@ == old(heap).lists@,
            final(heap).structs@ == old(heap).structs@,
            self is Str ==> (r is Str || r is Error),
            !(self is Str) ==> {
                &&& r matches Value::Error(b)
                &&& *b == Value::Str(old(heap).strings@.len() as usize)
                &&& final(heap).strings@[old(heap).strings@.len() as int]@ == "TypeError"@
            },
    {
        match self {
            Value::Str(s) => {
                let outcome = host.read_file(heap.strings[s].as_str());
                let r = match outcome {
                    Result::Ok(text) => {
                        let id = heap.new_string(text);
                        Value::Str(id)
                    },
                    Result::Err(message) => {
                        let id = heap.new_string(message);
                        Value::Error(Box::new(Value::Str(id)))
                    },
                };
                proof {
                    lemma_heap_wf_grow(*old(heap), *heap, *data);
                    assert(value_ids_ok(
                        Value::Str(old(heap).strings@.len() as usize),
                        heap.strings@.len() as int,
                        heap.lists@.len() as int,
                        heap.structs@.len() as int,
                        data.functions@.len() as int,
                    ));
                }
                r
            },
            _ => {
                let r = Value::new_err(heap, "TypeError");
                proof {
                    lemma_heap_wf_grow(*old(heap), *heap, *data);
                    assert(value_ids_ok(
                        Value::Str(old(heap).strings@.len() as usize),
                        heap.strings@.len() as int,
                        heap.lists@.len() as int,
                        heap.structs@.len() as int,
                        data.functions@.len() as int,
                    ));
                }
                r
            },
        }
    }

    /// The `write` operator: store a string under a path, giving `true`, or
    /// an error value carrying the host's failure message; a non-string
    /// argument on either side is a `TypeError` error value.
    pub fn write<H: Host>(self, other: Value, heap: &mut Heap, data: &Data, host: &mut H) -> (r:
        Value)
        requires
            value_valid(self, *old(heap), *data),
            value_valid(other, *old(heap), *data),
            heap_wf(*old(heap), *data),
        ensures
            heap_extends(*final(heap), *old(heap)),
            heap_wf(*final(heap), *data),
            value_valid(r, *final(heap), *data),
            final(heap).lists@ == old(heap).lists@,
            final(heap).structs@ == old(heap).structs@,
            self is Str && other is Str ==> (r == Value::Bool(true) || r is Error),
            !(self is Str && other is Str) ==> {
                &&& r matches Value::Error(b)
                &&& *b == Value::Str(old(heap).strings@.len() as usize)
                &&& final(heap).strings@[old(heap).strings@.len() as int]@ == "TypeError"@
            },
    {
        match (&self, &other) {
            (Value::Str(path), Value::Str(contents)) => {
                let outcome = host.write_file(
                    heap.strings[*path].as_str(),
                    heap.strings[*contents].as_str(),
                );
                match outcome {
                    Result::Ok(_) => Value::Bool(true),
                    Result::Err(message) => {
                        let id = heap.new_string(message);
                        proof {
                            lemma_heap_wf_grow(*old(heap), *heap, *data);
                            assert(value_ids_ok(
                                Value::Str(id),
                                heap.strings@.len() as int,
                                heap.lists@.len() as int,
                                heap.structs@.len() as int,
                                data.functions@.len() as int,
                            ));
                        }
                        Value::Error(Box::new(Value::Str(id)))
                    },
                }
            },
            _ => {
                let r = Value::new_err(heap, "TypeError");
                proof {
                    lemma_heap_wf_grow(*old(heap), *heap, *data);
                    assert(value_ids_ok(
                        Value::Str(old(heap).strings@.len() as usize),
                        heap.strings@.len() as int,
                        heap.lists@.len() as int,
                        heap.structs@.len() as int,
                        data.functions@.len() as int,
                    ));
                }
                r
            },
        }
    }
}


impl Value {
    /// Field or method access on a value. On a struct, a field wins over a
    /// method of the same name: a field hit copies the stored value, a
    /// method hit binds the method to the struct, and a miss is a
    /// `FieldDoesNotExist` error value. Any other receiver gives `Nil`.
    pub fn get_field(&self, data: &Data, heap: &mut Heap, field_id: usize) -> (r: Value)
        requires
            value_valid(*self, *old(heap), *data),
            heap_wf(*old(heap), *data),
            data_wf(*data),
        ensures
            heap_extends(*final(heap), *old(heap)),
            heap_wf(*final(heap), *data),
            value_valid(r, *final(heap), *data),
            final(heap).lists@ == old(heap).lists@,
            final(heap).structs@ == old(heap).structs@,
            self matches Value::Struct(st) ==> {
                let proto = old(heap).structs@[st as int].prototype;
                let fields = data.prototypes@[proto as int].field_map@;
                let methods = data.prototypes@[proto as int].method_map@;
                match pairs_lookup(fields, field_id) {
                    Option::Some(slot) => r == old(heap).structs@[st as int].values@[slot as int]
                        && *final(heap) == *old(heap),
                    Option::None => match pairs_lookup(methods, field_id) {
                        Option::Some(fid) => r == (Value::Method {
                            function_id: fid,
                            instance: *st,
                        }) && *final(heap) == *old(heap),
                        Option::None => {
                            &&& r matches Value::Error(inner)
                            &&& *inner == Value::Str(old(heap).strings@.len() as usize)
                            &&& final(heap).strings@[old(heap).strings@.len() as int]@
                                == "FieldDoesNotExist"@
                        },
                    },
                }
            },
            !(self is Struct) ==> r == Value::Nil && *final(heap) == *old(heap),
    {
        match self {
            Value::Struct(st) => {
                let proto = heap.structs[*st].prototype;
                match data.prototypes[proto].find_field(field_id) {
                    Option::Some(slot) => {
                        proof {
                            lemma_pairs_lookup_in_range(
                                data.prototypes@[proto as int].field_map@,
                                field_id,
                                data.prototypes@[proto as int].field_map@.len() as int,
                            );
                        }
                        heap.structs[*st].values[slot].clone()
                    },
                    Option::None => match data.prototypes[proto].find_method(field_id) {
                        Option::Some(fid) => {
                            proof {
                                lemma_pairs_lookup_in_range(
                                    data.prototypes@[proto as int].method_map@,
                                    field_id,
                                    data.functions@.len() as int,
                                );
                            }
                            Value::Method { function_id: fid, instance: *st }
                        },
                        Option::None => {
                            let r = Value::new_err(heap, "FieldDoesNotExist");
                            proof {
                                lemma_heap_wf_grow(*old(heap), *heap, *data);
                                assert(value_ids_ok(
                                    Value::Str(old(heap).strings@.len() as usize),
                                    heap.strings@.len() as int,
                                    heap.lists@.len() as int,
                                    heap.structs@.len() as int,
                                    data.functions@.len() as int,
                                ));
                            }
                            r
                        },
                    },
                }
            },
            _ => Value::Nil,
        }
    }
}


/// `is` is reference identity: a shared list is itself, and two distinct
/// cells are never `is`-identical, however equal their contents.
pub proof fn lemma_is_reference_identity(l1: usize, l2: usize)
    ensures
        is_spec(Value::List(l1), Value::List(l1)) == true,
        l1 != l2 ==> is_spec(Value::List(l1), Value::List(l2)) == false,
{
}

/// Writing a list slot and reading it back gives the written value: after
/// `setitem` stores `v` at an in-range non-negative index, `getitem` of that
/// index finds `v`.
pub proof fn lemma_setitem_getitem_roundtrip(
    before: Heap,
    after: Heap,
    l: int,
    i: int,
    v: Value,
)
    requires
        0 <= l < before.lists@.len(),
        0 <= i < before.lists@[l]@.len(),
        list_cell_updated(after, before, l, before.lists@[l]@.update(i, v)),
    ensures
        after.lists@[l]@[norm_index(i, after.lists@[l]@.len() as int)] == v,
{
}

/// `err` is idempotent: wrapping an already-wrapped value changes nothing.
pub proof fn lemma_err_idempotent(v: Value)
    ensures
        err_spec(err_spec(v)) == err_spec(v),
{
}

/// `bool` is idempotent: a truthiness test of a truthiness test gives the
/// same boolean.
pub proof fn lemma_bool_idempotent(v: Value)
    ensures
        bool_spec(bool_spec(v)) == bool_spec(v),
{
}

} // verus!
