//! Structural equality and searching.
//!
//! `eq` is structural and cross-numeric: booleans, integers and floats
//! compare by value, strings by contents, lists and structs element-wise
//! (over the zipped common prefix, as far as both have elements). Because
//! shared cells can form cycles, the recursion carries a depth budget; a
//! value too deep for it is a fatal error rather than a crash.
//!
//! The specification [`eq_spec`] decides every comparison that involves no
//! float and stays within the depth budget; what a float comparison returns
//! is the host's business, but even then a `true` answer is only ever given
//! for operands of one type group ([`type_compatible`]).

use crate::arith::{is_numeric, small_int_of};
use crate::host::Host;
use crate::ir::Data;
use crate::value::{heap_wf, type_name_seq, value_valid, Fatal, Heap, Value};
use vstd::prelude::*;
use vstd::string::StrSliceExecFns;

verus! {

/// The depth budget for comparing and rendering values. Only a cyclic (or
/// absurdly deep) value exceeds it; the language treats that as fatal.
pub const VALUE_DEPTH: u64 = 4096;

/// What `eq` returns, where that is decided by the operands and the heap
/// alone: `None` where a float comparison (host arithmetic) is involved or
/// the depth budget runs out.
pub open spec fn eq_spec(a: Value, b: Value, heap: Heap, depth: nat) -> Option<bool>
    decreases depth, a,
{
    match (a, b) {
        (Value::Nil, Value::Nil) => Some(false),
        (Value::Error(l), Value::Error(r)) => eq_spec(*l, *r, heap, depth),
        (Value::Bool(l), Value::Bool(r)) => Some(l == r),
        (Value::Bool(l), Value::Int(r)) => Some(small_int_of(a) == r),
        (Value::Int(l), Value::Bool(r)) => Some(l == small_int_of(b)),
        (Value::Int(l), Value::Int(r)) => Some(l == r),
        (Value::Bool(_), Value::Float(_)) => None,
        (Value::Float(_), Value::Bool(_)) => None,
        (Value::Int(_), Value::Float(_)) => None,
        (Value::Float(_), Value::Int(_)) => None,
        (Value::Float(_), Value::Float(_)) => None,
        (Value::Str(l), Value::Str(r)) => Some(
            heap.strings@[l as int]@ == heap.strings@[r as int]@,
        ),
        (Value::List(l), Value::List(r)) => if depth == 0 {
            None
        } else {
            eq_zip_spec(
                heap.lists@[l as int]@,
                heap.lists@[r as int]@,
                heap,
                (depth - 1) as nat,
            )
        },
        (Value::Struct(l), Value::Struct(r)) => if depth == 0 {
            None
        } else if heap.structs@[l as int].prototype != heap.structs@[r as int].prototype {
            Some(false)
        } else {
            eq_zip_spec(
                heap.structs@[l as int].values@,
                heap.structs@[r as int].values@,
                heap,
                (depth - 1) as nat,
            )
        },
        (Value::Function(l), Value::Function(r)) => Some(l == r),
        _ => Some(false),
    }
}

/// Element-wise comparison over the zipped common prefix of two sequences:
/// true when every zipped pair is equal; the first unequal pair decides
/// false; undecided as soon as an undecided pair is reached first.
pub open spec fn eq_zip_spec(xs: Seq<Value>, ys: Seq<Value>, heap: Heap, depth: nat) -> Option<
    bool,
>
    decreases depth, xs,
{
    if xs.len() == 0 || ys.len() == 0 {
        Some(true)
    } else {
        match eq_spec(xs[0], ys[0], heap, depth) {
            Option::None => None,
            Option::Some(false) => Some(false),
            Option::Some(true) => eq_zip_spec(xs.skip(1), ys.skip(1), heap, depth),
        }
    }
}

/// Two values of one type group: both numeric, or of equal type name (for
/// structs: the same prototype).
pub open spec fn type_compatible(a: Value, b: Value, heap: Heap, data: Data) -> bool {
    (is_numeric(a) && is_numeric(b)) || type_name_seq(a, heap, data) == type_name_seq(
        b,
        heap,
        data,
    )
}

impl Value {
    /// The `eq` operator. Everything [`eq_spec`] decides is returned as it
    /// decides it; a float comparison is answered by the host; a value
    /// deeper than the depth budget is fatal. A `true` answer never crosses
    /// type groups.
    pub fn eq<H: Host>(
        &self,
        other: &Value,
        heap: &Heap,
        host: &mut H,
        data: &Data,
        depth: u64,
    ) -> (r: Result<bool, Fatal>)
        requires
            value_valid(*self, *heap, *data),
            value_valid(*other, *heap, *data),
            heap_wf(*heap, *data),
        ensures
            eq_spec(*self, *other, *heap, depth as nat) matches Some(x) ==> r == Ok::<
                bool,
                Fatal,
            >(x),
            r == Ok::<bool, Fatal>(true) ==> type_compatible(*self, *other, *heap, *data),
        decreases depth, 0int, self,
    {
        match (self, other) {
            (Value::Error(l), Value::Error(r)) => l.eq(r, heap, host, data, depth),
            (Value::Bool(l), Value::Bool(r)) => Ok(l == r),
            (Value::Bool(l), Value::Int(r)) => Ok((if *l { 1i64 } else { 0i64 }) == *r),
            (Value::Int(l), Value::Bool(r)) => Ok(*l == (if *r { 1i64 } else { 0i64 })),
            (Value::Int(l), Value::Int(r)) => Ok(l == r),
            (Value::Bool(l), Value::Float(r)) => {
                let lf = host.float_of_int(if *l { 1 } else { 0 });
                Ok(host.float_eq(lf, *r))
            },
            (Value::Float(l), Value::Float(r)) => Ok(host.float_eq(*l, *r)),
            (Value::Float(l), Value::Bool(r)) => {
                let rf = host.float_of_int(if *r { 1 } else { 0 });
                Ok(host.float_eq(*l, rf))
            },
            (Value::Int(l), Value::Float(r)) => {
                let lf = host.float_of_int(*l);
                Ok(host.float_eq(lf, *r))
            },
            (Value::Float(l), Value::Int(r)) => {
                let rf = host.float_of_int(*r);
                Ok(host.float_eq(*l, rf))
            },
            (Value::Str(l), Value::Str(r)) => Ok(heap.strings[*l] == heap.strings[*r]),
            (Value::List(l), Value::List(r)) => {
                if depth == 0 {
                    return Err(Fatal { message: "value too deep to compare".to_owned() });
                }
                self.eq_zip_lists(*l, *r, heap, host, data, depth - 1)
            },
            (Value::Struct(l), Value::Struct(r)) => {
                if depth == 0 {
                    return Err(Fatal { message: "value too deep to compare".to_owned() });
                }
                if heap.structs[*l].prototype != heap.structs[*r].prototype {
                    return Ok(false);
                }
                self.eq_zip_structs(*l, *r, heap, host, data, depth - 1)
            },
            (Value::Function(l), Value::Function(r)) => Ok(l == r),
            _ => Ok(false),
        }
    }

    /// Compare two list cells element-wise; `self` is the list value,
    /// carried only for the termination measure.
    fn eq_zip_lists<H: Host>(
        &self,
        a: usize,
        b: usize,
        heap: &Heap,
        host: &mut H,
        data: &Data,
        depth: u64,
    ) -> (r: Result<bool, Fatal>)
        requires
            heap_wf(*heap, *data),
            a < heap.lists@.len(),
            b < heap.lists@.len(),
        ensures
            eq_zip_spec(
                heap.lists@[a as int]@,
                heap.lists@[b as int]@,
                *heap,
                depth as nat,
            ) matches Some(x) ==> r == Ok::<bool, Fatal>(x),
        decreases depth, 1int, self,
    {
        let ghost xs = heap.lists@[a as int]@;
        let ghost ys = heap.lists@[b as int]@;
        let n = heap.lists[a].len();
        let m = heap.lists[b].len();
        let bound = if n < m {
            n
        } else {
            m
        };
        proof {
            assert(xs.skip(0) =~= xs);
            assert(ys.skip(0) =~= ys);
        }
        let mut i: usize = 0;
        while i < bound
            invariant
                heap_wf(*heap, *data),
                a < heap.lists@.len(),
                b < heap.lists@.len(),
                xs == heap.lists@[a as int]@,
                ys == heap.lists@[b as int]@,
                n == xs.len(),
                m == ys.len(),
                bound == if n < m {
                    n
                } else {
                    m
                },
                0 <= i <= bound,
                eq_zip_spec(xs, ys, *heap, depth as nat) == eq_zip_spec(
                    xs.skip(i as int),
                    ys.skip(i as int),
                    *heap,
                    depth as nat,
                ) || eq_zip_spec(xs, ys, *heap, depth as nat) is None,
            decreases bound - i,
        {
            proof {
                assert(xs.skip(i as int)[0] == xs[i as int]);
                assert(ys.skip(i as int)[0] == ys[i as int]);
                assert(xs.skip(i as int).skip(1) =~= xs.skip(i as int + 1));
                assert(ys.skip(i as int).skip(1) =~= ys.skip(i as int + 1));
            }
            let e = heap.lists[a][i].eq(&heap.lists[b][i], heap, host, data, depth)?;
            if !e {
                return Ok(false);
            }
            i = i + 1;
        }
        Ok(true)
    }

    /// Compare two struct cells field-wise; `self` is the struct value,
    /// carried only for the termination measure.
    fn eq_zip_structs<H: Host>(
        &self,
        a: usize,
        b: usize,
        heap: &Heap,
        host: &mut H,
        data: &Data,
        depth: u64,
    ) -> (r: Result<bool, Fatal>)
        requires
            heap_wf(*heap, *data),
            a < heap.structs@.len(),
            b < heap.structs@.len(),
        ensures
            eq_zip_spec(
                heap.structs@[a as int].values@,
                heap.structs@[b as int].values@,
                *heap,
                depth as nat,
            ) matches Some(x) ==> r == Ok::<bool, Fatal>(x),
        decreases depth, 1int, self,
    {
        let ghost xs = heap.structs@[a as int].values@;
        let ghost ys = heap.structs@[b as int].values@;
        let n = heap.structs[a].values.len();
        let m = heap.structs[b].values.len();
        let bound = if n < m {
            n
        } else {
            m
        };
        proof {
            assert(xs.skip(0) =~= xs);
            assert(ys.skip(0) =~= ys);
        }
        let mut i: usize = 0;
        while i < bound
            invariant
                heap_wf(*heap, *data),
                a < heap.structs@.len(),
                b < heap.structs@.len(),
                xs == heap.structs@[a as int].values@,
                ys == heap.structs@[b as int].values@,
                n == xs.len(),
                m == ys.len(),
                bound == if n < m {
                    n
                } else {
                    m
                },
                0 <= i <= bound,
                eq_zip_spec(xs, ys, *heap, depth as nat) == eq_zip_spec(
                    xs.skip(i as int),
                    ys.skip(i as int),
                    *heap,
                    depth as nat,
                ) || eq_zip_spec(xs, ys, *heap, depth as nat) is None,
            decreases bound - i,
        {
            proof {
                assert(xs.skip(i as int)[0] == xs[i as int]);
                assert(ys.skip(i as int)[0] == ys[i as int]);
                assert(xs.skip(i as int).skip(1) =~= xs.skip(i as int + 1));
                assert(ys.skip(i as int).skip(1) =~= ys.skip(i as int + 1));
            }
            let e = heap.structs[a].values[i].eq(
                &heap.structs[b].values[i],
                heap,
                host,
                data,
                depth,
            )?;
            if !e {
                return Ok(false);
            }
            i = i + 1;
        }
        Ok(true)
    }
}

/// Whether the needle matches the haystack at position `i`.
pub open spec fn is_match_at(h: Seq<char>, n: Seq<char>, i: int) -> bool {
    0 <= i && i + n.len() <= h.len() && h.subrange(i, i + n.len()) == n
}

/// The first match position of the needle at or after `i`, if any.
pub open spec fn find_sub_from(h: Seq<char>, n: Seq<char>, i: int) -> Option<int>
    decreases h.len() - i + 1,
{
    if i < 0 || i + n.len() > h.len() {
        None
    } else if is_match_at(h, n, i) {
        Some(i)
    } else {
        find_sub_from(h, n, i + 1)
    }
}

/// A match found at or after `from` lies within the haystack.
pub proof fn lemma_find_sub_from_bounds(h: Seq<char>, n: Seq<char>, from: int)
    requires
        find_sub_from(h, n, from) is Some,
    ensures
        from <= find_sub_from(h, n, from)->Some_0,
        find_sub_from(h, n, from)->Some_0 + n.len() <= h.len(),
    decreases h.len() - from + 1,
{
    if !(from < 0 || from + n.len() > h.len()) && !is_match_at(h, n, from) {
        lemma_find_sub_from_bounds(h, n, from + 1);
    }
}

/// The UTF-8 byte offset of character position `i` in `h`: the encoded
/// length of everything before it.
pub open spec fn byte_offset(h: Seq<char>, i: int) -> int {
    vstd::utf8::encode_utf8(h.take(i)).len() as int
}

/// The first position at which `v` equals an element of `xs`, where that is
/// decided: `None` when an undecided comparison is reached first.
pub open spec fn find_eq_spec(xs: Seq<Value>, v: Value, heap: Heap, depth: nat) -> Option<
    Option<int>,
>
    decreases xs,
{
    if xs.len() == 0 {
        Some(None)
    } else {
        match eq_spec(xs[0], v, heap, depth) {
            Option::None => None,
            Option::Some(true) => Some(Some(0)),
            Option::Some(false) => match find_eq_spec(xs.skip(1), v, heap, depth) {
                Option::None => None,
                Option::Some(Option::None) => Some(None),
                Option::Some(Option::Some(i)) => Some(Some(i + 1)),
            },
        }
    }
}

/// A found-position shifted by an offset: how [`find_eq_spec`] of a suffix
/// relates to the whole sequence.
pub open spec fn shift_found(o: Option<Option<int>>, i: int) -> Option<Option<int>> {
    match o {
        Option::None => None,
        Option::Some(Option::None) => Some(None),
        Option::Some(Option::Some(k)) => Some(Some(k + i)),
    }
}

/// Whether the needle matches the haystack at char position `at`.
#[verifier::loop_isolation(false)]
fn match_at(hay: &String, needle: &String, at: usize) -> (r: bool)
    requires
        at + needle@.len() <= hay@.len(),
        hay@.len() <= usize::MAX,
    ensures
        r == is_match_at(hay@, needle@, at as int),
{
    let nlen = needle.as_str().unicode_len();
    let mut j: usize = 0;
    while j < nlen
        invariant
            nlen == needle@.len(),
            at + nlen <= hay@.len(),
            0 <= j <= nlen,
            forall|k: int| 0 <= k < j ==> hay@[at + k] == needle@[k],
        decreases nlen - j,
    {
        if hay.as_str().get_char(at + j) != needle.as_str().get_char(j) {
            proof {
                assert(hay@.subrange(at as int, at + nlen) != needle@) by {
                    assert(hay@.subrange(at as int, at + nlen)[j as int] == hay@[at + j]);
                }
            }
            return false;
        }
        j = j + 1;
    }
    proof {
        assert(hay@.subrange(at as int, at + nlen) =~= needle@);
    }
    true
}

/// Find the first occurrence of `needle` in `hay`, as a character position.
#[verifier::loop_isolation(false)]
pub(crate) fn find_sub(hay: &String, needle: &String) -> (r: Option<usize>)
    ensures
        match find_sub_from(hay@, needle@, 0) {
            Option::Some(i) => 0 <= i <= usize::MAX && r == Some(i as usize),
            Option::None => r is None,
        },
{
    let hlen = hay.as_str().unicode_len();
    let nlen = needle.as_str().unicode_len();
    if nlen > hlen {
        return None;
    }
    let last = hlen - nlen;
    let mut i: usize = 0;
    while i <= last
        invariant
            hlen == hay@.len(),
            nlen == needle@.len(),
            nlen <= hlen,
            last == hlen - nlen,
            0 <= i <= last + 1,
            find_sub_from(hay@, needle@, 0) == find_sub_from(hay@, needle@, i as int),
        decreases last - i + 1,
    {
        if match_at(hay, needle, i) {
            proof {
                assert(find_sub_from(hay@, needle@, i as int) == Some(i as int));
            }
            return Some(i);
        }
        if i == last {
            proof {
                assert(find_sub_from(hay@, needle@, i as int + 1) is None);
            }
            return None;
        }
        i = i + 1;
    }
    None
}

impl Value {
    /// The `index` operator: on a string, the byte offset (in the UTF-8
    /// form) of the first occurrence of a substring; on a list, the position of the
    /// first element equal to the needle; `Nil` when absent or on other
    /// types. Comparing elements of a too-deep value is fatal.
    #[verifier::loop_isolation(false)]
    pub fn index<H: Host>(
        self,
        other: Value,
        heap: &Heap,
        host: &mut H,
        data: &Data,
        depth: u64,
    ) -> (r: Result<Value, Fatal>)
        requires
            value_valid(self, *heap, *data),
            value_valid(other, *heap, *data),
            heap_wf(*heap, *data),
        ensures
            r matches Ok(v) ==> (v is Int || v is Nil),
            self matches Value::Str(h) ==> other matches Value::Str(n) ==> match find_sub_from(
                heap.strings@[h as int]@,
                heap.strings@[n as int]@,
                0,
            ) {
                Option::Some(i) => {
                    let off = byte_offset(heap.strings@[h as int]@, i);
                    off <= usize::MAX && off <= i64::MAX ==> r == Ok::<Value, Fatal>(
                        Value::Int(off as i64),
                    )
                },
                Option::None => r == Ok::<Value, Fatal>(Value::Nil),
            },
            self is Str && !(other is Str) ==> r == Ok::<Value, Fatal>(Value::Nil),
            self matches Value::List(l) ==> match find_eq_spec(
                heap.lists@[l as int]@,
                other,
                *heap,
                depth as nat,
            ) {
                Option::Some(found) => match found {
                    Option::Some(i) => i <= i64::MAX ==> r == Ok::<Value, Fatal>(
                        Value::Int(i as i64),
                    ),
                    Option::None => r == Ok::<Value, Fatal>(Value::Nil),
                },
                Option::None => true,
            },
            !(self is Str || self is List) ==> r == Ok::<Value, Fatal>(Value::Nil),
    {
        match self {
            Value::Str(h) => match other {
                Value::Str(n) => match find_sub(&heap.strings[h], &heap.strings[n]) {
                    Option::Some(i) => {
                        // The found position counts characters; the result
                        // reports the byte offset of that position in the
                        // string's UTF-8 form.
                        proof {
                            lemma_find_sub_from_bounds(
                                heap.strings@[h as int]@,
                                heap.strings@[n as int]@,
                                0,
                            );
                        }
                        let prefix = heap.strings[h].as_str().substring_char(0, i);
                        let off = prefix.len();
                        Ok(Value::Int(#[verifier::truncate] (off as i64)))
                    },
                    Option::None => Ok(Value::Nil),
                },
                _ => Ok(Value::Nil),
            },
            Value::List(l) => {
                let ghost xs = heap.lists@[l as int]@;
                proof {
                    assert(xs.skip(0) =~= xs);
                }
                let n = heap.lists[l].len();
                let mut i: usize = 0;
                while i < n
                    invariant
                        heap_wf(*heap, *data),
                        value_valid(other, *heap, *data),
                        l < heap.lists@.len(),
                        xs == heap.lists@[l as int]@,
                        n == xs.len(),
                        0 <= i <= n,
                        find_eq_spec(xs, other, *heap, depth as nat) is None || find_eq_spec(
                            xs,
                            other,
                            *heap,
                            depth as nat,
                        ) == shift_found(
                            find_eq_spec(xs.skip(i as int), other, *heap, depth as nat),
                            i as int,
                        ),
                    decreases n - i,
                {
                    proof {
                        assert(xs.skip(i as int)[0] == xs[i as int]);
                        assert(xs.skip(i as int).skip(1) =~= xs.skip(i as int + 1));
                    }
                    let e = heap.lists[l][i].eq(&other, heap, host, data, depth)?;
                    if e {
                        return Ok(Value::Int(#[verifier::truncate] (i as i64)));
                    }
                    i = i + 1;
                }
                Ok(Value::Nil)
            },
            _ => Ok(Value::Nil),
        }
    }
}

} // verus!
