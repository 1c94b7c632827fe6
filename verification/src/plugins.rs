//! The host-provided plugin operations, dispatched by table index.
//!
//! A plugin receives the unevaluated argument expressions, so it decides
//! what to evaluate; a wrong argument count is a fatal error raised by the
//! plugin itself. The table holds one operation: `split`, which cuts a
//! string at every occurrence of a separator.

use crate::eq::{find_sub_from, is_match_at, lemma_find_sub_from_bounds};
use crate::host::Host;
use crate::ir::{data_wf, exprs_wf, Data, Expr, PLUGIN_COUNT};
use crate::state::{eval, frame_size, state_wf, State};
use crate::value::{
    heap_extends, heap_wf, lemma_heap_wf_add_list, lemma_heap_wf_grow, value_valid, Fatal, Heap,
    Value,
};
use vstd::prelude::*;
use vstd::string::{StrSliceExecFns, StringExecFns};

verus! {

broadcast use crate::value::lemma_value_valid_extends, crate::value::lemma_heap_extends_trans;

/// One single-character piece per character of `h`.
pub open spec fn chars_of(h: Seq<char>) -> Seq<Seq<char>> {
    Seq::new(h.len(), |i: int| seq![h[i]])
}

/// The pieces of `h` between non-overlapping, leftmost-first occurrences of
/// a non-empty separator.
pub open spec fn split_at_seps(h: Seq<char>, sep: Seq<char>) -> Seq<Seq<char>>
    decreases h.len(),
{
    if sep.len() == 0 {
        Seq::empty()
    } else {
        match find_sub_from(h, sep, 0) {
            Option::None => seq![h],
            Option::Some(i) => if 0 <= i && i + sep.len() <= h.len() {
                seq![h.take(i)] + split_at_seps(h.skip(i + sep.len()), sep)
            } else {
                seq![h]
            },
        }
    }
}

/// What `split` produces: with an empty separator, an empty piece, then one
/// piece per character, then an empty piece (each character boundary is a
/// cut); otherwise the pieces between separator occurrences.
pub open spec fn split_spec(h: Seq<char>, sep: Seq<char>) -> Seq<Seq<char>> {
    if sep.len() == 0 {
        seq![Seq::<char>::empty()] + chars_of(h) + seq![Seq::<char>::empty()]
    } else {
        split_at_seps(h, sep)
    }
}

/// Cut a string at every occurrence of the separator, returning the pieces
/// as fresh string cells collected into a fresh list cell.
#[verifier::loop_isolation(false)]
pub fn split_string(hay: &String, sep: &String, heap: &mut Heap, data: &Data) -> (r: Value)
    requires
        heap_wf(*old(heap), *data),
    ensures
        heap_extends(*final(heap), *old(heap)),
        heap_wf(*final(heap), *data),
        value_valid(r, *final(heap), *data),
        r == Value::List(old(heap).lists@.len() as usize),
        final(heap).lists@.len() == old(heap).lists@.len() + 1,
        ({
            let pieces = split_spec(hay@, sep@);
            let cell = final(heap).lists@[old(heap).lists@.len() as int]@;
            &&& cell.len() == pieces.len()
            &&& forall|k: int|
                0 <= k < cell.len() ==> ({
                    &&& #[trigger] cell[k] matches Value::Str(id)
                    &&& id < final(heap).strings@.len()
                    &&& final(heap).strings@[id as int]@ == pieces[k]
                })
        }),
{
    let ghost pieces = split_spec(hay@, sep@);
    let mut segments: Vec<String> = Vec::new();
    let seplen = sep.as_str().unicode_len();
    if seplen == 0 {
        let hlen = hay.as_str().unicode_len();
        segments.push(String::new());
        let mut k: usize = 0;
        while k < hlen
            invariant
                hlen == hay@.len(),
                0 <= k <= hlen,
                segments@.len() == k + 1,
                segments@[0]@ == Seq::<char>::empty(),
                forall|j: int|
                    1 <= j < segments@.len() ==> (#[trigger] segments@[j])@ == seq![hay@[j - 1]],
            decreases hlen - k,
        {
            let piece = hay.as_str().substring_char(k, k + 1).to_owned();
            proof {
                assert(piece@ =~= seq![hay@[k as int]]);
            }
            segments.push(piece);
            k = k + 1;
        }
        segments.push(String::new());
        proof {
            assert forall|j: int| 0 <= j < pieces.len() implies segments@[j]@ == pieces[j] by {
                if 1 <= j < pieces.len() - 1 {
                    assert(pieces[j] == chars_of(hay@)[j - 1]);
                }
            }
            assert(segments@.len() == pieces.len());
        }
    } else {
        let mut rest: String = hay.clone();
        loop
            invariant
                sep@.len() == seplen,
                seplen >= 1,
                split_at_seps(hay@, sep@) =~= seq_views(segments@) + split_at_seps(rest@, sep@),
            decreases rest@.len(),
        {
            let rlen = rest.as_str().unicode_len();
            match crate::eq::find_sub(&rest, sep) {
                Option::None => {
                    segments.push(rest);
                    break;
                },
                Option::Some(i) => {
                    proof {
                        lemma_find_sub_from_bounds(rest@, sep@, 0);
                    }
                    let piece = rest.as_str().substring_char(0, i).to_owned();
                    proof {
                        assert(piece@ =~= rest@.take(i as int));
                    }
                    let tail = rest.as_str().substring_char(i + seplen, rlen).to_owned();
                    proof {
                        assert(tail@ =~= rest@.skip(i + seplen));
                        assert(seq_views(segments@.push(piece)) =~= seq_views(segments@) + seq![
                            piece@,
                        ]);
                        assert(seq_views(segments@) + seq![piece@] + split_at_seps(tail@, sep@)
                            =~= seq_views(segments@) + (seq![rest@.take(i as int)]
                            + split_at_seps(rest@.skip(i + seplen), sep@)));
                    }
                    segments.push(piece);
                    rest = tail;
                },
            }
        }
        proof {
            assert(split_at_seps(rest@, sep@) == seq![rest@]) by {
                assert(find_sub_from(rest@, sep@, 0) is None);
            }
            assert(seq_views(segments@) =~= pieces);
        }
    }
    let ghost views = seq_views(segments@);
    let mut cells: Vec<Value> = Vec::new();
    let nseg = segments.len();
    let mut k: usize = 0;
    while k < nseg
        invariant
            nseg == segments@.len(),
            views == seq_views(segments@),
            views.len() == pieces.len(),
            forall|j: int| 0 <= j < views.len() ==> views[j] == pieces[j],
            heap_wf(*heap, *data),
            heap_extends(*heap, *old(heap)),
            heap.lists@ == old(heap).lists@,
            heap.structs@ == old(heap).structs@,
            0 <= k <= nseg,
            cells@.len() == k,
            forall|j: int|
                0 <= j < cells@.len() ==> ({
                    &&& #[trigger] cells@[j] matches Value::Str(id)
                    &&& id < heap.strings@.len()
                    &&& heap.strings@[id as int]@ == pieces[j]
                }),
        decreases nseg - k,
    {
        let ghost mid = *heap;
        let piece = segments[k].clone();
        let id = heap.new_string(piece);
        proof {
            lemma_heap_wf_grow(mid, *heap, *data);
            assert forall|j: int| 0 <= j < cells@.len() implies ({
                &&& #[trigger] cells@[j] matches Value::Str(id2)
                &&& id2 < heap.strings@.len()
                &&& heap.strings@[id2 as int]@ == pieces[j]
            }) by {
                assert(cells@[j] matches Value::Str(id2) && id2 < mid.strings@.len()
                    && mid.strings@[id2 as int]@ == pieces[j]);
            }
        }
        cells.push(Value::Str(id));
        k = k + 1;
    }
    let ghost content = cells@;
    let ghost before_list = *heap;
    let id = heap.new_list(cells);
    proof {
        assert forall|j: int| 0 <= j < content.len() implies value_valid(
            #[trigger] content[j],
            before_list,
            *data,
        ) by {
            assert(content[j] matches Value::Str(s) && s < before_list.strings@.len());
        }
        lemma_heap_wf_add_list(before_list, *heap, *data, content);
    }
    Value::List(id)
}

/// The views of a sequence of strings.
pub open spec fn seq_views(ss: Seq<String>) -> Seq<Seq<char>> {
    Seq::new(ss.len(), |i: int| ss[i]@)
}

/// The `split` plugin: two arguments, a string and a separator; anything
/// else of the right arity gives `Nil`, and a wrong argument count is
/// fatal. The result is a fresh list of fresh string pieces.
#[verifier::loop_isolation(false)]
fn split<H: Host>(data: &Data, state: &mut State, host: &mut H, parameters: &Vec<Expr>) -> (r:
    Result<Value, Fatal>)
    requires
        data_wf(*data),
        state_wf(*old(state), *data),
        exprs_wf(parameters@, *data, frame_size(*old(state))),
    ensures
        state_wf(*final(state), *data),
        final(state).variables@.len() == old(state).variables@.len(),
        final(state).variables_begin == old(state).variables_begin,
        heap_extends(final(state).heap, old(state).heap),
        final(state).fuel <= old(state).fuel,
        r matches Ok(v) ==> value_valid(v, final(state).heap, *data),
        parameters@.len() != 2 ==> r is Err,
        crate::state::agrees_expr(
            crate::semantics::plugin_spec(
                parameters@,
                *data,
                old(state).heap,
                old(state).variables@,
                old(state).variables_begin as int,
                old(state).fuel as nat,
            ),
            *old(state),
            *final(state),
            r,
        ),
    decreases state.fuel, parameters, 0int,
{
    if parameters.len() != 2 {
        return Err(Fatal { message: "wrong number of arguments to split()".to_owned() });
    }
    proof {
        crate::ir::lemma_exprs_wf_index(parameters@, *data, frame_size(*old(state)), 0);
        crate::ir::lemma_exprs_wf_index(parameters@, *data, frame_size(*old(state)), 1);
    }
    let subject = eval(&parameters[0], data, state, host)?;
    let separator = eval(&parameters[1], data, state, host)?;
    match (subject, separator) {
        (Value::Str(h), Value::Str(s)) => {
            let hay = state.heap.strings[h].clone();
            let sep = state.heap.strings[s].clone();
            let ghost pre = *state;
            let r = split_string(&hay, &sep, &mut state.heap, data);
            proof {
                crate::state::lemma_state_wf_heap_change(pre, *state, *data);
            }
            Ok(r)
        },
        _ => Ok(Value::Nil),
    }
}

/// Dispatch a plugin call by table index.
pub fn plugin_call<H: Host>(
    data: &Data,
    state: &mut State,
    host: &mut H,
    id: usize,
    parameters: &Vec<Expr>,
) -> (r: Result<Value, Fatal>)
    requires
        data_wf(*data),
        state_wf(*old(state), *data),
        id < PLUGIN_COUNT,
        exprs_wf(parameters@, *data, frame_size(*old(state))),
    ensures
        state_wf(*final(state), *data),
        final(state).variables@.len() == old(state).variables@.len(),
        final(state).variables_begin == old(state).variables_begin,
        heap_extends(final(state).heap, old(state).heap),
        final(state).fuel <= old(state).fuel,
        r matches Ok(v) ==> value_valid(v, final(state).heap, *data),
        parameters@.len() != 2 ==> r is Err,
        crate::state::agrees_expr(
            crate::semantics::plugin_spec(
                parameters@,
                *data,
                old(state).heap,
                old(state).variables@,
                old(state).variables_begin as int,
                old(state).fuel as nat,
            ),
            *old(state),
            *final(state),
            r,
        ),
    decreases state.fuel, parameters, 1int,
{
    split(data, state, host, parameters)
}

} // verus!
