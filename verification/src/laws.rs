//! Properties of the attribute layer that span several operations or hold
//! of every input.

use vstd::prelude::*;
use crate::attrmap::{Value, ValueView};
use crate::error::PyErrorView;
use crate::object::{
    PyObject, AttrView, get_attribute_spec, lookup, set_outcome, del_outcome, found, class_of,
    no_attr_message, is_dunder_prefixed, partial_hit, slots_forbid, first_class_hit,
};
use crate::float_ops::{Operand, BinopAction, float_binop_spec};
use crate::deque::{keep_last, keep_first, rotate_right};
use crate::repeat::repeat_seq;
use crate::deque::insert_position;
use crate::keydict::bind_all;
use crate::format_plan::{StepView, FieldRefView, Numbering, read_template, lemma_template_end, lemma_template_double, lemma_template_lone_close, lemma_template_char, lemma_template_unterminated, lemma_template_field, read_spec, read_field_spec, resolve_name, numbered, fresh, Resolved, lemma_index_of_bounds, lemma_field_close_bounds, index_of, field_close, trim_ws};
use crate::pattern_ops::{sub_fold, split_fold, spans_inside, MatchSpan};
use crate::super_lookup::{Base, Slot, base_hit, mro_hit, present};
use crate::sync_state::{rlock_acquired, rlock_released};
use crate::slice_ops::slice_indices_spec;
use crate::list_sort::{SortView, place, settle, sort_start_spec, sort_pending, sort_question_spec, sort_answer_spec, strict_weak, sorting, arranges};
use crate::method_tables::type_table;
use crate::process_state::{ReapStep, reap_spec, code_of};
use crate::socket_state::{SocketState, SocketMethod, admits, after};
use crate::keyset::{KeySet, in_all, kept_by_all, kept_by_none, union_of, symmetric_difference_set};
use crate::list::{list_position, Probe, first_decisive, lemma_first_decisive_bounds};
use crate::strsearch::{first_occurrence, last_occurrence, occurs_at};
use crate::encode::{encode_prefix, encode_char};
use crate::bigint::trunc_div;
use crate::float_ops::rounded_quotient;
use crate::strsplit::{
    split_from, rsplit_from, split_spec, rsplit_spec, join_with, lemma_join_push, match_count,
    replace_from, step,
};

verus! {

/// The names an object of each kind answers from its own namespace.
pub open spec fn reads_namespace(o: PyObject, n: Seq<char>) -> bool {
    &&& n != "__class__"@
    &&& n != "__dir__"@
    &&& match o {
        PyObject::Instance(_) => n != "__dict__"@ && n != "__weakref__"@,
        PyObject::Module { .. } => n != "__dict__"@ && n != "__name__"@,
        PyObject::Partial { .. } => !is_dunder_prefixed(n),
        PyObject::Function { .. } => n != "__annotations__"@ && n != "__dict__"@,
        PyObject::Type { .. } => n != "__dict__"@ && n != "__mro__"@ && n != "__bases__"@ && n != "__base__"@
            && n != "__name__"@ && n != "__qualname__"@,
        _ => false,
    }
}

/// What an attribute assignment writes, a read of the same name gives
/// back: after `obj.name = value` succeeds on an instance, a module, a
/// class, a function or a `functools.partial` object, `obj.name` is `value` (for the
/// names such an object answers from its namespace).
pub proof fn law_set_then_get(old: PyObject, n: Seq<char>, v: Value, new: PyObject)
    requires
        set_outcome(old, n, v, Ok(()), new),
        reads_namespace(old, n),
    ensures
        get_attribute_spec(new, n) == found(v@),
{
    match old {
        PyObject::Instance(d) => {
            if let PyObject::Instance(d2) = new {
                assert(!slots_forbid(d2, n));
                assert(d2.dict@.contains_key(n));
            }
        },
        _ => {},
    }
}

/// After `del module.name` succeeds, reading `module.name` raises the
/// `AttributeError` that names the attribute.
pub proof fn law_module_del_then_get(old: PyObject, n: Seq<char>, new: PyObject)
    requires
        old is Module,
        del_outcome(old, n, Ok(()), new),
        reads_namespace(old, n),
        n != "__doc__"@,
    ensures
        get_attribute_spec(new, n) == Err::<AttrView, PyErrorView>(PyErrorView::AttributeErrorWithContext {
            message: no_attr_message("module"@, n),
            name: n,
            obj_type: "module"@,
        }),
{
}

/// Every object has a `__doc__`: reading it never raises.
pub proof fn law_doc_always_readable(o: PyObject)
    ensures
        get_attribute_spec(o, "__doc__"@) is Ok,
{
}

/// Every object has a `__class__`, and it is the object's type.
pub proof fn law_class_always_readable(o: PyObject)
    ensures
        get_attribute_spec(o, "__class__"@) == found(class_of(o)),
{
    reveal_strlit("__class__");
    assert(is_dunder_prefixed("__class__"@));
}

/// A missing attribute always surfaces as the `AttributeError` that names
/// it, never as a bare one.
pub proof fn law_missing_attribute_is_named(o: PyObject, n: Seq<char>)
    ensures
        !(get_attribute_spec(o, n) matches Err(PyErrorView::AttributeError(_))),
{
}

/// A live weak proxy answers like its referent (apart from its own
/// `__class__` and `__dir__`).
pub proof fn law_proxy_is_transparent(t: Box<PyObject>, n: Seq<char>)
    requires
        n != "__class__"@,
        n != "__dir__"@,
    ensures
        get_attribute_spec(PyObject::WeakProxy { target: Some(t) }, n) == get_attribute_spec(*t, n),
{
    let p = PyObject::WeakProxy { target: Some(t) };
    assert(partial_hit(p, n) is None);
    law_missing_attribute_is_named(*t, n);
    assert(lookup(p, n) == get_attribute_spec(*t, n));
}

/// A refused assignment leaves the object as it was.
pub proof fn law_refused_set_changes_nothing(old: PyObject, n: Seq<char>, v: Value, e: PyErrorView, new: PyObject)
    requires
        set_outcome(old, n, v, Err(e), new),
    ensures
        new == old,
    decreases old,
{
    match old {
        PyObject::WeakProxy { target: Some(t) } => {
            if let PyObject::WeakProxy { target: Some(t2) } = new {
                law_refused_set_changes_nothing(*t, n, v, e, *t2);
            }
        },
        _ => {},
    }
}

/// A refused deletion leaves the object as it was.
pub proof fn law_refused_del_changes_nothing(old: PyObject, n: Seq<char>, e: PyErrorView, new: PyObject)
    requires
        del_outcome(old, n, Err(e), new),
    ensures
        new == old,
    decreases old,
{
    match old {
        PyObject::WeakProxy { target: Some(t) } => {
            if let PyObject::WeakProxy { target: Some(t2) } = new {
                law_refused_del_changes_nothing(*t, n, e, *t2);
            }
        },
        _ => {},
    }
}

/// The last two arguments with their order exchanged.
pub open spec fn swap_last_two(args: Seq<Operand>) -> Seq<Operand> {
    args.update(args.len() - 2, args[args.len() - 1]).update(args.len() - 1, args[args.len() - 2])
}

/// The reflected float dunder on `(x, y)` is the plain one on `(y, x)`:
/// it decides the same and computes with the operands in the same order.
pub proof fn law_reflected_dunder_swaps_operands(args: Seq<Operand>, kind: u8)
    requires
        args.len() >= 2,
    ensures
        float_binop_spec(args, true, kind) == (match float_binop_spec(swap_last_two(args), false, kind) {
            Ok(BinopAction::Compute { op, swap }) => Ok(BinopAction::Compute { op, swap: !swap }),
            other => other,
        }),
{
}

/// Only the last two arguments matter: a receiver placed before them
/// changes nothing.
pub proof fn law_float_dunder_reads_last_two(args: Seq<Operand>, extra: Operand, reverse: bool, kind: u8)
    requires
        args.len() >= 2,
    ensures
        float_binop_spec(seq![extra] + args, reverse, kind) == float_binop_spec(args, reverse, kind),
{
    let longer = seq![extra] + args;
    assert(longer[longer.len() - 1] == args[args.len() - 1]);
    assert(longer[longer.len() - 2] == args[args.len() - 2]);
}

/// Rounding a float up and rounding it down differ by one exactly when it
/// is not an integer; rounding toward zero is rounding down for a
/// non-negative value and rounding up for a negative one.
pub proof fn law_rounding_modes(num: int, den: int)
    requires
        den > 0,
    ensures
        rounded_quotient(1, num, den) - rounded_quotient(2, num, den) == (if num % den == 0 { 0int } else { 1int }),
        num >= 0 ==> rounded_quotient(0, num, den) == rounded_quotient(2, num, den),
        num < 0 ==> rounded_quotient(0, num, den) == rounded_quotient(1, num, den),
{
    vstd::arithmetic::div_mod::lemma_fundamental_div_mod(num, den);
    vstd::arithmetic::div_mod::lemma_mod_bound(num, den);
    let q = num / den;
    let r = num % den;
    if r == 0 {
        assert(-num == (-q) * den + 0) by (nonlinear_arith)
            requires num == den * q + r, r == 0;
        vstd::arithmetic::div_mod::lemma_fundamental_div_mod_converse(-num, den, -q, 0);
    } else {
        assert(-num == (-q - 1) * den + (den - r)) by (nonlinear_arith)
            requires num == den * q + r;
        vstd::arithmetic::div_mod::lemma_fundamental_div_mod_converse(-num, den, -q - 1, den - r);
    }
    if num < 0 {
        let a = -num;
        vstd::arithmetic::div_mod::lemma_fundamental_div_mod(a, den);
        vstd::arithmetic::div_mod::lemma_mod_bound(a, den);
        let qa = a / den;
        let ra = a % den;
        if ra == 0 {
            assert(num == (-qa) * den + 0) by (nonlinear_arith)
                requires a == den * qa + ra, ra == 0, num == -a;
            vstd::arithmetic::div_mod::lemma_fundamental_div_mod_converse(num, den, -qa, 0);
        } else {
            assert(num == (-qa - 1) * den + (den - ra)) by (nonlinear_arith)
                requires a == den * qa + ra, num == -a;
            vstd::arithmetic::div_mod::lemma_fundamental_div_mod_converse(num, den, -qa - 1, den - ra);
        }
        assert(trunc_div(num, den) == -qa);
    }
}

/// Appending to a deque that has room and popping gives the element back
/// and restores the deque.
pub proof fn law_deque_append_then_pop<T>(s: Seq<T>, x: T, bound: Option<usize>)
    requires
        bound matches Some(m) ==> s.len() < m,
    ensures
        keep_last(s.push(x), bound).last() == x,
        keep_last(s.push(x), bound).drop_last() == s,
{
    assert(keep_last(s.push(x), bound) == s.push(x));
    assert(s.push(x).drop_last() =~= s);
}

/// `appendleft` then `popleft` gives the element back and restores the
/// deque, when it has room.
pub proof fn law_deque_appendleft_then_popleft<T>(s: Seq<T>, x: T, bound: Option<usize>)
    requires
        bound matches Some(m) ==> s.len() < m,
    ensures
        keep_first(seq![x] + s, bound)[0] == x,
        keep_first(seq![x] + s, bound).drop_first() == s,
{
    assert(keep_first(seq![x] + s, bound) == seq![x] + s);
    assert((seq![x] + s).drop_first() =~= s);
}

/// Rotating by `n` and then by `-n` restores the deque.
pub proof fn law_deque_rotate_inverse<T>(s: Seq<T>, n: int)
    requires
        s.len() > 0,
    ensures
        rotate_right(rotate_right(s, n % (s.len() as int)), (-n) % (s.len() as int)) =~= s,
{
    let len = s.len() as int;
    let k = n % len;
    vstd::arithmetic::div_mod::lemma_fundamental_div_mod(n, len);
    vstd::arithmetic::div_mod::lemma_mod_bound(n, len);
    let q = n / len;
    let j: int = if k == 0 { 0 } else { len - k };
    if k == 0 {
        assert(-n == (-q) * len + 0) by (nonlinear_arith)
            requires n == len * q + k, k == 0;
        vstd::arithmetic::div_mod::lemma_fundamental_div_mod_converse(-n, len, -q, 0);
    } else {
        assert(-n == (-q - 1) * len + (len - k)) by (nonlinear_arith)
            requires n == len * q + k;
        vstd::arithmetic::div_mod::lemma_fundamental_div_mod_converse(-n, len, -q - 1, len - k);
    }
    assert((-n) % len == j);
    let once = rotate_right(s, k);
    assert forall|i: int| 0 <= i < len implies #[trigger] rotate_right(once, j)[i] == s[i] by {
        if k != 0 {
            if i < j {
                assert(rotate_right(once, j)[i] == once[len - j + i]);
                assert(once[k + i] == s[i]);
            } else {
                assert(rotate_right(once, j)[i] == once[i - j]);
                assert(once[i - j] == s[len - k + (i - j)]);
            }
        } else {
            assert(once =~= s);
            assert(rotate_right(once, j) =~= s);
        }
    }
}

/// Repeating `n` times multiplies the length by `n`; repeating zero times
/// gives the empty sequence.
pub proof fn law_repeat_length<A>(s: Seq<A>, n: nat)
    ensures
        repeat_seq(s, n).len() == s.len() * n,
        n == 0 ==> repeat_seq(s, n) == Seq::<A>::empty(),
    decreases n,
{
    if n > 0 {
        law_repeat_length(s, (n - 1) as nat);
        assert(s.len() * n == s.len() * (n - 1) + s.len()) by (nonlinear_arith)
            requires n > 0;
    }
}

/// `partition` splits the string at the first occurrence of the
/// separator: the three parts put together give the string back.
pub proof fn law_partition_reassembles(s: Seq<char>, sep: Seq<char>, k: int)
    requires
        first_occurrence(s, sep, k) || last_occurrence(s, sep, k),
    ensures
        s.subrange(0, k) + sep + s.subrange(k + sep.len(), s.len() as int) =~= s,
{
    assert(occurs_at(s, sep, k));
    assert(s.subrange(k, k + sep.len()) == sep);
    assert(s =~= s.subrange(0, k) + s.subrange(k, k + sep.len()) + s.subrange(k + sep.len(), s.len() as int));
}

/// The byte of each of the first `n` characters, each taken as its own
/// code point.
pub open spec fn code_point_bytes(s: Seq<char>, n: nat) -> Seq<u8> {
    Seq::new(n, |i: int| #[verifier::truncate] ((s[i] as u32) as u8))
}

/// Under Latin-1 every character up to U+00FF is its own byte, whatever
/// the error handler.
pub proof fn law_latin1_identity(s: Seq<char>, errors: Seq<char>, n: nat)
    requires
        n <= s.len(),
        forall|i: int| 0 <= i < s.len() ==> (s[i] as u32) <= 0xff,
    ensures
        encode_prefix(s, 0xff, errors, n) == Ok::<Seq<u8>, nat>(code_point_bytes(s, n)),
    decreases n,
{
    if n > 0 {
        law_latin1_identity(s, errors, (n - 1) as nat);
        let c = s[n - 1];
        assert((c as u32) <= 0xff);
        assert(encode_char(c, 0xff, errors) == Some(seq![#[verifier::truncate] ((c as u32) as u8)]));
        assert(code_point_bytes(s, (n - 1) as nat) + seq![#[verifier::truncate] ((c as u32) as u8)]
            =~= code_point_bytes(s, n));
    } else {
        assert(code_point_bytes(s, 0) =~= Seq::<u8>::empty());
    }
}

/// Under the `strict` handler a character beyond the codec's range is
/// refused, and the error names the first one.
pub proof fn law_strict_refuses_first_unencodable(s: Seq<char>, limit: u32, k: nat)
    requires
        k < s.len(),
        (s[k as int] as u32) > limit,
        (s[k as int] as u32) < 0xDC80 || (s[k as int] as u32) > 0xDCFF,
        limit != 0x7f || (s[k as int] as u32) > 0xFF,
        forall|i: int| 0 <= i < k ==> (s[i] as u32) <= limit,
    ensures
        encode_prefix(s, limit, "strict"@, s.len()) == Err::<Seq<u8>, nat>(k),
{
    reveal_strlit("strict");
    reveal_strlit("surrogateescape");
    lemma_prefix_ok_below(s, limit, k);
    assert(encode_prefix(s, limit, "strict"@, (k + 1) as nat) == Err::<Seq<u8>, nat>(k));
    lemma_err_persists(s, limit, "strict"@, (k + 1) as nat, s.len());
}

proof fn lemma_prefix_ok_below(s: Seq<char>, limit: u32, k: nat)
    requires
        k <= s.len(),
        forall|i: int| 0 <= i < k ==> (s[i] as u32) <= limit,
    ensures
        encode_prefix(s, limit, "strict"@, k) is Ok,
    decreases k,
{
    if k > 0 {
        lemma_prefix_ok_below(s, limit, (k - 1) as nat);
    }
}

proof fn lemma_err_persists(s: Seq<char>, limit: u32, errors: Seq<char>, m: nat, n: nat)
    requires
        m <= n,
        encode_prefix(s, limit, errors, m) is Err,
    ensures
        encode_prefix(s, limit, errors, n) == encode_prefix(s, limit, errors, m),
    decreases n - m,
{
    if m < n {
        lemma_err_persists(s, limit, errors, m, (n - 1) as nat);
    }
}

proof fn lemma_split_nonempty(s: Seq<char>, sep: Seq<char>, p: int, start: int, budget: int)
    ensures
        split_from(s, sep, p, start, budget).len() >= 1,
    decreases s.len() + 1 - p,
{
    if budget == 0 || p < 0 || p + sep.len() > s.len() {
    } else if occurs_at(s, sep, p) {
        lemma_split_nonempty(s, sep, p + step(sep), p + sep.len(), crate::strsplit::next_budget(budget));
    } else {
        lemma_split_nonempty(s, sep, p + 1, start, budget);
    }
}

proof fn lemma_rsplit_nonempty(s: Seq<char>, sep: Seq<char>, e: int, end: int, budget: int)
    ensures
        rsplit_from(s, sep, e, end, budget).len() >= 1,
    decreases e + 1,
{
    if budget == 0 || e - sep.len() < 0 || e > s.len() {
    } else if occurs_at(s, sep, e - sep.len()) {
        lemma_rsplit_nonempty(s, sep, e - step(sep), e - sep.len(), crate::strsplit::next_budget(budget));
    } else {
        lemma_rsplit_nonempty(s, sep, e - 1, end, budget);
    }
}

proof fn lemma_split_join_from(s: Seq<char>, sep: Seq<char>, p: int, start: int, budget: int)
    requires
        0 <= start <= p,
        start <= s.len(),
    ensures
        join_with(split_from(s, sep, p, start, budget), sep) == s.subrange(start, s.len() as int),
    decreases s.len() + 1 - p,
{
    if budget == 0 || p < 0 || p + sep.len() > s.len() {
    } else if occurs_at(s, sep, p) {
        let nb = crate::strsplit::next_budget(budget);
        let rest = split_from(s, sep, p + step(sep), p + sep.len(), nb);
        lemma_split_join_from(s, sep, p + step(sep), p + sep.len(), nb);
        lemma_split_nonempty(s, sep, p + step(sep), p + sep.len(), nb);
        let all = seq![s.subrange(start, p)] + rest;
        assert(all.drop_first() =~= rest);
        assert(join_with(all, sep) == s.subrange(start, p) + sep + join_with(rest, sep));
        assert(s.subrange(p, p + sep.len()) == sep);
        assert(s.subrange(start, p) + sep + s.subrange(p + sep.len(), s.len() as int) =~= s.subrange(start, s.len() as int));
    } else {
        lemma_split_join_from(s, sep, p + 1, start, budget);
    }
}

proof fn lemma_rsplit_join_from(s: Seq<char>, sep: Seq<char>, e: int, end: int, budget: int)
    requires
        e <= end <= s.len(),
        0 <= end,
    ensures
        join_with(rsplit_from(s, sep, e, end, budget), sep) == s.subrange(0, end),
    decreases e + 1,
{
    if budget == 0 || e - sep.len() < 0 || e > s.len() {
    } else if occurs_at(s, sep, e - sep.len()) {
        let nb = crate::strsplit::next_budget(budget);
        let head = rsplit_from(s, sep, e - step(sep), e - sep.len(), nb);
        lemma_rsplit_join_from(s, sep, e - step(sep), e - sep.len(), nb);
        lemma_rsplit_nonempty(s, sep, e - step(sep), e - sep.len(), nb);
        lemma_join_push(head, sep, s.subrange(e, end));
        assert(head + seq![s.subrange(e, end)] =~= head.push(s.subrange(e, end)));
        assert(s.subrange(e - sep.len(), e) == sep);
        assert(s.subrange(0, e - sep.len()) + sep + s.subrange(e, end) =~= s.subrange(0, end));
    } else {
        lemma_rsplit_join_from(s, sep, e - 1, end, budget);
    }
}

/// `sep.join(s.split(sep, maxsplit)) == s`: the pieces of a split, put
/// back together with the separator, give the string back, for every
/// separator (the empty one included) and every `maxsplit`.
pub proof fn law_split_then_join(s: Seq<char>, sep: Seq<char>, maxsplit: int)
    ensures
        join_with(split_spec(s, sep, maxsplit), sep) == s,
{
    lemma_split_join_from(s, sep, 0, 0, maxsplit);
    assert(s.subrange(0, s.len() as int) =~= s);
}

/// `sep.join(s.rsplit(sep, maxsplit)) == s`.
pub proof fn law_rsplit_then_join(s: Seq<char>, sep: Seq<char>, maxsplit: int)
    ensures
        join_with(rsplit_spec(s, sep, maxsplit), sep) == s,
{
    if maxsplit < 0 {
        lemma_split_join_from(s, sep, 0, 0, -1);
    } else {
        lemma_rsplit_join_from(s, sep, s.len() as int, s.len() as int, maxsplit);
    }
    assert(s.subrange(0, s.len() as int) =~= s);
}

proof fn lemma_replace_join_from(s: Seq<char>, from: Seq<char>, to: Seq<char>, p: int, start: int)
    ensures
        replace_from(s, from, to, p, start) == join_with(split_from(s, from, p, start, -1), to),
    decreases s.len() + 1 - p,
{
    if p < 0 || p + from.len() > s.len() {
    } else if occurs_at(s, from, p) {
        let rest = split_from(s, from, p + step(from), p + from.len(), -1);
        lemma_replace_join_from(s, from, to, p + step(from), p + from.len());
        lemma_split_nonempty(s, from, p + step(from), p + from.len(), -1);
        let all = seq![s.subrange(start, p)] + rest;
        assert(all.drop_first() =~= rest);
        assert(join_with(all, to) == s.subrange(start, p) + to + join_with(rest, to));
    } else {
        lemma_replace_join_from(s, from, to, p + 1, start);
    }
}

/// `s.replace(old, new) == new.join(s.split(old))`.
pub proof fn law_replace_is_join_of_split(s: Seq<char>, old: Seq<char>, new: Seq<char>)
    ensures
        replace_from(s, old, new, 0, 0) == join_with(split_spec(s, old, -1), new),
{
    lemma_replace_join_from(s, old, new, 0, 0);
}

proof fn lemma_split_count_from(s: Seq<char>, sep: Seq<char>, p: int, start: int)
    ensures
        split_from(s, sep, p, start, -1).len() == match_count(s, sep, p) + 1,
    decreases s.len() + 1 - p,
{
    if p < 0 || p + sep.len() > s.len() {
    } else if occurs_at(s, sep, p) {
        lemma_split_count_from(s, sep, p + step(sep), p + sep.len());
    } else {
        lemma_split_count_from(s, sep, p + 1, start);
    }
}

/// `len(s.split(sep)) == s.count(sep) + 1`.
pub proof fn law_split_count(s: Seq<char>, sep: Seq<char>)
    ensures
        split_spec(s, sep, -1).len() == match_count(s, sep, 0) + 1,
{
    lemma_split_count_from(s, sep, 0, 0);
}

/// After `exc.__cause__ = v` (or `__context__`, `__traceback__`) on a
/// built-in exception, reading the attribute gives `v`.
pub proof fn law_exception_chain_set_then_get(old: PyObject, n: Seq<char>, v: Value, new: PyObject)
    requires
        old is Exception,
        set_outcome(old, n, v, Ok(()), new),
        n == "__cause__"@ || n == "__context__"@ || n == "__traceback__"@,
    ensures
        get_attribute_spec(new, n) == found(v@),
{
    reveal_strlit("__cause__");
    reveal_strlit("__context__");
    reveal_strlit("__traceback__");
    reveal_strlit("__class__");
    reveal_strlit("__dir__");
    reveal_strlit("__name__");
    reveal_strlit("args");
    reveal_strlit("value");
    reveal_strlit("lineno");
    reveal_strlit("offset");
    reveal_strlit("encoding");
    reveal_strlit("object");
    reveal_strlit("start");
    reveal_strlit("end");
    reveal_strlit("reason");
    reveal_strlit("__str__");
    reveal_strlit("__repr__");
    if n == "__cause__"@ {
        assert(n[3] != "__class__"@[3]);
    }
    assert(n != "__class__"@);
    assert(n != "__dir__"@);
}

/// `append(x)` then `pop()` on a list gives back `x` and leaves the list as
/// it was.
pub proof fn law_list_append_then_pop<T>(s: Seq<T>, x: T)
    ensures
        s.push(x).len() > 0,
        s.push(x).last() == x,
        s.push(x).drop_last() == s,
{
    assert(s.push(x).drop_last() =~= s);
}

/// `insert(i, x)` then `pop(i)` on a list, for `0 <= i <= len`, gives back
/// `x` and leaves the list as it was.
pub proof fn law_list_insert_then_pop<T>(s: Seq<T>, i: i64, x: T)
    requires
        0 <= i <= s.len(),
    ensures
        insert_position(i, s.len() as int) == i,
        0 <= list_position(i as int, s.insert(i as int, x).len() as int) < s.insert(i as int, x).len(),
        s.insert(i as int, x)[i as int] == x,
        s.insert(i as int, x).remove(i as int) == s,
{
    assert(s.insert(i as int, x).remove(i as int) =~= s);
}

/// A negative index `-k` names the same element as `len - k`.
pub proof fn law_list_negative_index(len: int, k: int)
    requires
        0 < k <= len,
    ensures
        list_position(-k, len) == list_position(len - k, len),
        0 <= list_position(-k, len) < len,
{
}

/// Reversing a list twice restores it.
pub proof fn law_list_reverse_twice<T>(s: Seq<T>)
    ensures
        s.reverse().reverse() == s,
{
    assert(s.reverse().reverse() =~= s);
}

/// The position a search (`index`, `remove`, `__contains__`) settles on in
/// `from..to` is the first one whose comparison matched or raised: every
/// element before it compared unequal.
pub proof fn law_list_search_settles_on_first(probes: Seq<Probe>, from: int, to: int)
    requires
        0 <= from <= to <= probes.len(),
    ensures
        from <= first_decisive(probes, from, to) <= to,
        forall|i: int| from <= i < first_decisive(probes, from, to) ==> #[trigger] probes[i] is Miss,
        first_decisive(probes, from, to) < to ==> !(probes[first_decisive(probes, from, to)] is Miss),
{
    lemma_first_decisive_bounds(probes, from, to);
}

/// Adding a key a set lacks and then discarding it restores the set.
pub proof fn law_set_add_then_discard(s: Set<u64>, k: u64)
    requires
        !s.contains(k),
    ensures
        s.insert(k).remove(k) == s,
{
    assert(s.insert(k).remove(k) =~= s);
}

/// What `difference` keeps and what `intersection` keeps, against the same
/// sets, split a set in two: together they are the whole set, and they
/// share no key.
pub proof fn law_set_difference_and_intersection_split(s: Set<u64>, others: Seq<KeySet>)
    requires
        others.len() == 1,
    ensures
        s.filter(kept_by_none(others)).union(s.filter(kept_by_all(others))) == s,
        s.filter(kept_by_none(others)).disjoint(s.filter(kept_by_all(others))),
{
    assert forall|k: u64| #[trigger] in_all(others, k) <==> others[0]@.contains(k) by {
        if others[0]@.contains(k) {
            assert forall|i: int| 0 <= i < others.len() implies #[trigger] others[i]@.contains(k) by {
                assert(i == 0);
            }
        }
    }
    assert(s.filter(kept_by_none(others)).union(s.filter(kept_by_all(others))) =~= s);
}

/// Taking the symmetric difference with the same set twice restores the
/// first set.
pub proof fn law_set_symmetric_difference_twice(a: Set<u64>, b: Set<u64>)
    ensures
        symmetric_difference_set(symmetric_difference_set(a, b), b) == a,
{
    assert(symmetric_difference_set(symmetric_difference_set(a, b), b) =~= a);
}

/// Two sets each a subset of the other hold the same keys.
pub proof fn law_set_subsets_both_ways_are_equal(a: Set<u64>, b: Set<u64>)
    requires
        a.subset_of(b),
        b.subset_of(a),
    ensures
        a == b,
{
    assert(a =~= b);
}

/// A union holds every key of each set it joins.
pub proof fn law_set_union_holds_each(s: Set<u64>, others: Seq<KeySet>, i: int)
    requires
        0 <= i < others.len(),
    ensures
        s.subset_of(s.union(union_of(others))),
        others[i]@.subset_of(s.union(union_of(others))),
    decreases others.len(),
{
    if i < others.len() - 1 {
        law_set_union_holds_each(s, others.drop_last(), i);
        assert(others.drop_last()[i] == others[i]);
    }
}

/// What `intersection` keeps lies in the set and in each other set.
pub proof fn law_set_intersection_within(s: Set<u64>, others: Seq<KeySet>, i: int)
    requires
        0 <= i < others.len(),
    ensures
        s.filter(kept_by_all(others)).subset_of(s),
        s.filter(kept_by_all(others)).subset_of(others[i]@),
{
}

/// Reading a dict key after setting it gives the value set, and every
/// other key reads as before.
pub proof fn law_dict_set_then_get<V>(m: Map<u64, V>, k: u64, v: V, other: u64)
    requires
        other != k,
    ensures
        m.insert(k, v).contains_key(k),
        m.insert(k, v)[k] == v,
        m.insert(k, v).contains_key(other) == m.contains_key(other),
        m.contains_key(other) ==> m.insert(k, v)[other] == m[other],
{
}

/// Setting a key a dict lacks and then popping it restores the dict.
pub proof fn law_dict_set_then_pop<V>(m: Map<u64, V>, k: u64, v: V)
    requires
        !m.contains_key(k),
    ensures
        m.insert(k, v).remove(k) == m,
{
    assert(m.insert(k, v).remove(k) =~= m);
}

/// In `a | b` a key bound in `b` reads as in `b`, and any other key reads
/// as in `a`.
pub proof fn law_dict_merge_prefers_right<V>(a: Map<u64, V>, b: Map<u64, V>, k: u64)
    ensures
        b.contains_key(k) ==> a.union_prefer_right(b)[k] == b[k],
        !b.contains_key(k) && a.contains_key(k) ==> a.union_prefer_right(b)[k] == a[k],
        a.union_prefer_right(b).contains_key(k) == (a.contains_key(k) || b.contains_key(k)),
{
}

/// `dict.fromkeys(keys, v)` binds exactly the given keys, each to `v`.
pub proof fn law_dict_fromkeys_binds_each_key<V>(keys: Seq<u64>, v: V, k: u64)
    ensures
        bind_all(Map::<u64, V>::empty(), keys, v).contains_key(k) == keys.contains(k),
        keys.contains(k) ==> bind_all(Map::<u64, V>::empty(), keys, v)[k] == v,
    decreases keys.len(),
{
    if keys.len() > 0 {
        law_dict_fromkeys_binds_each_key(keys.drop_last(), v, k);
        if keys.drop_last().contains(k) {
            let j = choose|j: int| 0 <= j < keys.drop_last().len() && keys.drop_last()[j] == k;
            assert(keys[j] == k);
        }
        if keys.contains(k) && k != keys.last() {
            let j = choose|j: int| 0 <= j < keys.len() && keys[j] == k;
            assert(keys.drop_last()[j] == k);
        }
    }
}

/// A re-entrant lock that is free or held by thread `me`, taken once more
/// by `me` and released once by `me`, is as it was.
pub proof fn law_rlock_acquire_then_release(owner: Option<u64>, count: int, me: u64)
    requires
        (owner is None && count == 0) || (owner == Some(me) && count > 0),
    ensures
        rlock_released(rlock_acquired(owner, count, me).0, rlock_acquired(owner, count, me).1, me) == (owner, count),
{
}

/// A re-entrant lock held by another thread refuses `me`'s release and
/// does not let `me` take it.
pub proof fn law_rlock_other_owner_unchanged(o: u64, count: int, me: u64)
    requires
        o != me,
    ensures
        rlock_acquired(Some(o), count, me) == (Some(o), count),
        rlock_released(Some(o), count, me) == (Some(o), count),
{
}

/// A queue hands items out in the order they were put: putting `x` on a
/// non-empty queue leaves the front item in front, and on an empty queue
/// `x` is the front.
pub proof fn law_queue_fifo<T>(q: Seq<T>, x: T)
    ensures
        q.len() > 0 ==> q.push(x)[0] == q[0] && q.push(x).drop_first() == q.drop_first().push(x),
        q.len() == 0 ==> q.push(x)[0] == x && q.push(x).drop_first() == q,
{
    assert(q.len() > 0 ==> q.push(x).drop_first() =~= q.drop_first().push(x));
    assert(q.len() == 0 ==> q.push(x).drop_first() =~= q);
}

/// The walk of `super` answers from the first class at or after `from`
/// that answers at all: every class before it has no binding of the name.
pub proof fn law_super_first_answer_wins(mro: Seq<Base>, from: int, name: Seq<char>)
    requires
        0 <= from,
        mro_hit(mro, from, name) is Some,
    ensures
        exists|j: int| from <= j < mro.len() && base_hit(mro[j], name) == mro_hit(mro, from, name)
            && forall|k: int| from <= k < j ==> (#[trigger] base_hit(mro[k], name)) is None,
    decreases mro.len() - from,
{
    if base_hit(mro[from], name) is Some {
        assert(base_hit(mro[from], name) == mro_hit(mro, from, name));
    } else {
        law_super_first_answer_wins(mro, from + 1, name);
        let j = choose|j: int| from + 1 <= j < mro.len() && base_hit(mro[j], name) == mro_hit(mro, from + 1, name)
            && forall|k: int| from + 1 <= k < j ==> (#[trigger] base_hit(mro[k], name)) is None;
        assert(forall|k: int| from <= k < j ==> (#[trigger] base_hit(mro[k], name)) is None);
    }
}

/// `__new__` found through `super` is never bound to the object.
pub proof fn law_super_new_is_never_bound(s: Slot)
    ensures
        !(present("__new__"@, s) is BoundToObj),
{
}

/// Replacing every match by the text it matched gives back the text.
pub proof fn law_sub_with_matched_text_is_identity(text: Seq<char>, spans: Seq<(usize, usize)>, reps: Seq<Seq<char>>,
    count: i64, i: int, last_end: int, n: nat)
    requires
        spans_inside(spans, text.len() as int),
        spans.len() == reps.len(),
        forall|j: int| 0 <= j < spans.len() ==> #[trigger] reps[j] == text.subrange(spans[j].0 as int, spans[j].1 as int),
        0 <= i,
        0 <= last_end <= text.len(),
    ensures
        sub_fold(text, spans, reps, count, i, last_end, n).0 == text.subrange(last_end, text.len() as int),
    decreases spans.len() - i,
{
    if i < 0 || i >= spans.len() || (count > 0 && n >= count) {
    } else if spans[i].0 < last_end {
        law_sub_with_matched_text_is_identity(text, spans, reps, count, i + 1, last_end, n);
    } else {
        assert(spans[i].0 <= spans[i].1 && spans[i].1 <= text.len());
        law_sub_with_matched_text_is_identity(text, spans, reps, count, i + 1, spans[i].1 as int, n + 1);
        assert(text.subrange(last_end, spans[i].0 as int) + reps[i] + text.subrange(spans[i].1 as int, text.len() as int)
            =~= text.subrange(last_end, text.len() as int));
    }
}

/// `subn` never reports more replacements than there are matches, nor
/// more than a positive `count`.
pub proof fn law_subn_count_is_bounded(text: Seq<char>, spans: Seq<(usize, usize)>, reps: Seq<Seq<char>>,
    count: i64, i: int, last_end: int, n: nat)
    requires
        0 <= i <= spans.len(),
    ensures
        sub_fold(text, spans, reps, count, i, last_end, n).1 <= n + (spans.len() - i),
        count > 0 && n <= count ==> sub_fold(text, spans, reps, count, i, last_end, n).1 <= count,
    decreases spans.len() - i,
{
    if i >= spans.len() || (count > 0 && n >= count) {
    } else if spans[i].0 < last_end {
        law_subn_count_is_bounded(text, spans, reps, count, i + 1, last_end, n);
    } else {
        law_subn_count_is_bounded(text, spans, reps, count, i + 1, spans[i].1 as int, n + 1);
    }
}

/// Splitting a text on no match gives the whole text as the only piece.
pub proof fn law_split_without_matches(text: Seq<char>, maxsplit: usize)
    ensures
        split_fold(text, Seq::<MatchSpan>::empty(), maxsplit, 0, 0, 0) == seq![Some(text)],
{
    assert(text.subrange(0, text.len() as int) =~= text);
}

/// Whether a field reference names an argument that exists: a positional
/// index (or the index of an item access) below `npos`.
pub open spec fn field_in_range(f: FieldRefView, npos: nat) -> bool {
    match f {
        FieldRefView::Positional(k) => k < npos,
        FieldRefView::Item { index, .. } => index < npos,
        FieldRefView::Named(_) => true,
    }
}

/// Whether every argument the steps name exists.
#[verifier::opaque]
pub open spec fn steps_in_range(steps: Seq<StepView>, npos: nat) -> bool {
    forall|k: int| 0 <= k < steps.len() ==> match #[trigger] steps[k] {
        StepView::Value { field, .. } => field_in_range(field, npos),
        StepView::SpecArg(field) => field_in_range(field, npos),
        _ => true,
    }
}

#[verifier::spinoff_prover]
proof fn lemma_in_range_concat(a: Seq<StepView>, b: Seq<StepView>, npos: nat)
    requires
        steps_in_range(a, npos),
        steps_in_range(b, npos),
    ensures
        steps_in_range(a + b, npos),
{
    reveal(steps_in_range);
    assert forall|k: int| 0 <= k < (a + b).len() implies match #[trigger] (a + b)[k] {
        StepView::Value { field, .. } => field_in_range(field, npos),
        StepView::SpecArg(field) => field_in_range(field, npos),
        _ => true,
    } by {
        if k < a.len() {
            assert((a + b)[k] == a[k]);
        } else {
            assert((a + b)[k] == b[k - a.len()]);
        }
    }
}

#[verifier::spinoff_prover]
proof fn lemma_char_in_range(x: StepView, npos: nat)
    requires
        !(x is Value),
        !(x is SpecArg),
    ensures
        steps_in_range(seq![x], npos),
{
    reveal(steps_in_range);
    assert forall|k: int| 0 <= k < seq![x].len() implies match #[trigger] seq![x][k] {
        StepView::Value { field, .. } => field_in_range(field, npos),
        StepView::SpecArg(field) => field_in_range(field, npos),
        _ => true,
    } by {
        assert(seq![x][k] == x);
    }
}

/// Putting a step that names no argument in front of steps that name only
/// existing ones keeps them so.
proof fn lemma_prepend_plain_in_range(x: StepView, b: Seq<StepView>, npos: nat)
    requires
        !(x is Value),
        !(x is SpecArg),
        steps_in_range(b, npos),
    ensures
        steps_in_range(seq![x] + b, npos),
{
    lemma_char_in_range(x, npos);
    lemma_in_range_concat(seq![x], b, npos);
}

/// The steps `seq![x] + rest`, indexed.
proof fn lemma_prepend_index(x: StepView, rest: Seq<StepView>)
    ensures
        (seq![x] + rest).len() == rest.len() + 1,
        (seq![x] + rest)[0] == x,
        forall|k: int| 1 <= k < rest.len() + 1 ==> #[trigger] (seq![x] + rest)[k] == rest[k - 1],
{
}

#[verifier::spinoff_prover]
proof fn lemma_numbered_in_range(name: Seq<char>, st: Numbering, npos: nat)
    ensures
        numbered(name, st, npos) matches Some(Ok((f, _))) ==> field_in_range(f, npos),
{
    reveal(numbered);
}

#[verifier::spinoff_prover]
proof fn lemma_spec_in_range(spec: Seq<char>, j: int, st: Numbering, npos: nat)
    ensures
        steps_in_range(read_spec(spec, j, st, npos).0, npos),
    decreases spec.len() - j,
{
    reveal_with_fuel(read_spec, 1);
    assert(steps_in_range(Seq::<StepView>::empty(), npos)) by { reveal(steps_in_range); }
    if j < 0 || j >= spec.len() {
    } else if spec[j] == '{' {
        let close = index_of(spec, '}', j + 1);
        lemma_index_of_bounds(spec, '}', j + 1);
        if close >= 0 {
            let inner = trim_ws(spec.subrange(j + 1, close));
            lemma_numbered_in_range(inner, st, npos);
            let r = match numbered(inner, st, npos) {
                Some(r) => r,
                None => Ok((FieldRefView::Named(inner), st)),
            };
            if let Ok((f, st1)) = r {
                lemma_spec_in_range(spec, close + 1, st1, npos);
                assert(steps_in_range(seq![StepView::SpecArg(f)], npos)) by {
                    reveal(steps_in_range);
                    assert(seq![StepView::SpecArg(f)][0] == StepView::SpecArg(f));
                }
                lemma_in_range_concat(seq![StepView::SpecArg(f)], read_spec(spec, close + 1, st1, npos).0, npos);
            }
        }
    } else {
        lemma_spec_in_range(spec, j + 1, st, npos);
        lemma_prepend_plain_in_range(StepView::SpecChar(spec[j]), read_spec(spec, j + 1, st, npos).0, npos);
    }
}

#[verifier::spinoff_prover]
proof fn lemma_field_in_range(f: Seq<char>, i: int, close: int, st: Numbering, npos: nat)
    ensures
        steps_in_range(read_field_spec(f, i, close, st, npos).0, npos),
{
    reveal(read_field_spec);
    reveal(resolve_name);
    assert(steps_in_range(Seq::<StepView>::empty(), npos)) by { reveal(steps_in_range); }
    let field = f.subrange(i + 1, close);
    let colon = index_of(field, ':', 0);
    let head = if colon < 0 { field } else { field.subrange(0, colon) };
    let spec = if colon < 0 { Seq::empty() } else { field.subrange(colon + 1, field.len() as int) };
    let bang = index_of(head, '!', 0);
    let name = if bang < 0 { head } else { head.subrange(0, bang) };
    lemma_numbered_in_range(name, st, npos);
    match resolve_name(name, st, npos) {
        Resolved::Arg(fr, st1) => {
            lemma_spec_in_range(spec, 0, st1, npos);
            let value = seq![StepView::Value { field: fr, conversion: read_field_conv(f, i, close) }];
            assert(steps_in_range(value, npos)) by {
                reveal(steps_in_range);
                assert(value[0] == StepView::Value { field: fr, conversion: read_field_conv(f, i, close) });
            }
            lemma_char_in_range(StepView::Apply, npos);
            lemma_in_range_concat(value, read_spec(spec, 0, st1, npos).0, npos);
            lemma_in_range_concat(value + read_spec(spec, 0, st1, npos).0, seq![StepView::Apply], npos);
        },
        _ => {},
    }
}

/// The conversion of the field `f[i..=close]`.
spec fn read_field_conv(f: Seq<char>, i: int, close: int) -> crate::format_plan::Conversion {
    let field = f.subrange(i + 1, close);
    let colon = index_of(field, ':', 0);
    let head = if colon < 0 { field } else { field.subrange(0, colon) };
    let bang = index_of(head, '!', 0);
    crate::format_plan::conversion_of(if bang < 0 { None } else { Some(head.subrange(bang + 1, head.len() as int)) })
}

/// Every argument a `str.format` plan names exists: reading a template
/// with `npos` positional arguments never yields a positional index, or
/// the index of an item access, at or past `npos` (such a field is a
/// reading error instead).
#[verifier::spinoff_prover]
pub proof fn law_format_plan_names_existing_arguments(f: Seq<char>, i: int, st: Numbering, npos: nat)
    ensures
        steps_in_range(read_template(f, i, st, npos).0, npos),
    decreases f.len() - i,
{
    assert(steps_in_range(Seq::<StepView>::empty(), npos)) by { reveal(steps_in_range); }
    if i < 0 || i >= f.len() {
        lemma_template_end(f, i, st, npos);
    } else if f[i] == '{' {
        if i + 1 < f.len() && f[i + 1] == '{' {
            lemma_template_double(f, i, st, npos);
            law_format_plan_names_existing_arguments(f, i + 2, st, npos);
            lemma_prepend_plain_in_range(StepView::Char(f[i]), read_template(f, i + 2, st, npos).0, npos);
        } else {
            let close = field_close(f, i + 1, 0);
            lemma_field_close_bounds(f, i + 1, 0);
            if close < 0 {
                lemma_template_unterminated(f, i, st, npos);
            } else {
                lemma_template_field(f, i, st, npos);
                let fr = read_field_spec(f, i, close, st, npos);
                lemma_field_in_range(f, i, close, st, npos);
                if !fr.2 && fr.1 is None {
                    law_format_plan_names_existing_arguments(f, close + 1, fr.3, npos);
                    lemma_in_range_concat(fr.0, read_template(f, close + 1, fr.3, npos).0, npos);
                }
            }
        }
    } else if f[i] == '}' {
        if i + 1 < f.len() && f[i + 1] == '}' {
            lemma_template_double(f, i, st, npos);
            law_format_plan_names_existing_arguments(f, i + 2, st, npos);
            lemma_prepend_plain_in_range(StepView::Char(f[i]), read_template(f, i + 2, st, npos).0, npos);
        } else {
            lemma_template_lone_close(f, i, st, npos);
            law_format_plan_names_existing_arguments(f, i + 1, st, npos);
        }
    } else {
        lemma_template_char(f, i, st, npos);
        law_format_plan_names_existing_arguments(f, i + 1, st, npos);
        lemma_prepend_plain_in_range(StepView::Char(f[i]), read_template(f, i + 1, st, npos).0, npos);
    }
}

/// A template without braces plans to copy its text unchanged: one
/// `Char` step per character, and no error.
#[verifier::spinoff_prover]
pub proof fn law_format_plain_text_is_copied(f: Seq<char>, i: int, st: Numbering, npos: nat)
    requires
        0 <= i <= f.len(),
        forall|k: int| i <= k < f.len() ==> f[k] != '{' && f[k] != '}',
    ensures
        read_template(f, i, st, npos).0.len() == f.len() - i,
        forall|k: int| 0 <= k < f.len() - i ==> #[trigger] read_template(f, i, st, npos).0[k] == StepView::Char(f[i + k]),
        read_template(f, i, st, npos).1 is None,
    decreases f.len() - i,
{
    if i < f.len() {
        lemma_template_char(f, i, st, npos);
        law_format_plain_text_is_copied(f, i + 1, st, npos);
        lemma_prepend_index(StepView::Char(f[i]), read_template(f, i + 1, st, npos).0);
    } else {
        lemma_template_end(f, i, st, npos);
    }
}

/// Closing is always allowed and leaves a socket that can be bound or
/// connected again; a bound socket listens and accepts, a connected one
/// sends and receives, and neither can be bound or connected a second time.
pub proof fn law_socket_lifecycle(s: SocketState)
    ensures
        admits(s, SocketMethod::Close),
        admits(after(s, SocketMethod::Close), SocketMethod::Bind),
        admits(after(s, SocketMethod::Close), SocketMethod::Connect),
        admits(s, SocketMethod::Bind) ==> {
            let b = after(s, SocketMethod::Bind);
            &&& admits(b, SocketMethod::Listen) && admits(b, SocketMethod::Accept)
            &&& !admits(b, SocketMethod::Bind) && !admits(b, SocketMethod::Connect)
            &&& after(b, SocketMethod::Accept) == b
        },
        admits(s, SocketMethod::Connect) ==> {
            let c = after(s, SocketMethod::Connect);
            &&& admits(c, SocketMethod::Send) && admits(c, SocketMethod::Recv)
            &&& admits(c, SocketMethod::GetPeerName)
            &&& !admits(c, SocketMethod::Bind) && !admits(c, SocketMethod::Connect)
        },
{
}

/// The positions `slice.indices(len)` gives always lie inside the
/// sequence's clamping bounds: `0..=len` for a forward step, `-1..=len-1`
/// for a backward one.
pub proof fn law_slice_indices_are_in_bounds(start: Option<int>, stop: Option<int>, step: int, len: int)
    requires
        len >= 0,
        step != 0,
    ensures
        ({
            let (a, b, c) = slice_indices_spec(start, stop, step, len);
            &&& c == step
            &&& step > 0 ==> 0 <= a <= len && 0 <= b <= len
            &&& step < 0 ==> -1 <= a <= len - 1 && -1 <= b <= len - 1
        }),
{
}

/// Once a child's exit has been recorded, `poll` and `wait` answer with
/// that return code and never ask the operating system again.
pub proof fn law_recorded_exit_is_final(code: Option<i32>, has_child: bool)
    ensures
        reap_spec(Some(code_of(code)), has_child) == ReapStep::Recorded(code_of(code)),
        code is None ==> code_of(code) == -1,
{
}

/// A slice hands back the objects it was built from: `start`, `stop` and
/// `step` read as those objects, whatever they are, and reading `indices`
/// succeeds without looking at them.
pub proof fn law_slice_members_come_back_unchanged(start: Value, stop: Value, step: Value)
    ensures
        get_attribute_spec(PyObject::Slice { start, stop, step }, "start"@) == found(start@),
        get_attribute_spec(PyObject::Slice { start, stop, step }, "stop"@) == found(stop@),
        get_attribute_spec(PyObject::Slice { start, stop, step }, "step"@) == found(step@),
        get_attribute_spec(PyObject::Slice { start, stop, step }, "indices"@) is Ok,
{
    reveal_strlit("start");
    reveal_strlit("stop");
    reveal_strlit("step");
    reveal_strlit("indices");
    reveal_strlit("__class__");
    reveal_strlit("__dir__");
    assert("stop"@ != "start"@) by { assert("stop"@.len() != "start"@.len()); }
    assert("step"@ != "start"@) by { assert("step"@.len() != "start"@.len()); }
    assert("step"@ != "stop"@) by { assert("step"@[2] != "stop"@[2]); }
    assert("indices"@ != "start"@) by { assert("indices"@.len() != "start"@.len()); }
    assert("indices"@ != "stop"@) by { assert("indices"@.len() != "stop"@.len()); }
    assert("indices"@ != "step"@) by { assert("indices"@.len() != "step"@.len()); }
    reveal_strlit("slice");
    reveal_strlit("str");
    reveal_strlit("complex");
    reveal_strlit("int");
    reveal_strlit("bool");
    reveal_strlit("list");
    reveal_strlit("deque");
    reveal_strlit("dict");
    reveal_strlit("set");
    reveal_strlit("frozenset");
    reveal_strlit("float");
    reveal_strlit("range");
    reveal_strlit("range_iterator");
    assert("slice"@ != "deque"@) by { assert("slice"@[0] != "deque"@[0]); }
    assert("slice"@ != "float"@) by { assert("slice"@[0] != "float"@[0]); }
    assert("slice"@ != "range"@) by { assert("slice"@[0] != "range"@[0]); }
    assert(type_table("slice"@, "indices"@) == Some((true, false)));
}

proof fn lemma_before_asymmetric(b: spec_fn(usize, usize) -> bool, x: usize, y: usize)
    requires
        strict_weak(b),
        b(x, y),
    ensures
        !b(y, x),
{
    if b(y, x) {
        assert(b(x, x));
    }
}

/// Something before `y` is before whatever `before` cannot tell from `y`.
proof fn lemma_before_through_tie(b: spec_fn(usize, usize) -> bool, x: usize, y: usize, z: usize)
    requires
        strict_weak(b),
        b(x, y),
        !b(y, z),
        !b(z, y),
    ensures
        b(x, z),
{
    if !b(x, z) {
        if b(z, x) {
            assert(b(z, y));
        } else {
            assert(!b(x, y));
        }
    }
}

/// A sort starts in order: nothing placed disagrees with any strict weak
/// order.
pub proof fn law_sort_starts_sorting(n: usize, reverse: bool, before: spec_fn(usize, usize) -> bool)
    ensures
        sorting(sort_start_spec(n as nat, reverse), before),
{
    let s0 = SortView { order: Seq::<usize>::empty(), inserting: 0, pos: 0, n: n as nat, reverse };
    if n > 0 {
        s0.order.insert_ensures(0, 0);
        let s = place(s0, 0);
        assert(s.order.len() == 1);
        assert(s.order[0] == 0);
    }
}

/// The question a sort asks, answered with the keys' `<`, tells whether
/// the position being placed goes before `order[pos - 1]` in the sort's
/// order: `<` itself, or `<` with its operands swapped for
/// `reverse=True`.
pub proof fn law_sort_question_is_placement(s: SortView, lt: spec_fn(usize, usize) -> bool)
    requires
        sort_pending(s),
    ensures
        ({
            let (a, b) = sort_question_spec(s);
            lt(a, b) == (if s.reverse { lt(s.order[s.pos - 1], s.inserting as usize) } else { lt(s.inserting as usize, s.order[s.pos - 1]) })
        }),
{
}

/// Reversing a strict weak order gives a strict weak order: a descending
/// sort is as well defined as an ascending one.
pub proof fn law_reversed_order_is_strict_weak(lt: spec_fn(usize, usize) -> bool)
    requires
        strict_weak(lt),
    ensures
        strict_weak(|x: usize, y: usize| lt(y, x)),
{
    let r = |x: usize, y: usize| lt(y, x);
    assert forall|x: usize, y: usize, z: usize| #[trigger] r(x, y) && #[trigger] r(y, z) implies r(x, z) by {
        assert(lt(z, y) && lt(y, x));
    }
    assert forall|x: usize, y: usize, z: usize|
        !#[trigger] r(x, y) && !r(y, x) && !#[trigger] r(y, z) && !r(z, y) implies !r(x, z) && !r(z, x) by {
        assert(!lt(y, x) && !lt(x, y) && !lt(z, y) && !lt(y, z));
    }
}

/// Every answer that follows a strict weak order keeps the sort in order:
/// the placed positions stay a stable arrangement, and the position being
/// placed still goes before everything after `pos`.
#[verifier::rlimit(40)]
pub proof fn law_sort_answer_keeps_order(s: SortView, before: spec_fn(usize, usize) -> bool)
    requires
        strict_weak(before),
        sorting(s, before),
        sort_pending(s),
    ensures
        sorting(sort_answer_spec(s, before(s.inserting as usize, s.order[s.pos - 1])), before),
{
    let e = s.inserting as usize;
    let o = s.order;
    let p = s.pos as int;
    let g = before(e, o[p - 1]);
    if g {
        let s1 = SortView { pos: (s.pos - 1) as nat, ..s };
        assert(sort_answer_spec(s, g) == settle(s1));
        if p - 1 == 0 {
            o.insert_ensures(0, e);
            let t = place(s1, 0);
            let q = t.order;
            assert(q.len() == o.len() + 1);
            assert forall|i: int| 0 <= i < q.len() implies q[i] < t.inserting by {
                if i > 0 { assert(q[i] == o[i - 1]); }
            }
            assert forall|i: int, j: int| 0 <= i < j < q.len() implies q[i] != q[j] by {
                if i == 0 { assert(q[j] == o[j - 1]); } else { assert(q[i] == o[i - 1] && q[j] == o[j - 1]); }
            }
            assert forall|i: int, j: int| 0 <= i < j < q.len() implies !before(#[trigger] q[j], #[trigger] q[i]) by {
                assert(q[j] == o[j - 1]);
                if i == 0 {
                    assert(before(e, o[j - 1]));
                    lemma_before_asymmetric(before, e, o[j - 1]);
                } else {
                    assert(q[i] == o[i - 1]);
                }
            }
            assert forall|i: int, j: int| 0 <= i < j < q.len() && !before(q[i], q[j]) implies #[trigger] q[i] < #[trigger] q[j] by {
                assert(q[j] == o[j - 1]);
                if i == 0 {
                    assert(before(e, o[j - 1]));
                } else {
                    assert(q[i] == o[i - 1]);
                }
            }
        } else {
            assert(sorting(s1, before));
        }
    } else {
        o.insert_ensures(p, e);
        let t = place(s, p);
        let q = t.order;
        assert(sort_answer_spec(s, g) == t);
        assert forall|i: int| 0 <= i < q.len() implies q[i] < t.inserting by {
            if i < p { assert(q[i] == o[i]); } else if i > p { assert(q[i] == o[i - 1]); }
        }
        assert forall|i: int, j: int| 0 <= i < j < q.len() implies q[i] != q[j] by {
            if i < p { assert(q[i] == o[i]); } else if i > p { assert(q[i] == o[i - 1]); }
            if j < p { assert(q[j] == o[j]); } else if j > p { assert(q[j] == o[j - 1]); }
        }
        assert forall|i: int, j: int| 0 <= i < j < q.len() implies !before(#[trigger] q[j], #[trigger] q[i]) by {
            if j < p {
                assert(q[i] == o[i] && q[j] == o[j]);
            } else if j == p {
                assert(q[i] == o[i]);
                if i < p - 1 {
                    assert(!before(o[p - 1], o[i]));
                    if before(e, o[i]) {
                        if before(o[i], o[p - 1]) {
                            assert(before(e, o[p - 1]));
                        } else {
                            lemma_before_through_tie(before, e, o[i], o[p - 1]);
                        }
                    }
                }
            } else if i == p {
                assert(q[j] == o[j - 1]);
                assert(before(e, o[j - 1]));
                lemma_before_asymmetric(before, e, o[j - 1]);
            } else if i < p {
                assert(q[i] == o[i] && q[j] == o[j - 1]);
            } else {
                assert(q[i] == o[i - 1] && q[j] == o[j - 1]);
            }
        }
        assert forall|i: int, j: int| 0 <= i < j < q.len() && !before(q[i], q[j]) implies #[trigger] q[i] < #[trigger] q[j] by {
            if j < p {
                assert(q[i] == o[i] && q[j] == o[j]);
            } else if j == p {
                assert(q[i] == o[i]);
            } else if i == p {
                assert(q[j] == o[j - 1]);
                assert(before(e, o[j - 1]));
            } else if i < p {
                assert(q[i] == o[i] && q[j] == o[j - 1]);
            } else {
                assert(q[i] == o[i - 1] && q[j] == o[j - 1]);
            }
        }
    }
}

/// A finished sort is a stable sorted arrangement of all the positions:
/// each of `0..n` exactly once, no position before one that `before` puts
/// ahead of it, and positions `before` does not tell apart in their
/// original order.
pub proof fn law_sort_done_is_stable_sorted_permutation(s: SortView, before: spec_fn(usize, usize) -> bool)
    requires
        sorting(s, before),
        !sort_pending(s),
    ensures
        s.order.len() == s.n,
        forall|i: int| 0 <= i < s.n ==> s.order[i] < s.n,
        s.order.no_duplicates(),
        forall|i: int, j: int| 0 <= i < j < s.n ==> !before(#[trigger] s.order[j], #[trigger] s.order[i]),
        forall|i: int, j: int| 0 <= i < j < s.n && !before(s.order[i], s.order[j]) ==> #[trigger] s.order[i] < #[trigger] s.order[j],
{
}

/// Whatever the comparisons answer, even inconsistently, a sort keeps
/// arranging each position exactly once: a finished sort is a permutation
/// of `0..n`.
pub proof fn law_sort_is_a_permutation_whatever_the_answers(s: SortView, goes_before: bool)
    requires
        arranges(s),
        sort_pending(s),
    ensures
        arranges(sort_answer_spec(s, goes_before)),
        arranges(sort_start_spec(s.n, s.reverse)),
{
    let e = s.inserting as usize;
    let o = s.order;
    let p = s.pos as int;
    let s1 = SortView { pos: (s.pos - 1) as nat, ..s };
    let at: int = if goes_before { p - 1 } else { p };
    if !goes_before || p - 1 == 0 {
        o.insert_ensures(at, e);
        let t = if goes_before { place(s1, 0) } else { place(s, p) };
        let q = t.order;
        assert(sort_answer_spec(s, goes_before) == t);
        assert forall|i: int| 0 <= i < q.len() implies q[i] < t.inserting by {
            if i < at { assert(q[i] == o[i]); } else if i > at { assert(q[i] == o[i - 1]); }
        }
        assert forall|i: int, j: int| 0 <= i < j < q.len() implies q[i] != q[j] by {
            if i < at { assert(q[i] == o[i]); } else if i > at { assert(q[i] == o[i - 1]); }
            if j < at { assert(q[j] == o[j]); } else if j > at { assert(q[j] == o[j - 1]); }
            if i == at { assert(q[i] == e); assert(q[j] == o[j - 1]); assert(o[j - 1] < s.inserting); }
            if j == at { assert(q[j] == e); assert(q[i] == o[i]); assert(o[i] < s.inserting); }
            if i != at && j != at {
                let oi: int = if i < at { i } else { i - 1 };
                let oj: int = if j < at { j } else { j - 1 };
                assert(oi != oj);
                assert(o[oi] != o[oj]);
            }
        }
    }
    let z = SortView { order: Seq::<usize>::empty(), inserting: 0, pos: 0, n: s.n, reverse: s.reverse };
    if s.n > 0 {
        z.order.insert_ensures(0, 0);
    }
}

} // verus!
