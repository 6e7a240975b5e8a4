//! The arithmetic and path helpers offered to templates.
//!
//! A template helper receives its parameters as JSON values; each function
//! here takes what the integer or string reading of those parameters gave
//! (`None` where a parameter is not of that kind) and computes the text the
//! helper writes.
use vstd::prelude::*;
use crate::helpers::{relative_path_from, relative_path_spec};

verus! {

/// The operands: each parameter's integer value, or `default` where it has none.
pub open spec fn operands(params: Seq<Option<i64>>, default: i64) -> Seq<int> {
    params.map_values(|p: Option<i64>| match p {
        Some(v) => v as int,
        None => default as int,
    })
}

pub open spec fn sum_of(s: Seq<int>) -> int
    decreases s.len(),
{
    if s.len() == 0 {
        0
    } else {
        sum_of(s.drop_last()) + s.last()
    }
}

pub open spec fn fits_i64(v: int) -> bool {
    i64::MIN <= v <= i64::MAX
}

/// Every running sum of `s` fits in an `i64`.
pub open spec fn sums_fit(s: Seq<int>) -> bool {
    forall|k: int| 0 <= k <= s.len() ==> fits_i64(#[trigger] sum_of(s.take(k)))
}

/// The first operand minus each of the others in turn.
pub open spec fn difference_of(s: Seq<int>) -> int
    decreases s.len(),
{
    if s.len() <= 1 {
        if s.len() == 1 {
            s[0]
        } else {
            0
        }
    } else {
        difference_of(s.drop_last()) - s.last()
    }
}

/// Every running difference of `s` fits in an `i64`.
pub open spec fn differences_fit(s: Seq<int>) -> bool {
    forall|k: int| 1 <= k <= s.len() ==> fits_i64(#[trigger] difference_of(s.take(k)))
}

/// Integer division rounding toward zero, as Rust's `/` does.
pub open spec fn trunc_div(a: int, b: int) -> int {
    let q = (if a < 0 { -a } else { a }) / (if b < 0 { -b } else { b });
    if (a < 0) != (b < 0) {
        -q
    } else {
        q
    }
}

/// The first operand divided by each of the others in turn.
pub open spec fn quotient_of(s: Seq<int>) -> int
    decreases s.len(),
{
    if s.len() <= 1 {
        if s.len() == 1 {
            s[0]
        } else {
            1
        }
    } else {
        trunc_div(quotient_of(s.drop_last()), s.last())
    }
}

/// No division of the chain is by zero or overflows.
pub open spec fn quotients_defined(s: Seq<int>) -> bool {
    forall|k: int|
        1 <= k < s.len() ==> {
            &&& #[trigger] s[k] != 0
            &&& !(quotient_of(s.take(k)) == i64::MIN && s[k] == -1)
        }
}

/// Sums split over concatenation.
proof fn lemma_sum_of_concat(a: Seq<int>, b: Seq<int>)
    ensures
        sum_of(a + b) == sum_of(a) + sum_of(b),
    decreases b.len(),
{
    if b.len() == 0 {
        assert(a + b =~= a);
    } else {
        lemma_sum_of_concat(a, b.drop_last());
        assert((a + b).drop_last() =~= a + b.drop_last());
        assert((a + b).last() == b.last());
    }
}

proof fn lemma_operands_concat(ps: Seq<Option<i64>>, qs: Seq<Option<i64>>, default: i64)
    ensures
        operands(ps + qs, default) == operands(ps, default) + operands(qs, default),
{
    assert(operands(ps + qs, default) =~= operands(ps, default) + operands(qs, default));
}

/// The addition helper adds every operand: the sum over two lists of
/// parameters put one after the other is the sum over the first plus the sum
/// over the second; one parameter adds its integer value, and a parameter
/// without one adds nothing.
pub proof fn law_add_int_adds_every_operand(ps: Seq<Option<i64>>, qs: Seq<Option<i64>>, v: i64)
    ensures
        sum_of(operands(ps + qs, 0)) == sum_of(operands(ps, 0)) + sum_of(operands(qs, 0)),
        sum_of(operands(seq![Some(v)], 0)) == v,
        sum_of(operands(seq![None::<i64>], 0)) == 0,
        sum_of(operands(ps.push(Some(v)), 0)) == sum_of(operands(ps, 0)) + v,
{
    lemma_operands_concat(ps, qs, 0);
    lemma_sum_of_concat(operands(ps, 0), operands(qs, 0));
    let one = operands(seq![Some(v)], 0);
    assert(one =~= seq![v as int]);
    assert(one.drop_last() =~= Seq::<int>::empty());
    assert(one.last() == v as int);
    assert(sum_of(Seq::<int>::empty()) == 0);
    assert(sum_of(one) == sum_of(one.drop_last()) + one.last());
    let none = operands(seq![None::<i64>], 0);
    assert(none =~= seq![0int]);
    assert(none.drop_last() =~= Seq::<int>::empty());
    assert(none.last() == 0);
    assert(sum_of(none) == sum_of(none.drop_last()) + none.last());
    assert(ps.push(Some(v)) =~= ps + seq![Some(v)]);
    lemma_operands_concat(ps, seq![Some(v)], 0);
    lemma_sum_of_concat(operands(ps, 0), one);
}

/// The subtraction helper takes every later operand off the first: over a
/// non-empty list followed by more parameters, the result is that of the list
/// minus the sum of the later operands; a single operand is the result.
pub proof fn law_sub_int_subtracts_every_later_operand(ps: Seq<Option<i64>>, qs: Seq<Option<i64>>)
    requires
        ps.len() > 0,
    ensures
        difference_of(operands(ps + qs, 0)) == difference_of(operands(ps, 0)) - sum_of(
            operands(qs, 0),
        ),
        difference_of(operands(ps.take(1), 0)) == operands(ps, 0)[0],
    decreases qs.len(),
{
    if qs.len() == 0 {
        assert(ps + qs =~= ps);
        assert(operands(qs, 0) =~= Seq::<int>::empty());
    } else {
        law_sub_int_subtracts_every_later_operand(ps, qs.drop_last());
        let a = operands(ps + qs, 0);
        assert(a.drop_last() =~= operands(ps + qs.drop_last(), 0));
        assert((ps + qs).last() == qs.last());
        assert(operands(qs, 0).drop_last() =~= operands(qs.drop_last(), 0));
        assert(a.len() >= 2);
    }
    assert(operands(ps.take(1), 0) =~= seq![operands(ps, 0)[0]]);
}

/// The division helper divides by every later operand in turn, rounding
/// toward zero: one more parameter divides the result so far by its value.
pub proof fn law_div_int_divides_by_every_later_operand(ps: Seq<Option<i64>>, v: i64)
    requires
        ps.len() > 0,
    ensures
        quotient_of(operands(ps.push(Some(v)), 1)) == trunc_div(quotient_of(operands(ps, 1)), v as int),
        quotient_of(operands(ps.push(None), 1)) == quotient_of(operands(ps, 1)),
{
    assert(operands(ps.push(Some(v)), 1).drop_last() =~= operands(ps, 1));
    assert(operands(ps.push(None), 1).drop_last() =~= operands(ps, 1));
    let q = quotient_of(operands(ps, 1));
    assert(trunc_div(q, 1) == q) by (nonlinear_arith);
}

/// The sum of the integer parameters (others count as 0).
pub fn add_int(params: &Vec<Option<i64>>) -> (r: i64)
    requires
        sums_fit(operands(params@, 0)),
    ensures
        r == sum_of(operands(params@, 0)),
{
    let ghost ops = operands(params@, 0);
    let mut acc: i64 = 0;
    let mut i: usize = 0;
    assert(ops.take(0) =~= Seq::<int>::empty());
    while i < params.len()
        invariant
            i <= params.len(),
            ops == operands(params@, 0),
            sums_fit(ops),
            acc == sum_of(ops.take(i as int)),
        decreases params.len() - i,
    {
        let value: i64 = match params[i] {
            Some(v) => v,
            None => 0,
        };
        assert(ops.take(i + 1).drop_last() =~= ops.take(i as int));
        assert(fits_i64(sum_of(ops.take(i + 1))));
        acc = value + acc;
        i += 1;
    }
    assert(ops.take(params.len() as int) =~= ops);
    acc
}

/// The first integer parameter minus each of the others (others count as 0);
/// 0 when there are no parameters.
pub fn sub_int(params: &Vec<Option<i64>>) -> (r: i64)
    requires
        differences_fit(operands(params@, 0)),
    ensures
        r == difference_of(operands(params@, 0)),
{
    let ghost ops = operands(params@, 0);
    if params.len() == 0 {
        return 0;
    }
    let mut acc: i64 = match params[0] {
        Some(v) => v,
        None => 0,
    };
    let mut i: usize = 1;
    assert(difference_of(ops.take(1)) == ops[0]);
    while i < params.len()
        invariant
            1 <= i <= params.len(),
            ops == operands(params@, 0),
            differences_fit(ops),
            acc == difference_of(ops.take(i as int)),
        decreases params.len() - i,
    {
        let value: i64 = match params[i] {
            Some(v) => v,
            None => 0,
        };
        assert(ops.take(i + 1).drop_last() =~= ops.take(i as int));
        assert(fits_i64(difference_of(ops.take(i + 1))));
        acc = acc - value;
        i += 1;
    }
    assert(ops.take(params.len() as int) =~= ops);
    acc
}

/// `a / b` rounded toward zero.
fn div_toward_zero(a: i64, b: i64) -> (r: i64)
    requires
        b != 0,
        !(a == i64::MIN && b == -1),
    ensures
        r == trunc_div(a as int, b as int),
{
    let ua: u64 = if a < 0 {
        if a == i64::MIN {
            9223372036854775808u64
        } else {
            (-a) as u64
        }
    } else {
        a as u64
    };
    let ub: u64 = if b < 0 {
        if b == i64::MIN {
            9223372036854775808u64
        } else {
            (-b) as u64
        }
    } else {
        b as u64
    };
    let q: u64 = ua / ub;
    assert(q <= ua) by (nonlinear_arith)
        requires
            ub >= 1,
            q == ua / ub,
    ;
    if (a < 0) != (b < 0) {
        if q == 9223372036854775808u64 {
            i64::MIN
        } else {
            -(q as i64)
        }
    } else {
        assert(q <= 9223372036854775807u64) by (nonlinear_arith)
            requires
                q == ua / ub,
                ub >= 1,
                ua <= 9223372036854775808u64,
                ua == 9223372036854775808u64 ==> ub >= 2,
        ;
        q as i64
    }
}

/// The first integer parameter divided by each of the others in turn,
/// rounding toward zero (parameters without an integer value count as 1);
/// 1 when there are no parameters.
pub fn div_int(params: &Vec<Option<i64>>) -> (r: i64)
    requires
        quotients_defined(operands(params@, 1)),
    ensures
        r == quotient_of(operands(params@, 1)),
{
    let ghost ops = operands(params@, 1);
    if params.len() == 0 {
        return 1;
    }
    let mut acc: i64 = match params[0] {
        Some(v) => v,
        None => 1,
    };
    let mut i: usize = 1;
    assert(quotient_of(ops.take(1)) == ops[0]);
    while i < params.len()
        invariant
            1 <= i <= params.len(),
            ops == operands(params@, 1),
            quotients_defined(ops),
            acc == quotient_of(ops.take(i as int)),
        decreases params.len() - i,
    {
        let value: i64 = match params[i] {
            Some(v) => v,
            None => 1,
        };
        assert(ops.take(i + 1).drop_last() =~= ops.take(i as int));
        assert(ops[i as int] == value);
        assert(ops[i as int] != 0 && !(quotient_of(ops.take(i as int)) == i64::MIN && ops[i as int] == -1));
        let ghost prev = acc;
        acc = div_toward_zero(acc, value);
        assert(quotient_of(ops.take(i + 1)) == trunc_div(prev as int, value as int));
        i += 1;
    }
    assert(ops.take(params.len() as int) =~= ops);
    acc
}

/// The product helper. It starts from 0, so whatever the parameters its
/// answer is 0.
pub fn mult_int(params: &Vec<Option<i64>>) -> (r: i64)
    ensures
        r == 0,
{
    let mut acc: i64 = 0;
    let mut i: usize = 0;
    while i < params.len()
        invariant
            i <= params.len(),
            acc == 0,
        decreases params.len() - i,
    {
        let value: i64 = match params[i] {
            Some(v) => v,
            None => 1,
        };
        acc = value * acc;
        i += 1;
    }
    acc
}

/// The text of the relative path from the second parameter to the first
/// (missing ones count as the empty path); empty when there is none.
pub fn relpath(dst: Option<&str>, base: Option<&str>) -> (r: String)
    ensures
        ({
            let d = match dst {
                Some(s) => s@,
                None => Seq::<char>::empty(),
            };
            let b = match base {
                Some(s) => s@,
                None => Seq::<char>::empty(),
            };
            r@ == match relative_path_spec(d, b) {
                Some(p) => p,
                None => Seq::<char>::empty(),
            }
        }),
{
    let empty = "";
    proof {
        reveal_strlit("");
    }
    let d: &str = match dst {
        Some(s) => s,
        None => empty,
    };
    let b: &str = match base {
        Some(s) => s,
        None => empty,
    };
    match relative_path_from(d, b) {
        Some(p) => p,
        None => String::new(),
    }
}

} // verus!
