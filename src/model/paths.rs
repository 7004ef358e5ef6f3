//! Scratch paths of different jobs never coincide.

use vstd::prelude::*;
use crate::model::{decimal_of, digit_char, input_path_of, output_path_of, problem_dir};

verus! {

pub open spec fn is_digit(c: char) -> bool {
    '0' <= c && c <= '9'
}

proof fn lemma_decimal_digits(n: nat)
    ensures
        decimal_of(n).len() >= 1,
        n >= 10 ==> decimal_of(n).len() >= 2,
        forall|i: int| 0 <= i < decimal_of(n).len() ==> is_digit(#[trigger] decimal_of(n)[i]),
    decreases n,
{
    if n >= 10 {
        lemma_decimal_digits(n / 10);
        let d = decimal_of(n / 10);
        assert forall|i: int| 0 <= i < decimal_of(n).len() implies is_digit(#[trigger] decimal_of(n)[i]) by {
            if i < d.len() {
                assert(decimal_of(n)[i] == d[i]);
            }
        }
    }
}

proof fn lemma_digit_injective(a: nat, b: nat)
    requires
        a < 10,
        b < 10,
        digit_char(a) == digit_char(b),
    ensures
        a == b,
{
}

proof fn lemma_decimal_injective(m: nat, n: nat)
    requires
        decimal_of(m) == decimal_of(n),
    ensures
        m == n,
    decreases m + n,
{
    lemma_decimal_digits(m);
    lemma_decimal_digits(n);
    if m >= 10 && n >= 10 {
        let a = decimal_of(m);
        assert(a.drop_last() =~= decimal_of(m / 10));
        assert(decimal_of(n).drop_last() =~= decimal_of(n / 10));
        assert(digit_char(m % 10) == a.last());
        assert(digit_char(n % 10) == a.last());
        lemma_digit_injective(m % 10, n % 10);
        lemma_decimal_injective(m / 10, n / 10);
        assert(m == 10 * (m / 10) + m % 10) by (nonlinear_arith);
        assert(n == 10 * (n / 10) + n % 10) by (nonlinear_arith);
    } else if m < 10 && n < 10 {
        assert(decimal_of(m)[0] == digit_char(m));
        assert(decimal_of(n)[0] == digit_char(n));
        lemma_digit_injective(m, n);
    }
}

/// A run of digits followed by text that starts with `/` splits one way only.
proof fn lemma_split_at_slash(a: Seq<char>, x: Seq<char>, b: Seq<char>, y: Seq<char>)
    requires
        forall|i: int| 0 <= i < a.len() ==> is_digit(#[trigger] a[i]),
        forall|i: int| 0 <= i < b.len() ==> is_digit(#[trigger] b[i]),
        x.len() > 0 && x[0] == '/',
        y.len() > 0 && y[0] == '/',
        a + x == b + y,
    ensures
        a == b,
        x == y,
{
    if a.len() < b.len() {
        assert((a + x)[a.len() as int] == '/');
        assert((b + y)[a.len() as int] == b[a.len() as int]);
    } else if b.len() < a.len() {
        assert((b + y)[b.len() as int] == '/');
        assert((a + x)[b.len() as int] == a[b.len() as int]);
    }
    assert(a =~= (a + x).subrange(0, a.len() as int));
    assert(b =~= (b + y).subrange(0, b.len() as int));
    assert(x =~= (a + x).subrange(a.len() as int, (a + x).len() as int));
    assert(y =~= (b + y).subrange(b.len() as int, (b + y).len() as int));
}

proof fn lemma_strip_prefix(p: Seq<char>, a: Seq<char>, b: Seq<char>)
    requires
        p + a == p + b,
    ensures
        a == b,
{
    assert(a =~= (p + a).subrange(p.len() as int, (p + a).len() as int));
    assert(b =~= (p + b).subrange(p.len() as int, (p + b).len() as int));
}

/// The problem directory and what follows it split one way only.
proof fn lemma_split_problem_dir(p: u32, x: Seq<char>, q: u32, y: Seq<char>)
    requires
        x.len() > 0 && x[0] == '/',
        y.len() > 0 && y[0] == '/',
        problem_dir(p) + x == problem_dir(q) + y,
    ensures
        p == q,
        x == y,
{
    let pre = "./problem/"@;
    let dp = decimal_of(p as nat);
    let dq = decimal_of(q as nat);
    assert(problem_dir(p) + x =~= pre + (dp + x));
    assert(problem_dir(q) + y =~= pre + (dq + y));
    lemma_strip_prefix(pre, dp + x, dq + y);
    lemma_decimal_digits(p as nat);
    lemma_decimal_digits(q as nat);
    lemma_split_at_slash(dp, x, dq, y);
    lemma_decimal_injective(p as nat, q as nat);
}

/// Two jobs share a compiled-program path only if they have the same problem
/// and the same identifier.
pub proof fn lemma_output_paths_distinct(p: u32, i: u32, q: u32, j: u32)
    requires
        output_path_of(p, i) == output_path_of(q, j),
    ensures
        p == q,
        i == j,
{
    reveal_strlit("/output/");
    let mid = "/output/"@;
    let x = mid + decimal_of(i as nat);
    let y = mid + decimal_of(j as nat);
    assert(output_path_of(p, i) =~= problem_dir(p) + x);
    assert(output_path_of(q, j) =~= problem_dir(q) + y);
    lemma_split_problem_dir(p, x, q, y);
    lemma_strip_prefix(mid, decimal_of(i as nat), decimal_of(j as nat));
    lemma_decimal_injective(i as nat, j as nat);
}

/// Two jobs share an output-capture path only if they have the same problem
/// and the same identifier.
pub proof fn lemma_input_paths_distinct(p: u32, i: u32, q: u32, j: u32)
    requires
        input_path_of(p, i) == input_path_of(q, j),
    ensures
        p == q,
        i == j,
{
    reveal_strlit("/input/");
    let mid = "/input/"@;
    let ext = ".txt"@;
    let di = decimal_of(i as nat);
    let dj = decimal_of(j as nat);
    let x = mid + di + ext;
    let y = mid + dj + ext;
    assert(input_path_of(p, i) =~= problem_dir(p) + x);
    assert(input_path_of(q, j) =~= problem_dir(q) + y);
    lemma_split_problem_dir(p, x, q, y);
    assert(x =~= mid + (di + ext));
    assert(y =~= mid + (dj + ext));
    lemma_strip_prefix(mid, di + ext, dj + ext);
    assert(di =~= (di + ext).subrange(0, di.len() as int));
    assert(dj =~= (dj + ext).subrange(0, dj.len() as int));
    lemma_decimal_injective(i as nat, j as nat);
}

} // verus!
