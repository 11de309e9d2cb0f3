use vstd::prelude::*;

verus! {

/// The lowest index `j` in `[i, n)` with `p(j)`, or `n` when there is none.
pub open spec fn first_where(i: int, n: int, p: spec_fn(int) -> bool) -> int
    decreases n - i,
{
    if i >= n {
        n
    } else if p(i) {
        i
    } else {
        first_where(i + 1, n, p)
    }
}

/// The highest index `j` below `i` (and at least 0) with `p(j)`, or -1 when there is none.
pub open spec fn last_where(i: int, p: spec_fn(int) -> bool) -> int
    decreases i,
{
    if i <= 0 {
        -1
    } else if p(i - 1) {
        i - 1
    } else {
        last_where(i - 1, p)
    }
}

/// What `first_where` finds: a position in range where `p` holds, with no
/// earlier one, or the end of the range.
pub proof fn lemma_first_where(i: int, n: int, p: spec_fn(int) -> bool)
    requires
        i <= n,
    ensures
        i <= first_where(i, n, p) <= n,
        first_where(i, n, p) < n ==> p(first_where(i, n, p)),
        forall|j: int| i <= j < first_where(i, n, p) ==> !#[trigger] p(j),
    decreases n - i,
{
    if i < n && !p(i) {
        lemma_first_where(i + 1, n, p);
    }
}

/// Appends one character to a string.
/// Relies on `String::push`, which adds the character at the end.
#[verifier::external_body]
pub(crate) fn push_char(s: &mut String, c: char)
    ensures
        final(s)@ == old(s)@.push(c),
{
    s.push(c)
}

/// The characters `from..to` of `s` as a new string.
pub fn slice_string(s: &str, from: usize, to: usize) -> (r: String)
    requires
        from <= to <= s@.len(),
    ensures
        r@ == s@.subrange(from as int, to as int),
{
    String::from_str(s.substring_char(from, to))
}

/// `a` followed by `b`.
pub fn concat(a: &str, b: &str) -> (r: String)
    ensures
        r@ == a@ + b@,
{
    let mut r = String::from_str(a);
    r.append(b);
    r
}

} // verus!
