use vstd::prelude::*;

verus! {

/// The pairs that index `i` forms with the indices behind it, among `n`
/// bodies: `(i, i + 1)`, `(i, i + 2)`, up to `(i, n - 1)`.
pub open spec fn row(n: nat, i: nat) -> Seq<(int, int)> {
    Seq::new((n - 1 - i) as nat, |t: int| (i as int, i + 1 + t))
}

/// The rows of the indices below `upto`, one behind the other.
pub open spec fn rows(n: nat, upto: nat) -> Seq<(int, int)>
    decreases upto,
{
    if upto == 0 {
        Seq::empty()
    } else {
        rows(n, (upto - 1) as nat) + row(n, (upto - 1) as nat)
    }
}

/// Every unordered pair of distinct indices below `n`, lower index first,
/// ordered by the lower index and then by the higher one. This is the order
/// in which bodies act on each other.
pub open spec fn pairs(n: nat) -> Seq<(int, int)> {
    rows(n, n)
}

/// `p` comes before `q` when pairs are ordered by their first entry and
/// then by their second.
pub open spec fn comes_before(p: (int, int), q: (int, int)) -> bool {
    p.0 < q.0 || (p.0 == q.0 && p.1 < q.1)
}

/// The place of the pair `(i, j)` in `pairs(n)`.
pub open spec fn place(n: nat, i: nat, j: nat) -> int {
    rows(n, i).len() + (j - i - 1)
}

/// The rows below `upto` hold `upto * (2n - upto - 1) / 2` pairs.
proof fn lemma_rows_len(n: nat, upto: nat)
    requires
        upto <= n,
    ensures
        2 * rows(n, upto).len() == upto * (2 * n - upto - 1),
    decreases upto,
{
    if upto > 0 {
        let below = (upto - 1) as nat;
        lemma_rows_len(n, below);
        assert(rows(n, upto).len() == rows(n, below).len() + (n - 1 - below));
        assert(upto * (2 * n - upto - 1) == below * (2 * n - below - 1) + 2 * (n - 1 - below))
            by (nonlinear_arith)
            requires
                below == upto - 1,
        ;
    } else {
        assert(upto * (2 * n - upto - 1) == 0) by (nonlinear_arith)
            requires
                upto == 0,
        ;
    }
}

/// Among `n` bodies there are `n (n - 1) / 2` pairs.
pub proof fn lemma_pairs_len(n: nat)
    ensures
        2 * pairs(n).len() == n * (n - 1),
{
    lemma_rows_len(n, n);
    assert(n * (2 * n - n - 1) == n * (n - 1)) by (nonlinear_arith);
}

/// The rows below a lower bound are a prefix of the rows below a higher one.
proof fn lemma_rows_prefix(n: nat, lower: nat, upper: nat)
    requires
        lower <= upper,
    ensures
        rows(n, lower).len() <= rows(n, upper).len(),
        rows(n, upper).subrange(0, rows(n, lower).len() as int) == rows(n, lower),
    decreases upper - lower,
{
    if lower < upper {
        let below = (upper - 1) as nat;
        lemma_rows_prefix(n, lower, below);
        assert(rows(n, upper).subrange(0, rows(n, lower).len() as int) =~= rows(n, below).subrange(
            0,
            rows(n, lower).len() as int,
        ));
    } else {
        assert(rows(n, upper).subrange(0, rows(n, lower).len() as int) =~= rows(n, lower));
    }
}

/// Every pair of indices `i < j < n` stands in `pairs(n)`, at `place(n, i, j)`.
pub proof fn lemma_pairs_complete(n: nat, i: nat, j: nat)
    requires
        i < j < n,
    ensures
        0 <= place(n, i, j) < pairs(n).len(),
        pairs(n)[place(n, i, j)] == (i as int, j as int),
{
    let next = i + 1;
    lemma_rows_prefix(n, next as nat, n);
    let k = place(n, i, j);
    assert(rows(n, next as nat) == rows(n, i) + row(n, i));
    assert(rows(n, next as nat)[k] == row(n, i)[j - i - 1]);
    assert(rows(n, n).subrange(0, rows(n, next as nat).len() as int)[k] == rows(n, n)[k]);
}

/// Every entry of the rows below `upto` is a pair `(a, b)` with
/// `a < upto` and `a < b < n`, and stands at its place.
proof fn lemma_rows_entry(n: nat, upto: nat, k: int)
    requires
        upto <= n,
        0 <= k < rows(n, upto).len(),
    ensures
        0 <= rows(n, upto)[k].0 < upto,
        rows(n, upto)[k].0 < rows(n, upto)[k].1 < n,
        k == place(n, rows(n, upto)[k].0 as nat, rows(n, upto)[k].1 as nat),
    decreases upto,
{
    let below = (upto - 1) as nat;
    if k < rows(n, below).len() {
        lemma_rows_entry(n, below, k);
    } else {
        assert(rows(n, upto)[k] == row(n, below)[k - rows(n, below).len()]);
    }
}

/// Every entry of `pairs(n)` is a pair of indices `a < b < n`.
pub proof fn lemma_pairs_sound(n: nat, k: int)
    requires
        0 <= k < pairs(n).len(),
    ensures
        0 <= pairs(n)[k].0 < pairs(n)[k].1 < n,
        k == place(n, pairs(n)[k].0 as nat, pairs(n)[k].1 as nat),
{
    lemma_rows_entry(n, n, k);
}

/// `pairs(n)` rises strictly: an earlier entry comes before a later one. So
/// no pair stands in it twice.
pub proof fn lemma_pairs_ordered(n: nat, k: int, l: int)
    requires
        0 <= k < l < pairs(n).len(),
    ensures
        comes_before(pairs(n)[k], pairs(n)[l]),
{
    lemma_pairs_sound(n, k);
    lemma_pairs_sound(n, l);
    let p = pairs(n)[k];
    let q = pairs(n)[l];
    if p.0 > q.0 {
        // then the whole row of `q.0` lies before the place of `p`
        lemma_rows_prefix(n, (q.0 + 1) as nat, p.0 as nat);
        assert(rows(n, (q.0 + 1) as nat) == rows(n, q.0 as nat) + row(n, q.0 as nat));
    }
}

} // verus!
