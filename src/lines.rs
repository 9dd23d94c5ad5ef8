use vstd::prelude::*;

verus! {

/// Index of the first `c` in `s`, or the length of `s` when there is none.
pub open spec fn first_index(s: Seq<char>, c: char) -> nat
    decreases s.len(),
{
    if s.len() == 0 {
        0
    } else if s[0] == c {
        0
    } else {
        1 + first_index(s.drop_first(), c)
    }
}

/// A line without its terminator: a `'\r'` that stood before the `'\n'` goes too.
pub open spec fn strip_cr(l: Seq<char>) -> Seq<char> {
    if l.len() > 0 && l.last() == '\r' {
        l.drop_last()
    } else {
        l
    }
}

/// The lines of a text: split at each `'\n'` (a `'\r'` right before it is
/// dropped); a final line ending adds no empty line, and an empty text has none.
pub open spec fn lines_spec(s: Seq<char>) -> Seq<Seq<char>>
    decreases s.len(),
{
    if s.len() == 0 {
        Seq::empty()
    } else {
        let k = first_index(s, '\n');
        if k >= s.len() {
            seq![s]
        } else {
            seq![strip_cr(s.subrange(0, k as int))] + lines_spec(s.subrange(k as int + 1, s.len() as int))
        }
    }
}

/// `lit` occurs in `s` at index `i`.
pub open spec fn occurs_at(s: Seq<char>, i: int, lit: Seq<char>) -> bool {
    &&& 0 <= i
    &&& i + lit.len() <= s.len()
    &&& s.subrange(i, i + lit.len()) == lit
}

/// `lit` occurs somewhere in `s`.
pub open spec fn contains_spec(s: Seq<char>, lit: Seq<char>) -> bool {
    exists|i: int| occurs_at(s, i, lit)
}

/// `k` is the index of the first `c` in `s` when no `c` comes before it and
/// a `c`, or the end, stands at `k`.
pub(crate) proof fn lemma_first_index(s: Seq<char>, c: char, k: nat)
    requires
        k <= s.len(),
        forall|j: int| 0 <= j < k ==> s[j] != c,
        k == s.len() || s[k as int] == c,
    ensures
        first_index(s, c) == k,
    decreases s.len(),
{
    if s.len() > 0 && k > 0 {
        lemma_first_index(s.drop_first(), c, (k - 1) as nat);
    }
}

/// Whether `lit` occurs in `s` at index `i`.
pub fn occurs_at_exec(s: &Vec<char>, i: usize, lit: &Vec<char>) -> (r: bool)
    ensures
        r == occurs_at(s@, i as int, lit@),
{
    if i > s.len() || lit.len() > s.len() - i {
        return false;
    }
    let n = s.len();
    let mut j: usize = 0;
    while j < lit.len()
        invariant
            n == s@.len(),
            i + lit@.len() <= s@.len(),
            j <= lit@.len(),
            forall|k: int| 0 <= k < j ==> s@[i + k] == lit@[k],
        decreases lit@.len() - j,
    {
        if s[i + j] != lit[j] {
            assert(s@.subrange(i as int, i + lit@.len())[j as int] != lit@[j as int]);
            return false;
        }
        j = j + 1;
    }
    assert(s@.subrange(i as int, i + lit@.len()) =~= lit@);
    true
}

/// Whether `lit` occurs anywhere in `s`.
pub fn contains(s: &Vec<char>, lit: &Vec<char>) -> (r: bool)
    ensures
        r == contains_spec(s@, lit@),
{
    let n = s.len();
    let mut i: usize = 0;
    while i < n
        invariant
            n == s@.len(),
            i <= n,
            forall|k: int| 0 <= k < i ==> !occurs_at(s@, k, lit@),
        decreases n - i,
    {
        if occurs_at_exec(s, i, lit) {
            return true;
        }
        i = i + 1;
    }
    if occurs_at_exec(s, n, lit) {
        return true;
    }
    assert forall|k: int| !occurs_at(s@, k, lit@) by {
        if 0 <= k && k + lit@.len() <= s@.len() {
            assert(k <= i);
        }
    }
    false
}

/// The lines of `s` (see `lines_spec`).
pub fn split_lines(s: &Vec<char>) -> (r: Vec<Vec<char>>)
    ensures
        r@.len() == lines_spec(s@).len(),
        forall|k: int| 0 <= k < r@.len() ==> #[trigger] r@[k]@ == lines_spec(s@)[k],
{
    let mut out: Vec<Vec<char>> = Vec::new();
    let ghost done: Seq<Seq<char>> = Seq::empty();
    let mut cur: Vec<char> = Vec::new();
    let mut start: usize = 0;
    let mut i: usize = 0;
    assert(s@.subrange(0, s@.len() as int) =~= s@);
    while i < s.len()
        invariant
            start <= i <= s@.len(),
            cur@ == s@.subrange(start as int, i as int),
            forall|j: int| start <= j < i ==> s@[j] != '\n',
            out@.len() == done.len(),
            forall|k: int| 0 <= k < out@.len() ==> #[trigger] out@[k]@ == done[k],
            done + lines_spec(s@.subrange(start as int, s@.len() as int)) == lines_spec(s@),
        decreases s@.len() - i,
    {
        if s[i] == '\n' {
            let ghost rest = s@.subrange(start as int, s@.len() as int);
            proof {
                lemma_first_index(rest, '\n', (i - start) as nat);
                assert(rest.subrange(0, (i - start) as int) =~= cur@);
                assert(rest.subrange(i - start + 1, rest.len() as int) =~= s@.subrange(
                    i + 1,
                    s@.len() as int,
                ));
            }
            let mut line = cur;
            if line.len() > 0 && line[line.len() - 1] == '\r' {
                line.pop();
            }
            assert(line@ == strip_cr(cur@));
            proof {
                done = done.push(line@);
            }
            out.push(line);
            cur = Vec::new();
            start = i + 1;
            assert(cur@ =~= s@.subrange(start as int, (i + 1) as int));
        } else {
            cur.push(s[i]);
            assert(cur@ =~= s@.subrange(start as int, (i + 1) as int));
        }
        i = i + 1;
    }
    if start < s.len() {
        let ghost rest = s@.subrange(start as int, s@.len() as int);
        proof {
            lemma_first_index(rest, '\n', rest.len());
            assert(rest =~= cur@);
            done = done.push(cur@);
        }
        out.push(cur);
    } else {
        assert(s@.subrange(start as int, s@.len() as int).len() == 0);
        assert(done =~= lines_spec(s@));
    }
    assert(done =~= lines_spec(s@));
    out
}

} // verus!
