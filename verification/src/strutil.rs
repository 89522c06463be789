//! Verified helpers over strings and character sequences: ASCII lowercasing,
//! substring search, lexicographic comparison, and string building.

use vstd::prelude::*;

verus! {

/// Three-way comparison outcome.
#[derive(Clone, Copy, Debug, PartialEq, Eq, Structural)]
pub enum Cmp {
    Less,
    Equal,
    Greater,
}

/// ASCII lowercase of one character: 'A'..'Z' map to 'a'..'z', all else unchanged.
pub open spec fn lower_char(c: char) -> char {
    if 'A' <= c && c <= 'Z' {
        ((c as u8) + 32) as char
    } else {
        c
    }
}

/// ASCII lowercase of a character sequence.
pub open spec fn lower_seq(s: Seq<char>) -> Seq<char> {
    s.map_values(|c: char| lower_char(c))
}

/// Exec ASCII lowercase of one character.
pub fn lower_char_exec(c: char) -> (r: char)
    ensures
        r == lower_char(c),
{
    if 'A' <= c && c <= 'Z' {
        ((c as u8) + 32) as char
    } else {
        c
    }
}

/// The characters of `s` as a vector, in order.
pub fn chars_of(s: &str) -> (r: Vec<char>)
    ensures
        r@ == s@,
{
    let n = s.unicode_len();
    let mut v: Vec<char> = Vec::new();
    let mut i: usize = 0;
    while i < n
        invariant
            n == s@.len(),
            i <= n,
            v@ == s@.subrange(0, i as int),
        decreases n - i,
    {
        v.push(s.get_char(i));
        i += 1;
        proof {
            assert(v@ =~= s@.subrange(0, i as int));
        }
    }
    proof {
        assert(v@ =~= s@);
    }
    v
}

/// ASCII-lowercased characters of `s`.
pub fn lower_chars_of(s: &str) -> (r: Vec<char>)
    ensures
        r@ == lower_seq(s@),
{
    let n = s.unicode_len();
    let mut v: Vec<char> = Vec::new();
    let mut i: usize = 0;
    while i < n
        invariant
            n == s@.len(),
            i <= n,
            v@ == lower_seq(s@.subrange(0, i as int)),
        decreases n - i,
    {
        v.push(lower_char_exec(s.get_char(i)));
        i += 1;
        proof {
            assert(v@ =~= lower_seq(s@.subrange(0, i as int)));
        }
    }
    proof {
        assert(s@.subrange(0, n as int) =~= s@);
    }
    v
}

/// Relies on String::push: appends exactly one character to the end.
#[verifier::external_body]
pub fn push_char(s: &mut String, c: char)
    ensures
        final(s)@ == old(s)@ + seq![c],
{
    s.push(c)
}

/// A `String` whose characters are exactly `v`.
pub fn string_from_chars(v: &Vec<char>) -> (r: String)
    ensures
        r@ == v@,
{
    let mut s = String::new();
    let mut i: usize = 0;
    while i < v.len()
        invariant
            i <= v@.len(),
            s@ == v@.subrange(0, i as int),
        decreases v@.len() - i,
    {
        push_char(&mut s, v[i]);
        i += 1;
        proof {
            assert(s@ =~= v@.subrange(0, i as int));
        }
    }
    proof {
        assert(s@ =~= v@);
    }
    s
}

/// `n` occurs in `h` starting at index `i`.
pub open spec fn is_sub_at(h: Seq<char>, n: Seq<char>, i: int) -> bool {
    0 <= i && i + n.len() <= h.len() && h.subrange(i, i + n.len() as int) == n
}

/// `n` occurs somewhere in `h` as a contiguous subsequence.
pub open spec fn contains_seq(h: Seq<char>, n: Seq<char>) -> bool {
    exists|i: int| is_sub_at(h, n, i)
}

/// Whether `n` occurs in `h` starting exactly at index `i`.
fn matches_at(h: &Vec<char>, n: &Vec<char>, i: usize) -> (r: bool)
    requires
        i + n@.len() <= h@.len(),
    ensures
        r == is_sub_at(h@, n@, i as int),
{
    let hlen = h.len();
    let nlen = n.len();
    let mut j: usize = 0;
    while j < nlen
        invariant
            hlen == h@.len(),
            nlen == n@.len(),
            i + n@.len() <= h@.len(),
            j <= n@.len(),
            h@.subrange(i as int, i + j) == n@.subrange(0, j as int),
        decreases n@.len() - j,
    {
        if h[i + j] != n[j] {
            proof {
                assert(!is_sub_at(h@, n@, i as int)) by {
                    if h@.subrange(i as int, i + n@.len()) == n@ {
                        assert(h@.subrange(i as int, i + n@.len())[j as int] == h@[i + j]);
                    }
                }
            }
            return false;
        }
        j += 1;
        proof {
            assert(h@.subrange(i as int, i + j) =~= n@.subrange(0, j as int));
        }
    }
    proof {
        assert(n@.subrange(0, n@.len() as int) =~= n@);
    }
    true
}

/// Substring search over character vectors.
pub fn contains_chars(h: &Vec<char>, n: &Vec<char>) -> (r: bool)
    ensures
        r == contains_seq(h@, n@),
{
    if n.len() == 0 {
        proof {
            assert(h@.subrange(0, 0) =~= n@);
            assert(is_sub_at(h@, n@, 0));
        }
        return true;
    }
    if n.len() > h.len() {
        proof {
            assert(forall|i: int| !is_sub_at(h@, n@, i));
        }
        return false;
    }
    let last = h.len() - n.len();
    let mut i: usize = 0;
    loop
        invariant
            1 <= n@.len() <= h@.len(),
            h@.len() <= usize::MAX,
            last == h@.len() - n@.len(),
            i <= last + 1,
            forall|k: int| 0 <= k < i ==> !is_sub_at(h@, n@, k),
        decreases last + 1 - i,
    {
        if i > last {
            proof {
                assert(forall|k: int| is_sub_at(h@, n@, k) ==> 0 <= k < i);
            }
            return false;
        }
        if matches_at(h, n, i) {
            return true;
        }
        i += 1;
    }
}

/// Substring search directly over string slices.
pub fn str_contains(h: &str, n: &str) -> (r: bool)
    ensures
        r == contains_seq(h@, n@),
{
    let hv = chars_of(h);
    let nv = chars_of(n);
    contains_chars(&hv, &nv)
}

/// The first index where `n` occurs in `h`, or -1 when it does not.
pub open spec fn spec_sub_index(h: Seq<char>, n: Seq<char>) -> int
    decreases h.len(),
{
    if n.len() > h.len() {
        -1
    } else if is_sub_at(h, n, 0) {
        0
    } else if h.len() == 0 {
        -1
    } else {
        let r = spec_sub_index(h.skip(1), n);
        if r == -1 {
            -1
        } else {
            r + 1
        }
    }
}

/// What `spec_sub_index` finds: the first occurrence, or -1 when there
/// is none.
pub proof fn lemma_sub_index_facts(h: Seq<char>, n: Seq<char>)
    ensures
        spec_sub_index(h, n) >= -1,
        spec_sub_index(h, n) == -1 ==> forall|k: int| !is_sub_at(h, n, k),
        spec_sub_index(h, n) >= 0 ==> is_sub_at(h, n, spec_sub_index(h, n)) && forall|k: int|
            0 <= k < spec_sub_index(h, n) ==> !is_sub_at(h, n, k),
    decreases h.len(),
{
    if n.len() > h.len() {
        assert(forall|k: int| !is_sub_at(h, n, k));
    } else if is_sub_at(h, n, 0) {
    } else if h.len() == 0 {
        assert(forall|k: int| !is_sub_at(h, n, k));
    } else {
        lemma_sub_index_facts(h.skip(1), n);
        let r = spec_sub_index(h.skip(1), n);
        assert forall|k: int| 1 <= k implies is_sub_at(h, n, k) == is_sub_at(
            h.skip(1),
            n,
            k - 1,
        ) by {
            if 0 <= k - 1 && k - 1 + n.len() <= h.skip(1).len() {
                assert(h.skip(1).subrange(k - 1, k - 1 + n.len()) =~= h.subrange(k, k + n.len()));
            }
        }
        if r == -1 {
            assert forall|k: int| !is_sub_at(h, n, k) by {
                if k >= 1 {
                    assert(!is_sub_at(h.skip(1), n, k - 1));
                }
            }
        } else {
            assert(is_sub_at(h.skip(1), n, r));
            assert(is_sub_at(h, n, r + 1));
            assert forall|k: int| 0 <= k < r + 1 implies !is_sub_at(h, n, k) by {
                if k >= 1 {
                    assert(!is_sub_at(h.skip(1), n, k - 1));
                }
            }
        }
    }
}

/// When `n` occurs at `i` and nowhere before, `spec_sub_index` finds
/// exactly `i`.
pub proof fn lemma_sub_index_prefix(h: Seq<char>, n: Seq<char>, i: int)
    requires
        is_sub_at(h, n, i),
        forall|k: int| 0 <= k < i ==> !is_sub_at(h, n, k),
    ensures
        spec_sub_index(h, n) == i,
    decreases i,
{
    if i == 0 {
    } else {
        assert(!is_sub_at(h, n, 0));
        assert(h.skip(1).subrange(i - 1, i - 1 + n.len()) =~= h.subrange(i, i + n.len()));
        assert(is_sub_at(h.skip(1), n, i - 1));
        assert forall|k: int| 0 <= k < i - 1 implies !is_sub_at(h.skip(1), n, k) by {
            if 0 <= k + 1 < i && k + n.len() <= h.skip(1).len() {
                assert(h.skip(1).subrange(k, k + n.len()) =~= h.subrange(k + 1, k + 1 + n.len()));
                assert(!is_sub_at(h, n, k + 1));
            }
        }
        lemma_sub_index_prefix(h.skip(1), n, i - 1);
    }
}

/// The first occurrence of `n` in `h`, as `spec_sub_index` gives it.
pub fn find_sub_chars(h: &Vec<char>, n: &Vec<char>) -> (r: Option<usize>)
    ensures
        r is None <==> spec_sub_index(h@, n@) == -1,
        r is Some ==> r.unwrap() as int == spec_sub_index(h@, n@) && is_sub_at(
            h@,
            n@,
            r.unwrap() as int,
        ),
{
    if n.len() == 0 {
        proof {
            assert(h@.subrange(0, 0) =~= n@);
            assert(is_sub_at(h@, n@, 0));
            lemma_sub_index_prefix(h@, n@, 0);
        }
        return Some(0);
    }
    if n.len() > h.len() {
        proof {
            assert(forall|k: int| !is_sub_at(h@, n@, k));
        }
        return None;
    }
    let last = h.len() - n.len();
    let mut i: usize = 0;
    loop
        invariant
            1 <= n@.len() <= h@.len(),
            h@.len() <= usize::MAX,
            last == h@.len() - n@.len(),
            i <= last + 1,
            forall|k: int| 0 <= k < i ==> !is_sub_at(h@, n@, k),
        decreases last + 1 - i,
    {
        if i > last {
            proof {
                assert forall|k: int| !is_sub_at(h@, n@, k) by {
                    if 0 <= k <= last {
                        assert(!is_sub_at(h@, n@, k));
                    }
                }
                lemma_sub_index_facts(h@, n@);
                if spec_sub_index(h@, n@) >= 0 {
                    assert(is_sub_at(h@, n@, spec_sub_index(h@, n@)));
                }
                assert(spec_sub_index(h@, n@) == -1);
            }
            return None;
        }
        if matches_at(h, n, i) {
            proof {
                lemma_sub_index_prefix(h@, n@, i as int);
            }
            return Some(i);
        }
        i += 1;
    }
}

/// Splitting a sequence on a separator character: the pieces between
/// occurrences of the separator, in order; a sequence without the
/// separator is one piece.
pub open spec fn spec_split(s: Seq<char>, c: char) -> Seq<Seq<char>>
    decreases s.len(),
{
    let i = spec_sub_index(s, seq![c]);
    if 0 <= i < s.len() {
        seq![s.subrange(0, i)] + spec_split(s.skip(i + 1), c)
    } else {
        seq![s]
    }
}

/// A copy of one index range of a character vector.
pub fn copy_range(s: &Vec<char>, from: usize, to: usize) -> (r: Vec<char>)
    requires
        from <= to <= s@.len(),
    ensures
        r@ == s@.subrange(from as int, to as int),
{
    let mut v: Vec<char> = Vec::new();
    let mut i: usize = from;
    while i < to
        invariant
            from <= i <= to <= s@.len(),
            v@ == s@.subrange(from as int, i as int),
        decreases to - i,
    {
        v.push(s[i]);
        i += 1;
        proof {
            assert(v@ =~= s@.subrange(from as int, i as int));
        }
    }
    v
}

/// The first occurrence of a character at or after `from`.
fn find_char_at(s: &Vec<char>, from: usize, c: char) -> (r: Option<usize>)
    requires
        from <= s@.len(),
    ensures
        r is None ==> forall|k: int| from <= k < s@.len() ==> s@[k] != c,
        r is Some ==> from <= r.unwrap() < s@.len() && s@[r.unwrap() as int] == c && forall|k: int|
            from <= k < r.unwrap() ==> s@[k] != c,
{
    let n = s.len();
    let mut j: usize = from;
    while j < n
        invariant
            n == s@.len(),
            from <= j <= n,
            forall|k: int| from <= k < j ==> s@[k] != c,
        decreases n - j,
    {
        if s[j] == c {
            return Some(j);
        }
        j += 1;
    }
    None
}

/// Split a character vector on a separator character.
pub fn split_chars(s: &Vec<char>, c: char) -> (r: Vec<Vec<char>>)
    ensures
        r.deep_view() == spec_split(s@, c),
{
    let mut parts: Vec<Vec<char>> = Vec::new();
    let n = s.len();
    let mut pos: usize = 0;
    proof {
        assert(s@.skip(0) =~= s@);
        assert(parts.deep_view() =~= Seq::<Seq<char>>::empty());
    }
    loop
        invariant
            n == s@.len(),
            pos <= n,
            spec_split(s@, c) == parts.deep_view() + spec_split(s@.skip(pos as int), c),
        decreases n - pos,
    {
        let ghost rest = s@.skip(pos as int);
        let found = find_char_at(s, pos, c);
        proof {
            lemma_sub_index_facts(rest, seq![c]);
            assert forall|k: int| 0 <= k < rest.len() implies (is_sub_at(rest, seq![c], k) <==> s@[
                pos + k
            ] == c) by {
                if is_sub_at(rest, seq![c], k) {
                    assert(rest.subrange(k, k + 1)[0] == rest[k]);
                } else {
                    assert(rest.subrange(k, k + 1) =~= seq![rest[k]]);
                }
            }
        }
        if let Some(j) = found {
            proof {
                assert(is_sub_at(rest, seq![c], j - pos)) by {
                    assert(s@[pos + (j - pos)] == c);
                }
                assert forall|k: int| 0 <= k < j - pos implies !is_sub_at(rest, seq![c], k) by {
                    assert(s@[pos + k] != c);
                }
                lemma_sub_index_prefix(rest, seq![c], j - pos);
            }
            let part = copy_range(s, pos, j);
            let ghost before = parts.deep_view();
            parts.push(part);
            proof {
                assert(parts.deep_view() =~~= before + seq![part@]);
                assert(part@ =~= rest.subrange(0, (j - pos) as int));
                assert(rest.skip((j - pos) as int + 1) =~= s@.skip(j as int + 1));
                assert(spec_split(rest, c) == seq![rest.subrange(0, (j - pos) as int)]
                    + spec_split(s@.skip(j as int + 1), c));
                assert(parts.deep_view() + spec_split(s@.skip(j as int + 1), c) =~= before
                    + spec_split(rest, c));
            }
            pos = j + 1;
        } else {
            proof {
                assert forall|k: int| !is_sub_at(rest, seq![c], k) by {
                    if 0 <= k < rest.len() {
                        assert(s@[pos + k] != c);
                    }
                }
                assert(spec_sub_index(rest, seq![c]) == -1) by {
                    lemma_sub_index_facts(rest, seq![c]);
                    if spec_sub_index(rest, seq![c]) >= 0 {
                        assert(is_sub_at(rest, seq![c], spec_sub_index(rest, seq![c])));
                    }
                }
                assert(spec_split(rest, c) == seq![rest]);
            }
            let part = copy_range(s, pos, n);
            let ghost before = parts.deep_view();
            parts.push(part);
            proof {
                assert(part@ =~= rest);
                assert(parts.deep_view() =~~= before + seq![rest]);
                assert(parts.deep_view() =~= spec_split(s@, c));
            }
            return parts;
        }
    }
}

/// Equality of two character vectors.
pub fn eq_chars(a: &Vec<char>, b: &Vec<char>) -> (r: bool)
    ensures
        r == (a@ == b@),
{
    if a.len() != b.len() {
        return false;
    }
    let mut i: usize = 0;
    while i < a.len()
        invariant
            a@.len() == b@.len(),
            i <= a@.len(),
            a@.subrange(0, i as int) == b@.subrange(0, i as int),
        decreases a@.len() - i,
    {
        if a[i] != b[i] {
            proof {
                assert(a@ != b@) by {
                    if a@ == b@ {
                        assert(a@[i as int] == b@[i as int]);
                    }
                }
            }
            return false;
        }
        i += 1;
        proof {
            assert(a@.subrange(0, i as int) =~= b@.subrange(0, i as int));
        }
    }
    proof {
        assert(a@ =~= a@.subrange(0, a@.len() as int));
        assert(b@ =~= b@.subrange(0, b@.len() as int));
    }
    true
}

/// The first index of a line equal to `x`, or -1 when none is.
pub open spec fn spec_elem_index(s: Seq<Seq<char>>, x: Seq<char>) -> int
    decreases s.len(),
{
    if s.len() == 0 {
        -1
    } else if s[0] == x {
        0
    } else {
        let r = spec_elem_index(s.skip(1), x);
        if r == -1 {
            -1
        } else {
            r + 1
        }
    }
}

/// What `spec_elem_index` finds.
pub proof fn lemma_elem_index_facts(s: Seq<Seq<char>>, x: Seq<char>)
    ensures
        spec_elem_index(s, x) >= -1,
        spec_elem_index(s, x) == -1 ==> forall|k: int| 0 <= k < s.len() ==> #[trigger] s[k] != x,
        spec_elem_index(s, x) >= 0 ==> spec_elem_index(s, x) < s.len() && s[spec_elem_index(s, x)]
            == x && forall|k: int| 0 <= k < spec_elem_index(s, x) ==> #[trigger] s[k] != x,
    decreases s.len(),
{
    if s.len() > 0 && s[0] != x {
        lemma_elem_index_facts(s.skip(1), x);
        let r = spec_elem_index(s.skip(1), x);
        if r == -1 {
            assert forall|k: int| 0 <= k < s.len() implies #[trigger] s[k] != x by {
                if k > 0 {
                    assert(s.skip(1)[k - 1] == s[k]);
                }
            }
        } else {
            assert(s.skip(1)[r] == s[r + 1]);
            assert forall|k: int| 0 <= k < r + 1 implies #[trigger] s[k] != x by {
                if k > 0 {
                    assert(s.skip(1)[k - 1] == s[k]);
                }
            }
        }
    }
}

/// When line `i` equals `x` and no earlier line does,
/// `spec_elem_index` finds exactly `i`.
pub proof fn lemma_elem_index_prefix(s: Seq<Seq<char>>, x: Seq<char>, i: int)
    requires
        0 <= i < s.len(),
        s[i] == x,
        forall|k: int| 0 <= k < i ==> #[trigger] s[k] != x,
    ensures
        spec_elem_index(s, x) == i,
    decreases i,
{
    if i > 0 {
        assert forall|k: int| 0 <= k < i - 1 implies #[trigger] s.skip(1)[k] != x by {
            assert(s.skip(1)[k] == s[k + 1]);
        }
        assert(s.skip(1)[i - 1] == s[i]);
        lemma_elem_index_prefix(s.skip(1), x, i - 1);
    }
}

/// Splitting a sequence of lines on separator lines equal to `x`.
pub open spec fn spec_split_elems(s: Seq<Seq<char>>, x: Seq<char>) -> Seq<Seq<Seq<char>>>
    decreases s.len(),
{
    let i = spec_elem_index(s, x);
    if 0 <= i < s.len() {
        seq![s.subrange(0, i)] + spec_split_elems(s.skip(i + 1), x)
    } else {
        seq![s]
    }
}

/// The first line equal to `x` at or after `from`.
fn find_elem_at(s: &Vec<Vec<char>>, from: usize, x: &Vec<char>) -> (r: Option<usize>)
    requires
        from <= s@.len(),
    ensures
        r is None ==> forall|k: int| from <= k < s@.len() ==> s@[k]@ != x@,
        r is Some ==> from <= r.unwrap() < s@.len() && s@[r.unwrap() as int]@ == x@ && forall|
            k: int,
        |
            from <= k < r.unwrap() ==> s@[k]@ != x@,
{
    let n = s.len();
    let mut j: usize = from;
    while j < n
        invariant
            n == s@.len(),
            from <= j <= n,
            forall|k: int| from <= k < j ==> s@[k]@ != x@,
        decreases n - j,
    {
        if eq_chars(&s[j], x) {
            return Some(j);
        }
        j += 1;
    }
    None
}

/// Split a vector of lines on separator lines.
pub fn split_elems(s: &Vec<Vec<char>>, x: &Vec<char>) -> (r: Vec<Vec<Vec<char>>>)
    ensures
        r.deep_view() == spec_split_elems(s.deep_view(), x@),
{
    let mut parts: Vec<Vec<Vec<char>>> = Vec::new();
    let n = s.len();
    let mut pos: usize = 0;
    proof {
        assert(s.deep_view().skip(0) =~= s.deep_view());
        assert(parts.deep_view() =~= Seq::<Seq<Seq<char>>>::empty());
    }
    loop
        invariant
            n == s@.len(),
            s@.len() == s.deep_view().len(),
            pos <= n,
            spec_split_elems(s.deep_view(), x@) == parts.deep_view() + spec_split_elems(
                s.deep_view().skip(pos as int),
                x@,
            ),
        decreases n - pos,
    {
        let ghost rest = s.deep_view().skip(pos as int);
        let found = find_elem_at(s, pos, x);
        proof {
            assert(forall|k: int|
                0 <= k < s.deep_view().len() ==> #[trigger] s.deep_view()[k] == s@[k]@);
        }
        if let Some(j) = found {
            proof {
                assert(rest[j - pos] == x@);
                assert forall|k: int| 0 <= k < j - pos implies #[trigger] rest[k] != x@ by {
                    assert(rest[k] == s@[pos + k]@);
                }
                lemma_elem_index_prefix(rest, x@, j - pos);
            }
            let mut part: Vec<Vec<char>> = Vec::new();
            let mut k: usize = pos;
            while k < j
                invariant
                    pos <= k <= j,
                    j < n,
                    n == s@.len(),
                    part.deep_view() == s.deep_view().subrange(pos as int, k as int),
                decreases j - k,
            {
                let line = copy_range(&s[k], 0, s[k].len());
                let ghost before_part = part.deep_view();
                part.push(line);
                proof {
                    assert(line@ =~= s@[k as int]@);
                    assert(s.deep_view()[k as int] == s@[k as int]@);
                    assert(part.deep_view() =~~= before_part + seq![line@]);
                    assert(part.deep_view() =~~= s.deep_view().subrange(pos as int, k as int + 1));
                }
                k += 1;
            }
            let ghost before = parts.deep_view();
            parts.push(part);
            proof {
                assert(parts.deep_view() =~~= before + seq![part.deep_view()]);
                assert(part.deep_view() =~= rest.subrange(0, (j - pos) as int));
                assert(rest.skip((j - pos) as int + 1) =~= s.deep_view().skip(j as int + 1));
                assert(spec_split_elems(rest, x@) == seq![rest.subrange(0, (j - pos) as int)]
                    + spec_split_elems(s.deep_view().skip(j as int + 1), x@));
                assert(parts.deep_view() + spec_split_elems(
                    s.deep_view().skip(j as int + 1),
                    x@,
                ) =~= before + spec_split_elems(rest, x@));
            }
            pos = j + 1;
        } else {
            proof {
                lemma_elem_index_facts(rest, x@);
                assert forall|k: int| 0 <= k < rest.len() implies #[trigger] rest[k] != x@ by {
                    assert(rest[k] == s@[pos + k]@);
                }
                if spec_elem_index(rest, x@) >= 0 {
                    assert(rest[spec_elem_index(rest, x@)] == x@);
                }
                assert(spec_split_elems(rest, x@) == seq![rest]);
            }
            let mut part: Vec<Vec<char>> = Vec::new();
            let mut k: usize = pos;
            while k < n
                invariant
                    pos <= k <= n,
                    n == s@.len(),
                    part.deep_view() == s.deep_view().subrange(pos as int, k as int),
                decreases n - k,
            {
                let line = copy_range(&s[k], 0, s[k].len());
                let ghost before_part = part.deep_view();
                part.push(line);
                proof {
                    assert(line@ =~= s@[k as int]@);
                    assert(s.deep_view()[k as int] == s@[k as int]@);
                    assert(part.deep_view() =~~= before_part + seq![line@]);
                    assert(part.deep_view() =~~= s.deep_view().subrange(pos as int, k as int + 1));
                }
                k += 1;
            }
            let ghost before = parts.deep_view();
            parts.push(part);
            proof {
                assert(part.deep_view() =~= rest);
                assert(parts.deep_view() =~~= before + seq![rest]);
                assert(parts.deep_view() =~= spec_split_elems(s.deep_view(), x@));
            }
            return parts;
        }
    }
}

/// `s` ends with the suffix `suf`.
pub open spec fn ends_with_seq(s: Seq<char>, suf: Seq<char>) -> bool {
    s.len() >= suf.len() && s.subrange(s.len() - suf.len(), s.len() as int) == suf
}

/// Whether the character vector `s` ends with `suf`.
pub fn ends_with_chars(s: &Vec<char>, suf: &Vec<char>) -> (r: bool)
    ensures
        r == ends_with_seq(s@, suf@),
{
    if suf.len() > s.len() {
        return false;
    }
    let start = s.len() - suf.len();
    matches_at(s, suf, start)
}

/// `s` starts with the prefix `pre`.
pub open spec fn starts_with_seq(s: Seq<char>, pre: Seq<char>) -> bool {
    s.len() >= pre.len() && s.subrange(0, pre.len() as int) == pre
}

/// Whether the character vector `s` starts with `pre`.
pub fn starts_with_chars(s: &Vec<char>, pre: &Vec<char>) -> (r: bool)
    ensures
        r == starts_with_seq(s@, pre@),
{
    if pre.len() > s.len() {
        return false;
    }
    matches_at(s, pre, 0)
}

/// Whether the string `s` starts with the prefix `pre`.
pub fn str_starts_with(s: &str, pre: &str) -> (r: bool)
    ensures
        r == starts_with_seq(s@, pre@),
{
    let sv = chars_of(s);
    let pv = chars_of(pre);
    starts_with_chars(&sv, &pv)
}

/// Lexicographic three-way comparison of character sequences by code point.
pub open spec fn seq_cmp(a: Seq<char>, b: Seq<char>) -> Cmp
    decreases a.len(),
{
    if a.len() == 0 && b.len() == 0 {
        Cmp::Equal
    } else if a.len() == 0 {
        Cmp::Less
    } else if b.len() == 0 {
        Cmp::Greater
    } else if (a[0] as u32) == (b[0] as u32) {
        seq_cmp(a.skip(1), b.skip(1))
    } else if (a[0] as u32) < (b[0] as u32) {
        Cmp::Less
    } else {
        Cmp::Greater
    }
}

/// Comparing two sequences with equal prefixes of length `i` reduces to
/// comparing what remains after that prefix.
proof fn lemma_seq_cmp_skip(a: Seq<char>, b: Seq<char>, i: int)
    requires
        0 <= i <= a.len(),
        i <= b.len(),
        forall|k: int| 0 <= k < i ==> (#[trigger] a[k] as u32) == (b[k] as u32),
    ensures
        seq_cmp(a, b) == seq_cmp(a.skip(i), b.skip(i)),
    decreases i,
{
    if i > 0 {
        assert forall|k: int| 0 <= k < i - 1 implies (#[trigger] a.skip(1)[k] as u32) == (b.skip(
            1,
        )[k] as u32) by {
            assert((a[k + 1] as u32) == (b[k + 1] as u32));
        }
        lemma_seq_cmp_skip(a.skip(1), b.skip(1), i - 1);
        assert(a.skip(1).skip(i - 1) =~= a.skip(i));
        assert(b.skip(1).skip(i - 1) =~= b.skip(i));
    } else {
        assert(a.skip(0) =~= a);
        assert(b.skip(0) =~= b);
    }
}

/// The reverse of a comparison outcome.
pub open spec fn cmp_flip(c: Cmp) -> Cmp {
    match c {
        Cmp::Less => Cmp::Greater,
        Cmp::Equal => Cmp::Equal,
        Cmp::Greater => Cmp::Less,
    }
}

/// Swapping the arguments of the lexicographic comparison reverses its
/// outcome.
pub proof fn lemma_seq_cmp_flip(a: Seq<char>, b: Seq<char>)
    ensures
        seq_cmp(b, a) == cmp_flip(seq_cmp(a, b)),
    decreases a.len(),
{
    if a.len() > 0 && b.len() > 0 {
        if (a[0] as u32) == (b[0] as u32) {
            lemma_seq_cmp_flip(a.skip(1), b.skip(1));
        }
    }
}

/// Composition laws of the lexicographic comparison: comparing equal lets
/// either side be exchanged, and strict order composes.
pub proof fn lemma_seq_cmp_trans_full(a: Seq<char>, b: Seq<char>, c: Seq<char>)
    ensures
        seq_cmp(a, b) == Cmp::Equal ==> seq_cmp(a, c) == seq_cmp(b, c),
        seq_cmp(b, c) == Cmp::Equal ==> seq_cmp(a, c) == seq_cmp(a, b),
        seq_cmp(a, b) == Cmp::Less && seq_cmp(b, c) == Cmp::Less ==> seq_cmp(a, c) == Cmp::Less,
        seq_cmp(a, b) != Cmp::Greater && seq_cmp(b, c) != Cmp::Greater ==> seq_cmp(a, c)
            != Cmp::Greater,
    decreases a.len() + b.len() + c.len(),
{
    if a.len() > 0 && b.len() > 0 && c.len() > 0 {
        lemma_seq_cmp_trans_full(a.skip(1), b.skip(1), c.skip(1));
    } else if b.len() > 0 {
        if a.len() > 0 {
            lemma_seq_cmp_trans_full(a.skip(1), b.skip(1), c);
        } else if c.len() > 0 {
            lemma_seq_cmp_trans_full(a, b.skip(1), c.skip(1));
        }
    }
}
pub fn cmp_chars(a: &Vec<char>, b: &Vec<char>) -> (r: Cmp)
    ensures
        r == seq_cmp(a@, b@),
{
    let mut i: usize = 0;
    loop
        invariant
            i <= a@.len(),
            i <= b@.len(),
            forall|k: int| 0 <= k < i ==> (#[trigger] a@[k] as u32) == (b@[k] as u32),
        decreases a@.len() - i,
    {
        proof {
            lemma_seq_cmp_skip(a@, b@, i as int);
        }
        if i >= a.len() {
            if i >= b.len() {
                return Cmp::Equal;
            } else {
                return Cmp::Less;
            }
        }
        if i >= b.len() {
            return Cmp::Greater;
        }
        let ca = a[i];
        let cb = b[i];
        proof {
            assert(a@.skip(i as int)[0] == ca);
            assert(b@.skip(i as int)[0] == cb);
        }
        if (ca as u32) == (cb as u32) {
            i += 1;
        } else if (ca as u32) < (cb as u32) {
            return Cmp::Less;
        } else {
            return Cmp::Greater;
        }
    }
}

/// Lexicographic comparison of string slices by code point.
pub fn str_cmp(a: &str, b: &str) -> (r: Cmp)
    ensures
        r == seq_cmp(a@, b@),
{
    let av = chars_of(a);
    let bv = chars_of(b);
    cmp_chars(&av, &bv)
}

/// Equality of the characters of two strings.
pub fn str_eq(a: &str, b: &str) -> (r: bool)
    ensures
        r == (a@ == b@),
{
    let av = chars_of(a);
    let bv = chars_of(b);
    if av.len() != bv.len() {
        return false;
    }
    let mut i: usize = 0;
    while i < av.len()
        invariant
            av@ == a@,
            bv@ == b@,
            av@.len() == bv@.len(),
            i <= av@.len(),
            av@.subrange(0, i as int) == bv@.subrange(0, i as int),
        decreases av@.len() - i,
    {
        if av[i] != bv[i] {
            proof {
                assert(a@ != b@) by {
                    if a@ == b@ {
                        assert(av@[i as int] == bv@[i as int]);
                    }
                }
            }
            return false;
        }
        i += 1;
        proof {
            assert(av@.subrange(0, i as int) =~= bv@.subrange(0, i as int));
        }
    }
    proof {
        assert(av@ =~= av@.subrange(0, av@.len() as int));
        assert(bv@ =~= bv@.subrange(0, bv@.len() as int));
    }
    true
}

} // verus!
