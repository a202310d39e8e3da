//! Character-sequence operations over the `Seq<char>` view of strings:
//! substring search, splitting on a separator, trimming a repeated suffix.

use vstd::prelude::*;

verus! {

/// `p` occurs in `s` starting at position `i`.
pub open spec fn occurs_at(s: Seq<char>, p: Seq<char>, i: int) -> bool {
    &&& 0 <= i
    &&& i + p.len() <= s.len()
    &&& s.subrange(i, i + p.len()) == p
}

/// `p` occurs somewhere in `s`.
pub open spec fn contains(s: Seq<char>, p: Seq<char>) -> bool {
    exists|i: int| occurs_at(s, p, i)
}

/// The first position at or after `i` where `p` occurs in `s`.
pub open spec fn find_from(s: Seq<char>, p: Seq<char>, i: int) -> Option<int>
    decreases s.len() + 1 - i,
{
    if i < 0 || i + p.len() > s.len() {
        None
    } else if occurs_at(s, p, i) {
        Some(i)
    } else {
        find_from(s, p, i + 1)
    }
}

/// The first position where `p` occurs in `s`.
pub open spec fn find(s: Seq<char>, p: Seq<char>) -> Option<int> {
    find_from(s, p, 0)
}

/// `find_from` gives the first occurrence at or after `i`, and `None` exactly
/// when there is none.
pub proof fn lemma_find_from(s: Seq<char>, p: Seq<char>, i: int)
    requires
        0 <= i,
    ensures
        find_from(s, p, i) matches Some(k) ==> {
            &&& i <= k
            &&& occurs_at(s, p, k)
            &&& forall|j: int| i <= j < k ==> !occurs_at(s, p, j)
        },
        find_from(s, p, i) is None ==> forall|j: int| i <= j ==> !occurs_at(s, p, j),
    decreases s.len() + 1 - i,
{
    if i + p.len() > s.len() {
    } else if occurs_at(s, p, i) {
    } else {
        lemma_find_from(s, p, i + 1);
        assert forall|j: int| i <= j && !(i + 1 <= j) implies !occurs_at(s, p, j) by {
            assert(j == i);
        }
    }
}

/// `find` gives the first occurrence, and `None` exactly when `p` does not occur.
pub proof fn lemma_find(s: Seq<char>, p: Seq<char>)
    ensures
        find(s, p) matches Some(k) ==> {
            &&& occurs_at(s, p, k)
            &&& forall|j: int| 0 <= j < k ==> !occurs_at(s, p, j)
        },
        find(s, p) is None <==> !contains(s, p),
{
    lemma_find_from(s, p, 0);
    if find(s, p) is None {
        assert forall|j: int| !occurs_at(s, p, j) by {
            if 0 <= j {
            }
        }
    }
}

/// The characters of `s`, in order.
pub fn chars_of(s: &str) -> (v: Vec<char>)
    ensures
        v@ == s@,
{
    let mut v: Vec<char> = Vec::new();
    for c in it: s.chars()
        invariant
            v@ == it.seq().take(it.index() as int),
    {
        v.push(c);
    }
    assert(v@ =~= s@);
    v
}

/// Whether `p` occurs in `s` at position `i`.
pub fn occurs_at_exec(s: &Vec<char>, p: &Vec<char>, i: usize) -> (b: bool)
    ensures
        b == occurs_at(s@, p@, i as int),
{
    if i > s.len() || p.len() > s.len() - i {
        return false;
    }
    let mut k: usize = 0;
    while k < p.len()
        invariant
            k <= p.len(),
            i + p.len() <= s.len(),
            forall|j: int| 0 <= j < k ==> s@[i + j] == p@[j],
        decreases p.len() - k,
    {
        if s[i + k] != p[k] {
            assert(s@.subrange(i as int, i + p.len())[k as int] != p@[k as int]);
            return false;
        }
        k = k + 1;
    }
    assert(s@.subrange(i as int, i + p.len()) =~= p@);
    true
}

/// The first position at or after `from` where `p` occurs in `s`.
pub fn find_from_exec(s: &Vec<char>, p: &Vec<char>, from: usize) -> (r: Option<usize>)
    ensures
        match r {
            Some(k) => find_from(s@, p@, from as int) == Some(k as int),
            None => find_from(s@, p@, from as int) is None,
        },
{
    if p.len() > s.len() {
        return None;
    }
    let last = s.len() - p.len();
    let mut i = from;
    while i <= last
        invariant
            from <= i,
            last + p.len() == s.len(),
            find_from(s@, p@, from as int) == find_from(s@, p@, i as int),
        decreases last + 1 - i,
    {
        if occurs_at_exec(s, p, i) {
            return Some(i);
        }
        if i == last {
            assert(find_from(s@, p@, i + 1) is None);
            return None;
        }
        i = i + 1;
    }
    None
}

/// Whether the text `p` occurs in `s`.
pub fn contains_exec(s: &Vec<char>, p: &str) -> (b: bool)
    ensures
        b == contains(s@, p@),
{
    let pv = chars_of(p);
    let r = find_from_exec(s, &pv, 0);
    proof {
        lemma_find(s@, p@);
    }
    r.is_some()
}


/// The pieces of `s` between occurrences of `c`, as `str::split` with a
/// character separator yields them (empty pieces included).
pub open spec fn split(s: Seq<char>, c: char) -> Seq<Seq<char>>
    decreases s.len(),
{
    if s.len() == 0 {
        seq![Seq::<char>::empty()]
    } else {
        let rest = split(s.drop_first(), c);
        if s[0] == c {
            seq![Seq::<char>::empty()] + rest
        } else {
            rest.update(0, seq![s[0]] + rest[0])
        }
    }
}

/// The non-empty members of `ps`, in order.
pub open spec fn nonempty_pieces(ps: Seq<Seq<char>>) -> Seq<Seq<char>>
    decreases ps.len(),
{
    if ps.len() == 0 {
        Seq::<Seq<char>>::empty()
    } else if ps[0].len() == 0 {
        nonempty_pieces(ps.drop_first())
    } else {
        seq![ps[0]] + nonempty_pieces(ps.drop_first())
    }
}

/// The non-empty pieces of `s` between occurrences of `c`.
pub open spec fn segments(s: Seq<char>, c: char) -> Seq<Seq<char>> {
    nonempty_pieces(split(s, c))
}

/// `s` with every trailing repetition of `p` removed, as `str::trim_end_matches`
/// does with a non-empty text pattern.
pub open spec fn trim_end(s: Seq<char>, p: Seq<char>) -> Seq<char>
    decreases s.len(),
{
    if p.len() > 0 && p.len() <= s.len() && s.subrange(s.len() - p.len(), s.len() as int) == p {
        trim_end(s.subrange(0, s.len() - p.len()), p)
    } else {
        s
    }
}

/// Splitting always yields at least one piece.
pub proof fn lemma_split_nonempty(s: Seq<char>, c: char)
    ensures
        split(s, c).len() >= 1,
    decreases s.len(),
{
    if s.len() > 0 {
        lemma_split_nonempty(s.drop_first(), c);
    }
}

/// A text holding `c` splits into at least two pieces, and one holding `c`
/// twice into at least three.
pub proof fn lemma_split_counts_separators(s: Seq<char>, c: char, i: int, j: int)
    requires
        0 <= i < s.len(),
        s[i] == c,
    ensures
        split(s, c).len() >= 2,
        i < j < s.len() && s[j] == c ==> split(s, c).len() >= 3,
    decreases s.len(),
{
    let t = s.drop_first();
    lemma_split_nonempty(t, c);
    if i == 0 {
        if i < j < s.len() && s[j] == c {
            assert(t[j - 1] == c);
            lemma_split_counts_separators(t, c, j - 1, j - 1);
        }
    } else {
        assert(t[i - 1] == c);
        if i < j < s.len() && s[j] == c {
            assert(t[j - 1] == c);
        }
        lemma_split_counts_separators(t, c, i - 1, j - 1);
    }
}

/// The first piece of a split is where the text starts; when there are more,
/// a `c` follows it, and the rest of the text splits into the other pieces.
pub proof fn lemma_split_head(s: Seq<char>, c: char)
    ensures
        split(s, c)[0].len() <= s.len(),
        s.subrange(0, split(s, c)[0].len() as int) == split(s, c)[0],
        split(s, c).len() == 1 ==> split(s, c)[0] == s,
        split(s, c).len() >= 2 ==> ({
            let k = split(s, c)[0].len() as int;
            &&& k < s.len()
            &&& s[k] == c
            &&& split(s.subrange(k + 1, s.len() as int), c) == split(s, c).drop_first()
        }),
    decreases s.len(),
{
    lemma_split_nonempty(s, c);
    if s.len() == 0 {
        assert(s.subrange(0, 0) =~= Seq::<char>::empty());
    } else {
        let t = s.drop_first();
        lemma_split_nonempty(t, c);
        lemma_split_head(t, c);
        let rest = split(t, c);
        if s[0] == c {
            assert(split(s, c) == seq![Seq::<char>::empty()] + rest);
            assert(split(s, c)[0] == Seq::<char>::empty());
            assert(s.subrange(0, 0) =~= Seq::<char>::empty());
            assert(s.subrange(1, s.len() as int) =~= t);
            assert(split(s, c).drop_first() =~= rest);
        } else {
            let k = rest[0].len() as int;
            assert(split(s, c) == rest.update(0, seq![s[0]] + rest[0]));
            assert(s.subrange(0, k + 1) =~= seq![s[0]] + t.subrange(0, k));
            if rest.len() == 1 {
                assert(s =~= seq![s[0]] + t);
            } else {
                assert(s.subrange(k + 2, s.len() as int) =~= t.subrange(k + 1, t.len() as int));
                assert(split(s, c).drop_first() =~= rest.drop_first());
            }
        }
    }
}

/// Without an occurrence of `c`, splitting yields `s` whole.
pub proof fn lemma_split_none(s: Seq<char>, c: char)
    requires
        forall|j: int| 0 <= j < s.len() ==> s[j] != c,
    ensures
        split(s, c) == seq![s],
    decreases s.len(),
{
    if s.len() > 0 {
        let t = s.drop_first();
        assert forall|j: int| 0 <= j < t.len() implies t[j] != c by {
            assert(t[j] == s[j + 1]);
        }
        lemma_split_none(t, c);
        assert(seq![s[0]] + t =~= s);
        assert(split(s, c) =~= seq![s]);
    } else {
        assert(s =~= Seq::<char>::empty());
    }
}

/// Splitting at the first occurrence `i` of `c`.
pub proof fn lemma_split_first(s: Seq<char>, c: char, i: int)
    requires
        0 <= i < s.len(),
        s[i] == c,
        forall|j: int| 0 <= j < i ==> s[j] != c,
    ensures
        split(s, c) == seq![s.subrange(0, i)] + split(s.subrange(i + 1, s.len() as int), c),
    decreases i,
{
    let t = s.drop_first();
    if i == 0 {
        assert(t =~= s.subrange(1, s.len() as int));
        assert(s.subrange(0, 0) =~= Seq::<char>::empty());
    } else {
        assert forall|j: int| 0 <= j < i - 1 implies t[j] != c by {
            assert(t[j] == s[j + 1]);
        }
        lemma_split_first(t, c, i - 1);
        assert(t.subrange(i, t.len() as int) =~= s.subrange(i + 1, s.len() as int));
        assert(seq![s[0]] + t.subrange(0, i - 1) =~= s.subrange(0, i));
        assert(split(s, c) =~= seq![s.subrange(0, i)] + split(
            s.subrange(i + 1, s.len() as int),
            c,
        ));
    }
}

/// Dropping a leading empty piece.
pub proof fn lemma_nonempty_pieces_cons(x: Seq<char>, rest: Seq<Seq<char>>)
    ensures
        nonempty_pieces(seq![x] + rest) == if x.len() == 0 {
            nonempty_pieces(rest)
        } else {
            seq![x] + nonempty_pieces(rest)
        },
{
    assert((seq![x] + rest).drop_first() =~= rest);
    assert((seq![x] + rest)[0] == x);
}

/// No piece of a split holds the separator.
pub proof fn lemma_split_pieces_lack_separator(s: Seq<char>, c: char)
    ensures
        forall|i: int| 0 <= i < split(s, c).len() ==> !(#[trigger] split(s, c)[i]).contains(c),
    decreases s.len(),
{
    if s.len() > 0 {
        let t = s.drop_first();
        lemma_split_pieces_lack_separator(t, c);
        lemma_split_nonempty(t, c);
        let rest = split(t, c);
        if s[0] != c {
            let first = seq![s[0]] + rest[0];
            assert(!first.contains(c)) by {
                if first.contains(c) {
                    let k = choose|k: int| 0 <= k < first.len() && first[k] == c;
                    if k > 0 {
                        assert(rest[0][k - 1] == c);
                    }
                }
            }
        } else {
            assert(!Seq::<char>::empty().contains(c));
        }
        assert forall|i: int| 0 <= i < split(s, c).len() implies !(#[trigger] split(s, c)[i]).contains(
            c,
        ) by {
            if s[0] == c {
                if i > 0 {
                    assert(split(s, c)[i] == rest[i - 1]);
                }
            } else {
                if i > 0 {
                    assert(split(s, c)[i] == rest[i]);
                }
            }
        }
    }
}

/// The non-empty pieces are non-empty members of the given pieces.
pub proof fn lemma_nonempty_pieces_members(ps: Seq<Seq<char>>)
    ensures
        forall|i: int|
            0 <= i < nonempty_pieces(ps).len() ==> (#[trigger] nonempty_pieces(ps)[i]).len() > 0
                && exists|j: int| 0 <= j < ps.len() && ps[j] == nonempty_pieces(ps)[i],
    decreases ps.len(),
{
    if ps.len() > 0 {
        let t = ps.drop_first();
        lemma_nonempty_pieces_members(t);
        assert forall|i: int| 0 <= i < nonempty_pieces(ps).len() implies (#[trigger] nonempty_pieces(
            ps,
        )[i]).len() > 0 && exists|j: int| 0 <= j < ps.len() && ps[j] == nonempty_pieces(ps)[i] by {
            if ps[0].len() == 0 {
                let j = choose|j: int| 0 <= j < t.len() && t[j] == nonempty_pieces(t)[i];
                assert(ps[j + 1] == t[j]);
            } else if i == 0 {
                assert(ps[0] == nonempty_pieces(ps)[0]);
            } else {
                assert(nonempty_pieces(ps)[i] == nonempty_pieces(t)[i - 1]);
                let j = choose|j: int| 0 <= j < t.len() && t[j] == nonempty_pieces(t)[i - 1];
                assert(ps[j + 1] == t[j]);
            }
        }
    }
}

/// Every segment is non-empty and lacks the separator.
pub proof fn lemma_segments_lack_separator(s: Seq<char>, c: char)
    ensures
        forall|i: int|
            0 <= i < segments(s, c).len() ==> (#[trigger] segments(s, c)[i]).len() > 0 && !segments(
                s,
                c,
            )[i].contains(c),
{
    lemma_split_pieces_lack_separator(s, c);
    lemma_nonempty_pieces_members(split(s, c));
    assert forall|i: int| 0 <= i < segments(s, c).len() implies (#[trigger] segments(s, c)[i]).len()
        > 0 && !segments(s, c)[i].contains(c) by {
        let j = choose|j: int|
            0 <= j < split(s, c).len() && split(s, c)[j] == nonempty_pieces(split(s, c))[i];
        assert(!split(s, c)[j].contains(c));
    }
}

/// Appending text without the pattern's last character creates no
/// occurrence and removes none.
pub proof fn lemma_occurs_at_append(u: Seq<char>, t: Seq<char>, p: Seq<char>, i: int)
    requires
        p.len() > 0,
        !t.contains(p.last()),
    ensures
        occurs_at(u + t, p, i) == occurs_at(u, p, i),
{
    let n = p.len() as int;
    if occurs_at(u, p, i) {
        assert((u + t).subrange(i, i + n) =~= u.subrange(i, i + n));
    }
    if occurs_at(u + t, p, i) {
        if i + n > u.len() {
            let k = i + n - 1 - u.len();
            assert((u + t).subrange(i, i + n)[n - 1] == p.last());
            assert(t[k] == (u + t)[i + n - 1]);
        } else {
            assert((u + t).subrange(i, i + n) =~= u.subrange(i, i + n));
        }
    }
}

/// Searching is unchanged by appending text without the pattern's last
/// character.
pub proof fn lemma_find_from_append(u: Seq<char>, t: Seq<char>, p: Seq<char>, i: int)
    requires
        p.len() > 0,
        !t.contains(p.last()),
    ensures
        find_from(u + t, p, i) == find_from(u, p, i),
    decreases (u + t).len() + 1 - i,
{
    if i < 0 || i + p.len() > (u + t).len() {
    } else {
        lemma_occurs_at_append(u, t, p, i);
        if !occurs_at(u + t, p, i) {
            lemma_find_from_append(u, t, p, i + 1);
            if i + p.len() > u.len() {
                assert(find_from(u, p, i + 1) is None);
            }
        }
    }
}

/// The first occurrence in `u` stays the first once anything is appended.
pub proof fn lemma_find_from_prefix(u: Seq<char>, t: Seq<char>, p: Seq<char>, i: int, k: int)
    requires
        0 <= i <= k,
        find_from(u, p, i) == Some(k),
    ensures
        find_from(u + t, p, i) == Some(k),
    decreases k - i,
{
    lemma_find_from(u, p, i);
    let n = p.len() as int;
    assert((u + t).subrange(i, i + n) =~= u.subrange(i, i + n));
    if i < k {
        assert(!occurs_at(u, p, i));
        lemma_find_from_prefix(u, t, p, i + 1, k);
    }
}

/// No position at or after `i` holds `c`: a search for `c` from `i` finds
/// nothing.
pub proof fn lemma_find_from_char_absent(s: Seq<char>, c: char, i: int)
    requires
        0 <= i,
        forall|j: int| i <= j < s.len() ==> s[j] != c,
    ensures
        find_from(s, seq![c], i) is None,
{
    lemma_find_from(s, seq![c], i);
    if find_from(s, seq![c], i) is Some {
        let k = find_from(s, seq![c], i)->0;
        assert(s.subrange(k, k + 1)[0] == s[k]);
    }
}

/// Appending text without the separator extends the last piece.
pub proof fn lemma_split_append(u: Seq<char>, t: Seq<char>, c: char)
    requires
        !t.contains(c),
    ensures
        split(u + t, c) == split(u, c).update(
            split(u, c).len() - 1,
            split(u, c).last() + t,
        ),
    decreases u.len(),
{
    lemma_split_nonempty(u, c);
    if u.len() == 0 {
        assert(u + t =~= t);
        assert forall|j: int| 0 <= j < t.len() implies t[j] != c by {
            if t[j] == c {
                assert(t.contains(c));
            }
        }
        lemma_split_none(t, c);
        assert(Seq::<char>::empty() + t =~= t);
        assert(split(u, c).update(0, Seq::<char>::empty() + t) =~= seq![t]);
    } else {
        let v = u.drop_first();
        lemma_split_append(v, t, c);
        lemma_split_nonempty(v, c);
        assert((u + t).drop_first() =~= v + t);
        assert((u + t)[0] == u[0]);
        let sv = split(v, c);
        let l = sv.len() - 1;
        if u[0] == c {
            assert(split(u + t, c) =~= split(u, c).update(
                split(u, c).len() - 1,
                split(u, c).last() + t,
            ));
        } else {
            if l == 0 {
                assert(seq![u[0]] + (sv[0] + t) =~= (seq![u[0]] + sv[0]) + t);
            }
            assert(split(u + t, c) =~= split(u, c).update(
                split(u, c).len() - 1,
                split(u, c).last() + t,
            ));
        }
    }
}

/// Trimming a repeated suffix ignores one more repetition appended.
pub proof fn lemma_trim_end_append(s: Seq<char>, p: Seq<char>)
    requires
        p.len() > 0,
    ensures
        trim_end(s + p, p) == trim_end(s, p),
{
    let sp = s + p;
    assert(sp.subrange(sp.len() - p.len(), sp.len() as int) =~= p);
    assert(sp.subrange(0, sp.len() - p.len()) =~= s);
}

/// What occurs in `b` occurs in `a + b`.
pub proof fn lemma_contains_after(a: Seq<char>, b: Seq<char>, p: Seq<char>)
    requires
        contains(b, p),
    ensures
        contains(a + b, p),
{
    let i = choose|i: int| occurs_at(b, p, i);
    assert((a + b).subrange(a.len() + i, a.len() + i + p.len()) =~= b.subrange(i, i + p.len()));
    assert(occurs_at(a + b, p, a.len() + i));
}

/// What occurs in something that occurs in `a` occurs in `a`.
pub proof fn lemma_contains_transitive(a: Seq<char>, b: Seq<char>, x: Seq<char>)
    requires
        contains(a, b),
        contains(b, x),
    ensures
        contains(a, x),
{
    let i = choose|i: int| occurs_at(a, b, i);
    let j = choose|j: int| occurs_at(b, x, j);
    assert(a.subrange(i + j, i + j + x.len()) =~= b.subrange(j, j + x.len())) by {
        assert forall|k: int| 0 <= k < x.len() implies #[trigger] a.subrange(
            i + j,
            i + j + x.len(),
        )[k] == b.subrange(j, j + x.len())[k] by {
            assert(a.subrange(i, i + b.len())[j + k] == a[i + j + k]);
        }
    }
    assert(occurs_at(a, x, i + j));
}

/// A part of `s` occurs in `s`.
pub proof fn lemma_subrange_contained(s: Seq<char>, i: int, j: int)
    requires
        0 <= i <= j <= s.len(),
    ensures
        contains(s, s.subrange(i, j)),
{
    assert(s.subrange(i, i + s.subrange(i, j).len()) =~= s.subrange(i, j));
    assert(occurs_at(s, s.subrange(i, j), i));
}

/// Every piece of a split occurs in the text, the first one at its start.
pub proof fn lemma_split_pieces_occur(s: Seq<char>, c: char)
    ensures
        split(s, c).len() >= 1,
        s.subrange(0, split(s, c)[0].len() as int) == split(s, c)[0],
        split(s, c)[0].len() <= s.len(),
        forall|i: int| 0 <= i < split(s, c).len() ==> contains(s, #[trigger] split(s, c)[i]),
    decreases s.len(),
{
    lemma_split_nonempty(s, c);
    if s.len() == 0 {
        assert(s.subrange(0, 0) =~= Seq::<char>::empty());
        assert(occurs_at(s, Seq::<char>::empty(), 0));
    } else {
        let t = s.drop_first();
        lemma_split_pieces_occur(t, c);
        let rest = split(t, c);
        assert(s =~= seq![s[0]] + t);
        assert forall|i: int| 0 <= i < rest.len() implies contains(s, #[trigger] rest[i]) by {
            lemma_contains_after(seq![s[0]], t, rest[i]);
        }
        if s[0] == c {
            assert(s.subrange(0, 0) =~= Seq::<char>::empty());
            assert(occurs_at(s, Seq::<char>::empty(), 0));
            assert forall|i: int| 0 <= i < split(s, c).len() implies contains(
                s,
                #[trigger] split(s, c)[i],
            ) by {
                if i > 0 {
                    assert(split(s, c)[i] == rest[i - 1]);
                }
            }
        } else {
            let first = seq![s[0]] + rest[0];
            assert(s.subrange(0, first.len() as int) =~= first);
            lemma_subrange_contained(s, 0, first.len() as int);
            assert forall|i: int| 0 <= i < split(s, c).len() implies contains(
                s,
                #[trigger] split(s, c)[i],
            ) by {
                if i > 0 {
                    assert(split(s, c)[i] == rest[i]);
                }
            }
        }
    }
}

/// Every segment occurs in the text.
pub proof fn lemma_segments_occur(s: Seq<char>, c: char)
    ensures
        forall|i: int| 0 <= i < segments(s, c).len() ==> contains(s, #[trigger] segments(s, c)[i]),
{
    lemma_split_pieces_occur(s, c);
    lemma_nonempty_pieces_members(split(s, c));
    assert forall|i: int| 0 <= i < segments(s, c).len() implies contains(
        s,
        #[trigger] segments(s, c)[i],
    ) by {
        let j = choose|j: int|
            0 <= j < split(s, c).len() && split(s, c)[j] == nonempty_pieces(split(s, c))[i];
        assert(contains(s, split(s, c)[j]));
    }
}

/// Trimming keeps a prefix of the text, and removes only characters of the
/// pattern.
pub proof fn lemma_trim_end_prefix(s: Seq<char>, p: Seq<char>)
    ensures
        trim_end(s, p).len() <= s.len(),
        s.subrange(0, trim_end(s, p).len() as int) == trim_end(s, p),
        forall|j: int| trim_end(s, p).len() <= j < s.len() ==> p.contains(#[trigger] s[j]),
    decreases s.len(),
{
    if p.len() > 0 && p.len() <= s.len() && s.subrange(s.len() - p.len(), s.len() as int) == p {
        let t = s.subrange(0, s.len() - p.len());
        lemma_trim_end_prefix(t, p);
        let k = trim_end(t, p).len() as int;
        assert(s.subrange(0, k) =~= t.subrange(0, k));
        assert forall|j: int| k <= j < s.len() implies p.contains(#[trigger] s[j]) by {
            if j < t.len() {
                assert(t[j] == s[j]);
            } else {
                let d = j - (s.len() - p.len());
                assert(s.subrange(s.len() - p.len(), s.len() as int)[d] == s[j]);
                assert(p[d] == s[j]);
            }
        }
    } else {
        assert(s.subrange(0, s.len() as int) =~= s);
    }
}

/// An occurrence of a pattern without `c` lies wholly before or wholly after a
/// position holding `c`.
pub proof fn lemma_occurrence_avoids(u: Seq<char>, p: Seq<char>, c: char, i: int, q: int)
    requires
        occurs_at(u, p, i),
        !p.contains(c),
        0 <= q < u.len(),
        u[q] == c,
    ensures
        i + p.len() <= q || i > q,
{
    if i <= q && q < i + p.len() {
        assert(u.subrange(i, i + p.len())[q - i] == u[q]);
        assert(p[q - i] == c);
    }
}

/// An occurrence lying wholly inside `u[a..b]` is an occurrence there.
pub proof fn lemma_occurrence_inside(u: Seq<char>, p: Seq<char>, i: int, a: int, b: int)
    requires
        occurs_at(u, p, i),
        0 <= a <= i,
        i + p.len() <= b <= u.len(),
    ensures
        contains(u.subrange(a, b), p),
{
    assert(u.subrange(a, b).subrange(i - a, i - a + p.len()) =~= u.subrange(i, i + p.len()));
    assert(occurs_at(u.subrange(a, b), p, i - a));
}

/// The first position in `v[from..end]` holding `c`, or `end`; splitting
/// `v[from..end]` at it.
pub fn next_piece(v: &Vec<char>, from: usize, end: usize, c: char) -> (b: usize)
    requires
        from <= end <= v@.len(),
    ensures
        from <= b <= end,
        forall|j: int| from <= j < b ==> v@[j] != c,
        b < end ==> v@[b as int] == c,
        b < end ==> split(v@.subrange(from as int, end as int), c) == seq![
            v@.subrange(from as int, b as int),
        ] + split(v@.subrange(b + 1, end as int), c),
        b == end ==> split(v@.subrange(from as int, end as int), c) == seq![
            v@.subrange(from as int, end as int),
        ],
{
    let mut b = from;
    while b < end && v[b] != c
        invariant
            from <= b <= end,
            end <= v@.len(),
            forall|j: int| from <= j < b ==> v@[j] != c,
        decreases end - b,
    {
        b = b + 1;
    }
    let ghost s = v@.subrange(from as int, end as int);
    proof {
        if b < end {
            let i = b - from;
            assert forall|j: int| 0 <= j < i implies s[j] != c by {
                assert(s[j] == v@[from + j]);
            }
            assert(s[i] == v@[b as int]);
            lemma_split_first(s, c, i);
            assert(s.subrange(0, i) =~= v@.subrange(from as int, b as int));
            assert(s.subrange(i + 1, s.len() as int) =~= v@.subrange(b + 1, end as int));
        } else {
            assert forall|j: int| 0 <= j < s.len() implies s[j] != c by {
                assert(s[j] == v@[from + j]);
            }
            lemma_split_none(s, c);
        }
    }
    b
}

/// The first non-empty piece of `v[from..end]` between occurrences of `c`.
pub fn next_segment(v: &Vec<char>, from: usize, end: usize, c: char) -> (r: Option<(usize, usize)>)
    requires
        from <= end <= v@.len(),
    ensures
        match r {
            Some((a, b)) => {
                &&& from <= a < b <= end
                &&& segments(v@.subrange(from as int, end as int), c) == seq![
                    v@.subrange(a as int, b as int),
                ] + segments(v@.subrange(b as int, end as int), c)
            },
            None => segments(v@.subrange(from as int, end as int), c).len() == 0,
        },
{
    let mut a = from;
    while a < end && v[a] == c
        invariant
            from <= a <= end,
            end <= v@.len(),
            segments(v@.subrange(from as int, end as int), c) == segments(
                v@.subrange(a as int, end as int),
                c,
            ),
        decreases end - a,
    {
        proof {
            let s = v@.subrange(a as int, end as int);
            assert(s.drop_first() =~= v@.subrange(a + 1, end as int));
            assert(s[0] == c);
            lemma_nonempty_pieces_cons(Seq::<char>::empty(), split(s.drop_first(), c));
        }
        a = a + 1;
    }
    if a == end {
        proof {
            assert(v@.subrange(a as int, end as int) =~= Seq::<char>::empty());
            lemma_nonempty_pieces_cons(Seq::<char>::empty(), Seq::<Seq<char>>::empty());
            assert(seq![Seq::<char>::empty()] + Seq::<Seq<char>>::empty() =~= seq![
                Seq::<char>::empty(),
            ]);
        }
        return None;
    }
    let b = next_piece(v, a, end, c);
    proof {
        let s = v@.subrange(a as int, end as int);
        assert(b > a) by {
            assert(v@[a as int] != c);
        }
        let x = v@.subrange(a as int, b as int);
        assert(x.len() > 0);
        if b < end {
            let t = v@.subrange(b as int, end as int);
            lemma_nonempty_pieces_cons(x, split(v@.subrange(b + 1, end as int), c));
            assert(t.drop_first() =~= v@.subrange(b + 1, end as int));
            assert(t[0] == c);
            lemma_nonempty_pieces_cons(Seq::<char>::empty(), split(t.drop_first(), c));
        } else {
            lemma_nonempty_pieces_cons(x, Seq::<Seq<char>>::empty());
            assert(seq![x] + Seq::<Seq<char>>::empty() =~= seq![x]);
            assert(v@.subrange(b as int, end as int) =~= Seq::<char>::empty());
            lemma_nonempty_pieces_cons(Seq::<char>::empty(), Seq::<Seq<char>>::empty());
            assert(seq![Seq::<char>::empty()] + Seq::<Seq<char>>::empty() =~= seq![
                Seq::<char>::empty(),
            ]);
        }
    }
    Some((a, b))
}

/// Remove every trailing repetition of `p` from `v[from..end]`; the result is
/// the new end.
pub fn trim_end_exec(v: &Vec<char>, from: usize, end: usize, p: &Vec<char>) -> (r: usize)
    requires
        from <= end <= v@.len(),
    ensures
        from <= r <= end,
        trim_end(v@.subrange(from as int, end as int), p@) == v@.subrange(from as int, r as int),
{
    let mut e = end;
    while p.len() > 0 && p.len() <= e - from && occurs_at_exec(v, p, e - p.len())
        invariant
            from <= e <= end,
            end <= v@.len(),
            trim_end(v@.subrange(from as int, end as int), p@) == trim_end(
                v@.subrange(from as int, e as int),
                p@,
            ),
        decreases e,
    {
        proof {
            let s = v@.subrange(from as int, e as int);
            assert(s.subrange(s.len() - p@.len(), s.len() as int) =~= v@.subrange(
                e - p@.len(),
                e as int,
            ));
            assert(s.subrange(0, s.len() - p@.len()) =~= v@.subrange(
                from as int,
                e - p@.len(),
            ));
        }
        e = e - p.len();
    }
    proof {
        let s = v@.subrange(from as int, e as int);
        if p@.len() > 0 && p@.len() <= s.len() {
            assert(s.subrange(s.len() - p@.len(), s.len() as int) =~= v@.subrange(
                e - p@.len(),
                e as int,
            ));
        }
    }
    e
}

} // verus!
