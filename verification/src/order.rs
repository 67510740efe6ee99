//! Lexicographic ordering of names, and sorted, deduplicated name lists.
//!
//! Name sets derived from the schema documents, and the emission-unit
//! ordering, are both lexicographic by code point, so that repeated runs
//! over unchanged input produce identical output.
use vstd::prelude::*;
use vstd::string::StrSliceExecFns;

verus! {

/// Lexicographic comparison of `a` and `b`, both read from position `i` on:
/// the first differing code point decides; a strict prefix comes first.
pub open spec fn lex_le_from(a: Seq<char>, b: Seq<char>, i: int) -> bool
    decreases a.len() - i,
{
    if i >= a.len() {
        true
    } else if i >= b.len() {
        false
    } else if (a[i] as u32) < (b[i] as u32) {
        true
    } else if (b[i] as u32) < (a[i] as u32) {
        false
    } else {
        lex_le_from(a, b, i + 1)
    }
}

/// `a` comes no later than `b` in lexicographic order by code point.
pub open spec fn lex_le(a: Seq<char>, b: Seq<char>) -> bool {
    lex_le_from(a, b, 0)
}

/// The order is total: of two names, one comes no later than the other.
pub proof fn lemma_lex_le_total_from(a: Seq<char>, b: Seq<char>, i: int)
    ensures
        lex_le_from(a, b, i) || lex_le_from(b, a, i),
    decreases a.len() - i,
{
    if i < a.len() && i < b.len() && !((a[i] as u32) < (b[i] as u32)) && !((b[i] as u32) < (
    a[i] as u32)) {
        lemma_lex_le_total_from(a, b, i + 1);
    }
}

pub proof fn lemma_lex_le_total(a: Seq<char>, b: Seq<char>)
    ensures
        lex_le(a, b) || lex_le(b, a),
{
    lemma_lex_le_total_from(a, b, 0);
}

/// Decides `lex_le` on two string slices.
pub fn str_lex_le(a: &str, b: &str) -> (r: bool)
    ensures
        r == lex_le(a@, b@),
{
    let alen = a.unicode_len();
    let blen = b.unicode_len();
    let mut i: usize = 0;
    loop
        invariant
            0 <= i <= alen,
            0 <= i <= blen,
            alen == a@.len(),
            blen == b@.len(),
            lex_le(a@, b@) == lex_le_from(a@, b@, i as int),
        decreases alen - i,
    {
        if i >= alen {
            return true;
        }
        if i >= blen {
            return false;
        }
        let ca = a.get_char(i) as u32;
        let cb = b.get_char(i) as u32;
        if ca < cb {
            return true;
        }
        if cb < ca {
            return false;
        }
        i = i + 1;
    }
}

/// Decides equality of two string slices, character by character.
pub fn str_eq(a: &str, b: &str) -> (r: bool)
    ensures
        r == (a@ == b@),
{
    let alen = a.unicode_len();
    let blen = b.unicode_len();
    if alen != blen {
        return false;
    }
    let mut i: usize = 0;
    while i < alen
        invariant
            0 <= i <= alen,
            alen == a@.len(),
            alen == b@.len(),
            forall|j: int| 0 <= j < i ==> a@[j] == b@[j],
        decreases alen - i,
    {
        if a.get_char(i) != b.get_char(i) {
            return false;
        }
        i = i + 1;
    }
    proof {
        assert(a@ =~= b@);
    }
    true
}

/// Inserts `x` into `s`, keeping what is already sorted sorted, and
/// dropping `x` when it is already present.
pub open spec fn insert_uniq(x: Seq<char>, s: Seq<Seq<char>>) -> Seq<Seq<char>>
    decreases s.len(),
{
    if s.len() == 0 {
        seq![x]
    } else if x == s[0] {
        s
    } else if lex_le(x, s[0]) {
        seq![x] + s
    } else {
        seq![s[0]] + insert_uniq(x, s.subrange(1, s.len() as int))
    }
}

/// The names of `s`, sorted lexicographically with duplicates dropped.
pub open spec fn sort_uniq(s: Seq<Seq<char>>) -> Seq<Seq<char>>
    decreases s.len(),
{
    if s.len() == 0 {
        Seq::empty()
    } else {
        insert_uniq(s[0], sort_uniq(s.subrange(1, s.len() as int)))
    }
}

/// Adjacent entries strictly increase: sorted, with no duplicates.
pub open spec fn strictly_sorted(s: Seq<Seq<char>>) -> bool {
    forall|i: int| 0 <= i < s.len() - 1 ==> lex_le(#[trigger] s[i], s[i + 1]) && s[i] != s[i + 1]
}

pub proof fn lemma_insert_uniq_contains(x: Seq<char>, s: Seq<Seq<char>>, y: Seq<char>)
    ensures
        insert_uniq(x, s).contains(y) <==> (y == x || s.contains(y)),
    decreases s.len(),
{
    if s.len() != 0 && x != s[0] && !lex_le(x, s[0]) {
        let rest = s.subrange(1, s.len() as int);
        lemma_insert_uniq_contains(x, rest, y);
        assert(s.contains(y) <==> (y == s[0] || rest.contains(y))) by {
            if s.contains(y) {
                let i = choose|i: int| 0 <= i < s.len() && s[i] == y;
                if i != 0 {
                    assert(rest[i - 1] == y);
                }
            }
            if rest.contains(y) {
                let i = choose|i: int| 0 <= i < rest.len() && rest[i] == y;
                assert(s[i + 1] == y);
            }
        }
        assert(insert_uniq(x, s) == seq![s[0]] + insert_uniq(x, rest));
        assert(insert_uniq(x, s).contains(y) <==> (y == s[0] || insert_uniq(x, rest).contains(
        y))) by {
            let ins = insert_uniq(x, s);
            let inner = insert_uniq(x, rest);
            if ins.contains(y) {
                let i = choose|i: int| 0 <= i < ins.len() && ins[i] == y;
                if i != 0 {
                    assert(inner[i - 1] == y);
                }
            }
            if inner.contains(y) {
                let i = choose|i: int| 0 <= i < inner.len() && inner[i] == y;
                assert(ins[i + 1] == y);
            }
            if y == s[0] {
                assert(ins[0] == y);
            }
        }
    } else if s.len() == 0 {
        assert(insert_uniq(x, s) == seq![x]);
        assert(insert_uniq(x, s)[0] == x);
        assert(!s.contains(y));
    } else if x == s[0] {
        assert(s[0] == x);
        assert(s.contains(x));
    } else {
        assert(insert_uniq(x, s) == seq![x] + s);
        let ins = insert_uniq(x, s);
        assert(ins[0] == x);
        assert(ins.contains(y) <==> (y == x || s.contains(y))) by {
            if ins.contains(y) {
                let i = choose|i: int| 0 <= i < ins.len() && ins[i] == y;
                if i != 0 {
                    assert(s[i - 1] == y);
                }
            }
            if s.contains(y) {
                let i = choose|i: int| 0 <= i < s.len() && s[i] == y;
                assert(ins[i + 1] == y);
            }
        }
    }
}

pub proof fn lemma_insert_uniq_sorted(x: Seq<char>, s: Seq<Seq<char>>)
    requires
        strictly_sorted(s),
    ensures
        strictly_sorted(insert_uniq(x, s)),
    decreases s.len(),
{
    if s.len() == 0 {
    } else if x == s[0] {
    } else if lex_le(x, s[0]) {
        let ins = seq![x] + s;
        assert forall|i: int| 0 <= i < ins.len() - 1 implies lex_le(#[trigger] ins[i], ins[i + 1])
            && ins[i] != ins[i + 1] by {
            if i == 0 {
                assert(ins[0] == x && ins[1] == s[0]);
            } else {
                assert(ins[i] == s[i - 1] && ins[i + 1] == s[i]);
            }
        }
    } else {
        let rest = s.subrange(1, s.len() as int);
        assert(strictly_sorted(rest)) by {
            assert forall|i: int| 0 <= i < rest.len() - 1 implies lex_le(
                #[trigger] rest[i],
                rest[i + 1],
            ) && rest[i] != rest[i + 1] by {
                assert(rest[i] == s[i + 1] && rest[i + 1] == s[i + 2]);
            }
        }
        lemma_insert_uniq_sorted(x, rest);
        let inner = insert_uniq(x, rest);
        let ins = seq![s[0]] + inner;
        assert(insert_uniq(x, s) == ins);
        lemma_lex_le_total(x, s[0]);
        assert(lex_le(s[0], x));
        assert forall|i: int| 0 <= i < ins.len() - 1 implies lex_le(#[trigger] ins[i], ins[i + 1])
            && ins[i] != ins[i + 1] by {
            if i == 0 {
                assert(ins[0] == s[0]);
                assert(ins[1] == inner[0]);
                if rest.len() == 0 {
                    assert(inner == seq![x]);
                    assert(inner[0] == x);
                } else if x == rest[0] {
                    assert(inner[0] == rest[0]);
                    assert(s[1] == rest[0]);
                } else if lex_le(x, rest[0]) {
                    assert(inner == seq![x] + rest);
                    assert(inner[0] == x);
                } else {
                    assert(inner == seq![rest[0]] + insert_uniq(x, rest.subrange(
                        1,
                        rest.len() as int,
                    )));
                    assert(inner[0] == rest[0]);
                    assert(s[1] == rest[0]);
                }
            } else {
                assert(ins[i] == inner[i - 1] && ins[i + 1] == inner[i]);
            }
        }
    }
}

pub proof fn lemma_sort_uniq_contains(s: Seq<Seq<char>>, y: Seq<char>)
    ensures
        sort_uniq(s).contains(y) <==> s.contains(y),
    decreases s.len(),
{
    if s.len() != 0 {
        let rest = s.subrange(1, s.len() as int);
        lemma_sort_uniq_contains(rest, y);
        lemma_insert_uniq_contains(s[0], sort_uniq(rest), y);
        if s.contains(y) {
            let i = choose|i: int| 0 <= i < s.len() && s[i] == y;
            if i != 0 {
                assert(rest[i - 1] == y);
            }
        }
        if rest.contains(y) {
            let i = choose|i: int| 0 <= i < rest.len() && rest[i] == y;
            assert(s[i + 1] == y);
        }
    }
}

pub proof fn lemma_sort_uniq_sorted(s: Seq<Seq<char>>)
    ensures
        strictly_sorted(sort_uniq(s)),
    decreases s.len(),
{
    if s.len() != 0 {
        let rest = s.subrange(1, s.len() as int);
        lemma_sort_uniq_sorted(rest);
        lemma_insert_uniq_sorted(s[0], sort_uniq(rest));
    }
}

/// A prefix one longer is the prefix with the next element pushed.
pub proof fn lemma_prefix_push<A>(s: Seq<A>, i: int)
    requires
        0 <= i < s.len(),
    ensures
        s.subrange(0, i).push(s[i]) =~= s.subrange(0, i + 1),
{
}

/// The views of a list of owned strings.
pub open spec fn view_strings(s: Seq<String>) -> Seq<Seq<char>> {
    s.map_values(|t: String| t@)
}

/// Inserts `x` into `out` as `insert_uniq` describes.
fn insert_string_uniq(out: &mut Vec<String>, x: String)
    ensures
        view_strings(final(out)@) == insert_uniq(x@, view_strings(old(out)@)),
{
    let ghost s = view_strings(old(out)@);
    proof {
        assert(s.subrange(0, s.len() as int) =~= s);
        assert(s.subrange(0, 0) + insert_uniq(x@, s.subrange(0, s.len() as int)) =~= insert_uniq(
            x@,
            s,
        ));
    }
    let mut j: usize = 0;
    loop
        invariant
            0 <= j <= out@.len(),
            out@ == old(out)@,
            s == view_strings(out@),
            insert_uniq(x@, s) == s.subrange(0, j as int) + insert_uniq(x@, s.subrange(
                j as int,
                s.len() as int,
            )),
        decreases out@.len() - j,
    {
        proof {
            assert(s.subrange(j as int, s.len() as int).len() == s.len() - j);
        }
        if j >= out.len() {
            proof {
                assert(s.subrange(j as int, s.len() as int) =~= Seq::<Seq<char>>::empty());
                assert(insert_uniq(x@, s.subrange(j as int, s.len() as int)) =~= seq![x@]);
            }
            out.push(x);
            proof {
                assert(view_strings(out@) =~= s.subrange(0, j as int) + seq![x@]);
                assert(s.subrange(0, j as int) =~= s);
            }
            return ;
        }
        let ghost tail = s.subrange(j as int, s.len() as int);
        proof {
            assert(tail[0] == s[j as int]);
            assert(view_strings(out@)[j as int] == out@[j as int]@);
        }
        let same = out[j] == x;
        if same {
            proof {
                assert(insert_uniq(x@, tail) == tail);
                assert(s.subrange(0, j as int) + tail =~= s);
            }
            return ;
        }
        if str_lex_le(x.as_str(), out[j].as_str()) {
            proof {
                assert(insert_uniq(x@, tail) == seq![x@] + tail);
            }
            out.insert(j, x);
            proof {
                assert(view_strings(out@) =~= s.subrange(0, j as int) + (seq![x@] + tail));
            }
            return ;
        }
        proof {
            let tail2 = s.subrange(j as int + 1, s.len() as int);
            assert(tail.subrange(1, tail.len() as int) =~= tail2);
            assert(insert_uniq(x@, tail) == seq![tail[0]] + insert_uniq(x@, tail2));
            assert(s.subrange(0, j as int) + (seq![tail[0]] + insert_uniq(x@, tail2)) =~= s.subrange(
                0,
                j as int + 1,
            ) + insert_uniq(x@, tail2));
        }
        j = j + 1;
    }
}

/// Sorts the given names lexicographically and drops duplicates, as
/// `sort_uniq` describes; the result is strictly sorted and holds exactly
/// the names of the input.
pub fn sorted_unique_strings(names: &Vec<String>) -> (r: Vec<String>)
    ensures
        view_strings(r@) == sort_uniq(view_strings(names@)),
        strictly_sorted(view_strings(r@)),
        forall|y: Seq<char>| view_strings(r@).contains(y) <==> view_strings(names@).contains(y),
{
    let ghost s = view_strings(names@);
    let mut out: Vec<String> = Vec::new();
    let mut i: usize = names.len();
    proof {
        assert(s.subrange(i as int, s.len() as int) =~= Seq::<Seq<char>>::empty());
    }
    while i > 0
        invariant
            0 <= i <= names@.len(),
            s == view_strings(names@),
            view_strings(out@) == sort_uniq(s.subrange(i as int, s.len() as int)),
        decreases i,
    {
        i = i - 1;
        let x = names[i].clone();
        proof {
            let tail = s.subrange(i as int, s.len() as int);
            assert(tail[0] == s[i as int]);
            assert(s[i as int] == names@[i as int]@);
            assert(x@ == names@[i as int]@);
            assert(tail.subrange(1, tail.len() as int) =~= s.subrange(i as int + 1, s.len() as int));
            assert(sort_uniq(tail) == insert_uniq(x@, sort_uniq(s.subrange(
                i as int + 1,
                s.len() as int,
            ))));
        }
        insert_string_uniq(&mut out, x);
    }
    proof {
        assert(s.subrange(0, s.len() as int) =~= s);
        lemma_sort_uniq_sorted(s);
        assert forall|y: Seq<char>| view_strings(out@).contains(y) <==> s.contains(y) by {
            lemma_sort_uniq_contains(s, y);
        }
    }
    out
}

} // verus!
