//! The list of offices (AOJ) that serve a substation's transformers.

use vstd::prelude::*;

verus! {

/// The distinct entries of `s`, each where it first occurs.
pub open spec fn distinct_firsts(s: Seq<Seq<char>>) -> Seq<Seq<char>>
    decreases s.len(),
{
    if s.len() == 0 {
        Seq::empty()
    } else {
        let d = distinct_firsts(s.drop_last());
        if d.contains(s.last()) {
            d
        } else {
            d.push(s.last())
        }
    }
}

/// The parts written one after the other, a comma before each part that
/// follows a non-empty text.
pub open spec fn comma_join(parts: Seq<Seq<char>>) -> Seq<char>
    decreases parts.len(),
{
    if parts.len() == 0 {
        Seq::empty()
    } else {
        let acc = comma_join(parts.drop_last());
        if acc.len() == 0 {
            parts.last()
        } else {
            acc + seq![','] + parts.last()
        }
    }
}

/// The texts of `names`.
pub open spec fn texts(names: Seq<String>) -> Seq<Seq<char>> {
    names.map_values(|s: String| s@)
}

/// Whether `seen` holds a string with the text of `name`.
fn holds(seen: &Vec<String>, name: &String) -> (b: bool)
    ensures
        b == texts(seen@).contains(name@),
{
    let mut k: usize = 0;
    while k < seen.len()
        invariant
            k <= seen.len(),
            forall|j: int| 0 <= j < k ==> seen@[j]@ != name@,
        decreases seen.len() - k,
    {
        if seen[k] == *name {
            assert(texts(seen@)[k as int] == name@);
            return true;
        }
        k = k + 1;
    }
    assert(!texts(seen@).contains(name@)) by {
        if texts(seen@).contains(name@) {
            let j = choose|j: int| 0 <= j < texts(seen@).len() && texts(seen@)[j] == name@;
            assert(seen@[j]@ == name@);
        }
    }
    false
}

/// The distinct office names among `names`, each where it first occurs,
/// separated by commas (no comma follows an empty beginning).
pub fn aoj_list(names: &Vec<String>) -> (r: String)
    ensures
        r@ == comma_join(distinct_firsts(texts(names@))),
{
    let mut seen: Vec<String> = Vec::new();
    let mut i: usize = 0;
    while i < names.len()
        invariant
            i <= names.len(),
            texts(seen@) == distinct_firsts(texts(names@).take(i as int)),
        decreases names.len() - i,
    {
        let ghost before = texts(names@).take(i as int);
        assert(texts(names@).take(i + 1).drop_last() =~= before);
        assert(texts(names@).take(i + 1).last() == names@[i as int]@);
        if !holds(&seen, &names[i]) {
            let c = names[i].clone();
            seen.push(c);
            assert(texts(seen@) =~= distinct_firsts(before).push(names@[i as int]@));
        }
        i = i + 1;
    }
    assert(texts(names@).take(names.len() as int) =~= texts(names@));
    let mut r = String::new();
    let mut k: usize = 0;
    while k < seen.len()
        invariant
            k <= seen.len(),
            r@ == comma_join(texts(seen@).take(k as int)),
        decreases seen.len() - k,
    {
        let ghost prev = texts(seen@).take(k as int);
        let ghost next = texts(seen@).take(k + 1);
        assert(next.drop_last() =~= prev);
        assert(next.last() == seen@[k as int]@);
        let ghost r0 = r@;
        proof {
            reveal_strlit(",");
        }
        if !r.as_str().is_empty() {
            r.append(",");
        }
        r.append(seen[k].as_str());
        assert(r0.len() == 0 ==> r@ =~= seen@[k as int]@);
        assert(r0.len() != 0 ==> r@ =~= r0 + seq![','] + seen@[k as int]@);
        assert(r@ == comma_join(next));
        k = k + 1;
    }
    assert(texts(seen@).take(seen.len() as int) =~= texts(seen@));
    r
}


/// The distinct entries hold every entry of `s` and nothing else, each of
/// them once.
pub proof fn lemma_distinct_firsts(s: Seq<Seq<char>>)
    ensures
        distinct_firsts(s).no_duplicates(),
        forall|x: Seq<char>| distinct_firsts(s).contains(x) <==> s.contains(x),
    decreases s.len(),
{
    if s.len() > 0 {
        let t = s.drop_last();
        lemma_distinct_firsts(t);
        let d = distinct_firsts(t);
        assert forall|x: Seq<char>| s.contains(x) <==> (t.contains(x) || x == s.last()) by {
            if s.contains(x) {
                let j = choose|j: int| 0 <= j < s.len() && s[j] == x;
                if j < s.len() - 1 {
                    assert(t[j] == x);
                }
            }
            if t.contains(x) {
                let j = choose|j: int| 0 <= j < t.len() && t[j] == x;
                assert(s[j] == x);
            }
            if x == s.last() {
                assert(s[s.len() - 1] == x);
            }
        }
        if !d.contains(s.last()) {
            let e = d.push(s.last());
            assert forall|x: Seq<char>| e.contains(x) <==> (d.contains(x) || x == s.last()) by {
                if e.contains(x) {
                    let j = choose|j: int| 0 <= j < e.len() && e[j] == x;
                    if j < d.len() {
                        assert(d[j] == x);
                    }
                }
                if d.contains(x) {
                    let j = choose|j: int| 0 <= j < d.len() && d[j] == x;
                    assert(e[j] == x);
                }
                if x == s.last() {
                    assert(e[d.len() as int] == x);
                }
            }
            assert forall|a: int, b: int| 0 <= a < e.len() && 0 <= b < e.len() && a != b implies e[a] != e[b] by {
                if a == d.len() {
                    assert(d[b] == e[b]);
                } else if b == d.len() {
                    assert(d[a] == e[a]);
                }
            }
        }
    }
}


/// Joining one more part puts it after a comma, unless what came before is
/// empty.
pub proof fn lemma_comma_join_push(parts: Seq<Seq<char>>, x: Seq<char>)
    ensures
        comma_join(Seq::empty()).len() == 0,
        comma_join(parts.push(x)) == (if comma_join(parts).len() == 0 { x } else { comma_join(parts) + seq![','] + x }),
{
    assert(parts.push(x).drop_last() =~= parts);
}

/// Each distinct entry stands at its first occurrence in `s`, and the
/// distinct entries come in the order of their first occurrences.
pub proof fn lemma_distinct_firsts_order(s: Seq<Seq<char>>)
    ensures
        exists|idx: Seq<int>| {
            &&& #[trigger] idx.len() == distinct_firsts(s).len()
            &&& forall|k: int| 0 <= k < idx.len() ==> 0 <= #[trigger] idx[k] < s.len()
                && s[idx[k]] == distinct_firsts(s)[k]
                && forall|j: int| 0 <= j < idx[k] ==> s[j] != distinct_firsts(s)[k]
            &&& forall|a: int, b: int| 0 <= a < b < idx.len() ==> #[trigger] idx[a] < #[trigger] idx[b]
        },
    decreases s.len(),
{
    if s.len() == 0 {
        let idx: Seq<int> = Seq::empty();
        assert(idx.len() == distinct_firsts(s).len());
    } else {
        let t = s.drop_last();
        lemma_distinct_firsts_order(t);
        lemma_distinct_firsts(t);
        let d = distinct_firsts(t);
        let idx0 = choose|idx: Seq<int>| {
            &&& #[trigger] idx.len() == distinct_firsts(t).len()
            &&& forall|k: int| 0 <= k < idx.len() ==> 0 <= #[trigger] idx[k] < t.len()
                && t[idx[k]] == distinct_firsts(t)[k]
                && forall|j: int| 0 <= j < idx[k] ==> t[j] != distinct_firsts(t)[k]
            &&& forall|a: int, b: int| 0 <= a < b < idx.len() ==> #[trigger] idx[a] < #[trigger] idx[b]
        };
        if d.contains(s.last()) {
            let idx = idx0;
            assert(distinct_firsts(s) == d);
            assert forall|k: int| 0 <= k < idx.len() implies 0 <= #[trigger] idx[k] < s.len()
                && s[idx[k]] == distinct_firsts(s)[k]
                && forall|j: int| 0 <= j < idx[k] ==> s[j] != distinct_firsts(s)[k] by {
                assert(t[idx[k]] == d[k]);
                assert forall|j: int| 0 <= j < idx[k] implies s[j] != distinct_firsts(s)[k] by {
                    assert(t[j] == s[j]);
                }
            }
            assert(idx.len() == distinct_firsts(s).len());
        } else {
            let n = t.len() as int;
            let idx = idx0.push(n);
            let e = d.push(s.last());
            assert(distinct_firsts(s) == e);
            assert forall|k: int| 0 <= k < idx.len() implies 0 <= #[trigger] idx[k] < s.len()
                && s[idx[k]] == distinct_firsts(s)[k]
                && forall|j: int| 0 <= j < idx[k] ==> s[j] != distinct_firsts(s)[k] by {
                if k < idx0.len() {
                    assert(idx[k] == idx0[k]);
                    assert(t[idx0[k]] == d[k]);
                    assert forall|j: int| 0 <= j < idx[k] implies s[j] != distinct_firsts(s)[k] by {
                        assert(t[j] == s[j]);
                    }
                } else {
                    assert(idx[k] == n);
                    assert(e[k] == s.last());
                    assert forall|j: int| 0 <= j < idx[k] implies s[j] != distinct_firsts(s)[k] by {
                        assert(t[j] == s[j]);
                        if s[j] == s.last() {
                            assert(t.contains(s.last()));
                        }
                    }
                }
            }
            assert forall|a: int, b: int| 0 <= a < b < idx.len() implies #[trigger] idx[a] < #[trigger] idx[b] by {
                if b < idx0.len() {
                    assert(idx[a] == idx0[a] && idx[b] == idx0[b]);
                } else {
                    assert(idx[a] == idx0[a]);
                }
            }
            assert(idx.len() == distinct_firsts(s).len());
        }
    }
}

} // verus!
