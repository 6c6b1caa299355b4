use vstd::prelude::*;
use vstd::multiset::Multiset;
use vstd::relations::{sorted_by, total_ordering};
use crate::text::{chars_of, views};

verus! {

broadcast use vstd::seq_lib::group_to_multiset_ensures;

/// Lexicographic order of character sequences by code point, from position
/// `i` on; the order of `String`'s `Ord`, since UTF-8 keeps code point order
/// byte by byte.
pub open spec fn lex_lt_from(a: Seq<char>, b: Seq<char>, i: int) -> bool
    decreases a.len() - i,
{
    if i >= a.len() {
        i < b.len()
    } else if i >= b.len() {
        false
    } else if a[i] != b[i] {
        (a[i] as u32) < (b[i] as u32)
    } else {
        lex_lt_from(a, b, i + 1)
    }
}

/// `a` comes strictly before `b` in lexicographic order.
pub open spec fn seq_lt(a: Seq<char>, b: Seq<char>) -> bool {
    lex_lt_from(a, b, 0)
}

/// `a` comes before `b` or equals it.
pub open spec fn seq_le(a: Seq<char>, b: Seq<char>) -> bool {
    a == b || seq_lt(a, b)
}

/// The lexicographic order as a relation.
pub open spec fn seq_le_rel() -> spec_fn(Seq<char>, Seq<char>) -> bool {
    |a: Seq<char>, b: Seq<char>| seq_le(a, b)
}

/// Names in ascending lexicographic order, as `Vec<String>::sort` leaves them.
pub open spec fn sorted_names(s: Seq<Seq<char>>) -> Seq<Seq<char>> {
    s.sort_by(seq_le_rel())
}

/// Distinct characters have distinct code points.
pub proof fn lemma_char_u32_injective(x: char, y: char)
    ensures
        x != y ==> (x as u32) != (y as u32),
{
    vstd::utf8::char_u32_cast(x, x as u32);
    vstd::utf8::char_u32_cast(y, y as u32);
}

proof fn lemma_lt_irreflexive_from(a: Seq<char>, i: int)
    ensures
        !lex_lt_from(a, a, i),
    decreases a.len() - i,
{
    if i < a.len() {
        lemma_lt_irreflexive_from(a, i + 1);
    }
}

proof fn lemma_lt_transitive_from(a: Seq<char>, b: Seq<char>, c: Seq<char>, i: int)
    requires
        lex_lt_from(a, b, i),
        lex_lt_from(b, c, i),
    ensures
        lex_lt_from(a, c, i),
    decreases a.len() - i,
{
    if i < a.len() && i < b.len() && i < c.len() && a[i] == b[i] && b[i] == c[i] {
        lemma_lt_transitive_from(a, b, c, i + 1);
    }
}

proof fn lemma_lt_connected_from(a: Seq<char>, b: Seq<char>, i: int)
    requires
        0 <= i <= a.len(),
        i <= b.len(),
    ensures
        lex_lt_from(a, b, i) || lex_lt_from(b, a, i) || (a.len() == b.len() && forall|k: int|
            i <= k < a.len() ==> a[k] == b[k]),
    decreases a.len() - i,
{
    if i < a.len() && i < b.len() {
        if a[i] == b[i] {
            lemma_lt_connected_from(a, b, i + 1);
        } else {
            lemma_char_u32_injective(a[i], b[i]);
        }
    }
}

proof fn lemma_lt_asymmetric_from(a: Seq<char>, b: Seq<char>, i: int)
    requires
        lex_lt_from(a, b, i),
    ensures
        !lex_lt_from(b, a, i),
    decreases a.len() - i,
{
    if lex_lt_from(b, a, i) {
        lemma_lt_transitive_from(a, b, a, i);
        lemma_lt_irreflexive_from(a, i);
    }
}

/// Of two different sequences one comes strictly first.
pub proof fn lemma_seq_lt_trichotomy(a: Seq<char>, b: Seq<char>)
    ensures
        a == b || seq_lt(a, b) || seq_lt(b, a),
        !(seq_lt(a, b) && seq_lt(b, a)),
        !seq_lt(a, a),
{
    lemma_lt_connected_from(a, b, 0);
    if !seq_lt(a, b) && !seq_lt(b, a) {
        assert(a =~= b);
    }
    if seq_lt(a, b) {
        lemma_lt_asymmetric_from(a, b, 0);
    }
    lemma_lt_irreflexive_from(a, 0);
}

/// The strict lexicographic order is transitive.
pub proof fn lemma_seq_lt_transitive(a: Seq<char>, b: Seq<char>, c: Seq<char>)
    requires
        seq_lt(a, b),
        seq_lt(b, c),
    ensures
        seq_lt(a, c),
{
    lemma_lt_transitive_from(a, b, c, 0);
}

/// The lexicographic order is a total order.
pub proof fn lemma_seq_le_total_ordering()
    ensures
        total_ordering(seq_le_rel()),
{
    let r = seq_le_rel();
    assert forall|x: Seq<char>| #[trigger] r(x, x) by {}
    assert forall|x: Seq<char>, y: Seq<char>| #[trigger] r(x, y) && #[trigger] r(y, x) implies x == y by {
        lemma_seq_lt_trichotomy(x, y);
    }
    assert forall|x: Seq<char>, y: Seq<char>, z: Seq<char>| #[trigger] r(x, y) && #[trigger] r(y, z) implies r(x, z) by {
        if x != y && y != z {
            lemma_seq_lt_transitive(x, y, z);
        }
    }
    assert forall|x: Seq<char>, y: Seq<char>| #[trigger] r(x, y) || #[trigger] r(y, x) by {
        lemma_seq_lt_trichotomy(x, y);
    }
}

/// Compares two character sequences lexicographically: -1 when `a` comes
/// first, 0 when they are equal, 1 when `b` comes first.
pub fn compare_chars(a: &Vec<char>, b: &Vec<char>) -> (res: i8)
    ensures
        res == -1 || res == 0 || res == 1,
        res == -1 <==> seq_lt(a@, b@),
        res == 0 <==> a@ == b@,
        res == 1 <==> seq_lt(b@, a@),
{
    proof {
        lemma_seq_lt_trichotomy(a@, b@);
    }
    let mut i: usize = 0;
    while i < a.len() && i < b.len()
        invariant
            i <= a.len(),
            i <= b.len(),
            forall|k: int| 0 <= k < i ==> a@[k] == b@[k],
            seq_lt(a@, b@) == lex_lt_from(a@, b@, i as int),
            seq_lt(b@, a@) == lex_lt_from(b@, a@, i as int),
        decreases a.len() - i,
    {
        let x = a[i];
        let y = b[i];
        if x != y {
            proof {
                lemma_char_u32_injective(x, y);
            }
            if (x as u32) < (y as u32) {
                return -1;
            } else {
                return 1;
            }
        }
        i = i + 1;
    }
    if i < b.len() {
        -1
    } else if i < a.len() {
        1
    } else {
        assert(a@ =~= b@);
        0
    }
}

/// Sorts strings in ascending order by code point, as `Vec<String>::sort`
/// does.
pub fn sort_strings(v: Vec<String>) -> (res: Vec<String>)
    ensures
        views(res@) == sorted_names(views(v@)),
{
    let ghost input = views(v@);
    let mut out: Vec<String> = Vec::new();
    let mut keys: Vec<Vec<char>> = Vec::new();
    let mut rest = v;
    while rest.len() > 0
        invariant
            keys.len() == out.len(),
            forall|k: int| 0 <= k < out.len() ==> (#[trigger] keys@[k])@ == out@[k]@,
            sorted_by(views(out@), seq_le_rel()),
            views(out@).to_multiset().add(views(rest@).to_multiset()) == input.to_multiset(),
        decreases rest.len(),
    {
        let ghost before_rest = rest@;
        let item = rest.pop().unwrap();
        proof {
            assert(before_rest == rest@.push(item));
            assert(views(before_rest) =~= views(rest@).push(item@));
        }
        let key = chars_of(item.as_str());
        // find the first position whose key is strictly greater
        let mut j: usize = 0;
        while j < out.len()
            invariant
                j <= out.len(),
                keys.len() == out.len(),
                key@ == item@,
                forall|k: int| 0 <= k < out.len() ==> (#[trigger] keys@[k])@ == out@[k]@,
                forall|k: int| 0 <= k < j ==> seq_le(out@[k]@, item@),
            ensures
                j <= out.len(),
                forall|k: int| 0 <= k < j ==> seq_le(out@[k]@, item@),
                j < out.len() ==> seq_lt(key@, keys@[j as int]@),
            decreases out.len() - j,
        {
            if compare_chars(&key, &keys[j]) == -1 {
                break;
            }
            j = j + 1;
        }
        proof {
            if j < out.len() {
                assert(seq_lt(key@, keys@[j as int]@));
            }
        }
        proof {
            lemma_seq_le_total_ordering();
            // everything from j on is strictly greater than item
            assert forall|k: int| j <= k < out.len() implies seq_lt(item@, #[trigger] out@[k]@) by {
                if j < out.len() {
                    assert(seq_lt(item@, out@[j as int]@));
                    if k > j {
                        assert(seq_le_rel()(views(out@)[j as int], views(out@)[k]));
                        if out@[j as int]@ != out@[k]@ {
                            lemma_seq_lt_transitive(item@, out@[j as int]@, out@[k]@);
                        }
                    }
                }
            }
        }
        let ghost old_out = views(out@);
        let ghost old_keys = keys@;
        out.insert(j, item);
        keys.insert(j, key);
        proof {
            assert(views(out@) =~= old_out.insert(j as int, item@));
            let s = views(out@);
            assert forall|a: int, b: int| 0 <= a < b < s.len() implies #[trigger] seq_le_rel()(s[a], s[b]) by {
                if a < j && b < j {
                    assert(seq_le_rel()(old_out[a], old_out[b]));
                } else if a < j && b == j {
                } else if a < j && b > j {
                    assert(seq_le(old_out[a], item@));
                    assert(seq_lt(item@, old_out[b - 1]));
                    if old_out[a] != item@ {
                        lemma_seq_lt_transitive(old_out[a], item@, old_out[b - 1]);
                    }
                } else if a == j {
                    assert(seq_lt(item@, old_out[b - 1]));
                } else {
                    assert(seq_le_rel()(old_out[a - 1], old_out[b - 1]));
                }
            }
            assert forall|k: int| 0 <= k < out.len() implies (#[trigger] keys@[k])@ == out@[k]@ by {
                if k < j {
                } else if k == j {
                } else {
                    assert(keys@[k] == old_keys[k - 1]);
                }
            }
        }
    }
    proof {
        assert(views(rest@) =~= Seq::<Seq<char>>::empty());
        assert(views(rest@).to_multiset() =~= Multiset::empty()) by {
            broadcast use vstd::multiset::group_multiset_axioms;
            assert(views(rest@).to_multiset().len() == 0);
        }
        assert(views(out@).to_multiset() =~= input.to_multiset()) by {
            broadcast use vstd::multiset::group_multiset_axioms;
        }
        lemma_seq_le_total_ordering();
        input.lemma_sort_by_ensures(seq_le_rel());
        vstd::seq_lib::lemma_sorted_unique(views(out@), input.sort_by(seq_le_rel()), seq_le_rel());
    }
    out
}

} // verus!
