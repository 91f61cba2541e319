//! String comparison utilities and the lexicographic order used for
//! deterministic topic-name listings.

use vstd::multiset::Multiset;
use vstd::prelude::*;
use vstd::relations::{sorted_by, total_ordering};

verus! {

/// Lexicographic (code-point) order on character sequences: `a <= b`.
pub open spec fn char_seq_le(a: Seq<char>, b: Seq<char>) -> bool
    decreases a.len(),
{
    if a.len() == 0 {
        true
    } else if b.len() == 0 {
        false
    } else if a[0] != b[0] {
        (a[0] as u32) < (b[0] as u32)
    } else {
        char_seq_le(a.drop_first(), b.drop_first())
    }
}

/// The lexicographic order packaged as a relation value.
pub open spec fn char_seq_leq() -> spec_fn(Seq<char>, Seq<char>) -> bool {
    |a: Seq<char>, b: Seq<char>| char_seq_le(a, b)
}

/// The views of a sequence of strings, as character sequences.
pub open spec fn views_of(v: Seq<String>) -> Seq<Seq<char>> {
    v.map_values(|s: String| s@)
}

/// Distinct characters have distinct code points.
proof fn lemma_char_cast_injective(x: char, y: char)
    requires
        x != y,
    ensures
        x as u32 != y as u32,
{
    if x as u32 == y as u32 {
        vstd::utf8::char_u32_cast(x, x as u32);
        vstd::utf8::char_u32_cast(y, y as u32);
    }
}

/// The lexicographic order relates every pair of character sequences,
/// and relates a pair both ways only when the two are equal.
pub proof fn lemma_char_seq_le_connected(a: Seq<char>, b: Seq<char>)
    ensures
        char_seq_le(a, b) || char_seq_le(b, a),
        char_seq_le(a, b) && char_seq_le(b, a) ==> a == b,
    decreases a.len(),
{
    if a.len() == 0 {
        if b.len() == 0 {
            assert(a =~= b);
        }
    } else if b.len() == 0 {
    } else if a[0] != b[0] {
        lemma_char_cast_injective(a[0], b[0]);
    } else {
        lemma_char_seq_le_connected(a.drop_first(), b.drop_first());
        if char_seq_le(a, b) && char_seq_le(b, a) {
            assert(a.drop_first() =~= b.drop_first());
            assert forall|i: int| 0 <= i < a.len() implies a[i] == b[i] by {
                if i > 0 {
                    assert(a[i] == a.drop_first()[i - 1]);
                    assert(b[i] == b.drop_first()[i - 1]);
                }
            }
            assert(a =~= b);
        }
    }
}

/// The lexicographic order is transitive.
pub proof fn lemma_char_seq_le_transitive(a: Seq<char>, b: Seq<char>, c: Seq<char>)
    requires
        char_seq_le(a, b),
        char_seq_le(b, c),
    ensures
        char_seq_le(a, c),
    decreases a.len(),
{
    if a.len() == 0 {
    } else if b.len() == 0 {
    } else if c.len() == 0 {
    } else if a[0] == b[0] && b[0] == c[0] {
        lemma_char_seq_le_transitive(a.drop_first(), b.drop_first(), c.drop_first());
    } else {
        if a[0] != b[0] {
            lemma_char_cast_injective(a[0], b[0]);
        }
        if b[0] != c[0] {
            lemma_char_cast_injective(b[0], c[0]);
        }
        assert(a[0] as u32 <= b[0] as u32 && b[0] as u32 <= c[0] as u32);
        if a[0] != c[0] {
            lemma_char_cast_injective(a[0], c[0]);
        }
    }
}

/// The lexicographic order is a total ordering, as [`vstd::relations`]
/// understands one: reflexive, antisymmetric, transitive and connected.
pub proof fn lemma_char_seq_le_total_ordering()
    ensures
        total_ordering(char_seq_leq()),
{
    let leq = char_seq_leq();
    assert forall|a: Seq<char>| #[trigger] leq(a, a) by {
        lemma_char_seq_le_connected(a, a);
    }
    assert forall|a: Seq<char>, b: Seq<char>| #[trigger] leq(a, b) && #[trigger] leq(b, a)
        implies a == b by {
        lemma_char_seq_le_connected(a, b);
    }
    assert forall|a: Seq<char>, b: Seq<char>, c: Seq<char>|
        #[trigger] leq(a, b) && #[trigger] leq(b, c) implies leq(a, c) by {
        lemma_char_seq_le_transitive(a, b, c);
    }
    assert forall|a: Seq<char>, b: Seq<char>| #[trigger] leq(a, b) || #[trigger] leq(b, a) by {
        lemma_char_seq_le_connected(a, b);
    }
}

/// Dropping an equal prefix does not change how two character sequences
/// compare.
pub proof fn lemma_char_seq_le_skip(a: Seq<char>, b: Seq<char>, i: int)
    requires
        0 <= i <= a.len(),
        0 <= i <= b.len(),
        forall|j: int| 0 <= j < i ==> a[j] == b[j],
    ensures
        char_seq_le(a, b) == char_seq_le(a.skip(i), b.skip(i)),
    decreases i,
{
    if i > 0 {
        assert(a.len() > 0 && b.len() > 0 && a[0] == b[0]);
        assert(char_seq_le(a, b) == char_seq_le(a.drop_first(), b.drop_first()));
        assert forall|j: int| 0 <= j < i - 1 implies a.drop_first()[j] == b.drop_first()[j] by {
            assert(a.drop_first()[j] == a[j + 1]);
            assert(b.drop_first()[j] == b[j + 1]);
        }
        lemma_char_seq_le_skip(a.drop_first(), b.drop_first(), i - 1);
        assert(a.drop_first().skip(i - 1) =~= a.skip(i));
        assert(b.drop_first().skip(i - 1) =~= b.skip(i));
    } else {
        assert(a.skip(0) =~= a);
        assert(b.skip(0) =~= b);
    }
}

/// Mapping to views commutes with appending one string.
proof fn lemma_views_push(v: Seq<String>, x: String)
    ensures
        views_of(v.push(x)) =~= views_of(v).push(x@),
{
}

/// Mapping to views commutes with removing one string.
proof fn lemma_views_remove(v: Seq<String>, i: int)
    requires
        0 <= i < v.len(),
    ensures
        views_of(v.remove(i)) =~= views_of(v).remove(i),
{
    v.remove_ensures(i);
    views_of(v).remove_ensures(i);
}

/// Moving one occurrence of `x` from one bag to another leaves their
/// union unchanged.
proof fn lemma_multiset_transfer(
    a: Multiset<Seq<char>>,
    b: Multiset<Seq<char>>,
    x: Seq<char>,
)
    requires
        b.count(x) >= 1,
    ensures
        a.insert(x).add(b.remove(x)) =~= a.add(b),
{
    broadcast use vstd::multiset::group_multiset_axioms;
}

/// Sort strings into ascending lexicographic order; the result holds
/// exactly the input strings.
pub fn sort_strings(names: Vec<String>) -> (r: Vec<String>)
    ensures
        sorted_by(views_of(r@), char_seq_leq()),
        views_of(r@).to_multiset() == views_of(names@).to_multiset(),
{
    broadcast use vstd::seq_lib::group_to_multiset_ensures;

    let ghost orig: Seq<Seq<char>> = views_of(names@);
    let mut rest = names;
    let mut out: Vec<String> = Vec::new();
    proof {
        assert(views_of(out@) =~= Seq::<Seq<char>>::empty());
        assert(views_of(out@).to_multiset().add(views_of(rest@).to_multiset()) =~= orig.to_multiset());
    }
    while rest.len() > 0
        invariant
            forall|i: int, j: int|
                0 <= i < j < out@.len() ==> char_seq_le(
                    #[trigger] out@[i]@,
                    #[trigger] out@[j]@,
                ),
            forall|i: int, j: int|
                0 <= i < out@.len() && 0 <= j < rest@.len() ==> char_seq_le(
                    #[trigger] out@[i]@,
                    #[trigger] rest@[j]@,
                ),
            views_of(out@).to_multiset().add(views_of(rest@).to_multiset()) == orig.to_multiset(),
        decreases rest@.len(),
    {
        let mut m: usize = 0;
        let mut k: usize = 1;
        proof {
            lemma_char_seq_le_connected(rest@[0]@, rest@[0]@);
        }
        while k < rest.len()
            invariant
                0 < rest@.len(),
                0 <= m < k,
                k <= rest@.len(),
                forall|j: int| 0 <= j < k ==> char_seq_le(rest@[m as int]@, #[trigger] rest@[j]@),
            decreases rest@.len() - k,
        {
            if str_le(&rest[k], &rest[m]) {
                proof {
                    assert forall|j: int| 0 <= j < k + 1 implies char_seq_le(
                        rest@[k as int]@,
                        #[trigger] rest@[j]@,
                    ) by {
                        if j < k {
                            lemma_char_seq_le_transitive(
                                rest@[k as int]@,
                                rest@[m as int]@,
                                rest@[j]@,
                            );
                        } else {
                            lemma_char_seq_le_connected(rest@[k as int]@, rest@[k as int]@);
                        }
                    }
                }
                m = k;
            } else {
                proof {
                    lemma_char_seq_le_connected(rest@[k as int]@, rest@[m as int]@);
                }
            }
            k = k + 1;
        }
        let ghost out_pre: Seq<String> = out@;
        let ghost rest_pre: Seq<String> = rest@;
        let x = rest.remove(m);
        out.push(x);
        proof {
            assert(rest@ == rest_pre.remove(m as int));
            rest_pre.remove_ensures(m as int);
            lemma_views_remove(rest_pre, m as int);
            lemma_views_push(out_pre, rest_pre[m as int]);
            assert(views_of(rest_pre)[m as int] == rest_pre[m as int]@);
            assert(views_of(rest_pre).contains(rest_pre[m as int]@));
            views_of(rest_pre).to_multiset_ensures();
            assert(views_of(rest_pre).to_multiset().count(rest_pre[m as int]@) >= 1);
            lemma_multiset_transfer(
                views_of(out_pre).to_multiset(),
                views_of(rest_pre).to_multiset(),
                rest_pre[m as int]@,
            );
            views_of(out_pre).to_multiset_ensures();
            assert(views_of(out@) == views_of(out_pre).push(rest_pre[m as int]@));
            assert(views_of(out@).to_multiset() =~= views_of(out_pre).to_multiset().insert(
                rest_pre[m as int]@,
            ));
            assert(views_of(rest@).to_multiset() =~= views_of(rest_pre).to_multiset().remove(
                rest_pre[m as int]@,
            ));
            assert(views_of(out@).to_multiset().add(views_of(rest@).to_multiset())
                =~= orig.to_multiset());
        }
    }
    proof {
        assert(views_of(rest@).to_multiset() =~= Multiset::<Seq<char>>::empty());
        assert(views_of(out@).to_multiset() =~= orig.to_multiset());
        assert(sorted_by(views_of(out@), char_seq_leq()));
    }
    out
}

/// The character sequences joined with a comma between neighbours.
pub open spec fn spec_join_comma(items: Seq<Seq<char>>) -> Seq<char>
    decreases items.len(),
{
    if items.len() == 0 {
        Seq::empty()
    } else if items.len() == 1 {
        items[0]
    } else {
        items[0] + seq![','] + spec_join_comma(items.drop_first())
    }
}

/// Joining one more item appends a comma and the item.
proof fn lemma_join_comma_push(items: Seq<Seq<char>>, x: Seq<char>)
    ensures
        items.len() == 0 ==> spec_join_comma(items.push(x)) == x,
        items.len() > 0 ==> spec_join_comma(items.push(x)) == spec_join_comma(items)
            + seq![','] + x,
    decreases items.len(),
{
    if items.len() == 0 {
        assert(items.push(x)[0] == x);
        assert(spec_join_comma(items.push(x)) == x);
    } else if items.len() == 1 {
        let joined = items.push(x);
        assert(joined.len() == 2);
        assert(joined[0] == items[0]);
        assert(joined.drop_first() =~= seq![x]);
        assert(spec_join_comma(seq![x]) == x);
    } else {
        lemma_join_comma_push(items.drop_first(), x);
        let joined = items.push(x);
        assert(joined[0] == items[0]);
        assert(joined.drop_first() =~= items.drop_first().push(x));
        assert(spec_join_comma(joined) == items[0] + seq![','] + (spec_join_comma(
            items.drop_first(),
        ) + seq![','] + x));
        assert(items[0] + seq![','] + (spec_join_comma(items.drop_first()) + seq![','] + x)
            =~= (items[0] + seq![','] + spec_join_comma(items.drop_first())) + seq![','] + x);
    }
}

/// Join strings with a comma between neighbours.
pub fn join_comma(items: &Vec<String>) -> (r: String)
    ensures
        r@ == spec_join_comma(views_of(items@)),
{
    let mut acc = String::new();
    let mut i: usize = 0;
    proof {
        assert(views_of(items@).take(0) =~= Seq::<Seq<char>>::empty());
    }
    while i < items.len()
        invariant
            0 <= i <= items@.len(),
            acc@ == spec_join_comma(views_of(items@).take(i as int)),
        decreases items@.len() - i,
    {
        if i > 0 {
            acc.append(",");
        }
        acc.append(items[i].as_str());
        proof {
            let all = views_of(items@);
            reveal_strlit(",");
            assert(","@ =~= seq![',']);
            lemma_join_comma_push(all.take(i as int), items@[i as int]@);
            assert(all.take(i + 1) =~= all.take(i as int).push(items@[i as int]@));
            if i == 0 {
                assert(acc@ =~= items@[i as int]@);
            }
        }
        i = i + 1;
    }
    proof {
        assert(views_of(items@).take(items@.len() as int) =~= views_of(items@));
    }
    acc
}

/// Whether two string slices hold the same characters.
pub fn str_eq(a: &str, b: &str) -> (r: bool)
    ensures
        r == (a@ == b@),
{
    let a_len: usize = a.unicode_len();
    let b_len: usize = b.unicode_len();
    if a_len != b_len {
        return false;
    }
    let mut i: usize = 0;
    while i < a_len
        invariant
            a_len == a@.len(),
            b_len == b@.len(),
            a_len == b_len,
            0 <= i <= a_len,
            forall|j: int| 0 <= j < i ==> a@[j] == b@[j],
        decreases a_len - i,
    {
        if a.get_char(i) != b.get_char(i) {
            assert(a@[i as int] != b@[i as int]);
            return false;
        }
        i = i + 1;
    }
    proof {
        assert(a@ =~= b@);
    }
    true
}

/// Whether `a` precedes or equals `b` in lexicographic order.
pub fn str_le(a: &str, b: &str) -> (r: bool)
    ensures
        r == char_seq_le(a@, b@),
{
    let a_len: usize = a.unicode_len();
    let b_len: usize = b.unicode_len();
    let mut i: usize = 0;
    loop
        invariant
            a_len == a@.len(),
            b_len == b@.len(),
            0 <= i <= a_len,
            0 <= i <= b_len,
            forall|j: int| 0 <= j < i ==> a@[j] == b@[j],
        decreases a_len - i,
    {
        proof {
            lemma_char_seq_le_skip(a@, b@, i as int);
        }
        if i == a_len {
            assert(a@.skip(i as int).len() == 0);
            return true;
        }
        if i == b_len {
            assert(b@.skip(i as int).len() == 0);
            assert(a@.skip(i as int).len() > 0);
            return false;
        }
        let ca = a.get_char(i);
        let cb = b.get_char(i);
        if ca != cb {
            assert(a@.skip(i as int)[0] == a@[i as int]);
            assert(b@.skip(i as int)[0] == b@[i as int]);
            return (ca as u32) < (cb as u32);
        }
        i = i + 1;
    }
}

} // verus!
