use vstd::prelude::*;

verus! {

/// Whether `a` comes before `b` in dictionary order of their characters (the
/// order of their UTF-8 bytes).
pub open spec fn chars_less(a: Seq<char>, b: Seq<char>) -> bool
    decreases a.len(),
{
    if a.len() == 0 {
        b.len() > 0
    } else if b.len() == 0 {
        false
    } else if a[0] != b[0] {
        a[0] < b[0]
    } else {
        chars_less(a.drop_first(), b.drop_first())
    }
}

/// The order of completions: by text, then by kind.
pub open spec fn completion_less(a: (Seq<char>, u32), b: (Seq<char>, u32)) -> bool {
    chars_less(a.0, b.0) || (a.0 == b.0 && a.1 < b.1)
}

/// Each completion comes before every later one.
pub open spec fn strictly_sorted(s: Seq<(Seq<char>, u32)>) -> bool {
    forall|i: int, j: int| 0 <= i < j < s.len() ==> completion_less(#[trigger] s[i], #[trigger] s[j])
}

pub open spec fn completions_view(v: Seq<(String, u32)>) -> Seq<(Seq<char>, u32)> {
    v.map_values(|c: (String, u32)| (c.0@, c.1))
}

pub proof fn lemma_chars_less_irreflexive(a: Seq<char>)
    ensures
        !chars_less(a, a),
    decreases a.len(),
{
    if a.len() > 0 {
        lemma_chars_less_irreflexive(a.drop_first());
    }
}

pub proof fn lemma_chars_less_trans(a: Seq<char>, b: Seq<char>, c: Seq<char>)
    requires
        chars_less(a, b),
        chars_less(b, c),
    ensures
        chars_less(a, c),
    decreases a.len(),
{
    if a.len() > 0 && b.len() > 0 && c.len() > 0 {
        if a[0] == b[0] && b[0] == c[0] {
            lemma_chars_less_trans(a.drop_first(), b.drop_first(), c.drop_first());
        }
    }
}

pub proof fn lemma_chars_less_total(a: Seq<char>, b: Seq<char>)
    ensures
        a == b || chars_less(a, b) || chars_less(b, a),
    decreases a.len(),
{
    if a.len() > 0 && b.len() > 0 {
        if a[0] == b[0] {
            lemma_chars_less_total(a.drop_first(), b.drop_first());
            if a.drop_first() == b.drop_first() {
                assert(a =~= seq![a[0]] + a.drop_first());
                assert(b =~= seq![b[0]] + b.drop_first());
            }
        }
    } else if a.len() == 0 && b.len() == 0 {
        assert(a =~= b);
    }
}

pub proof fn lemma_completion_less_trans(a: (Seq<char>, u32), b: (Seq<char>, u32), c: (Seq<char>, u32))
    requires
        completion_less(a, b),
        completion_less(b, c),
    ensures
        completion_less(a, c),
{
    if chars_less(a.0, b.0) && chars_less(b.0, c.0) {
        lemma_chars_less_trans(a.0, b.0, c.0);
    }
}

pub proof fn lemma_push_contains<T>(s: Seq<T>, x: T)
    ensures
        forall|c: T| s.push(x).contains(c) <==> (s.contains(c) || c == x),
{
    assert forall|c: T| s.push(x).contains(c) <==> (s.contains(c) || c == x) by {
        if s.push(x).contains(c) {
            let j = choose|j: int| 0 <= j < s.push(x).len() && s.push(x)[j] == c;
            if j < s.len() {
                assert(s[j] == c);
            }
        }
        if s.contains(c) {
            let j = choose|j: int| 0 <= j < s.len() && s[j] == c;
            assert(s.push(x)[j] == c);
        }
        if c == x {
            assert(s.push(x)[s.len() as int] == c);
        }
    }
}

/// Whether `a` comes before `b` in dictionary order.
pub fn str_less(a: &str, b: &str) -> (r: bool)
    ensures
        r == chars_less(a@, b@),
{
    let ca = crate::text::chars_of(a);
    let cb = crate::text::chars_of(b);
    let mut i: usize = 0;
    assert(ca@.skip(0) =~= ca@);
    assert(cb@.skip(0) =~= cb@);
    while i < ca.len() && i < cb.len()
        invariant
            ca@ == a@,
            cb@ == b@,
            0 <= i <= ca.len(),
            i <= cb.len(),
            chars_less(a@, b@) == chars_less(ca@.skip(i as int), cb@.skip(i as int)),
        decreases ca.len() - i,
    {
        if ca[i] != cb[i] {
            proof {
                assert(ca@.skip(i as int)[0] == ca@[i as int]);
                assert(cb@.skip(i as int)[0] == cb@[i as int]);
            }
            return ca[i] < cb[i];
        }
        proof {
            assert(ca@.skip(i as int).drop_first() =~= ca@.skip(i + 1));
            assert(cb@.skip(i as int).drop_first() =~= cb@.skip(i + 1));
        }
        i = i + 1;
    }
    i == ca.len() && i < cb.len()
}

/// Whether completion `a` comes before completion `b`.
pub fn completion_before(a: &(String, u32), b: &(String, u32)) -> (r: bool)
    ensures
        r == completion_less((a.0@, a.1), (b.0@, b.1)),
{
    if str_less(a.0.as_str(), b.0.as_str()) {
        true
    } else {
        crate::token::str_equal(a.0.as_str(), b.0.as_str()) && a.1 < b.1
    }
}

/// What a sequence holds after an insertion: what it held, and the item inserted.
proof fn lemma_insert_contains<T>(s: Seq<T>, k: int, x: T)
    requires
        0 <= k <= s.len(),
    ensures
        forall|c: T| s.insert(k, x).contains(c) <==> (s.contains(c) || c == x),
{
    let n = s.insert(k, x);
    assert forall|c: T| n.contains(c) <==> (s.contains(c) || c == x) by {
        if n.contains(c) {
            let j = choose|j: int| 0 <= j < n.len() && n[j] == c;
            if j < k {
                assert(s[j] == c);
            } else if j > k {
                assert(s[j - 1] == c);
            }
        }
        if s.contains(c) {
            let j = choose|j: int| 0 <= j < s.len() && s[j] == c;
            if j < k {
                assert(n[j] == c);
            } else {
                assert(n[j + 1] == c);
            }
        }
        if c == x {
            assert(n[k] == c);
        }
    }
}

/// The completions of `items`, each once, in order.
pub fn sort_unique(items: Vec<(String, u32)>) -> (r: Vec<(String, u32)>)
    ensures
        strictly_sorted(completions_view(r@)),
        forall|c: (Seq<char>, u32)|
            completions_view(r@).contains(c) <==> completions_view(items@).contains(c),
{
    let ghost input = completions_view(items@);
    let mut result: Vec<(String, u32)> = Vec::new();
    let mut i: usize = 0;
    while i < items.len()
        invariant
            0 <= i <= items.len(),
            input == completions_view(items@),
            strictly_sorted(completions_view(result@)),
            forall|c: (Seq<char>, u32)|
                completions_view(result@).contains(c) <==> input.take(i as int).contains(c),
        decreases items.len() - i,
    {
        let item = &items[i];
        let ghost x = (item.0@, item.1);
        let ghost rv = completions_view(result@);
        let mut k: usize = 0;
        while k < result.len() && completion_before(&result[k], item)
            invariant
                0 <= k <= result.len(),
                rv == completions_view(result@),
                x == (item.0@, item.1),
                forall|j: int| 0 <= j < k ==> completion_less(#[trigger] rv[j], x),
            decreases result.len() - k,
        {
            k = k + 1;
        }
        let duplicate = k < result.len() && !completion_before(item, &result[k]);
        if duplicate {
            proof {
                lemma_chars_less_total(rv[k as int].0, x.0);
                assert(rv[k as int] == x);
                lemma_push_contains(input.take(i as int), x);
                assert(input.take(i + 1) =~= input.take(i as int).push(x));
                assert(rv.contains(x));
            }
        } else {
            let entry = (item.0.clone(), item.1);
            result.insert(k, entry);
            proof {
                let nv = completions_view(result@);
                assert(nv =~= rv.insert(k as int, x));
                assert forall|a: int, b: int| 0 <= a < b < nv.len() implies completion_less(
                    #[trigger] nv[a],
                    #[trigger] nv[b],
                ) by {
                    if b < k {
                    } else if a < k && b == k {
                    } else if a < k && b > k {
                        assert(nv[b] == rv[b - 1]);
                        assert(completion_less(x, rv[b - 1])) by {
                            if k < b - 1 {
                                lemma_completion_less_trans(x, rv[k as int], rv[b - 1]);
                            }
                        }
                        lemma_completion_less_trans(nv[a], x, nv[b]);
                    } else if a == k {
                        assert(nv[b] == rv[b - 1]);
                        if k < b - 1 {
                            lemma_completion_less_trans(x, rv[k as int], rv[b - 1]);
                        }
                    } else {
                        assert(nv[a] == rv[a - 1]);
                        assert(nv[b] == rv[b - 1]);
                    }
                }
                lemma_push_contains(input.take(i as int), x);
                assert(input.take(i + 1) =~= input.take(i as int).push(x));
                lemma_insert_contains(rv, k as int, x);
                assert forall|c: (Seq<char>, u32)|
                    nv.contains(c) <==> input.take(i + 1).contains(c) by {
                    assert(nv.contains(c) <==> rv.insert(k as int, x).contains(c));
                    assert(input.take(i + 1).contains(c) <==> input.take(i as int).push(x).contains(c));
                    assert(rv.contains(c) <==> input.take(i as int).contains(c));
                }
            }
        }
        i = i + 1;
    }
    proof {
        assert(input.take(i as int) =~= input);
    }
    result
}

} // verus!
