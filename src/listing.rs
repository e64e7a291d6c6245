use vstd::prelude::*;
use vstd::string::StrSliceExecFns;

verus! {

/// The order in which a listing is sorted by name.
#[derive(Clone, Copy, Debug, PartialEq, Eq)]
pub enum Order {
    Ascending,
    Descending,
}

/// How many rows a listing returns when no limit is given.
pub const DEFAULT_LIMIT: usize = 10;

/// `a` sorts before `b`: the first character where they differ is smaller in `a`, or
/// `a` is a proper prefix of `b`. This is the order of Rust strings.
pub open spec fn name_lt(a: Seq<char>, b: Seq<char>) -> bool
    decreases a.len(),
{
    if b.len() == 0 {
        false
    } else if a.len() == 0 {
        true
    } else if a[0] != b[0] {
        a[0] < b[0]
    } else {
        name_lt(a.drop_first(), b.drop_first())
    }
}

proof fn lemma_lt_trans(a: Seq<char>, b: Seq<char>, c: Seq<char>)
    requires
        name_lt(a, b),
        name_lt(b, c),
    ensures
        name_lt(a, c),
    decreases a.len(),
{
    if a.len() > 0 && a[0] == b[0] && b[0] == c[0] {
        lemma_lt_trans(a.drop_first(), b.drop_first(), c.drop_first());
    }
}

proof fn lemma_lt_total(a: Seq<char>, b: Seq<char>)
    ensures
        a == b || name_lt(a, b) || name_lt(b, a),
    decreases a.len(),
{
    if a.len() > 0 && b.len() > 0 && a[0] == b[0] {
        lemma_lt_total(a.drop_first(), b.drop_first());
        if a.drop_first() == b.drop_first() {
            assert(a =~= seq![a[0]] + a.drop_first());
            assert(b =~= seq![b[0]] + b.drop_first());
        }
    } else if a.len() == 0 && b.len() == 0 {
        assert(a =~= b);
    }
}

proof fn lemma_lt_irreflexive(a: Seq<char>)
    ensures
        !name_lt(a, a),
    decreases a.len(),
{
    if a.len() > 0 {
        lemma_lt_irreflexive(a.drop_first());
    }
}

/// The text of each string of `s`.
pub open spec fn texts(s: Seq<String>) -> Seq<Seq<char>> {
    s.map_values(|x: String| x@)
}

/// Index `i` holds the least name of `s`, and no earlier name equals it.
pub open spec fn is_first_least(s: Seq<Seq<char>>, i: int) -> bool {
    &&& 0 <= i < s.len()
    &&& forall|j: int| 0 <= j < s.len() ==> !name_lt(#[trigger] s[j], s[i])
    &&& forall|j: int| 0 <= j < i ==> name_lt(s[i], #[trigger] s[j])
}

/// The names of `s` from the least to the greatest.
pub open spec fn ascending(s: Seq<Seq<char>>) -> Seq<Seq<char>>
    decreases s.len(),
{
    if exists|i: int| is_first_least(s, i) {
        let i = choose|i: int| is_first_least(s, i);
        seq![s[i]] + ascending(s.remove(i))
    } else {
        Seq::empty()
    }
}

/// The rows of a page: `limit` rows from `offset` on, counted from the front of `s` in
/// ascending order and from its back in descending order.
pub open spec fn page<T>(s: Seq<T>, order: Order, offset: nat, limit: nat) -> Seq<T> {
    let count = if offset >= s.len() {
        0
    } else if offset + limit > s.len() {
        s.len() - offset
    } else {
        limit as int
    };
    Seq::new(
        count as nat,
        |k: int|
            match order {
                Order::Ascending => s[offset + k],
                Order::Descending => s[s.len() - 1 - offset - k],
            },
    )
}

/// A page of the rows of `s` sorted by name, in `order`, from `offset`, at most `limit`.
pub open spec fn sorted_page(s: Seq<Seq<char>>, order: Option<Order>, offset: Option<usize>, limit: Option<usize>) -> Seq<Seq<char>> {
    page(
        ascending(s),
        match order {
            Some(o) => o,
            None => Order::Ascending,
        },
        match offset {
            Some(o) => o as nat,
            None => 0,
        },
        match limit {
            Some(l) => l as nat,
            None => DEFAULT_LIMIT as nat,
        },
    )
}

proof fn lemma_first_least_unique(s: Seq<Seq<char>>, i: int, k: int)
    requires
        is_first_least(s, i),
        is_first_least(s, k),
    ensures
        i == k,
{
    if i < k {
        assert(name_lt(s[k], s[i]));
    } else if k < i {
        assert(name_lt(s[i], s[k]));
    }
}

/// Every name of `ascending(s)` is a name of `s`.
pub proof fn lemma_ascending_names(s: Seq<Seq<char>>)
    ensures
        forall|k: int| 0 <= k < ascending(s).len() ==> s.contains(#[trigger] ascending(s)[k]),
    decreases s.len(),
{
    if exists|i: int| is_first_least(s, i) {
        let i = choose|i: int| is_first_least(s, i);
        let rest = s.remove(i);
        s.remove_ensures(i);
        lemma_ascending_names(rest);
        assert forall|k: int| 0 <= k < ascending(s).len() implies s.contains(#[trigger] ascending(s)[k]) by {
            if k > 0 {
                let m = choose|m: int| 0 <= m < rest.len() && rest[m] == ascending(rest)[k - 1];
                if m < i {
                    assert(s[m] == rest[m]);
                } else {
                    assert(s[m + 1] == rest[m]);
                }
            }
        }
    }
}

/// Whether `a` sorts before `b`.
pub fn name_less(a: &String, b: &String) -> (r: bool)
    ensures
        r == name_lt(a@, b@),
{
    let a_len = a.as_str().unicode_len();
    let b_len = b.as_str().unicode_len();
    let mut i: usize = 0;
    assert(a@.skip(0) =~= a@);
    assert(b@.skip(0) =~= b@);
    while i < a_len && i < b_len
        invariant
            a_len == a@.len(),
            b_len == b@.len(),
            0 <= i <= a_len,
            i <= b_len,
            name_lt(a@, b@) == name_lt(a@.skip(i as int), b@.skip(i as int)),
        decreases a_len - i,
    {
        let x = a.as_str().get_char(i);
        let y = b.as_str().get_char(i);
        if x != y {
            assert(a@.skip(i as int)[0] == x && b@.skip(i as int)[0] == y);
            return x < y;
        }
        assert(a@.skip(i as int).drop_first() =~= a@.skip(i + 1));
        assert(b@.skip(i as int).drop_first() =~= b@.skip(i + 1));
        i = i + 1;
    }
    i < b_len
}

/// The index of the least name of `v`, the first one if it occurs twice.
fn first_least_index(v: &Vec<String>) -> (r: usize)
    requires
        v@.len() > 0,
    ensures
        is_first_least(texts(v@), r as int),
{
    let ghost s = texts(v@);
    let mut best: usize = 0;
    let mut k: usize = 1;
    proof {
        lemma_lt_irreflexive(s[0]);
    }
    while k < v.len()
        invariant
            s == texts(v@),
            0 <= best < k <= v@.len(),
            forall|j: int| 0 <= j < k ==> !name_lt(#[trigger] s[j], s[best as int]),
            forall|j: int| 0 <= j < best ==> name_lt(s[best as int], #[trigger] s[j]),
        decreases v@.len() - k,
    {
        if name_less(&v[k], &v[best]) {
            proof {
                let b = best as int;
                let kk = k as int;
                assert forall|j: int| 0 <= j < kk + 1 implies !name_lt(#[trigger] s[j], s[kk]) by {
                    if j == kk {
                        lemma_lt_irreflexive(s[kk]);
                    } else if name_lt(s[j], s[kk]) {
                        lemma_lt_trans(s[j], s[kk], s[b]);
                    }
                }
                assert forall|j: int| 0 <= j < kk implies name_lt(s[kk], #[trigger] s[j]) by {
                    if j < b {
                        lemma_lt_trans(s[kk], s[b], s[j]);
                    } else if j > b {
                        lemma_lt_total(s[j], s[b]);
                        if name_lt(s[b], s[j]) {
                            lemma_lt_trans(s[kk], s[b], s[j]);
                        }
                    }
                }
            }
            best = k;
        }
        k = k + 1;
    }
    best
}

/// The names of `names` sorted from the least to the greatest.
pub fn sort_names(names: Vec<String>) -> (r: Vec<String>)
    ensures
        texts(r@) == ascending(texts(names@)),
{
    let ghost all = texts(names@);
    let mut rest = names;
    let mut out: Vec<String> = Vec::new();
    assert(texts(out@) + ascending(texts(rest@)) =~= ascending(all));
    while rest.len() > 0
        invariant
            texts(out@) + ascending(texts(rest@)) == ascending(all),
        decreases rest@.len(),
    {
        let i = first_least_index(&rest);
        let ghost s = texts(rest@);
        proof {
            let c = choose|c: int| is_first_least(s, c);
            lemma_first_least_unique(s, i as int, c);
        }
        let x = rest.remove(i);
        proof {
            assert(texts(rest@) =~= s.remove(i as int));
        }
        out.push(x);
        proof {
            assert(texts(out@) =~= texts(out@).drop_last().push(x@));
            assert(ascending(s) == seq![s[i as int]] + ascending(s.remove(i as int)));
            assert(texts(out@) + ascending(texts(rest@)) =~= texts(out@).drop_last() + ascending(s));
        }
    }
    proof {
        assert(!exists|i: int| is_first_least(texts(rest@), i));
        assert(texts(out@) + ascending(texts(rest@)) =~= texts(out@));
    }
    out
}

/// A page of the names of `names` sorted by name.
pub fn sorted_page_of(names: Vec<String>, order: Option<Order>, offset: Option<usize>, limit: Option<usize>) -> (r: Vec<String>)
    ensures
        texts(r@) == sorted_page(texts(names@), order, offset, limit),
{
    let order = match order {
        Some(o) => o,
        None => Order::Ascending,
    };
    let offset = match offset {
        Some(o) => o,
        None => 0,
    };
    let limit = match limit {
        Some(l) => l,
        None => DEFAULT_LIMIT,
    };
    let sorted = sort_names(names);
    let ghost s = texts(sorted@);
    let n = sorted.len();
    let count: usize = if offset >= n {
        0
    } else if limit > n - offset {
        n - offset
    } else {
        limit
    };
    let mut out: Vec<String> = Vec::new();
    let mut k: usize = 0;
    proof {
        assert(page(s, order, offset as nat, limit as nat).len() == count);
    }
    while k < count
        invariant
            s == texts(sorted@),
            n == sorted@.len(),
            count <= n,
            count > 0 ==> offset + count <= n,
            0 <= k <= count,
            page(s, order, offset as nat, limit as nat).len() == count,
            texts(out@) =~= page(s, order, offset as nat, limit as nat).subrange(0, k as int),
        decreases count - k,
    {
        let index = match order {
            Order::Ascending => offset + k,
            Order::Descending => n - 1 - offset - k,
        };
        let ghost before = texts(out@);
        out.push(sorted[index].clone());
        proof {
            let p = page(s, order, offset as nat, limit as nat);
            assert(p.len() == count);
            assert(p[k as int] == s[index as int]);
            assert(texts(out@) =~= before.push(s[index as int]));
            assert(p.subrange(0, k + 1) =~= p.subrange(0, k as int).push(p[k as int]));
        }
        k = k + 1;
    }
    proof {
        assert(page(s, order, offset as nat, limit as nat).subrange(0, count as int) =~= page(s, order, offset as nat, limit as nat));
    }
    out
}

/// Every name of a sorted page of `s` is a name of `s`.
pub proof fn lemma_sorted_page_names(s: Seq<Seq<char>>, order: Option<Order>, offset: Option<usize>, limit: Option<usize>)
    ensures
        forall|k: int| 0 <= k < sorted_page(s, order, offset, limit).len() ==> s.contains(
            #[trigger] sorted_page(s, order, offset, limit)[k],
        ),
{
    lemma_ascending_names(s);
    let a = ascending(s);
    let p = sorted_page(s, order, offset, limit);
    assert forall|k: int| 0 <= k < p.len() implies s.contains(#[trigger] p[k]) by {
        let o = match order {
            Some(o) => o,
            None => Order::Ascending,
        };
        let start: int = match offset {
            Some(v) => v as int,
            None => 0,
        };
        let index = match o {
            Order::Ascending => start + k,
            Order::Descending => a.len() - 1 - start - k,
        };
        assert(p[k] == a[index]);
    }
}


} // verus!
