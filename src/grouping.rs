//! Greedy seed-based grouping of photos by fingerprint similarity.

use crate::fingerprint::{
    calculate_similarity, lemma_full_similarity_iff_equal, lemma_similarity_bounds, similarity_spec,
};
use crate::text::{decimal_spec, push_decimal};
use vstd::prelude::*;

verus! {

/// Photo `j` is close enough to photo `i`: at least `min_agree` of the 64 bits agree.
pub open spec fn similar(h: Seq<u64>, min_agree: nat, i: nat, j: nat) -> bool {
    similarity_spec(h[i as int], h[j as int]) >= min_agree
}

/// The seed of the group that photo `j` joins: the first seed before `j` that is similar
/// to `j`, or `j` itself when there is none, in which case `j` starts a group.
pub open spec fn captor(h: Seq<u64>, min_agree: nat, j: nat) -> nat
    decreases j, j + 1,
{
    first_similar_seed(h, min_agree, j, 0)
}

/// The first seed in `[i, j)` that is similar to `j`, or `j` when there is none.
pub open spec fn first_similar_seed(h: Seq<u64>, min_agree: nat, j: nat, i: nat) -> nat
    decreases j, j - i,
{
    if i >= j {
        j
    } else if captor(h, min_agree, i) == i && similar(h, min_agree, i, j) {
        i
    } else {
        first_similar_seed(h, min_agree, j, i + 1)
    }
}

/// Photo `j` starts a group of its own.
pub open spec fn is_seed(h: Seq<u64>, min_agree: nat, j: nat) -> bool {
    captor(h, min_agree, j) == j
}

/// The seeds among the first `n` photos, in order.
pub open spec fn seeds_upto(h: Seq<u64>, min_agree: nat, n: nat) -> Seq<nat>
    decreases n,
{
    if n == 0 {
        seq![]
    } else {
        let prev = seeds_upto(h, min_agree, (n - 1) as nat);
        if is_seed(h, min_agree, (n - 1) as nat) {
            prev.push((n - 1) as nat)
        } else {
            prev
        }
    }
}

/// The photos among the first `n` that join the group seeded by `s`, in order.
pub open spec fn members_upto(h: Seq<u64>, min_agree: nat, s: nat, n: nat) -> Seq<nat>
    decreases n,
{
    if n == 0 {
        seq![]
    } else {
        let prev = members_upto(h, min_agree, s, (n - 1) as nat);
        if captor(h, min_agree, (n - 1) as nat) == s {
            prev.push((n - 1) as nat)
        } else {
            prev
        }
    }
}

/// The groups of photo positions: one per seed, in seed order, each listing its members
/// in input order.
pub open spec fn grouping_spec(h: Seq<u64>, min_agree: nat) -> Seq<Seq<nat>> {
    seeds_upto(h, min_agree, h.len()).map_values(
        |s: nat| members_upto(h, min_agree, s, h.len()),
    )
}

/// Confidence in percent: 85 for a group of several photos, 50 for a singleton.
pub open spec fn confidence_spec(size: nat) -> u32 {
    if size > 1 {
        85
    } else {
        50
    }
}

/// Identifier of the group at position `index`: `item-` and the 1-based position.
pub open spec fn group_id_spec(index: nat) -> Seq<char> {
    seq!['i', 't', 'e', 'm', '-'] + decimal_spec(index + 1)
}

/// A set of photos taken to show the same item.
pub struct PhotoGroup {
    pub id: String,
    pub photos: Vec<String>,
    pub primary_photo: String,
    /// Confidence in percent.
    pub confidence_percent: u32,
}

/// Group `g`, found at position `index`, is the group of seed `s` over `photos`.
pub open spec fn group_matches(
    g: PhotoGroup,
    photos: Seq<String>,
    h: Seq<u64>,
    min_agree: nat,
    s: nat,
    index: nat,
) -> bool {
    let mem = members_upto(h, min_agree, s, h.len());
    &&& g.photos@.len() == mem.len()
    &&& forall|t: int| 0 <= t < mem.len() ==> #[trigger] g.photos@[t]@ == photos[mem[t] as int]@
    &&& g.primary_photo@ == photos[s as int]@
    &&& g.confidence_percent == confidence_spec(mem.len())
    &&& g.id@ == group_id_spec(index)
}

proof fn lemma_first_similar_seed(h: Seq<u64>, m: nat, j: nat, i: nat)
    requires
        i <= j,
    ensures
        ({
            let r = first_similar_seed(h, m, j, i);
            &&& i <= r <= j
            &&& r < j ==> is_seed(h, m, r) && similar(h, m, r, j)
            &&& forall|k: nat| i <= k < r ==> !(#[trigger] is_seed(h, m, k) && similar(h, m, k, j))
        }),
    decreases j - i,
{
    if i < j {
        if !(captor(h, m, i) == i && similar(h, m, i, j)) {
            lemma_first_similar_seed(h, m, j, i + 1);
        }
    }
}

/// The captor of `j` is at most `j`; when it is earlier it is a seed similar to `j`, and
/// no earlier seed is similar to `j`.
proof fn lemma_captor(h: Seq<u64>, m: nat, j: nat)
    ensures
        captor(h, m, j) <= j,
        captor(h, m, j) < j ==> is_seed(h, m, captor(h, m, j)) && similar(h, m, captor(h, m, j), j),
        is_seed(h, m, captor(h, m, j)),
        forall|k: nat| k < captor(h, m, j) ==> !(#[trigger] is_seed(h, m, k) && similar(h, m, k, j)),
{
    lemma_first_similar_seed(h, m, j, 0);
}

/// An unclaimed later photo joins the seed `i` exactly when it is similar to `i`.
proof fn lemma_join(h: Seq<u64>, m: nat, i: nat, j: nat)
    requires
        i < j,
        is_seed(h, m, i),
        captor(h, m, j) >= i,
    ensures
        (captor(h, m, j) == i) == similar(h, m, i, j),
{
    lemma_captor(h, m, j);
}

/// Nothing joins a photo that is not a seed.
proof fn lemma_no_members_of_non_seed(h: Seq<u64>, m: nat, i: nat, k: nat)
    requires
        !is_seed(h, m, i),
    ensures
        captor(h, m, k) != i,
{
    lemma_captor(h, m, k);
}

proof fn lemma_seeds_len(h: Seq<u64>, m: nat, n: nat)
    ensures
        seeds_upto(h, m, n).len() <= n,
    decreases n,
{
    if n > 0 {
        lemma_seeds_len(h, m, (n - 1) as nat);
    }
}

proof fn lemma_members_before_seed(h: Seq<u64>, m: nat, s: nat, n: nat)
    requires
        n <= s,
    ensures
        members_upto(h, m, s, n) == Seq::<nat>::empty(),
    decreases n,
{
    if n > 0 {
        lemma_members_before_seed(h, m, s, (n - 1) as nat);
        lemma_captor(h, m, (n - 1) as nat);
    }
}

/// Position of the group that photo `k` joins.
pub open spec fn group_index(h: Seq<u64>, min_agree: nat, k: nat) -> int {
    choose|g: int|
        0 <= g < seeds_upto(h, min_agree, h.len()).len() && seeds_upto(h, min_agree, h.len())[g]
            == captor(h, min_agree, k)
}

/// Entries of `q` increase strictly from left to right.
pub open spec fn strictly_increasing(q: Seq<nat>) -> bool {
    forall|a: int, b: int| 0 <= a < b < q.len() ==> q[a] < q[b]
}

proof fn lemma_seeds_shape(h: Seq<u64>, m: nat, n: nat)
    ensures
        strictly_increasing(seeds_upto(h, m, n)),
        forall|t: int| 0 <= t < seeds_upto(h, m, n).len() ==> #[trigger] seeds_upto(h, m, n)[t] < n,
        forall|s: nat| #[trigger] seeds_upto(h, m, n).contains(s) == (s < n && is_seed(h, m, s)),
    decreases n,
{
    if n > 0 {
        lemma_seeds_shape(h, m, (n - 1) as nat);
        let prev = seeds_upto(h, m, (n - 1) as nat);
        if is_seed(h, m, (n - 1) as nat) {
            assert forall|s: nat| #[trigger] seeds_upto(h, m, n).contains(s) == (s < n && is_seed(h, m, s)) by {
                if s == n - 1 {
                    assert(seeds_upto(h, m, n)[prev.len() as int] == s);
                } else if prev.contains(s) {
                    let t = choose|t: int| 0 <= t < prev.len() && prev[t] == s;
                    assert(seeds_upto(h, m, n)[t] == s);
                }
            }
        }
    }
}

proof fn lemma_members_shape(h: Seq<u64>, m: nat, s: nat, n: nat)
    ensures
        strictly_increasing(members_upto(h, m, s, n)),
        forall|t: int| 0 <= t < members_upto(h, m, s, n).len() ==> #[trigger] members_upto(h, m, s, n)[t] < n,
        forall|k: nat| #[trigger] members_upto(h, m, s, n).contains(k) == (k < n && captor(h, m, k) == s),
    decreases n,
{
    if n > 0 {
        lemma_members_shape(h, m, s, (n - 1) as nat);
        let prev = members_upto(h, m, s, (n - 1) as nat);
        if captor(h, m, (n - 1) as nat) == s {
            assert forall|k: nat| #[trigger] members_upto(h, m, s, n).contains(k) == (k < n && captor(h, m, k) == s) by {
                if k == n - 1 {
                    assert(members_upto(h, m, s, n)[prev.len() as int] == k);
                } else if prev.contains(k) {
                    let t = choose|t: int| 0 <= t < prev.len() && prev[t] == k;
                    assert(members_upto(h, m, s, n)[t] == k);
                }
            }
        }
    }
}

/// A seed heads its own group.
proof fn lemma_seed_heads_group(h: Seq<u64>, m: nat, s: nat, n: nat)
    requires
        s < n,
        is_seed(h, m, s),
    ensures
        members_upto(h, m, s, n).len() > 0,
        members_upto(h, m, s, n)[0] == s,
{
    lemma_members_shape(h, m, s, n);
    let q = members_upto(h, m, s, n);
    assert(q.contains(s));
    let t = choose|t: int| 0 <= t < q.len() && q[t] == s;
    assert(q.contains(q[0]));
    lemma_captor(h, m, q[0]);
    if t > 0 {
        assert(q[0] < q[t]);
    }
}

/// Every photo lands in exactly one group, each group lists a photo at most once, and no
/// group is empty.
pub proof fn lemma_grouping_partition(h: Seq<u64>, min_agree: nat)
    ensures
        ({
            let groups = grouping_spec(h, min_agree);
            &&& forall|g: int| 0 <= g < groups.len() ==> #[trigger] groups[g].len() > 0
            &&& forall|g: int| 0 <= g < groups.len() ==> #[trigger] groups[g].no_duplicates()
            &&& forall|g: int, t: int|
                0 <= g < groups.len() && 0 <= t < groups[g].len() ==> #[trigger] groups[g][t] < h.len()
            &&& forall|k: nat|
                k < h.len() ==> 0 <= #[trigger] group_index(h, min_agree, k) < groups.len()
                    && groups[group_index(h, min_agree, k)].contains(k)
            &&& forall|g1: int, g2: int, k: nat|
                0 <= g1 < groups.len() && 0 <= g2 < groups.len() && #[trigger] groups[g1].contains(k)
                    && #[trigger] groups[g2].contains(k) ==> g1 == g2
        }),
{
    let n = h.len();
    let seeds = seeds_upto(h, min_agree, n);
    let groups = grouping_spec(h, min_agree);
    lemma_seeds_shape(h, min_agree, n);
    assert forall|g: int| 0 <= g < groups.len() implies #[trigger] groups[g].len() > 0
        && groups[g].no_duplicates() && forall|t: int| 0 <= t < groups[g].len() ==> groups[g][t] < n by {
        assert(seeds.contains(seeds[g]));
        lemma_seed_heads_group(h, min_agree, seeds[g], n);
        lemma_members_shape(h, min_agree, seeds[g], n);
    }
    assert forall|k: nat| k < n implies 0 <= #[trigger] group_index(h, min_agree, k) < groups.len()
        && groups[group_index(h, min_agree, k)].contains(k) by {
        lemma_captor(h, min_agree, k);
        let s = captor(h, min_agree, k);
        assert(seeds.contains(s));
        let g = group_index(h, min_agree, k);
        lemma_members_shape(h, min_agree, s, n);
        assert(groups[g].contains(k));
    }
    assert forall|g1: int, g2: int, k: nat|
        0 <= g1 < groups.len() && 0 <= g2 < groups.len() && #[trigger] groups[g1].contains(k)
            && #[trigger] groups[g2].contains(k) implies g1 == g2 by {
        lemma_members_shape(h, min_agree, seeds[g1], n);
        lemma_members_shape(h, min_agree, seeds[g2], n);
        if g1 < g2 {
            assert(seeds[g1] < seeds[g2]);
        } else if g2 < g1 {
            assert(seeds[g2] < seeds[g1]);
        }
    }
}

/// Groups come in the order in which their seeds appear, each group starts with its seed,
/// and members keep their input order.
pub proof fn lemma_grouping_order(h: Seq<u64>, min_agree: nat)
    ensures
        ({
            let groups = grouping_spec(h, min_agree);
            &&& forall|g: int| 0 <= g < groups.len() ==> #[trigger] strictly_increasing(groups[g])
            &&& forall|g1: int, g2: int|
                0 <= g1 < g2 < groups.len() ==> #[trigger] groups[g1][0] < #[trigger] groups[g2][0]
            &&& forall|g: int|
                0 <= g < groups.len() ==> #[trigger] groups[g][0] == seeds_upto(h, min_agree, h.len())[g]
        }),
{
    let n = h.len();
    let seeds = seeds_upto(h, min_agree, n);
    let groups = grouping_spec(h, min_agree);
    lemma_seeds_shape(h, min_agree, n);
    assert forall|g: int| 0 <= g < groups.len() implies #[trigger] groups[g][0] == seeds[g]
        && strictly_increasing(groups[g]) by {
        assert(seeds.contains(seeds[g]));
        lemma_seed_heads_group(h, min_agree, seeds[g], n);
        lemma_members_shape(h, min_agree, seeds[g], n);
    }
    assert forall|g: int| 0 <= g < groups.len() implies #[trigger] strictly_increasing(groups[g]) by {
        assert(seeds.contains(seeds[g]));
        lemma_seed_heads_group(h, min_agree, seeds[g], n);
        lemma_members_shape(h, min_agree, seeds[g], n);
    }
    assert forall|g1: int, g2: int| 0 <= g1 < g2 < groups.len() implies #[trigger] groups[g1][0]
        < #[trigger] groups[g2][0] by {
        assert(seeds.contains(seeds[g1]));
        assert(seeds.contains(seeds[g2]));
        lemma_seed_heads_group(h, min_agree, seeds[g1], n);
        lemma_seed_heads_group(h, min_agree, seeds[g2], n);
    }
}

proof fn lemma_similar_full(h: Seq<u64>, i: nat, j: nat)
    ensures
        similar(h, 64, i, j) == (h[i as int] == h[j as int]),
{
    lemma_full_similarity_iff_equal(h[i as int], h[j as int]);
    lemma_similarity_bounds(h[i as int], h[j as int]);
}

/// Two photos with equal fingerprints join the same seed when all 64 bits must agree.
proof fn lemma_equal_hashes_same_captor(h: Seq<u64>, a: nat, b: nat)
    requires
        a < b,
        h[a as int] == h[b as int],
    ensures
        captor(h, 64, a) == captor(h, 64, b),
{
    lemma_captor(h, 64, a);
    lemma_captor(h, 64, b);
    let sa = captor(h, 64, a);
    let sb = captor(h, 64, b);
    if sa < a {
        lemma_similar_full(h, sa, a);
    }
    lemma_similar_full(h, sa, b);
    if sb < sa {
        lemma_similar_full(h, sb, b);
        lemma_captor(h, 64, sa);
        lemma_similar_full(h, sb, sa);
        assert(!(is_seed(h, 64, sb) && similar(h, 64, sb, sa)));
    }
}

/// When all 64 bits must agree, two photos share a group exactly when their fingerprints
/// are identical; every other photo stays alone.
pub proof fn lemma_grouping_full_threshold(h: Seq<u64>)
    ensures
        ({
            let groups = grouping_spec(h, 64);
            &&& forall|g: int, t: int|
                0 <= g < groups.len() && 0 <= t < groups[g].len() ==> h[#[trigger] groups[g][t] as int]
                    == h[groups[g][0] as int]
            &&& forall|a: nat, b: nat|
                a < h.len() && b < h.len() ==> ((#[trigger] group_index(h, 64, a) == #[trigger] group_index(
                    h,
                    64,
                    b,
                )) == (h[a as int] == h[b as int]))
        }),
{
    let n = h.len();
    let seeds = seeds_upto(h, 64, n);
    let groups = grouping_spec(h, 64);
    lemma_seeds_shape(h, 64, n);
    lemma_grouping_partition(h, 64);
    assert forall|g: int, t: int| 0 <= g < groups.len() && 0 <= t < groups[g].len() implies h[
        #[trigger] groups[g][t] as int] == h[groups[g][0] as int] by {
        let s = seeds[g];
        assert(seeds.contains(s));
        lemma_seed_heads_group(h, 64, s, n);
        lemma_members_shape(h, 64, s, n);
        let k = groups[g][t];
        assert(groups[g].contains(k));
        lemma_captor(h, 64, k);
        if k != s {
            lemma_similar_full(h, s, k);
        }
    }
    assert forall|a: nat, b: nat| a < h.len() && b < h.len() implies ((#[trigger] group_index(h, 64, a)
        == #[trigger] group_index(h, 64, b)) == (h[a as int] == h[b as int])) by {
        lemma_captor(h, 64, a);
        lemma_captor(h, 64, b);
        let ga = group_index(h, 64, a);
        let gb = group_index(h, 64, b);
        if h[a as int] == h[b as int] {
            if a < b {
                lemma_equal_hashes_same_captor(h, a, b);
            } else if b < a {
                lemma_equal_hashes_same_captor(h, b, a);
            }
        } else {
            assert(seeds.contains(captor(h, 64, a)));
            assert(seeds.contains(captor(h, 64, b)));
            let sa = captor(h, 64, a);
            let sb = captor(h, 64, b);
            if sa != a {
                lemma_similar_full(h, sa, a);
            }
            if sb != b {
                lemma_similar_full(h, sb, b);
            }
            assert(seeds[ga] == sa);
            assert(seeds[gb] == sb);
        }
    }
}

proof fn lemma_zero_threshold_captor(h: Seq<u64>, k: nat)
    ensures
        captor(h, 0, k) == 0,
{
    assert(captor(h, 0, 0) == 0);
    if k > 0 {
        assert(first_similar_seed(h, 0, k, 0) == 0);
    }
}

proof fn lemma_zero_threshold_prefix(h: Seq<u64>, n: nat)
    requires
        n > 0,
    ensures
        seeds_upto(h, 0, n) == seq![0nat],
        members_upto(h, 0, 0, n) == Seq::new(n, |k: int| k as nat),
    decreases n,
{
    lemma_zero_threshold_captor(h, (n - 1) as nat);
    if n > 1 {
        lemma_zero_threshold_prefix(h, (n - 1) as nat);
        assert(members_upto(h, 0, 0, n) == members_upto(h, 0, 0, (n - 1) as nat).push((n - 1) as nat));
        assert(members_upto(h, 0, 0, n) =~= Seq::new(n, |k: int| k as nat));
    } else {
        assert(seeds_upto(h, 0, 0) == Seq::<nat>::empty());
        assert(members_upto(h, 0, 0, 0) == Seq::<nat>::empty());
        assert(seeds_upto(h, 0, n) =~= seq![0nat]);
        assert(members_upto(h, 0, 0, n) =~= Seq::new(n, |k: int| k as nat));
    }
}

/// With no agreement required, every photo joins one group seeded by the first photo.
pub proof fn lemma_grouping_zero_threshold(h: Seq<u64>)
    requires
        h.len() > 0,
    ensures
        grouping_spec(h, 0) == seq![Seq::new(h.len(), |k: int| k as nat)],
{
    lemma_zero_threshold_prefix(h, h.len());
    assert(grouping_spec(h, 0) =~= seq![Seq::new(h.len(), |k: int| k as nat)]);
}

/// Groups photos whose fingerprints are similar to a common seed.
///
/// Photos are scanned in order; each photo not yet in a group seeds a new one, which takes
/// every later unclaimed photo whose fingerprint agrees with the seed's in at least
/// `min_agree` of the 64 bits. Similarity is always measured against the seed alone.
pub fn group_photos_by_item(photos: &Vec<String>, hashes: &Vec<u64>, min_agree: u32) -> (r: Vec<
    PhotoGroup,
>)
    requires
        photos@.len() == hashes@.len(),
    ensures
        r@.len() == seeds_upto(hashes@, min_agree as nat, hashes@.len()).len(),
        forall|g: int|
            0 <= g < r@.len() ==> group_matches(
                #[trigger] r@[g],
                photos@,
                hashes@,
                min_agree as nat,
                seeds_upto(hashes@, min_agree as nat, hashes@.len())[g],
                g as nat,
            ),
{
    let ghost h = hashes@;
    let ghost m = min_agree as nat;
    let n = hashes.len();
    let mut assigned: Vec<bool> = Vec::new();
    let mut k: usize = 0;
    while k < n
        invariant
            k <= n,
            assigned@.len() == k,
            forall|t: int| 0 <= t < k ==> !#[trigger] assigned@[t],
        decreases n - k,
    {
        assigned.push(false);
        k = k + 1;
    }
    proof {
        assert forall|t: nat| t < n implies #[trigger] assigned@[t as int] == (captor(h, m, t) < 0) by {
        }
    }
    let mut groups: Vec<PhotoGroup> = Vec::new();
    let mut i: usize = 0;
    while i < n
        invariant
            n == hashes@.len(),
            n == photos@.len(),
            h == hashes@,
            m == min_agree as nat,
            i <= n,
            assigned@.len() == n,
            forall|t: nat| t < n ==> #[trigger] assigned@[t as int] == (captor(h, m, t) < i),
            groups@.len() == seeds_upto(h, m, i as nat).len(),
            forall|g: int|
                0 <= g < groups@.len() ==> group_matches(
                    #[trigger] groups@[g],
                    photos@,
                    h,
                    m,
                    seeds_upto(h, m, i as nat)[g],
                    g as nat,
                ),
        decreases n - i,
    {
        proof {
            lemma_captor(h, m, i as nat);
        }
        if !assigned[i] {
            let mut members: Vec<String> = Vec::new();
            members.push(photos[i].clone());
            proof {
                assert(assigned@[i as int] == (captor(h, m, i as nat) < i));
                lemma_seeds_len(h, m, i as nat);
            }
            assigned.set(i, true);
            proof {
                assert forall|t: nat| t < n implies #[trigger] assigned@[t as int] == (captor(h, m, t) < i || (t < i + 1
                    && captor(h, m, t) == i)) by {
                    lemma_captor(h, m, t);
                }
                lemma_members_before_seed(h, m, i as nat, i as nat);
                assert(members_upto(h, m, i as nat, (i + 1) as nat) == seq![i as nat]);
            }
            let mut j: usize = i + 1;
            while j < n
                invariant
                    n == hashes@.len(),
                    n == photos@.len(),
                    h == hashes@,
                    m == min_agree as nat,
                    i < j <= n,
                    is_seed(h, m, i as nat),
                    assigned@.len() == n,
                    forall|t: nat|
                        t < n ==> #[trigger] assigned@[t as int] == (captor(h, m, t) < i || (t < j
                            && captor(h, m, t) == i)),
                    members@.len() == members_upto(h, m, i as nat, j as nat).len(),
                    forall|t: int|
                        0 <= t < members@.len() ==> #[trigger] members@[t]@ == photos@[members_upto(
                            h,
                            m,
                            i as nat,
                            j as nat,
                        )[t] as int]@,
                decreases n - j,
            {
                proof {
                    lemma_captor(h, m, j as nat);
                }
                if !assigned[j] {
                    let sim = calculate_similarity(hashes[i], hashes[j]);
                    proof {
                        lemma_join(h, m, i as nat, j as nat);
                    }
                    if sim >= min_agree {
                        members.push(photos[j].clone());
                        assigned.set(j, true);
                    }
                }
                j = j + 1;
            }
            let mut id = String::from_str("item-");
            push_decimal(&mut id, groups.len() as u64 + 1);
            proof {
                reveal_strlit("item-");
            }
            let confidence_percent: u32 = if members.len() > 1 {
                85
            } else {
                50
            };
            let group = PhotoGroup {
                id,
                photos: members,
                primary_photo: photos[i].clone(),
                confidence_percent,
            };
            proof {
                let mem = members_upto(h, m, i as nat, n as nat);
                assert(group.photos@.len() == mem.len());
                assert(group.primary_photo@ == photos@[i as int]@);
                assert(group.confidence_percent == confidence_spec(mem.len()));
                assert(group.id@ == group_id_spec(groups@.len() as nat));
                assert(group_matches(group, photos@, h, m, i as nat, groups@.len() as nat));
            }
            groups.push(group);
            proof {
                assert(seeds_upto(h, m, (i + 1) as nat) == seeds_upto(h, m, i as nat).push(i as nat));
                assert forall|t: nat| t < n implies #[trigger] assigned@[t as int] == (captor(h, m, t) < i + 1) by {
                }
            }
        } else {
            proof {
                assert forall|t: nat| t < n implies #[trigger] assigned@[t as int] == (captor(h, m, t) < i + 1) by {
                    lemma_no_members_of_non_seed(h, m, i as nat, t);
                }
            }
        }
        i = i + 1;
    }
    groups
}

} // verus!
