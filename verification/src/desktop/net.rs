//! This machine's IPv4 addresses as the sync panel lists them: loopback
//! addresses left out, ordered by interface name and then by address.
//! Asking the system for its interfaces is left to the shell.

use vstd::prelude::*;
use crate::text::chars_of;

verus! {

/// Whether `a` comes before `b` in dictionary order of characters (a
/// proper prefix comes first); for strings this is `Ord`'s order.
pub open spec fn text_lt(a: Seq<char>, b: Seq<char>) -> bool
    decreases a.len(),
{
    if a.len() == 0 {
        b.len() > 0
    } else if b.len() == 0 {
        false
    } else if a[0] != b[0] {
        a[0] < b[0]
    } else {
        text_lt(a.drop_first(), b.drop_first())
    }
}

/// Whether interface-and-address pair `p` comes before `q`: by name, then
/// by address.
pub open spec fn pair_lt(p: (Seq<char>, Seq<char>), q: (Seq<char>, Seq<char>)) -> bool {
    text_lt(p.0, q.0) || (p.0 == q.0 && text_lt(p.1, q.1))
}

/// Whether the pairs are in order.
pub open spec fn pairs_sorted(s: Seq<(Seq<char>, Seq<char>)>) -> bool {
    forall|i: int, j: int| 0 <= i < j < s.len() ==> !pair_lt(s[j], s[i])
}

proof fn lemma_text_lt_irrefl(a: Seq<char>)
    ensures
        !text_lt(a, a),
    decreases a.len(),
{
    if a.len() > 0 {
        lemma_text_lt_irrefl(a.drop_first());
    }
}

proof fn lemma_text_lt_trans(a: Seq<char>, b: Seq<char>, c: Seq<char>)
    requires
        text_lt(a, b),
        text_lt(b, c),
    ensures
        text_lt(a, c),
    decreases a.len(),
{
    if a.len() > 0 && b.len() > 0 && c.len() > 0 && a[0] == b[0] && b[0] == c[0] {
        lemma_text_lt_trans(a.drop_first(), b.drop_first(), c.drop_first());
    }
}

proof fn lemma_text_lt_total(a: Seq<char>, b: Seq<char>)
    ensures
        a == b || text_lt(a, b) || text_lt(b, a),
    decreases a.len(),
{
    if a.len() > 0 && b.len() > 0 && a[0] == b[0] {
        lemma_text_lt_total(a.drop_first(), b.drop_first());
        if a.drop_first() == b.drop_first() {
            assert(a =~= seq![a[0]] + a.drop_first());
            assert(b =~= seq![b[0]] + b.drop_first());
        }
    } else if a.len() == 0 && b.len() == 0 {
        assert(a =~= b);
    }
}

proof fn lemma_text_lt_asym(a: Seq<char>, b: Seq<char>)
    requires
        text_lt(a, b),
    ensures
        !text_lt(b, a),
{
    if text_lt(b, a) {
        lemma_text_lt_trans(a, b, a);
        lemma_text_lt_irrefl(a);
    }
}

/// Pairs that are not in order either way are equal, and the order is
/// transitive.
proof fn lemma_pair_order(p: (Seq<char>, Seq<char>), q: (Seq<char>, Seq<char>), r: (Seq<char>, Seq<char>))
    ensures
        p == q || pair_lt(p, q) || pair_lt(q, p),
        !pair_lt(p, p),
        pair_lt(p, q) && pair_lt(q, r) ==> pair_lt(p, r),
        pair_lt(p, q) ==> !pair_lt(q, p),
{
    lemma_text_lt_total(p.0, q.0);
    lemma_text_lt_total(p.1, q.1);
    lemma_text_lt_irrefl(p.0);
    lemma_text_lt_irrefl(p.1);
    if pair_lt(p, q) && pair_lt(q, r) {
        if text_lt(p.0, q.0) && text_lt(q.0, r.0) {
            lemma_text_lt_trans(p.0, q.0, r.0);
        }
        if p.0 == q.0 && q.0 == r.0 {
            lemma_text_lt_trans(p.1, q.1, r.1);
        }
    }
    if pair_lt(p, q) {
        if text_lt(p.0, q.0) {
            lemma_text_lt_asym(p.0, q.0);
        } else {
            lemma_text_lt_asym(p.1, q.1);
        }
    }
}

/// Whether the characters `a` come before `b` (see [`text_lt`]).
fn chars_lt(a: &Vec<char>, b: &Vec<char>) -> (r: bool)
    ensures
        r == text_lt(a@, b@),
{
    let mut i: usize = 0;
    assert(a@.skip(0) =~= a@);
    assert(b@.skip(0) =~= b@);
    while i < a.len() && i < b.len() && a[i] == b[i]
        invariant
            i <= a@.len(),
            i <= b@.len(),
            forall|k: int| 0 <= k < i ==> a@[k] == b@[k],
            text_lt(a@, b@) == text_lt(a@.skip(i as int), b@.skip(i as int)),
        decreases a.len() - i,
    {
        assert(a@.skip(i as int).drop_first() =~= a@.skip(i + 1));
        assert(b@.skip(i as int).drop_first() =~= b@.skip(i + 1));
        i = i + 1;
    }
    if i == a.len() {
        i < b.len()
    } else if i == b.len() {
        false
    } else {
        a[i] < b[i]
    }
}

/// The pair of texts as character sequences.
pub open spec fn pair_view(p: (String, String)) -> (Seq<char>, Seq<char>) {
    (p.0@, p.1@)
}

/// Whether `p` comes before `q` (see [`pair_lt`]).
fn pair_before(p: &(Vec<char>, Vec<char>), q: &(Vec<char>, Vec<char>)) -> (r: bool)
    ensures
        r == pair_lt((p.0@, p.1@), (q.0@, q.1@)),
{
    if chars_lt(&p.0, &q.0) {
        true
    } else if chars_lt(&q.0, &p.0) {
        false
    } else {
        proof {
            lemma_text_lt_total(p.0@, q.0@);
        }
        chars_lt(&p.1, &q.1)
    }
}

/// Whether `ip` starts with `127.` (a loopback address).
pub open spec fn is_loopback_text(ip: Seq<char>) -> bool {
    ip.len() >= 4 && ip.take(4) == "127."@
}

/// The interface-and-address pairs that are listed: those whose address is
/// not a loopback one.
pub open spec fn listed_pairs(pairs: Seq<(Seq<char>, Seq<char>)>) -> Seq<(Seq<char>, Seq<char>)> {
    pairs.filter(|p: (Seq<char>, Seq<char>)| !is_loopback_text(p.1))
}

/// Whether the text of `ip` starts with `127.`.
fn starts_127(ip: &Vec<char>) -> (r: bool)
    ensures
        r == is_loopback_text(ip@),
{
    proof {
        reveal_strlit("127.");
    }
    if ip.len() < 4 {
        return false;
    }
    let r = ip[0] == '1' && ip[1] == '2' && ip[2] == '7' && ip[3] == '.';
    assert("127."@ =~= seq!['1', '2', '7', '.']);
    assert(r ==> ip@.take(4) =~= "127."@);
    assert(!r ==> ip@.take(4)[0] != '1' || ip@.take(4)[1] != '2' || ip@.take(4)[2] != '7' || ip@.take(4)[3] != '.');
    r
}

/// The addresses listed from this machine's interfaces, given as pairs of
/// interface name and IPv4 address: loopback addresses left out, the rest
/// ordered by name and then by address; only the addresses are returned.
pub fn list_local_ipv4(interfaces: Vec<(String, String)>) -> (r: Vec<String>)
    ensures
        exists|sorted: Seq<(Seq<char>, Seq<char>)>|
            pairs_sorted(sorted) && sorted.to_multiset() == listed_pairs(
                interfaces@.map_values(|p: (String, String)| pair_view(p)),
            ).to_multiset() && r@.map_values(|s: String| s@) == sorted.map_values(
                |p: (Seq<char>, Seq<char>)| p.1,
            ),
{
    let ghost all = interfaces@.map_values(|p: (String, String)| pair_view(p));
    let mut out: Vec<(Vec<char>, Vec<char>)> = Vec::new();
    let mut i: usize = 0;
    proof {
        reveal(Seq::filter);
        broadcast use vstd::seq_lib::group_to_multiset_ensures;
        assert(all.take(0) =~= Seq::<(Seq<char>, Seq<char>)>::empty());
        assert(listed_pairs(all.take(0)) =~= Seq::<(Seq<char>, Seq<char>)>::empty());
        assert(out@.map_values(|p: (Vec<char>, Vec<char>)| (p.0@, p.1@)) =~= Seq::<(Seq<char>, Seq<char>)>::empty());
    }
    while i < interfaces.len()
        invariant
            i <= interfaces@.len(),
            all == interfaces@.map_values(|p: (String, String)| pair_view(p)),
            pairs_sorted(out@.map_values(|p: (Vec<char>, Vec<char>)| (p.0@, p.1@))),
            out@.map_values(|p: (Vec<char>, Vec<char>)| (p.0@, p.1@)).to_multiset() == listed_pairs(
                all.take(i as int),
            ).to_multiset(),
        decreases interfaces.len() - i,
    {
        let name = chars_of(interfaces[i].0.as_str());
        let ip = chars_of(interfaces[i].1.as_str());
        let ghost x = (name@, ip@);
        assert(all[i as int] == x);
        assert(all.take(i + 1).drop_last() =~= all.take(i as int));
        assert(all.take(i + 1).last() == x);
        proof {
            reveal(Seq::filter);
        }
        if !starts_127(&ip) {
            let ghost ov = out@.map_values(|p: (Vec<char>, Vec<char>)| (p.0@, p.1@));
            let item = (name, ip);
            let mut k: usize = 0;
            while k < out.len() && !pair_before(&item, &out[k])
                invariant
                    k <= out@.len(),
                    ov == out@.map_values(|p: (Vec<char>, Vec<char>)| (p.0@, p.1@)),
                    x == (item.0@, item.1@),
                    forall|j: int| 0 <= j < k ==> !pair_lt(x, #[trigger] ov[j]),
                decreases out.len() - k,
            {
                k = k + 1;
            }
            out.insert(k, item);
            let ghost nv = out@.map_values(|p: (Vec<char>, Vec<char>)| (p.0@, p.1@));
            assert(nv =~= ov.insert(k as int, x));
            proof {
                assert forall|a: int, b: int| 0 <= a < b < nv.len() implies !pair_lt(nv[b], nv[a]) by {
                    if a < k && b == k {
                        lemma_pair_order(x, ov[a], x);
                    } else if a == k && b > k {
                        if k < ov.len() {
                            lemma_pair_order(x, ov[k as int], ov[b - 1]);
                            lemma_pair_order(ov[b - 1], ov[k as int], x);
                            if b - 1 > k {
                                assert(!pair_lt(ov[b - 1], ov[k as int]));
                            }
                            lemma_pair_order(ov[b - 1], x, ov[k as int]);
                        }
                    }
                }
                broadcast use vstd::seq_lib::group_to_multiset_ensures;
                assert(nv.remove(k as int) =~= ov);
                assert(nv[k as int] == x);
                assert(nv.contains(x));
                assert(nv.to_multiset() =~= ov.to_multiset().insert(x));
                assert(listed_pairs(all.take(i + 1)) =~= listed_pairs(all.take(i as int)).push(x));
            }
        } else {
            assert(listed_pairs(all.take(i + 1)) =~= listed_pairs(all.take(i as int)));
        }
        i = i + 1;
    }
    assert(all.take(i as int) =~= all);
    let ghost sorted = out@.map_values(|p: (Vec<char>, Vec<char>)| (p.0@, p.1@));
    let mut ips: Vec<String> = Vec::new();
    let mut j: usize = 0;
    while j < out.len()
        invariant
            j <= out@.len(),
            sorted == out@.map_values(|p: (Vec<char>, Vec<char>)| (p.0@, p.1@)),
            ips@.len() == j,
            forall|k: int| 0 <= k < j ==> (#[trigger] ips@[k])@ == sorted[k].1,
        decreases out.len() - j,
    {
        let s = crate::text::string_from_chars(out[j].1.as_slice());
        ips.push(s);
        j = j + 1;
    }
    assert(ips@.map_values(|s: String| s@) =~= sorted.map_values(|p: (Seq<char>, Seq<char>)| p.1));
    ips
}

} // verus!
