//! Names as text: their order, the "Unbound" prefix, the connection-id
//! format, and the sorted selection of device names.
use vstd::prelude::*;

use crate::registry::{contains_str, views};

verus! {

/// Lexicographic order of character sequences by code point; this is the
/// order of `String`.
pub open spec fn str_lt(a: Seq<char>, b: Seq<char>) -> bool
    decreases a.len(),
{
    if a.len() == 0 {
        b.len() > 0
    } else if b.len() == 0 {
        false
    } else if a[0] != b[0] {
        a[0] < b[0]
    } else {
        str_lt(a.drop_first(), b.drop_first())
    }
}

/// Strictly increasing: sorted, and no name twice.
pub open spec fn sorted(s: Seq<Seq<char>>) -> bool {
    forall|i: int, j: int| 0 <= i < j < s.len() ==> str_lt(s[i], s[j])
}

pub proof fn lemma_str_lt_irreflexive(a: Seq<char>)
    ensures
        !str_lt(a, a),
    decreases a.len(),
{
    if a.len() > 0 {
        lemma_str_lt_irreflexive(a.drop_first());
    }
}

pub proof fn lemma_str_lt_transitive(a: Seq<char>, b: Seq<char>, c: Seq<char>)
    requires
        str_lt(a, b),
        str_lt(b, c),
    ensures
        str_lt(a, c),
    decreases a.len(),
{
    if a.len() > 0 && b.len() > 0 && c.len() > 0 {
        if a[0] == b[0] && b[0] == c[0] {
            lemma_str_lt_transitive(a.drop_first(), b.drop_first(), c.drop_first());
        }
    }
}

pub proof fn lemma_str_lt_total(a: Seq<char>, b: Seq<char>)
    requires
        a != b,
    ensures
        str_lt(a, b) || str_lt(b, a),
    decreases a.len(),
{
    if a.len() > 0 && b.len() > 0 && a[0] == b[0] {
        if a.drop_first() == b.drop_first() {
            assert(a =~= seq![a[0]] + a.drop_first());
            assert(b =~= seq![b[0]] + b.drop_first());
        }
        lemma_str_lt_total(a.drop_first(), b.drop_first());
    } else if a.len() == 0 && b.len() == 0 {
        assert(a =~= b);
    }
}

/// A strictly increasing list holds no name twice.
pub proof fn lemma_sorted_no_duplicates(s: Seq<Seq<char>>)
    requires
        sorted(s),
    ensures
        s.no_duplicates(),
{
    assert forall|i: int, j: int| 0 <= i < s.len() && 0 <= j < s.len() && i != j implies s[i]
        != s[j] by {
        if s[i] == s[j] {
            lemma_str_lt_irreflexive(s[i]);
            if i < j {
                assert(str_lt(s[i], s[j]));
            } else {
                assert(str_lt(s[j], s[i]));
            }
        }
    }
}

/// Whether `a` comes before `b` in the order of `String`.
pub fn string_lt(a: &String, b: &String) -> (r: bool)
    ensures
        r == str_lt(a@, b@),
{
    let la = a.as_str().unicode_len();
    let lb = b.as_str().unicode_len();
    let mut i: usize = 0;
    assert(a@.subrange(0, la as int) =~= a@);
    assert(b@.subrange(0, lb as int) =~= b@);
    while i < la && i < lb
        invariant
            la == a@.len(),
            lb == b@.len(),
            0 <= i <= la,
            i <= lb,
            str_lt(a@, b@) == str_lt(a@.subrange(i as int, la as int), b@.subrange(i as int, lb as int)),
        decreases la - i,
    {
        let ca = a.as_str().get_char(i);
        let cb = b.as_str().get_char(i);
        let ghost sa = a@.subrange(i as int, la as int);
        let ghost sb = b@.subrange(i as int, lb as int);
        assert(sa[0] == ca && sb[0] == cb);
        if ca != cb {
            return ca < cb;
        }
        assert(sa.drop_first() =~= a@.subrange(i + 1, la as int));
        assert(sb.drop_first() =~= b@.subrange(i + 1, lb as int));
        i += 1;
    }
    la < lb
}

/// The prefix that marks a device not yet bound to an owner.
pub open spec fn unbound_prefix() -> Seq<char> {
    seq!['U', 'n', 'b', 'o', 'u', 'n', 'd']
}

/// Whether `p` is a prefix of `s`.
pub open spec fn has_prefix(s: Seq<char>, p: Seq<char>) -> bool {
    p.len() <= s.len() && s.subrange(0, p.len() as int) == p
}

/// Whether `s` starts with "Unbound".
pub fn is_unbound(s: &String) -> (r: bool)
    ensures
        r == has_prefix(s@, unbound_prefix()),
{
    let p = ['U', 'n', 'b', 'o', 'u', 'n', 'd'];
    assert(p@ =~= unbound_prefix());
    let n = s.as_str().unicode_len();
    if n < 7 {
        return false;
    }
    let mut i: usize = 0;
    while i < 7
        invariant
            n == s@.len(),
            7 <= n,
            0 <= i <= 7,
            p@ == unbound_prefix(),
            forall|j: int| 0 <= j < i ==> s@[j] == p@[j],
        decreases 7 - i,
    {
        if s.as_str().get_char(i) != p[i] {
            assert(s@.subrange(0, 7)[i as int] != unbound_prefix()[i as int]);
            return false;
        }
        i += 1;
    }
    assert(s@.subrange(0, 7) =~= unbound_prefix());
    true
}

/// Whether `c` may stand in a connection id: URL-safe base64.
pub open spec fn is_sid_char(c: char) -> bool {
    ('a' <= c && c <= 'z') || ('A' <= c && c <= 'Z') || ('0' <= c && c <= '9') || c == '_'
        || c == '-'
}

/// Whether `s` has the form of a connection id: sixteen URL-safe base64
/// characters, as the transport's session ids are.
pub open spec fn is_sid_text(s: Seq<char>) -> bool {
    s.len() == 16 && forall|i: int| 0 <= i < 16 ==> is_sid_char(#[trigger] s[i])
}

/// Whether `s` has the form of a connection id.
pub fn is_sid(s: &String) -> (r: bool)
    ensures
        r == is_sid_text(s@),
{
    let n = s.as_str().unicode_len();
    if n != 16 {
        return false;
    }
    let mut i: usize = 0;
    while i < 16
        invariant
            n == s@.len(),
            n == 16,
            0 <= i <= 16,
            forall|j: int| 0 <= j < i ==> is_sid_char(#[trigger] s@[j]),
        decreases 16 - i,
    {
        let c = s.as_str().get_char(i);
        let ok = ('a' <= c && c <= 'z') || ('A' <= c && c <= 'Z') || ('0' <= c && c <= '9')
            || c == '_' || c == '-';
        if !ok {
            return false;
        }
        i += 1;
    }
    true
}

/// Inserts `x`, which `v` lacks, into the strictly increasing `v`.
fn insert_sorted(v: &mut Vec<String>, x: String)
    requires
        sorted(views(old(v)@)),
        !views(old(v)@).contains(x@),
    ensures
        sorted(views(final(v)@)),
        views(final(v)@).to_set() == views(old(v)@).to_set().insert(x@),
{
    let ghost s = views(v@);
    let mut p: usize = 0;
    while p < v.len() && !string_lt(&x, &v[p])
        invariant
            0 <= p <= v.len(),
            v@ == old(v)@,
            s == views(v@),
            sorted(s),
            !s.contains(x@),
            forall|k: int| 0 <= k < p ==> str_lt(#[trigger] s[k], x@),
        decreases v.len() - p,
    {
        proof {
            assert(s[p as int] == v@[p as int]@);
            if s[p as int] == x@ {
                assert(s.contains(x@));
            }
            lemma_str_lt_total(s[p as int], x@);
        }
        p += 1;
    }
    let ghost xv = x@;
    v.insert(p, x);
    proof {
        let t = views(v@);
        assert(t =~= s.insert(p as int, xv));
        assert forall|i: int, j: int| 0 <= i < j < t.len() implies str_lt(t[i], t[j]) by {
            if j > p {
                assert(str_lt(xv, s[p as int]));
                if j - 1 > p {
                    lemma_str_lt_transitive(xv, s[p as int], s[j - 1]);
                }
                assert(str_lt(xv, s[j - 1]));
                if i < p {
                    lemma_str_lt_transitive(s[i], xv, s[j - 1]);
                }
            }
        }
        assert(t.to_set() =~= s.to_set().insert(xv)) by {
            assert forall|n: Seq<char>| t.contains(n) <==> s.contains(n) || n == xv by {
                if t.contains(n) {
                    let k = choose|k: int| 0 <= k < t.len() && t[k] == n;
                    if k < p {
                        assert(s[k] == n);
                    } else if k > p {
                        assert(s[k - 1] == n);
                    }
                }
                if s.contains(n) {
                    let k = choose|k: int| 0 <= k < s.len() && s[k] == n;
                    if k < p {
                        assert(t[k] == n);
                    } else {
                        assert(t[k + 1] == n);
                    }
                }
                if n == xv {
                    assert(t[p as int] == n);
                }
            }
        }
    }
}

proof fn lemma_push_to_set(s: Seq<Seq<char>>, x: Seq<char>)
    ensures
        s.push(x).to_set() == s.to_set().insert(x),
{
    let t = s.push(x);
    assert forall|n: Seq<char>| t.contains(n) <==> s.contains(n) || n == x by {
        if t.contains(n) && n != x {
            let k = choose|k: int| 0 <= k < t.len() && t[k] == n;
            assert(s[k] == n);
        }
        if s.contains(n) {
            let k = choose|k: int| 0 <= k < s.len() && s[k] == n;
            assert(t[k] == n);
        }
        if n == x {
            assert(t[s.len() as int] == n);
        }
    }
    assert(t.to_set() =~= s.to_set().insert(x));
}

/// Whether device name `d` is selected: it was asked for, or, where
/// `unbound_too`, it starts with "Unbound".
pub open spec fn selected(d: Seq<char>, requested: Set<Seq<char>>, unbound_too: bool) -> bool {
    requested.contains(d) || (unbound_too && has_prefix(d, unbound_prefix()))
}

/// The names of `known` that are selected, in increasing order.
pub fn select_names(known: &Vec<String>, requested: &Vec<String>, unbound_too: bool) -> (r: Vec<
    String,
>)
    requires
        views(known@).no_duplicates(),
    ensures
        sorted(views(r@)),
        views(r@).no_duplicates(),
        views(r@).to_set() == views(known@).to_set().filter(
            |d: Seq<char>| selected(d, views(requested@).to_set(), unbound_too),
        ),
{
    let ghost req = views(requested@).to_set();
    let mut out: Vec<String> = Vec::new();
    let mut i: usize = 0;
    while i < known.len()
        invariant
            0 <= i <= known.len(),
            views(known@).no_duplicates(),
            req == views(requested@).to_set(),
            sorted(views(out@)),
            views(out@).to_set() == views(known@).take(i as int).to_set().filter(
                |d: Seq<char>| selected(d, req, unbound_too),
            ),
        decreases known.len() - i,
    {
        let ghost kv = views(known@);
        let ghost before = views(out@).to_set();
        assert(kv.take(i + 1) =~= kv.take(i as int).push(kv[i as int]));
        proof {
            lemma_push_to_set(kv.take(i as int), kv[i as int]);
        }
        let pick = contains_str(requested, &known[i]) || (unbound_too && is_unbound(&known[i]));
        assert(pick == selected(kv[i as int], req, unbound_too));
        if pick {
            proof {
                if views(out@).contains(kv[i as int]) {
                    assert(before.contains(kv[i as int]));
                    let k = choose|k: int|
                        0 <= k < kv.take(i as int).len() && kv.take(i as int)[k] == kv[i as int];
                    assert(kv[k] == kv[i as int]);
                }
            }
            insert_sorted(&mut out, known[i].clone());
            assert(views(out@).to_set() =~= kv.take(i + 1).to_set().filter(
                |d: Seq<char>| selected(d, req, unbound_too),
            ));
        } else {
            assert(views(out@).to_set() =~= kv.take(i + 1).to_set().filter(
                |d: Seq<char>| selected(d, req, unbound_too),
            ));
        }
        i += 1;
    }
    proof {
        assert(views(known@).take(known.len() as int) =~= views(known@));
        lemma_sorted_no_duplicates(views(out@));
    }
    out
}

} // verus!
