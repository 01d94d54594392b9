//! Stored OIDC consent grants: whether a stored grant covers a request.

use vstd::prelude::*;

use crate::text::{is_ws, is_ws_exec, str_chars, sub_chars};

verus! {

/// The maximal run of non-whitespace characters that starts `s`.
pub open spec fn word(s: Seq<char>) -> Seq<char>
    decreases s.len(),
{
    if s.len() == 0 || is_ws(s[0]) {
        Seq::empty()
    } else {
        seq![s[0]] + word(s.drop_first())
    }
}

/// `str::split_whitespace`: the non-empty runs of non-whitespace
/// characters, in order.
pub open spec fn tokens(s: Seq<char>) -> Seq<Seq<char>>
    decreases s.len(),
{
    if s.len() == 0 {
        Seq::empty()
    } else if is_ws(s[0]) {
        tokens(s.drop_first())
    } else {
        proof {
            lemma_word_props(s);
        }
        seq![word(s)] + tokens(s.skip(word(s).len() as int))
    }
}

/// Every requested scope token is among the granted ones.
pub open spec fn covers_spec(granted: Seq<char>, requested: Seq<char>) -> bool {
    forall|i: int|
        0 <= i < tokens(requested).len() ==> tokens(granted).contains(
            #[trigger] tokens(requested)[i],
        )
}

pub proof fn lemma_word_props(s: Seq<char>)
    ensures
        word(s).len() <= s.len(),
        s.len() > 0 && !is_ws(s[0]) ==> word(s).len() > 0,
        word(s) =~= s.take(word(s).len() as int),
    decreases s.len(),
{
    if s.len() > 0 && !is_ws(s[0]) {
        lemma_word_props(s.drop_first());
    }
}

proof fn lemma_word_index(s: Seq<char>, k: int)
    requires
        0 <= k <= s.len(),
        k < s.len() ==> is_ws(s[k]),
        forall|i: int| 0 <= i < k ==> !is_ws(s[i]),
    ensures
        word(s) =~= s.take(k),
    decreases s.len(),
{
    if s.len() > 0 && !is_ws(s[0]) {
        let t = s.drop_first();
        assert forall|i: int| 0 <= i < k - 1 implies !is_ws(t[i]) by {
            assert(t[i] == s[i + 1]);
        }
        lemma_word_index(t, k - 1);
        assert(word(s) =~= seq![s[0]] + t.take(k - 1));
    }
}

pub open spec fn words_view(v: Seq<Vec<char>>) -> Seq<Seq<char>> {
    v.map_values(|w: Vec<char>| w@)
}

/// `str::split_whitespace` collected into words.
fn split_words(s: &str) -> (r: Vec<Vec<char>>)
    ensures
        words_view(r@) == tokens(s@),
{
    let v = str_chars(s);
    let n = v.len();
    let mut out: Vec<Vec<char>> = Vec::new();
    let mut i: usize = 0;
    proof {
        assert(v@.skip(0) =~= v@);
        assert(words_view(out@) + tokens(v@) =~= tokens(v@));
    }
    while i < n
        invariant
            i <= n,
            n == v@.len(),
            v@ == s@,
            tokens(s@) == words_view(out@) + tokens(v@.skip(i as int)),
        decreases n - i,
    {
        if is_ws_exec(v[i]) {
            proof {
                assert(v@.skip(i as int).drop_first() =~= v@.skip(i + 1));
            }
            i = i + 1;
        } else {
            let mut j: usize = i;
            while j < n && !is_ws_exec(v[j])
                invariant
                    i <= j <= n,
                    n == v@.len(),
                    forall|k: int| i <= k < j ==> !is_ws(v@[k]),
                decreases n - j,
            {
                j = j + 1;
            }
            let w = sub_chars(&v, i, j);
            proof {
                let t = v@.skip(i as int);
                assert forall|k: int| 0 <= k < j - i implies !is_ws(t[k]) by {
                    assert(t[k] == v@[i + k]);
                }
                lemma_word_index(t, j - i);
                assert(t.take(j - i) =~= w@);
                assert(t.skip(j - i) =~= v@.skip(j as int));
            }
            let ghost before = words_view(out@);
            out.push(w);
            proof {
                assert(words_view(out@) =~= before.push(w@));
                let rest = tokens(v@.skip(j as int));
                assert(before + (seq![w@] + rest) =~= before.push(w@) + rest);
            }
            i = j;
        }
    }
    proof {
        assert(v@.skip(n as int) =~= Seq::<char>::empty());
        assert(words_view(out@) + Seq::<Seq<char>>::empty() =~= words_view(out@));
    }
    out
}

fn chars_eq(a: &Vec<char>, b: &Vec<char>) -> (r: bool)
    ensures
        r == (a@ == b@),
{
    if a.len() != b.len() {
        return false;
    }
    let mut i: usize = 0;
    while i < a.len()
        invariant
            i <= a@.len(),
            a@.len() == b@.len(),
            forall|k: int| 0 <= k < i ==> a@[k] == b@[k],
        decreases a@.len() - i,
    {
        if a[i] != b[i] {
            return false;
        }
        i = i + 1;
    }
    assert(a@ =~= b@);
    true
}

/// Check whether a stored consent covers `requested_scopes`: every token
/// of the request appears in the grant. An empty request is always covered.
pub fn covers(granted_scopes: &str, requested_scopes: &str) -> (r: bool)
    ensures
        r == covers_spec(granted_scopes@, requested_scopes@),
{
    let granted = split_words(granted_scopes);
    let requested = split_words(requested_scopes);
    let ghost g = tokens(granted_scopes@);
    let ghost q = tokens(requested_scopes@);
    let mut i: usize = 0;
    while i < requested.len()
        invariant
            i <= requested@.len(),
            g == tokens(granted_scopes@),
            q == tokens(requested_scopes@),
            words_view(granted@) == g,
            words_view(requested@) == q,
            forall|k: int| 0 <= k < i ==> g.contains(#[trigger] q[k]),
        decreases requested@.len() - i,
    {
        let mut found = false;
        let mut j: usize = 0;
        while j < granted.len()
            invariant
                j <= granted@.len(),
                i < requested@.len(),
                words_view(granted@) == g,
                words_view(requested@) == q,
                found ==> g.contains(q[i as int]),
                !found ==> forall|k: int| 0 <= k < j ==> g[k] != q[i as int],
            decreases granted@.len() - j,
        {
            if !found && chars_eq(&granted[j], &requested[i]) {
                found = true;
                assert(g[j as int] == q[i as int]);
            }
            j = j + 1;
        }
        if !found {
            assert(!g.contains(q[i as int]));
            assert(q.len() == requested@.len());
            assert(!covers_spec(granted_scopes@, requested_scopes@));
            return false;
        }
        i = i + 1;
    }
    true
}

/// An empty (or all-whitespace) request is covered by any grant.
pub proof fn lemma_empty_request_covered(granted: Seq<char>, requested: Seq<char>)
    requires
        forall|i: int| 0 <= i < requested.len() ==> is_ws(requested[i]),
    ensures
        covers_spec(granted, requested),
    decreases requested.len(),
{
    if requested.len() > 0 {
        let t = requested.drop_first();
        assert forall|i: int| 0 <= i < t.len() implies is_ws(t[i]) by {
            assert(t[i] == requested[i + 1]);
        }
        lemma_empty_request_covered(granted, t);
        assert(tokens(requested) == tokens(t));
    }
}

/// A grant covers a request for exactly what was granted.
pub proof fn lemma_covers_reflexive(granted: Seq<char>)
    ensures
        covers_spec(granted, granted),
{
    assert forall|i: int| 0 <= i < tokens(granted).len() implies tokens(granted).contains(
        #[trigger] tokens(granted)[i],
    ) by {}
}

/// Coverage is transitive: a grant that covers a wider grant covers
/// everything the wider grant covers.
pub proof fn lemma_covers_transitive(a: Seq<char>, b: Seq<char>, c: Seq<char>)
    requires
        covers_spec(a, b),
        covers_spec(b, c),
    ensures
        covers_spec(a, c),
{
    assert forall|i: int| 0 <= i < tokens(c).len() implies tokens(a).contains(
        #[trigger] tokens(c)[i],
    ) by {
        let t = tokens(c)[i];
        assert(tokens(b).contains(t));
        let j = choose|j: int| 0 <= j < tokens(b).len() && tokens(b)[j] == t;
        assert(tokens(a).contains(tokens(b)[j]));
    }
}

} // verus!
