//! Canonicalization outcomes, handed to the library as plain values.
//!
//! Canonicalizing a path needs the outside world (the filesystem, the
//! working directory), so the caller performs it and passes the outcomes in
//! as a table from path to canonical form; a missing entry or a `None`
//! outcome both mean "could not be canonicalized". The lexical parent
//! computed here tells the caller which extra paths to canonicalize for the
//! parent-directory fallback, and the classifiers use the same function, so
//! the two sides always agree on the key.

use vstd::prelude::*;
use crate::strutil::substring;

verus! {

/// One canonicalization outcome: `resolved` is `None` when the path could
/// not be canonicalized.
#[derive(Clone, Debug)]
pub struct PathEntry {
    pub path: String,
    pub resolved: Option<String>,
}

/// Mathematical model of a `PathEntry`.
#[verifier::ext_equal]
pub ghost struct PathEntryModel {
    pub path: Seq<char>,
    pub resolved: Option<Seq<char>>,
}

impl View for PathEntry {
    type V = PathEntryModel;

    open spec fn view(&self) -> PathEntryModel {
        PathEntryModel { path: self.path@, resolved: self.resolved.deep_view() }
    }
}

impl DeepView for PathEntry {
    type V = PathEntryModel;

    open spec fn deep_view(&self) -> PathEntryModel {
        self.view()
    }
}

/// The table of canonicalization outcomes gathered before an analysis.
#[derive(Clone, Debug)]
pub struct Resolutions {
    pub entries: Vec<PathEntry>,
}

impl View for Resolutions {
    type V = Seq<PathEntryModel>;

    open spec fn view(&self) -> Seq<PathEntryModel> {
        self.entries.deep_view()
    }
}

/// First-match lookup of a path in the table.
pub open spec fn spec_lookup(entries: Seq<PathEntryModel>, key: Seq<char>) -> Option<
    Option<Seq<char>>,
>
    decreases entries.len(),
{
    if entries.len() == 0 {
        None
    } else if entries[0].path == key {
        Some(entries[0].resolved)
    } else {
        spec_lookup(entries.subrange(1, entries.len() as int), key)
    }
}

/// The canonical form the table gives for a path: a missing entry and a
/// failed canonicalization are the same thing, "could not be canonicalized".
pub open spec fn spec_resolution_of(entries: Seq<PathEntryModel>, key: Seq<char>) -> Option<
    Seq<char>,
> {
    match spec_lookup(entries, key) {
        Some(Some(r)) => Some(r),
        _ => None,
    }
}

impl Resolutions {
    /// An empty table: nothing can be proven canonicalized.
    pub fn new() -> (r: Resolutions)
        ensures
            r@ == Seq::<PathEntryModel>::empty(),
    {
        let r = Resolutions { entries: Vec::new() };
        proof {
            assert(r@ =~= Seq::<PathEntryModel>::empty());
        }
        r
    }

    /// Record one canonicalization outcome.
    pub fn push(&mut self, path: String, resolved: Option<String>)
        ensures
            final(self)@ == old(self)@.push(
                PathEntryModel { path: path@, resolved: resolved.deep_view() },
            ),
    {
        let ghost pre = self@;
        let entry = PathEntry { path, resolved };
        let ghost em = entry@;
        self.entries.push(entry);
        proof {
            assert(self@ =~= pre.push(em));
        }
    }

    /// The canonical form recorded for `key`, if any.
    pub fn resolution_of(&self, key: &str) -> (r: Option<String>)
        ensures
            r.deep_view() == spec_resolution_of(self@, key@),
    {
        let ghost ev = self@;
        let mut i: usize = 0;
        proof {
            assert(ev.subrange(0, ev.len() as int) =~= ev);
        }
        while i < self.entries.len()
            invariant
                i <= self.entries@.len(),
                ev == self.entries.deep_view(),
                spec_lookup(ev, key@) == spec_lookup(
                    ev.subrange(i as int, ev.len() as int),
                    key@,
                ),
            decreases self.entries@.len() - i,
        {
            proof {
                let sub = ev.subrange(i as int, ev.len() as int);
                assert(sub[0] == ev[i as int]);
                assert(ev[i as int] == self.entries@[i as int]@);
                assert(sub.subrange(1, sub.len() as int) =~= ev.subrange(
                    i as int + 1,
                    ev.len() as int,
                ));
            }
            if crate::strutil::str_eq(self.entries[i].path.as_str(), key) {
                match &self.entries[i].resolved {
                    Some(r) => {
                        return Some(r.clone());
                    },
                    None => {
                        return None;
                    },
                }
            }
            i += 1;
        }
        proof {
            assert(ev.subrange(ev.len() as int, ev.len() as int).len() == 0);
        }
        None
    }
}

// ---------------------------------------------------------------------------
// lexical parent
// ---------------------------------------------------------------------------

/// The string with trailing `/` characters removed.
pub open spec fn spec_rstrip_slash(s: Seq<char>) -> Seq<char>
    decreases s.len(),
{
    if s.len() > 0 && s.last() == '/' {
        spec_rstrip_slash(s.drop_last())
    } else {
        s
    }
}

proof fn lemma_rstrip_slash(s: Seq<char>, e: int)
    requires
        0 <= e <= s.len(),
        forall|j: int| e <= j < s.len() ==> s[j] == '/',
        e > 0 ==> s[e - 1] != '/',
    ensures
        spec_rstrip_slash(s) == s.subrange(0, e),
    decreases s.len() - e,
{
    if e == s.len() {
        if s.len() > 0 {
            assert(s.last() != '/');
        }
        assert(s.subrange(0, s.len() as int) =~= s);
    } else {
        assert(s.last() == '/');
        let front = s.drop_last();
        assert(front =~= s.subrange(0, s.len() - 1));
        lemma_rstrip_slash(front, e);
        assert(front.subrange(0, e) =~= s.subrange(0, e));
    }
}

/// The last position of `c` in `s`, if any.
pub open spec fn spec_rfind(s: Seq<char>, c: char) -> Option<int>
    decreases s.len(),
{
    if s.len() == 0 {
        None
    } else if s.last() == c {
        Some(s.len() - 1)
    } else {
        spec_rfind(s.drop_last(), c)
    }
}

proof fn lemma_rfind_hit(s: Seq<char>, c: char, k: int)
    requires
        0 <= k < s.len(),
        s[k] == c,
        forall|j: int| k < j < s.len() ==> s[j] != c,
    ensures
        spec_rfind(s, c) == Some(k),
    decreases s.len(),
{
    if k == s.len() - 1 {
    } else {
        assert(s.last() != c);
        let front = s.drop_last();
        assert(front =~= s.subrange(0, s.len() - 1));
        lemma_rfind_hit(front, c, k);
    }
}

proof fn lemma_rfind_none(s: Seq<char>, c: char)
    requires
        forall|j: int| 0 <= j < s.len() ==> s[j] != c,
    ensures
        spec_rfind(s, c) is None,
    decreases s.len(),
{
    if s.len() > 0 {
        let front = s.drop_last();
        assert(front =~= s.subrange(0, s.len() - 1));
        lemma_rfind_none(front, c);
    }
}

/// The lexical parent of a path: trailing slashes dropped, then the final
/// component dropped together with the slashes before it. The root and the
/// empty path have no parent; a bare file name's parent is the empty
/// string.
pub open spec fn spec_parent(p: Seq<char>) -> Option<Seq<char>> {
    let t = spec_rstrip_slash(p);
    if t.len() == 0 {
        None
    } else {
        match spec_rfind(t, '/') {
            Some(k) => {
                let q = spec_rstrip_slash(t.subrange(0, k));
                if q.len() == 0 {
                    Some(seq!['/'])
                } else {
                    Some(q)
                }
            },
            None => Some(Seq::empty()),
        }
    }
}

/// Find the length of `s@` with trailing slashes dropped.
fn rstrip_slash_len(s: &str, upto: usize) -> (e: usize)
    requires
        upto <= s@.len(),
    ensures
        e <= upto,
        spec_rstrip_slash(s@.subrange(0, upto as int)) == s@.subrange(0, e as int),
{
    let mut e = upto;
    while e > 0 && s.get_char(e - 1) == '/'
        invariant
            e <= upto <= s@.len(),
            forall|j: int| e <= j < upto ==> s@[j] == '/',
        decreases e,
    {
        e -= 1;
    }
    proof {
        let sub = s@.subrange(0, upto as int);
        lemma_rstrip_slash(sub, e as int);
        assert(sub.subrange(0, e as int) =~= s@.subrange(0, e as int));
    }
    e
}

/// The lexical parent of a path.
pub fn lexical_parent(p: &str) -> (r: Option<String>)
    ensures
        r.deep_view() == spec_parent(p@),
{
    let len = p.unicode_len();
    let e = rstrip_slash_len(p, len);
    proof {
        assert(p@.subrange(0, len as int) =~= p@);
    }
    if e == 0 {
        return None;
    }
    // Search for the last '/' among the first e characters.
    let ghost t = p@.subrange(0, e as int);
    let mut k: usize = e;
    while k > 0 && p.get_char(k - 1) != '/'
        invariant
            k <= e <= p@.len(),
            t == p@.subrange(0, e as int),
            forall|j: int| k <= j < e ==> t[j] != '/',
        decreases k,
    {
        k -= 1;
    }
    if k == 0 {
        proof {
            lemma_rfind_none(t, '/');
        }
        return Some(String::new());
    }
    proof {
        assert(t[k - 1] == '/');
        lemma_rfind_hit(t, '/', k - 1);
    }
    let q = rstrip_slash_len(p, k - 1);
    proof {
        assert(t.subrange(0, k - 1) =~= p@.subrange(0, k - 1));
    }
    if q == 0 {
        let r = "/".to_owned();
        proof {
            reveal_strlit("/");
            assert("/"@ =~= seq!['/']);
        }
        Some(r)
    } else {
        Some(substring(p, 0, q))
    }
}

} // verus!
