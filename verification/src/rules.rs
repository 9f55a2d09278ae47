//! Recipient rules: the mapping from each secret file's path to the ordered,
//! de-duplicated set of recipient public keys it must be encrypted for.
//!
//! The rules source is written in a host format that an outer layer reads and
//! turns into raw [`RuleEntry`] values; this module validates those raw
//! entries against the schema (every entry names at least one recipient, no
//! recipient key is empty, no secret path is declared twice) and produces the
//! well-formed [`RecipientRules`] table that planning and rekeying work from.

use vstd::prelude::*;
use vstd::string::StrSliceExecFns;

verus! {

/// One raw declaration from the rules source: a secret path and the
/// recipient public keys declared for it, in declaration order.
pub struct RuleEntry {
    pub path: String,
    pub recipients: Vec<String>,
}

impl RuleEntry {
    /// Schema validity of one declaration: at least one recipient, and no
    /// recipient key is the empty string. Keys are otherwise opaque here.
    pub open spec fn schema_ok(self) -> bool {
        &&& self.recipients@.len() > 0
        &&& forall|i: int| 0 <= i < self.recipients@.len() ==> self.recipients@[i]@.len() > 0
    }
}

/// Why a rules source was rejected. Either error is fatal: no plan is formed
/// and no file is touched.
#[derive(Debug)]
pub enum RulesError {
    /// The source is malformed: it could not be read as a list of entries at
    /// all, or it declares the same secret path twice.
    Parse,
    /// An entry breaks the schema — it declares no recipient, or an empty
    /// recipient key. Carries the offending secret path.
    Schema(String),
}

/// Some raw entry breaks the per-entry schema.
pub open spec fn schema_violation(raw: Seq<RuleEntry>) -> bool {
    exists|i: int| 0 <= i < raw.len() && !raw[i].schema_ok()
}

/// Two raw entries declare the same secret path.
pub open spec fn duplicate_path(raw: Seq<RuleEntry>) -> bool {
    exists|i: int, j: int| 0 <= i < j < raw.len() && raw[i].path@ == raw[j].path@
}

/// The keys of `s` in order of first occurrence, each kept once.
pub open spec fn dedup_seq(s: Seq<Seq<char>>) -> Seq<Seq<char>>
    decreases s.len(),
{
    if s.len() == 0 {
        Seq::empty()
    } else {
        let rest = dedup_seq(s.drop_last());
        if rest.contains(s.last()) {
            rest
        } else {
            rest.push(s.last())
        }
    }
}

/// De-duplication keeps exactly the members of the input and introduces no
/// repetition.
pub proof fn lemma_dedup_seq(s: Seq<Seq<char>>)
    ensures
        forall|x: Seq<char>| #[trigger] dedup_seq(s).contains(x) <==> s.contains(x),
        forall|i: int, j: int| 0 <= i < j < dedup_seq(s).len() ==> dedup_seq(s)[i] != dedup_seq(s)[j],
    decreases s.len(),
{
    if s.len() == 0 {
    } else {
        let sdl = s.drop_last();
        lemma_dedup_seq(sdl);
        assert forall|x: Seq<char>| #[trigger] dedup_seq(s).contains(x) implies s.contains(x) by {
            if dedup_seq(sdl).contains(x) {
                let k = choose|k: int| 0 <= k < sdl.len() && sdl[k] == x;
                assert(s[k] == x);
            } else {
                assert(x == s.last());
                assert(s[s.len() - 1] == x);
            }
        }
        assert forall|x: Seq<char>| s.contains(x) implies #[trigger] dedup_seq(s).contains(x) by {
            let k = choose|k: int| 0 <= k < s.len() && s[k] == x;
            if k < s.len() - 1 {
                assert(sdl[k] == x);
                assert(dedup_seq(sdl).contains(x));
                if !dedup_seq(sdl).contains(s.last()) {
                    let m = choose|m: int| 0 <= m < dedup_seq(sdl).len() && dedup_seq(sdl)[m] == x;
                    assert(dedup_seq(s)[m] == x);
                }
            } else {
                assert(x == s.last());
                if dedup_seq(sdl).contains(x) {
                } else {
                    assert(dedup_seq(s).last() == x);
                }
            }
        }
    }
}

/// The validated rules table. Well-formedness: no secret path appears twice,
/// every entry keeps a non-empty, duplicate-free list of non-empty keys.
pub struct RecipientRules {
    entries: Vec<RuleEntry>,
}

impl RecipientRules {
    /// The validated entries, in declaration order.
    pub closed spec fn entries_view(self) -> Seq<RuleEntry> {
        self.entries@
    }

    pub open spec fn wf(self) -> bool {
        &&& forall|i: int, j: int| 0 <= i < j < self.entries_view().len()
                ==> self.entries_view()[i].path@ != self.entries_view()[j].path@
        &&& forall|i: int| 0 <= i < self.entries_view().len()
                ==> (#[trigger] self.entries_view()[i]).schema_ok()
        &&& forall|i: int| 0 <= i < self.entries_view().len()
                ==> no_repeats((#[trigger] self.entries_view()[i]).recipients.deep_view())
    }

    /// Whether the rules declare recipients for `p`.
    pub open spec fn declares(self, p: Seq<char>) -> bool {
        exists|i: int| 0 <= i < self.entries_view().len()
            && (#[trigger] self.entries_view()[i]).path@ == p
    }

    /// The recipient keys declared for `p` (meaningful only when `declares(p)`).
    pub open spec fn recipients_for(self, p: Seq<char>) -> Seq<Seq<char>> {
        let i = choose|i: int| 0 <= i < self.entries_view().len()
            && (#[trigger] self.entries_view()[i]).path@ == p;
        self.entries_view()[i].recipients.deep_view()
    }

    /// All declared secret paths, in declaration order.
    pub open spec fn paths(self) -> Seq<Seq<char>> {
        Seq::new(self.entries_view().len(), |i: int| self.entries_view()[i].path@)
    }

    /// The number of declared secrets.
    pub fn len(&self) -> (n: usize)
        ensures
            n == self.entries_view().len(),
    {
        self.entries.len()
    }

    /// The path of the `i`-th declaration.
    pub fn path_at(&self, i: usize) -> (p: &String)
        requires
            i < self.entries_view().len(),
        ensures
            p@ == self.paths()[i as int],
    {
        &self.entries[i].path
    }

    /// The recipients declared for `path`, or `None` when no entry covers it.
    pub fn lookup(&self, path: &String) -> (r: Option<Vec<String>>)
        requires
            self.wf(),
        ensures
            match r {
                Some(v) => self.declares(path@) && v.deep_view() == self.recipients_for(path@)
                    && v@.len() > 0,
                None => !self.declares(path@),
            },
    {
        let n = self.entries.len();
        let mut i: usize = 0;
        while i < n
            invariant
                self.wf(),
                n == self.entries_view().len(),
                i <= n,
                forall|k: int| 0 <= k < i ==> (#[trigger] self.entries_view()[k]).path@ != path@,
            decreases n - i,
        {
            if self.entries[i].path == *path {
                let v = clone_keys(&self.entries[i].recipients);
                proof {
                    let w = choose|w: int| 0 <= w < self.entries_view().len()
                        && (#[trigger] self.entries_view()[w]).path@ == path@;
                    assert(self.entries_view()[i as int].path@ == path@);
                    assert(w == i as int);
                }
                return Some(v);
            }
            i += 1;
        }
        None
    }
}

/// No element of `s` occurs twice.
pub open spec fn no_repeats(s: Seq<Seq<char>>) -> bool {
    forall|i: int, j: int| 0 <= i < j < s.len() ==> s[i] != s[j]
}

/// A fresh copy of a key list, equal element by element.
fn clone_keys(v: &Vec<String>) -> (r: Vec<String>)
    ensures
        r@ == v@,
        r.deep_view() == v.deep_view(),
{
    let mut r: Vec<String> = Vec::new();
    let mut i: usize = 0;
    while i < v.len()
        invariant
            i <= v@.len(),
            r@ =~= v@.subrange(0, i as int),
        decreases v@.len() - i,
    {
        r.push(v[i].clone());
        i += 1;
    }
    assert(r@ =~= v@);
    assert(r.deep_view() =~= v.deep_view());
    r
}

/// True exactly when `v` holds a key equal to `s`.
pub(crate) fn contains_key(v: &Vec<String>, s: &String) -> (r: bool)
    ensures
        r == v.deep_view().contains(s@),
{
    let mut i: usize = 0;
    while i < v.len()
        invariant
            i <= v@.len(),
            forall|k: int| 0 <= k < i ==> v.deep_view()[k] != s@,
        decreases v@.len() - i,
    {
        if v[i] == *s {
            assert(v.deep_view()[i as int] == s@);
            return true;
        }
        i += 1;
    }
    false
}

/// The keys of `v` in order of first occurrence, each kept once.
pub fn dedup_keys(v: &Vec<String>) -> (r: Vec<String>)
    ensures
        r.deep_view() == dedup_seq(v.deep_view()),
{
    let mut out: Vec<String> = Vec::new();
    let mut i: usize = 0;
    while i < v.len()
        invariant
            i <= v@.len(),
            out.deep_view() == dedup_seq(v.deep_view().subrange(0, i as int)),
        decreases v@.len() - i,
    {
        let ghost pre = v.deep_view().subrange(0, i as int);
        let ghost cur = v.deep_view().subrange(0, i as int + 1);
        proof {
            assert(cur.drop_last() =~= pre);
            assert(cur.last() == v.deep_view()[i as int]);
        }
        if !contains_key(&out, &v[i]) {
            let ghost old_out = out.deep_view();
            out.push(v[i].clone());
            proof {
                assert(out.deep_view() =~= old_out.push(v.deep_view()[i as int]));
            }
        }
        i += 1;
    }
    proof {
        assert(v.deep_view().subrange(0, v@.len() as int) =~= v.deep_view());
    }
    out
}

/// Validates raw declarations into a rules table. Fails with
/// [`RulesError::Schema`] when any entry declares no recipient or an empty
/// key, and otherwise with [`RulesError::Parse`] when a secret path is
/// declared twice; succeeds exactly when neither holds, keeping declaration
/// order and de-duplicating each entry's recipients.
pub fn resolve(raw: Vec<RuleEntry>) -> (r: Result<RecipientRules, RulesError>)
    ensures
        match r {
            Ok(rules) => {
                &&& !schema_violation(raw@)
                &&& !duplicate_path(raw@)
                &&& rules.wf()
                &&& rules.entries_view().len() == raw@.len()
                &&& forall|i: int| 0 <= i < raw@.len()
                    ==> (#[trigger] rules.entries_view()[i]).path@ == raw@[i].path@
                &&& forall|i: int| 0 <= i < raw@.len()
                    ==> (#[trigger] rules.entries_view()[i]).recipients.deep_view()
                        == dedup_seq(raw@[i].recipients.deep_view())
            },
            Err(RulesError::Schema(p)) => schema_violation(raw@)
                && exists|i: int| 0 <= i < raw@.len() && !(#[trigger] raw@[i]).schema_ok()
                    && raw@[i].path@ == p@,
            Err(RulesError::Parse) => !schema_violation(raw@) && duplicate_path(raw@),
        },
{
    let n = raw.len();
    let mut i: usize = 0;
    while i < n
        invariant
            n == raw@.len(),
            i <= n,
            forall|k: int| 0 <= k < i ==> (#[trigger] raw@[k]).schema_ok(),
        decreases n - i,
    {
        if raw[i].recipients.len() == 0 {
            return Err(RulesError::Schema(raw[i].path.clone()));
        }
        let m = raw[i].recipients.len();
        let mut j: usize = 0;
        while j < m
            invariant
                n == raw@.len(),
                i < n,
                m == raw@[i as int].recipients@.len(),
                j <= m,
                forall|k: int| 0 <= k < j ==> (#[trigger] raw@[i as int].recipients@[k])@.len() > 0,
            decreases m - j,
        {
            if raw[i].recipients[j].as_str().unicode_len() == 0 {
                return Err(RulesError::Schema(raw[i].path.clone()));
            }
            j += 1;
        }
        assert(raw@[i as int].schema_ok());
        i += 1;
    }
    // Every entry passes the schema; now reject duplicates and build.
    let mut entries: Vec<RuleEntry> = Vec::new();
    let mut seen: Vec<String> = Vec::new();
    let mut i: usize = 0;
    while i < n
        invariant
            n == raw@.len(),
            i <= n,
            forall|k: int| 0 <= k < n ==> (#[trigger] raw@[k]).schema_ok(),
            entries@.len() == i,
            seen@.len() == i,
            forall|k: int| 0 <= k < i ==> (#[trigger] seen.deep_view()[k]) == raw@[k].path@,
            forall|k: int| 0 <= k < i ==> (#[trigger] entries@[k]).path@ == raw@[k].path@,
            forall|k: int| 0 <= k < i ==> (#[trigger] entries@[k]).recipients.deep_view()
                == dedup_seq(raw@[k].recipients.deep_view()),
            forall|a: int, b: int| 0 <= a < b < i ==> raw@[a].path@ != raw@[b].path@,
        decreases n - i,
    {
        if contains_key(&seen, &raw[i].path) {
            proof {
                let k = choose|k: int| 0 <= k < seen.deep_view().len()
                    && seen.deep_view()[k] == raw[i as int].path@;
                assert(raw@[k].path@ == raw@[i as int].path@);
            }
            return Err(RulesError::Parse);
        }
        proof {
            assert forall|a: int| 0 <= a < i as int
                implies raw@[a].path@ != raw@[i as int].path@ by {
                if raw@[a].path@ == raw@[i as int].path@ {
                    assert(seen.deep_view()[a] == raw@[a].path@);
                    assert(seen.deep_view().contains(raw@[i as int].path@));
                }
            }
        }
        let recipients = dedup_keys(&raw[i].recipients);
        proof {
            lemma_dedup_seq(raw@[i as int].recipients.deep_view());
        }
        let entry = RuleEntry { path: raw[i].path.clone(), recipients };
        entries.push(entry);
        let ghost old_seen = seen@;
        let ghost old_dv = seen.deep_view();
        seen.push(raw[i].path.clone());
        proof {
            assert forall|k: int| 0 <= k < i as int + 1
                implies (#[trigger] seen.deep_view()[k]) == raw@[k].path@ by {
                if k < i as int {
                    assert(seen@[k] == old_seen[k]);
                    assert(seen.deep_view()[k] == seen@[k]@);
                    assert(old_dv[k] == old_seen[k]@);
                } else {
                    assert(seen.deep_view()[k] == seen@[k]@);
                    assert(seen@[k]@ == raw@[k].path@);
                }
            }
        }
        i += 1;
    }
    let rules = RecipientRules { entries };
    proof {
        assert forall|k: int| 0 <= k < rules.entries_view().len()
            implies (#[trigger] rules.entries_view()[k]).schema_ok()
                && no_repeats(rules.entries_view()[k].recipients.deep_view()) by {
            let orig = raw@[k].recipients.deep_view();
            lemma_dedup_seq(orig);
            let ded = rules.entries_view()[k].recipients.deep_view();
            assert(ded == dedup_seq(orig));
            assert(raw@[k].schema_ok());
            assert(orig.contains(orig[0]));
            assert(ded.contains(orig[0]));
            assert(ded.len() > 0);
            assert forall|t: int| 0 <= t < ded.len()
                implies (#[trigger] rules.entries_view()[k].recipients@[t])@.len() > 0 by {
                assert(ded[t] == rules.entries_view()[k].recipients@[t]@);
                assert(ded.contains(ded[t]));
                let u = choose|u: int| 0 <= u < orig.len() && orig[u] == ded[t];
                assert(raw@[k].recipients@[u]@.len() > 0);
            }
        }
    }
    Ok(rules)
}

} // verus!
