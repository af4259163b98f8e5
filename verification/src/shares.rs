use vstd::prelude::*;
use vstd::utf8::encode_utf8;
use crate::text::{chars_of, decimal, lemma_decimal_injective, lemma_less_asymmetric, lemma_less_irreflexive, lemma_less_total, lemma_less_transitive, less_text, push_all, push_str, string_of, text_less, to_decimal, trim, trim_chars};
use crate::network::{ResourceType, SharedResource};
use vstd::string::StringSliceAdditionalSpecFns;

verus! {

/// (name, path) pairs as text.
pub open spec fn pair_texts(v: Seq<(String, String)>) -> Seq<(Seq<char>, Seq<char>)> {
    v.map_values(|e: (String, String)| (e.0@, e.1@))
}

/// The folders a device shares: a display name for each, mapped to the
/// local path it stands for, kept in name order.
pub struct Shares {
    entries: Vec<(String, String)>,
}

impl Shares {
    /// The names, strictly increasing.
    pub closed spec fn wf(&self) -> bool {
        forall|i: int, j: int|
            0 <= i < j < self.entries@.len() ==> text_less(
                (#[trigger] self.entries@[i]).0@,
                (#[trigger] self.entries@[j]).0@,
            )
    }

    /// The shares in name order, as (name, path) texts.
    pub closed spec fn pairs(&self) -> Seq<(Seq<char>, Seq<char>)> {
        pair_texts(self.entries@)
    }

    /// The shares as a map from name to path.
    pub open spec fn view_map(&self) -> Map<Seq<char>, Seq<char>> {
        Map::new(
            |k: Seq<char>| exists|i: int| 0 <= i < self.pairs().len() && (#[trigger] self.pairs()[i]).0 == k,
            |k: Seq<char>| self.pairs()[self.index_of(k)].1,
        )
    }

    /// Where the share called `k` stands.
    pub closed spec fn index_of(&self, k: Seq<char>) -> int {
        choose|i: int| 0 <= i < self.pairs().len() && (#[trigger] self.pairs()[i]).0 == k
    }

    /// The names of the shares, in order.
    pub open spec fn names(&self) -> Seq<Seq<char>> {
        self.pairs().map_values(|p: (Seq<char>, Seq<char>)| p.0)
    }

    pub proof fn lemma_wf_sorted(&self)
        requires
            self.wf(),
        ensures
            forall|i: int, j: int|
                0 <= i < j < self.pairs().len() ==> text_less(
                    (#[trigger] self.pairs()[i]).0,
                    (#[trigger] self.pairs()[j]).0,
                ),
    {
        assert forall|i: int, j: int| 0 <= i < j < self.pairs().len() implies text_less(
            (#[trigger] self.pairs()[i]).0,
            (#[trigger] self.pairs()[j]).0,
        ) by {
            assert(self.pairs()[i].0 == self.entries@[i].0@);
            assert(self.pairs()[j].0 == self.entries@[j].0@);
        }
    }

    /// No share.
    pub fn new() -> (r: Self)
        ensures
            r.wf(),
            r.pairs().len() == 0,
    {
        Shares { entries: Vec::new() }
    }

    /// How many shares there are.
    pub fn len(&self) -> (r: usize)
        ensures
            r == self.pairs().len(),
    {
        self.entries.len()
    }

    /// Whether there is no share.
    pub fn is_empty(&self) -> (r: bool)
        ensures
            r == (self.pairs().len() == 0),
    {
        self.entries.len() == 0
    }

    /// Where the first share with a name not below `name` stands, and
    /// whether its name is `name`.
    fn locate(&self, name: &str) -> (r: (usize, bool))
        requires
            self.wf(),
        ensures
            r.0 <= self.pairs().len(),
            forall|i: int| 0 <= i < r.0 ==> text_less((#[trigger] self.pairs()[i]).0, name@),
            r.1 == (r.0 < self.pairs().len() && self.pairs()[r.0 as int].0 == name@),
            !r.1 ==> forall|i: int| r.0 <= i < self.pairs().len() ==> text_less(name@, (#[trigger] self.pairs()[i]).0),
    {
        proof {
            self.lemma_wf_sorted();
        }
        let mut i: usize = 0;
        while i < self.entries.len() && less_text(self.entries[i].0.as_str(), name)
            invariant
                0 <= i <= self.entries@.len(),
                self.wf(),
                forall|a: int, b: int|
                    0 <= a < b < self.pairs().len() ==> text_less((#[trigger] self.pairs()[a]).0, (#[trigger] self.pairs()[b]).0),
                forall|j: int| 0 <= j < i ==> text_less((#[trigger] self.pairs()[j]).0, name@),
            decreases self.entries.len() - i,
        {
            assert(self.pairs()[i as int].0 == self.entries@[i as int].0@);
            i = i + 1;
        }
        if i == self.entries.len() {
            return (i, false);
        }
        let eq = crate::text::same_text(self.entries[i].0.as_str(), name);
        proof {
            let p = self.pairs()[i as int].0;
            assert(p == self.entries@[i as int].0@);
            assert(!text_less(p, name@));
            if !eq {
                lemma_less_total(p, name@);
                assert forall|j: int| i <= j < self.pairs().len() implies text_less(name@, (#[trigger] self.pairs()[j]).0) by {
                    if j > i {
                        lemma_less_transitive(name@, p, self.pairs()[j].0);
                    }
                }
            }
        }
        (i, eq)
    }

    proof fn lemma_lookup(&self, i: int)
        requires
            self.wf(),
            0 <= i < self.pairs().len(),
        ensures
            self.view_map().contains_key(self.pairs()[i].0),
            self.view_map()[self.pairs()[i].0] == self.pairs()[i].1,
    {
        self.lemma_wf_sorted();
        let k = self.pairs()[i].0;
        assert(exists|j: int| 0 <= j < self.pairs().len() && (#[trigger] self.pairs()[j]).0 == k);
        let j = self.index_of(k);
        if j != i {
            lemma_less_irreflexive(k);
            if j < i {
                assert(text_less(self.pairs()[j].0, self.pairs()[i].0));
            } else {
                assert(text_less(self.pairs()[i].0, self.pairs()[j].0));
            }
        }
    }

    /// The path shared under `name`, if any.
    pub fn get(&self, name: &str) -> (r: Option<String>)
        requires
            self.wf(),
        ensures
            match r {
                Some(p) => self.view_map().contains_key(name@) && p@ == self.view_map()[name@],
                None => !self.view_map().contains_key(name@),
            },
    {
        let (i, found) = self.locate(name);
        if found {
            proof {
                self.lemma_lookup(i as int);
                assert(self.pairs()[i as int].1 == self.entries@[i as int].1@);
            }
            Some(self.entries[i].1.clone())
        } else {
            proof {
                if self.view_map().contains_key(name@) {
                    let j = choose|j: int| 0 <= j < self.pairs().len() && (#[trigger] self.pairs()[j]).0 == name@;
                    if j < i {
                        lemma_less_irreflexive(name@);
                    } else {
                        lemma_less_irreflexive(name@);
                    }
                }
            }
            None
        }
    }

    proof fn lemma_key_at(&self, k: Seq<char>, i: int)
        requires
            self.wf(),
            0 <= i < self.pairs().len(),
            self.pairs()[i].0 == k,
        ensures
            self.view_map().contains_key(k),
            self.view_map()[k] == self.pairs()[i].1,
    {
        self.lemma_lookup(i);
    }

    /// Shares `path` under `name`, replacing what `name` stood for before.
    pub fn insert(&mut self, name: String, path: String)
        requires
            old(self).wf(),
        ensures
            final(self).wf(),
            final(self).view_map() == old(self).view_map().insert(name@, path@),
    {
        let (i, found) = self.locate(name.as_str());
        let ghost op = self.pairs();
        let ghost n = name@;
        let ghost pv = path@;
        proof {
            self.lemma_wf_sorted();
        }
        if found {
            self.entries.set(i, (name, path));
        } else {
            self.entries.insert(i, (name, path));
        }
        let ghost np = self.pairs();
        proof {
            if found {
                assert(np =~= op.update(i as int, (n, pv)));
            } else {
                assert(np =~= op.insert(i as int, (n, pv)));
            }
            assert forall|a: int, b: int| 0 <= a < b < self.entries@.len() implies text_less(
                (#[trigger] self.entries@[a]).0@,
                (#[trigger] self.entries@[b]).0@,
            ) by {
                assert(np[a].0 == self.entries@[a].0@);
                assert(np[b].0 == self.entries@[b].0@);
                if found {
                    if a != i && b != i {
                        assert(text_less(op[a].0, op[b].0));
                    } else if a == i {
                        assert(text_less(op[a].0, op[b].0));
                    } else {
                        assert(text_less(op[a].0, op[b].0));
                    }
                } else {
                    if b < i {
                        assert(text_less(op[a].0, op[b].0));
                    } else if a > i {
                        assert(text_less(op[a - 1].0, op[b - 1].0));
                    } else if a == i {
                        assert(text_less(n, op[b - 1].0));
                    } else if b == i {
                        assert(text_less(op[a].0, n));
                    } else {
                        assert(text_less(op[a].0, op[b - 1].0));
                    }
                }
            }
            let om = old(self).view_map();
            let nm = self.view_map();
            let target = om.insert(n, pv);
            assert forall|k: Seq<char>| #[trigger] nm.contains_key(k) == target.contains_key(k) && (nm.contains_key(k) ==> nm[k] == target[k]) by {
                if k == n {
                    self.lemma_key_at(k, i as int);
                } else if om.contains_key(k) {
                    let j = choose|j: int| 0 <= j < op.len() && (#[trigger] op[j]).0 == k;
                    old(self).lemma_key_at(k, j);
                    if found || j < i {
                        self.lemma_key_at(k, j);
                    } else {
                        assert(np[j + 1] == op[j]);
                        self.lemma_key_at(k, j + 1);
                    }
                } else if nm.contains_key(k) {
                    let j = choose|j: int| 0 <= j < np.len() && (#[trigger] np[j]).0 == k;
                    if found || j < i {
                        assert(op[j] == np[j]);
                        old(self).lemma_key_at(k, j);
                    } else if j > i {
                        assert(np[j] == op[j - 1]);
                        old(self).lemma_key_at(k, j - 1);
                    }
                }
            }
            assert(nm =~= target);
        }
    }

    /// Stops sharing whatever is called `name`.
    pub fn remove(&mut self, name: &str)
        requires
            old(self).wf(),
        ensures
            final(self).wf(),
            final(self).view_map() == old(self).view_map().remove(name@),
    {
        let (i, found) = self.locate(name);
        if !found {
            proof {
                if old(self).view_map().contains_key(name@) {
                    let j = choose|j: int| 0 <= j < self.pairs().len() && (#[trigger] self.pairs()[j]).0 == name@;
                    lemma_less_irreflexive(name@);
                }
                assert(self.view_map() =~= old(self).view_map().remove(name@));
            }
            return;
        }
        let ghost op = self.pairs();
        proof {
            self.lemma_wf_sorted();
        }
        self.entries.remove(i);
        let ghost np = self.pairs();
        proof {
            assert(np =~= op.remove(i as int));
            assert forall|a: int, b: int| 0 <= a < b < self.entries@.len() implies text_less(
                (#[trigger] self.entries@[a]).0@,
                (#[trigger] self.entries@[b]).0@,
            ) by {
                assert(np[a].0 == self.entries@[a].0@);
                assert(np[b].0 == self.entries@[b].0@);
                if b < i {
                    assert(text_less(op[a].0, op[b].0));
                } else if a >= i {
                    assert(text_less(op[a + 1].0, op[b + 1].0));
                } else {
                    assert(text_less(op[a].0, op[b + 1].0));
                }
            }
            let om = old(self).view_map();
            let nm = self.view_map();
            let target = om.remove(name@);
            assert forall|k: Seq<char>| #[trigger] nm.contains_key(k) == target.contains_key(k) && (nm.contains_key(k) ==> nm[k] == target[k]) by {
                if k == name@ {
                    if nm.contains_key(k) {
                        let j = choose|j: int| 0 <= j < np.len() && (#[trigger] np[j]).0 == k;
                        lemma_less_irreflexive(k);
                        if j < i {
                            assert(np[j] == op[j]);
                            assert(text_less(op[j].0, op[i as int].0));
                        } else {
                            assert(np[j] == op[j + 1]);
                            assert(text_less(op[i as int].0, op[j + 1].0));
                        }
                    }
                } else if om.contains_key(k) {
                    let j = choose|j: int| 0 <= j < op.len() && (#[trigger] op[j]).0 == k;
                    old(self).lemma_key_at(k, j);
                    if j < i {
                        self.lemma_key_at(k, j);
                    } else {
                        assert(j != i);
                        assert(np[j - 1] == op[j]);
                        self.lemma_key_at(k, j - 1);
                    }
                } else if nm.contains_key(k) {
                    let j = choose|j: int| 0 <= j < np.len() && (#[trigger] np[j]).0 == k;
                    if j < i {
                        assert(op[j] == np[j]);
                        old(self).lemma_key_at(k, j);
                    } else {
                        assert(np[j] == op[j + 1]);
                        old(self).lemma_key_at(k, j + 1);
                    }
                }
            }
            assert(nm =~= target);
        }
    }

    /// The shares in name order, as (name, path) pairs.
    pub fn entries(&self) -> (r: Vec<(String, String)>)
        ensures
            pair_texts(r@) == self.pairs(),
    {
        let mut r: Vec<(String, String)> = Vec::new();
        let mut i: usize = 0;
        while i < self.entries.len()
            invariant
                0 <= i <= self.entries@.len(),
                self.pairs().len() == self.entries@.len(),
                r@.len() == i,
                pair_texts(r@) == self.pairs().take(i as int),
            decreases self.entries.len() - i,
        {
            let e = (self.entries[i].0.clone(), self.entries[i].1.clone());
            let ghost before = r@;
            r.push(e);
            assert(self.pairs()[i as int] == (self.entries@[i as int].0@, self.entries@[i as int].1@));
            assert(r@ == before.push(e));
            assert(e.0@ == self.entries@[i as int].0@);
            assert(pair_texts(r@)[i as int] == self.pairs()[i as int]);
            assert forall|k: int| 0 <= k < i implies pair_texts(r@)[k] == self.pairs()[k] by {
                assert(r@[k] == before[k]);
                assert(pair_texts(before)[k] == self.pairs().take(i as int)[k]);
            }
            assert(pair_texts(r@) =~= self.pairs().take(i as int + 1));
            i = i + 1;
        }
        assert(self.pairs().take(self.pairs().len() as int) =~= self.pairs());
        r
    }

    /// Whether a share is called `name`.
    pub fn contains_key(&self, name: &str) -> (r: bool)
        requires
            self.wf(),
        ensures
            r == self.view_map().contains_key(name@),
    {
        self.get(name).is_some()
    }
}


/// A path separator becomes a dash, so that a share name is one path segment.
pub open spec fn fold_separator(c: char) -> char {
    if c == '/' || c == '\\' {
        '-'
    } else {
        c
    }
}

/// The name a share is stored under: trimmed, with `/` and `\` turned into
/// `-`, and `Shared folder` when nothing is left.
pub open spec fn sanitized(name: Seq<char>) -> Seq<char> {
    let cleaned = trim(trim(name).map_values(|c: char| fold_separator(c)));
    if cleaned.len() == 0 {
        "Shared folder"@
    } else {
        cleaned
    }
}

/// Cleans a share name as `sanitized` says.
pub fn sanitize_name(name: &str) -> (r: String)
    ensures
        r@ == sanitized(name@),
{
    let raw = chars_of(name);
    let t = trim_chars(&raw);
    let mut mapped: Vec<char> = Vec::new();
    let mut i: usize = 0;
    while i < t.len()
        invariant
            0 <= i <= t.len(),
            mapped@ == t@.take(i as int).map_values(|c: char| fold_separator(c)),
        decreases t.len() - i,
    {
        let c = t[i];
        let d = if c == '/' || c == '\\' {
            '-'
        } else {
            c
        };
        mapped.push(d);
        assert(mapped@ =~= t@.take(i as int + 1).map_values(|c: char| fold_separator(c)));
        i = i + 1;
    }
    assert(t@.take(t@.len() as int) =~= t@);
    let cleaned = trim_chars(&mapped);
    if cleaned.len() == 0 {
        "Shared folder".to_owned()
    } else {
        string_of(cleaned.as_slice())
    }
}

/// The `t`-th name tried for a share whose clean name is `base`: `base`
/// itself first, then `base (2)`, `base (3)`, and so on.
pub open spec fn candidate(base: Seq<char>, t: nat) -> Seq<char> {
    if t <= 1 {
        base
    } else {
        base + " ("@ + decimal(t) + ")"@
    }
}

proof fn lemma_candidate_injective(base: Seq<char>, s: nat, t: nat)
    requires
        1 <= s,
        1 <= t,
        candidate(base, s) == candidate(base, t),
    ensures
        s == t,
{
    reveal_strlit(" (");
    reveal_strlit(")");
    if s > 1 && t > 1 {
        let a = candidate(base, s);
        let n: int = base.len() as int + 2;
        assert(decimal(s) =~= a.subrange(n, a.len() - 1));
        assert(decimal(t) =~= a.subrange(n, a.len() - 1));
        lemma_decimal_injective(s, t);
    } else if s > 1 || t > 1 {
        assert(candidate(base, s).len() != candidate(base, t).len());
    }
}

/// Shares `path` under the first free name built from `name` (see
/// `candidate`), and returns that name.
pub fn add_share(shares: &mut Shares, name: &str, path: &str) -> (r: String)
    requires
        old(shares).wf(),
    ensures
        final(shares).wf(),
        exists|t: nat|
            1 <= t && r@ == candidate(sanitized(name@), t) && !old(shares).view_map().contains_key(r@)
                && forall|s: nat| 1 <= s < t ==> old(shares).view_map().contains_key(#[trigger] candidate(sanitized(name@), s)),
        final(shares).view_map() == old(shares).view_map().insert(r@, path@),
{
    let base = sanitize_name(name);
    let mut unique = base.clone();
    let mut n: u128 = 2;
    let ghost b = base@;
    let count = shares.len();
    let ghost len = shares.pairs().len();
    while shares.contains_key(unique.as_str())
        invariant
            shares.wf(),
            shares == old(shares),
            b == sanitized(name@),
            len == shares.pairs().len(),
            len == count,
            2 <= n <= len + 2,
            base@ == b,
            unique@ == candidate(b, (n - 1) as nat),
            forall|s: nat| 1 <= s < n - 1 ==> shares.view_map().contains_key(#[trigger] candidate(b, s)),
        decreases len + 2 - n,
    {
        proof {
            // every name tried so far is taken, and they are distinct: n - 1 of them fit among len shares
            let tried = vstd::set_lib::set_int_range(1, n as int);
            let f = |s: int| shares.index_of(candidate(b, s as nat));
            assert forall|s: int| #[trigger] tried.contains(s) implies shares.view_map().contains_key(candidate(b, s as nat)) && 0 <= f(s) < len && shares.pairs()[f(s)].0 == candidate(b, s as nat) by {
                if s < n - 1 {
                    assert(shares.view_map().contains_key(candidate(b, s as nat)));
                }
            }
            assert(vstd::relations::injective_on(f, tried)) by {
                assert forall|x: int, y: int| tried.contains(x) && tried.contains(y) && #[trigger] f(x) == #[trigger] f(y) implies x == y by {
                    lemma_candidate_injective(b, x as nat, y as nat);
                }
            }
            vstd::set_lib::lemma_int_range(1, n as int);
            vstd::set_lib::lemma_int_range(0, len as int);
            let img = tried.map(f);
            vstd::set_lib::lemma_map_size(tried, img, f);
            assert(img.subset_of(vstd::set_lib::set_int_range(0, len as int)));
            vstd::set_lib::lemma_len_subset(img, vstd::set_lib::set_int_range(0, len as int));
        }
        let digits = to_decimal(n);
        let mut v = chars_of(base.as_str());
        assert(v@ == b);
        push_str(&mut v, " (");
        push_all(&mut v, &digits);
        push_str(&mut v, ")");
        assert(v@ == b + " ("@ + decimal(n as nat) + ")"@);
        unique = string_of(v.as_slice());
        assert(unique@ == candidate(b, n as nat));
        n = n + 1;
    }
    let r = unique.clone();
    shares.insert(unique, path.to_owned());
    proof {
        assert(1 <= (n - 1) as nat);
    }
    r
}

/// Stops sharing the folder called `name`.
pub fn remove_share(shares: &mut Shares, name: &str)
    requires
        old(shares).wf(),
    ensures
        final(shares).wf(),
        final(shares).view_map() == old(shares).view_map().remove(name@),
{
    shares.remove(name);
}

/// Sharing a folder under a name that is free (as `add_share` picks it),
/// pointing the share elsewhere (which `set_share_path` then does, since the
/// name is shared) and stopping it leaves the shares as they were.
pub proof fn law_share_round_trip(before: Map<Seq<char>, Seq<char>>, name: Seq<char>, path: Seq<char>, new_path: Seq<char>)
    requires
        !before.contains_key(name),
    ensures
        before.insert(name, path).contains_key(name),
        before.insert(name, path).insert(name, new_path).remove(name) == before,
{
    assert(before.insert(name, path).insert(name, new_path).remove(name) =~= before);
}

/// Points the share called `name` at a new path; a name that is not shared
/// is left alone. Tells whether anything changed (and so has to be saved).
pub fn set_share_path(shares: &mut Shares, name: &str, path: &str) -> (changed: bool)
    requires
        old(shares).wf(),
    ensures
        final(shares).wf(),
        changed == old(shares).view_map().contains_key(name@),
        changed ==> final(shares).view_map() == old(shares).view_map().insert(name@, path@),
        !changed ==> final(shares).view_map() == old(shares).view_map(),
{
    if shares.contains_key(name) {
        shares.insert(name.to_owned(), path.to_owned());
        true
    } else {
        false
    }
}


/// What `uuid::Uuid::new_v5(&Uuid::NAMESPACE_DNS, name)` renders as text.
pub uninterp spec fn dns_uuid_v5(name: Seq<u8>) -> Seq<char>;

/// `uuid::Uuid::new_v5` in the DNS namespace, rendered by `to_string`
/// (hyphenated, lower-case). A name-based UUID depends on the name alone.
#[verifier::external_body]
fn uuid_v5_dns(name: &[u8]) -> (r: String)
    ensures
        r@ == dns_uuid_v5(name@),
{
    uuid::Uuid::new_v5(&uuid::Uuid::NAMESPACE_DNS, name).to_string()
}

fn resource_id_with_suffix(device_id: &str, suffix: &str) -> (r: String)
    ensures
        r@ == dns_uuid_v5(encode_utf8(device_id@ + suffix@)),
{
    let mut v = chars_of(device_id);
    push_str(&mut v, suffix);
    let text = string_of(v.as_slice());
    let bytes = text.as_str().as_bytes();
    uuid_v5_dns(bytes)
}

/// The id under which a device announces its shared folders: stable for the
/// device, distinct from its other resources.
pub fn fs_resource_id(device_id: &str) -> (r: String)
    ensures
        r@ == dns_uuid_v5(encode_utf8(device_id@ + "-fs"@)),
{
    resource_id_with_suffix(device_id, "-fs")
}

/// The id under which a device announces its system information.
pub fn sysinfo_resource_id(device_id: &str) -> (r: String)
    ensures
        r@ == dns_uuid_v5(encode_utf8(device_id@ + "-sysinfo"@)),
{
    resource_id_with_suffix(device_id, "-sysinfo")
}

/// A lower-case hexadecimal digit.
pub open spec fn hex_digit(d: nat) -> char {
    if d < 10 {
        (48 + d) as char
    } else {
        (87 + d) as char
    }
}

/// How serde_json writes one character inside a JSON string.
pub open spec fn json_escape(c: char) -> Seq<char> {
    let u = c as u32;
    if c == '"' {
        seq!['\\', '"']
    } else if c == '\\' {
        seq!['\\', '\\']
    } else if u == 0x08 {
        seq!['\\', 'b']
    } else if u == 0x0C {
        seq!['\\', 'f']
    } else if u == 0x0A {
        seq!['\\', 'n']
    } else if u == 0x0D {
        seq!['\\', 'r']
    } else if u == 0x09 {
        seq!['\\', 't']
    } else if u < 0x20 {
        seq!['\\', 'u', '0', '0', hex_digit((u / 16) as nat), hex_digit((u % 16) as nat)]
    } else {
        seq![c]
    }
}

/// The escaped characters of a JSON string, without the quotes.
pub open spec fn json_body(s: Seq<char>) -> Seq<char>
    decreases s.len(),
{
    if s.len() == 0 {
        Seq::empty()
    } else {
        json_escape(s[0]) + json_body(s.drop_first())
    }
}

/// A text as a JSON string literal.
pub open spec fn json_string(s: Seq<char>) -> Seq<char> {
    seq!['"'] + json_body(s) + seq!['"']
}

/// `serde_json::to_string` of a string slice: the text in double quotes, with
/// `"` and `\` escaped, the usual short escapes for backspace, form feed, line
/// feed, carriage return and tab, `\u00xx` (lower-case hex) for the other
/// control characters below U+0020, and every other character as it is.
/// Serialising a `str` into memory cannot fail.
#[verifier::external_body]
fn json_quote(s: &str) -> (r: String)
    ensures
        r@ == json_string(s@),
{
    match serde_json::to_string(s) {
        Ok(t) => t,
        Err(_) => String::new(),
    }
}

/// One share as a JSON object: `{"name":…,"path":…}`.
pub open spec fn share_json(p: (Seq<char>, Seq<char>)) -> Seq<char> {
    "{\"name\":"@ + json_string(p.0) + ",\"path\":"@ + json_string(p.1) + "}"@
}

/// The configuration of the shared-folders resource: every share, in name
/// order, as `{"shares":[{"name":…,"path":…},…]}` (compact JSON).
pub open spec fn shares_config(pairs: Seq<(Seq<char>, Seq<char>)>) -> Seq<char> {
    "{\"shares\":["@ + crate::text::join(share_jsons(pairs), ","@) + "]}"@
}

/// Every share as its JSON object.
pub open spec fn share_jsons(pairs: Seq<(Seq<char>, Seq<char>)>) -> Seq<Seq<char>> {
    pairs.map_values(|p: (Seq<char>, Seq<char>)| share_json(p))
}

/// Writes the configuration JSON of the shared folders.
pub fn shares_config_json(shares: &Shares) -> (r: String)
    ensures
        r@ == shares_config(shares.pairs()),
{
    let entries = shares.entries();
    let ghost ps = shares.pairs();
    let mut items: Vec<Vec<char>> = Vec::new();
    let mut i: usize = 0;
    while i < entries.len()
        invariant
            0 <= i <= entries.len(),
            pair_texts(entries@) == ps,
            items@.len() == i,
            ps.len() == entries@.len(),
            crate::text::views(items@) == share_jsons(ps.take(i as int)),
        decreases entries.len() - i,
    {
        let mut item = chars_of("{\"name\":");
        let qn = json_quote(entries[i].0.as_str());
        push_str(&mut item, qn.as_str());
        push_str(&mut item, ",\"path\":");
        let qp = json_quote(entries[i].1.as_str());
        push_str(&mut item, qp.as_str());
        push_str(&mut item, "}");
        assert(ps[i as int] == (entries@[i as int].0@, entries@[i as int].1@));
        assert(item@ == share_json(ps[i as int]));
        let ghost before = items@;
        items.push(item);
        assert forall|k: int| 0 <= k < i implies crate::text::views(items@)[k] == share_jsons(ps.take(i as int + 1))[k] by {
            assert(items@[k] == before[k]);
            assert(crate::text::views(before)[k] == share_jsons(ps.take(i as int))[k]);
        }
        assert(crate::text::views(items@) =~= share_jsons(ps.take(i as int + 1)));
        i = i + 1;
    }
    assert(ps.take(ps.len() as int) =~= ps);
    let sep = chars_of(",");
    let body = crate::text::join_chars(&items, &sep);
    let mut out = chars_of("{\"shares\":[");
    push_all(&mut out, &body);
    push_str(&mut out, "]}");
    string_of(out.as_slice())
}

/// A resource that is active and carries no session token.
pub open spec fn announced(r: SharedResource, id: Seq<char>, name: Seq<char>, kind: ResourceType, config: Option<Seq<char>>) -> bool {
    &&& r.id@ == id
    &&& r.name@ == name
    &&& r.resource_type == kind
    &&& match r.config {
        None => config is None,
        Some(c) => config == Some(c@),
    }
    &&& r.is_active
    &&& r.session_token is None
}

/// Everything a device announces: its system information, and — when it
/// shares any folder — one filesystem resource named after the single share,
/// or `files_label` (the translated umbrella name) when there are several,
/// configured with the list of shares.
pub fn build_all_resources(shares: &Shares, device_id: &str, files_label: &str) -> (r: Vec<SharedResource>)
    requires
        shares.wf(),
    ensures
        announced(r@[0], dns_uuid_v5(encode_utf8(device_id@ + "-sysinfo"@)), "System Info"@, ResourceType::SystemInfo, None),
        shares.pairs().len() == 0 ==> r@.len() == 1,
        shares.pairs().len() > 0 ==> r@.len() == 2 && announced(
            r@[1],
            dns_uuid_v5(encode_utf8(device_id@ + "-fs"@)),
            if shares.pairs().len() == 1 {
                shares.pairs()[0].0
            } else {
                files_label@
            },
            ResourceType::Filesystem,
            Some(shares_config(shares.pairs())),
        ),
{
    let mut resources: Vec<SharedResource> = Vec::new();
    resources.push(
        SharedResource {
            id: sysinfo_resource_id(device_id),
            name: "System Info".to_owned(),
            resource_type: ResourceType::SystemInfo,
            config: None,
            is_active: true,
            session_token: None,
        },
    );
    if !shares.is_empty() {
        let name = if shares.len() == 1 {
            let entries = shares.entries();
            assert(shares.pairs()[0] == (entries@[0].0@, entries@[0].1@));
            entries[0].0.clone()
        } else {
            files_label.to_owned()
        };
        resources.push(
            SharedResource {
                id: fs_resource_id(device_id),
                name,
                resource_type: ResourceType::Filesystem,
                config: Some(shares_config_json(shares)),
                is_active: true,
                session_token: None,
            },
        );
    }
    resources
}

} // verus!
