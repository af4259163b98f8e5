use vstd::prelude::*;
use crate::text::{texts_of, chars_of, find_last, last_index, lemma_last_index, decimal, lemma_decimal_injective, lemma_distinct_slots, push_all, push_str, same_text, string_of, to_decimal};

verus! {

/// Whether a clip holds files to copy or to move.
#[derive(Clone, Copy, PartialEq, Eq, Debug, Structural)]
pub enum ClipKind {
    Copy,
    Cut,
}

/// One entry taken onto the clipboard.
#[derive(Clone, Debug)]
pub struct ClipItem {
    pub name: String,
    pub is_dir: bool,
    pub size: u64,
    pub permissions: Option<u32>,
}

/// Where the extension of a file name starts: at its last dot, unless that
/// dot opens the name (a dot file) — folders have no extension.
pub open spec fn ext_start(name: Seq<char>, is_dir: bool) -> int {
    if is_dir {
        name.len() as int
    } else {
        match last_index(name, '.') {
            Some(p) => if p > 0 { p } else { name.len() as int },
            None => name.len() as int,
        }
    }
}

/// The `t`-th alternative to a name that is taken: the counter ` (t)` goes
/// between the stem and the extension.
pub open spec fn numbered(name: Seq<char>, is_dir: bool, t: nat) -> Seq<char> {
    let e = ext_start(name, is_dir);
    name.subrange(0, e) + " ("@ + decimal(t) + ")"@ + name.subrange(e, name.len() as int)
}

/// `r` is the name that an entry called `name` gets in a folder whose names
/// are `taken`: its own name when that is free, else the first numbered
/// alternative (counting from 1) that is free.
pub open spec fn kept_or_numbered(name: Seq<char>, is_dir: bool, taken: Seq<Seq<char>>, r: Seq<char>) -> bool {
    if !taken.contains(name) {
        r == name
    } else {
        exists|t: nat|
            1 <= t && r == numbered(name, is_dir, t) && !taken.contains(r) && forall|s: nat|
                1 <= s < t ==> taken.contains(#[trigger] numbered(name, is_dir, s))
    }
}

fn find_ext_start(name: &Vec<char>, is_dir: bool) -> (r: usize)
    ensures
        r == ext_start(name@, is_dir),
{
    if is_dir {
        return name.len();
    }
    match find_last(name, '.') {
        Some(p) => if p > 0 { p } else { name.len() },
        None => name.len(),
    }
}

proof fn lemma_ext_start_bounds(name: Seq<char>, is_dir: bool)
    ensures
        0 <= ext_start(name, is_dir) <= name.len(),
{
    lemma_last_index(name, '.');
}

proof fn lemma_numbered_injective(name: Seq<char>, is_dir: bool, s: nat, t: nat)
    requires
        numbered(name, is_dir, s) == numbered(name, is_dir, t),
    ensures
        s == t,
{
    reveal_strlit(" (");
    reveal_strlit(")");
    lemma_ext_start_bounds(name, is_dir);
    let e = ext_start(name, is_dir);
    let a = numbered(name, is_dir, s);
    let b = numbered(name, is_dir, t);
    let tail = name.len() - e;
    assert(decimal(s) =~= a.subrange(e + 2, a.len() - tail - 1));
    assert(decimal(t) =~= b.subrange(e + 2, b.len() - tail - 1));
    lemma_decimal_injective(s, t);
}

/// Whether `name` is one of `taken`.
fn is_taken(taken: &Vec<String>, name: &str) -> (r: bool)
    ensures
        r == taken@.map_values(|t: String| t@).contains(name@),
{
    let ghost tv = taken@.map_values(|t: String| t@);
    let mut i: usize = 0;
    while i < taken.len()
        invariant
            0 <= i <= taken.len(),
            tv == taken@.map_values(|t: String| t@),
            forall|j: int| 0 <= j < i ==> tv[j] != name@,
        decreases taken.len() - i,
    {
        if same_text(taken[i].as_str(), name) {
            assert(tv[i as int] == name@);
            return true;
        }
        i = i + 1;
    }
    false
}


fn numbered_name(chars: &Vec<char>, e: usize, n: u128, is_dir: bool) -> (r: String)
    requires
        e == ext_start(chars@, is_dir),
        e <= chars.len(),
    ensures
        r@ == numbered(chars@, is_dir, n as nat),
{
    let digits = to_decimal(n);
    let mut v: Vec<char> = Vec::new();
    let mut i: usize = 0;
    while i < e
        invariant
            0 <= i <= e <= chars.len(),
            v@ == chars@.subrange(0, i as int),
        decreases e - i,
    {
        v.push(chars[i]);
        i = i + 1;
    }
    push_str(&mut v, " (");
    push_all(&mut v, &digits);
    push_str(&mut v, ")");
    let mut j: usize = e;
    let ghost head = v@;
    while j < chars.len()
        invariant
            e <= j <= chars.len(),
            v@ == head + chars@.subrange(e as int, j as int),
        decreases chars.len() - j,
    {
        v.push(chars[j]);
        j = j + 1;
    }
    let r = string_of(v.as_slice());
    assert(r@ =~= numbered(chars@, is_dir, n as nat));
    r
}

/// The name an entry gets in a folder that already holds `taken`: its own
/// when that is free, otherwise `stem (n)ext` with the smallest free `n` from 1.
pub fn keep_or_number(name: &str, is_dir: bool, taken: &Vec<String>) -> (r: String)
    ensures
        kept_or_numbered(name@, is_dir, texts_of(taken@), r@),
{
    let ghost tv = texts_of(taken@);
    if !is_taken(taken, name) {
        return name.to_owned();
    }
    let chars = chars_of(name);
    let e = find_ext_start(&chars, is_dir);
    proof {
        lemma_ext_start_bounds(name@, is_dir);
    }
    let mut n: u128 = 1;
    let mut candidate = String::new();
    let mut found = false;
    let count = taken.len();
    while !found
        invariant
            tv == texts_of(taken@),
            tv.len() == count,
            chars@ == name@,
            e == ext_start(name@, is_dir),
            1 <= n,
            !found ==> n <= count + 1,
            found ==> n <= count + 2,
            e <= chars.len(),
            found ==> n >= 2 && candidate@ == numbered(name@, is_dir, (n - 1) as nat) && !tv.contains(candidate@),
            forall|s: nat| 1 <= s < n - (if found { 1int } else { 0int }) ==> tv.contains(#[trigger] numbered(name@, is_dir, s)),
        decreases count + 2 - n + (if found { 0int } else { 1int }),
    {
        candidate = numbered_name(&chars, e, n, is_dir);
        if is_taken(taken, candidate.as_str()) {
            proof {
                // every alternative tried so far is taken, and they differ: n of them fit in `taken`
                let f = |s: int| choose|k: int| 0 <= k < tv.len() && tv[k] == numbered(name@, is_dir, s as nat);
                assert forall|s: int| 1 <= s < n + 1 implies 0 <= #[trigger] f(s) < count && tv[f(s)] == numbered(name@, is_dir, s as nat) by {
                    if s < n {
                        assert(tv.contains(numbered(name@, is_dir, s as nat)));
                    }
                }
                assert forall|x: int, y: int| 1 <= x < n + 1 && 1 <= y < n + 1 && #[trigger] f(x) == #[trigger] f(y) implies x == y by {
                    lemma_numbered_injective(name@, is_dir, x as nat, y as nat);
                }
                lemma_distinct_slots(n + 1, count as int, f);
            }
            n = n + 1;
        } else {
            found = true;
            n = n + 1;
        }
    }
    candidate
}


/// `out` names the items of a paste into a folder holding `taken`: each item,
/// in order, gets the name it would get in a folder that holds `taken` plus
/// the names already given to the items before it.
pub open spec fn planned(items: Seq<(Seq<char>, bool)>, taken: Seq<Seq<char>>, out: Seq<Seq<char>>) -> bool {
    &&& out.len() == items.len()
    &&& forall|k: int|
        0 <= k < items.len() ==> kept_or_numbered(
            (#[trigger] items[k]).0,
            items[k].1,
            taken + out.take(k),
            out[k],
        )
}

/// The second text of every (old, new) name pair.
pub open spec fn new_names(pairs: Seq<(String, String)>) -> Seq<Seq<char>> {
    pairs.map_values(|p: (String, String)| p.1@)
}

/// The name and kind of every clip item.
pub open spec fn item_texts(items: Seq<ClipItem>) -> Seq<(Seq<char>, bool)> {
    items.map_values(|i: ClipItem| (i.name@, i.is_dir))
}

/// The names that pasted items take in a folder already holding `taken`:
/// one (old name, new name) pair per item, in item order.
pub fn plan_names(items: &[ClipItem], taken: Vec<String>) -> (r: Vec<(String, String)>)
    ensures
        r@.len() == items@.len(),
        forall|k: int| 0 <= k < items@.len() ==> (#[trigger] r@[k]).0@ == items@[k].name@,
        planned(item_texts(items@), texts_of(taken@), new_names(r@)),
{
    let ghost t0 = texts_of(taken@);
    let mut taken = taken;
    let mut map: Vec<(String, String)> = Vec::new();
    let mut k: usize = 0;
    while k < items.len()
        invariant
            0 <= k <= items.len(),
            map@.len() == k,
            texts_of(taken@) == t0 + new_names(map@),
            forall|j: int| 0 <= j < k ==> (#[trigger] map@[j]).0@ == items@[j].name@,
            forall|j: int|
                0 <= j < k ==> kept_or_numbered(
                    (#[trigger] item_texts(items@)[j]).0,
                    item_texts(items@)[j].1,
                    t0 + new_names(map@).take(j),
                    new_names(map@)[j],
                ),
        decreases items.len() - k,
    {
        let renamed = keep_or_number(items[k].name.as_str(), items[k].is_dir, &taken);
        let ghost outs = new_names(map@);
        let ghost before = map@;
        let ghost before_taken = taken@;
        taken.push(renamed.clone());
        map.push((items[k].name.clone(), renamed));
        proof {
            let outs2 = new_names(map@);
            assert(outs2 =~= outs.push(renamed@));
            assert(texts_of(taken@) =~= texts_of(before_taken).push(renamed@));
            assert(texts_of(taken@) =~= t0 + outs2);
            assert(outs2.take(k as int) =~= outs);
            assert forall|j: int| 0 <= j < k implies outs2.take(j) == outs.take(j) && outs2[j] == outs[j] by {
                assert(outs2.take(j) =~= outs.take(j));
            }
            assert(item_texts(items@)[k as int] == (items@[k as int].name@, items@[k as int].is_dir));
            assert forall|j: int| 0 <= j <= k implies (#[trigger] map@[j]).0@ == items@[j].name@ by {
                if j < k {
                    assert(map@[j] == before[j]);
                }
            }
        }
        k = k + 1;
    }
    map
}

/// The names a paste plan hands out never clash: none is among the names
/// already there, and no two items get the same one.
pub proof fn law_planned_names_distinct(items: Seq<(Seq<char>, bool)>, taken: Seq<Seq<char>>, out: Seq<Seq<char>>)
    requires
        planned(items, taken, out),
    ensures
        forall|k: int| 0 <= k < out.len() ==> !taken.contains(#[trigger] out[k]),
        forall|j: int, k: int| 0 <= j < k < out.len() ==> #[trigger] out[j] != #[trigger] out[k],
{
    assert forall|k: int| 0 <= k < out.len() implies !(taken + out.take(k)).contains(#[trigger] out[k]) by {
        assert(kept_or_numbered(items[k].0, items[k].1, taken + out.take(k), out[k]));
    }
    assert forall|k: int| 0 <= k < out.len() implies !taken.contains(#[trigger] out[k]) by {
        if taken.contains(out[k]) {
            let i = choose|i: int| 0 <= i < taken.len() && taken[i] == out[k];
            assert((taken + out.take(k))[i] == out[k]);
        }
    }
    assert forall|j: int, k: int| 0 <= j < k < out.len() implies #[trigger] out[j] != #[trigger] out[k] by {
        assert((taken + out.take(k))[taken.len() + j] == out[j]);
        assert(!(taken + out.take(k)).contains(out[k]));
    }
}

/// A filesystem level that a panel shows: which provider object it is, and
/// whether it is the local disk.
#[derive(Clone, Copy, PartialEq, Eq, Debug, Structural)]
pub struct FsRef {
    pub instance: u64,
    pub is_local: bool,
}

/// Whether a clip taken at `src` lands on the same filesystem as `dest`: the
/// very same provider, or two local ones (separate instances of the local
/// disk are one filesystem). A source level that is gone never matches.
pub fn same_filesystem(src: Option<FsRef>, dest: FsRef) -> (r: bool)
    ensures
        r == match src {
            Some(s) => s.instance == dest.instance || (s.is_local && dest.is_local),
            None => false,
        },
{
    match src {
        Some(s) => s.instance == dest.instance || (s.is_local && dest.is_local),
        None => false,
    }
}

/// The entries a selection hands over: everything but the `..` entry.
pub open spec fn without_parent(entries: Seq<ClipItem>) -> Seq<ClipItem> {
    entries.filter(|e: ClipItem| e.name@ != ".."@)
}

/// Drops the `..` entry from a selection.
pub fn selected_items(entries: Vec<ClipItem>) -> (r: Vec<ClipItem>)
    ensures
        r@ == without_parent(entries@),
{
    let mut r: Vec<ClipItem> = Vec::new();
    let mut i: usize = 0;
    let ghost f = |e: ClipItem| e.name@ != ".."@;
    while i < entries.len()
        invariant
            0 <= i <= entries.len(),
            f == (|e: ClipItem| e.name@ != ".."@),
            r@ == entries@.take(i as int).filter(f),
        decreases entries.len() - i,
    {
        let e = &entries[i];
        proof {
            entries@.take(i as int).lemma_filter_push(entries@[i as int], f);
            assert(entries@.take(i as int + 1) =~= entries@.take(i as int).push(entries@[i as int]));
        }
        if !same_text(e.name.as_str(), "..") {
            r.push(ClipItem { name: e.name.clone(), is_dir: e.is_dir, size: e.size, permissions: e.permissions });
            assert(r@.last() == entries@[i as int]);
        }
        i = i + 1;
    }
    assert(entries@.take(entries@.len() as int) =~= entries@);
    r
}

/// What a paste does.
pub enum PastePlan {
    /// Cutting into the very folder the items come from: nothing moves, the
    /// clipboard is just emptied.
    ClearClipboard,
    /// Transfer the items; items pasted into their own folder are renamed as
    /// given (old name, new name).
    Transfer { dest_names: Vec<(String, String)> },
}

/// Decides a paste of `items`, taken at `source_path`, into `dest_path`;
/// `same_fs` tells whether both sides are the same filesystem, and
/// `dest_entries` lists the names already in the destination.
pub fn plan_paste(
    kind: ClipKind,
    source_path: &str,
    dest_path: &str,
    same_fs: bool,
    items: &[ClipItem],
    dest_entries: Vec<String>,
) -> (r: PastePlan)
    ensures
        ({
            let same_place = source_path@ == dest_path@ && same_fs;
            match r {
                PastePlan::ClearClipboard => same_place && kind == ClipKind::Cut,
                PastePlan::Transfer { dest_names } => !(same_place && kind == ClipKind::Cut) && (same_place ==> (
                dest_names@.len() == items@.len() && (forall|k: int|
                    0 <= k < items@.len() ==> (#[trigger] dest_names@[k]).0@ == items@[k].name@)
                    && planned(
                    item_texts(items@),
                    texts_of(dest_entries@),
                    new_names(dest_names@),
                ))) && (!same_place ==> dest_names@.len() == 0),
            }
        }),
{
    let same_place = same_text(source_path, dest_path) && same_fs;
    if same_place && kind == ClipKind::Cut {
        return PastePlan::ClearClipboard;
    }
    let dest_names = if same_place {
        plan_names(items, dest_entries)
    } else {
        Vec::new()
    };
    PastePlan::Transfer { dest_names }
}

} // verus!
