use vstd::prelude::*;
use crate::connections::{conn_views, copy_opt, opt_text, ConnView, FtpConnection};
use crate::text::{
    chars_eq, chars_of, find_last, has_prefix, join, starts_with, last_index, lemma_last_index, lemma_less_asymmetric, lemma_less_irreflexive, lemma_less_total,
    lemma_less_transitive, lemma_split_on_push, less_text, push_all, same_text, split_on, string_of, trim, trim_chars, join_chars, views,
    text_less, texts_of,
};

verus! {

/// Every text comes before the next in code-point order: the list is sorted
/// and holds nothing twice, as the keys of a `BTreeSet<String>` come out.
pub open spec fn strictly_sorted(v: Seq<Seq<char>>) -> bool {
    forall|i: int, j: int| 0 <= i < j < v.len() ==> text_less(#[trigger] v[i], #[trigger] v[j])
}

/// Adds `s` to a strictly sorted list of strings, keeping it strictly sorted.
fn insert_sorted(set: &mut Vec<String>, s: String)
    requires
        strictly_sorted(texts_of(old(set)@)),
    ensures
        strictly_sorted(texts_of(final(set)@)),
        forall|p: Seq<char>|
            texts_of(final(set)@).contains(p) <==> (texts_of(old(set)@).contains(p) || p == s@),
{
    let ghost old_t = texts_of(set@);
    let mut i: usize = 0;
    while i < set.len() && less_text(set[i].as_str(), s.as_str())
        invariant
            0 <= i <= set.len(),
            old_t == texts_of(set@),
            strictly_sorted(old_t),
            forall|j: int| 0 <= j < i ==> text_less(#[trigger] old_t[j], s@),
        decreases set.len() - i,
    {
        i = i + 1;
    }
    if i < set.len() && same_text(set[i].as_str(), s.as_str()) {
        assert(old_t[i as int] == s@);
        return;
    }
    proof {
        if i < set.len() {
            lemma_less_total(old_t[i as int], s@);
            assert(text_less(s@, old_t[i as int]));
            assert forall|j: int| i <= j < old_t.len() implies text_less(s@, #[trigger] old_t[j]) by {
                if j > i {
                    lemma_less_transitive(s@, old_t[i as int], old_t[j]);
                }
            }
        }
    }
    set.insert(i, s);
    proof {
        let nt = texts_of(set@);
        assert(nt =~= old_t.insert(i as int, s@));
        assert forall|a: int, b: int| 0 <= a < b < nt.len() implies text_less(#[trigger] nt[a], #[trigger] nt[b]) by {
            if b < i {
            } else if b == i {
            } else if a < i {
                lemma_less_transitive(old_t[a], s@, old_t[b - 1]);
            } else if a == i {
            } else {
            }
        }
        assert forall|p: Seq<char>| nt.contains(p) <==> (old_t.contains(p) || p == s@) by {
            if nt.contains(p) {
                let k = choose|k: int| 0 <= k < nt.len() && nt[k] == p;
                if k < i {
                    assert(old_t[k] == p);
                } else if k > i {
                    assert(old_t[k - 1] == p);
                }
            }
            if old_t.contains(p) {
                let k = choose|k: int| 0 <= k < old_t.len() && old_t[k] == p;
                if k < i {
                    assert(nt[k] == p);
                } else {
                    assert(nt[k + 1] == p);
                }
            }
            if p == s@ {
                assert(nt[i as int] == p);
            }
        }
    }
}

/// The non-empty segments of a folder path, in order.
pub open spec fn segments(path: Seq<char>) -> Seq<Seq<char>> {
    split_on(path, '/').filter(|p: Seq<char>| p.len() > 0)
}

/// The first `n` segments joined with `/`.
pub open spec fn prefix_path(segs: Seq<Seq<char>>, n: int) -> Seq<char> {
    join(segs.take(n), seq!['/'])
}

/// A folder path and each of its ancestors, written without empty
/// segments, shortest first: `a//b/` gives `a` and `a/b`.
pub open spec fn ancestors(segs: Seq<Seq<char>>) -> Seq<Seq<char>> {
    Seq::new(segs.len(), |k: int| prefix_path(segs, k + 1))
}

proof fn lemma_ancestors_push(segs: Seq<Seq<char>>, x: Seq<char>)
    ensures
        ancestors(segs.push(x)) == ancestors(segs).push(join(segs.push(x), seq!['/'])),
        segs.len() > 0 ==> join(segs.push(x), seq!['/']) == join(segs, seq!['/']) + seq!['/'] + x,
        segs.len() == 0 ==> join(segs.push(x), seq!['/']) == x,
{
    let t = segs.push(x);
    assert(t.drop_last() =~= segs);
    assert(t.take(t.len() as int) =~= t);
    assert forall|k: int| 0 <= k < segs.len() implies #[trigger] t.take(k + 1) == segs.take(k + 1) by {
        assert(t.take(k + 1) =~= segs.take(k + 1));
    }
    assert(ancestors(t) =~= ancestors(segs).push(join(t, seq!['/'])));
}

proof fn lemma_contains_push(s: Seq<Seq<char>>, x: Seq<char>, p: Seq<char>)
    ensures
        s.push(x).contains(p) <==> (s.contains(p) || p == x),
{
    if s.push(x).contains(p) {
        let k = choose|k: int| 0 <= k < s.push(x).len() && s.push(x)[k] == p;
        if k < s.len() {
            assert(s[k] == p);
        }
    }
    if s.contains(p) {
        let k = choose|k: int| 0 <= k < s.len() && s[k] == p;
        assert(s.push(x)[k] == p);
    }
    if p == x {
        assert(s.push(x)[s.len() as int] == p);
    }
}

/// Adds `path` and all its ancestors to a strictly sorted list of folders.
fn add_with_ancestors(set: &mut Vec<String>, path: &str)
    requires
        strictly_sorted(texts_of(old(set)@)),
    ensures
        strictly_sorted(texts_of(final(set)@)),
        forall|p: Seq<char>|
            texts_of(final(set)@).contains(p) <==> (texts_of(old(set)@).contains(p) || ancestors(
                segments(path@),
            ).contains(p)),
{
    let chars = chars_of(path);
    let ghost start = texts_of(set@);
    let ghost nonempty = |p: Seq<char>| p.len() > 0;
    let mut acc: Vec<char> = Vec::new();
    let mut cur: Vec<char> = Vec::new();
    let mut started = false;
    let ghost mut pieces: Seq<Seq<char>> = Seq::empty();
    let ghost mut done: Seq<Seq<char>> = Seq::empty();
    let mut i: usize = 0;
    assert(chars@.take(0) =~= Seq::<char>::empty());
    assert(pieces.push(cur@) =~= seq![Seq::<char>::empty()]);
    while i < chars.len()
        invariant
            0 <= i <= chars.len(),
            chars@ == path@,
            nonempty == (|p: Seq<char>| p.len() > 0),
            split_on(chars@.take(i as int), '/') == pieces.push(cur@),
            done == pieces.filter(nonempty),
            started == (done.len() > 0),
            acc@ == join(done, seq!['/']),
            strictly_sorted(texts_of(set@)),
            forall|p: Seq<char>|
                texts_of(set@).contains(p) <==> (start.contains(p) || ancestors(done).contains(p)),
        decreases chars.len() - i,
    {
        let c = chars[i];
        proof {
            lemma_split_on_push(chars@.take(i as int), '/', c);
            assert(chars@.take(i + 1) =~= chars@.take(i as int).push(c));
        }
        if c == '/' {
            proof {
                pieces.lemma_filter_push(cur@, nonempty);
            }
            if cur.len() > 0 {
                proof {
                    lemma_ancestors_push(done, cur@);
                }
                if started {
                    acc.push('/');
                }
                push_all(&mut acc, &cur);
                let ghost prev_done = done;
                proof {
                    done = done.push(cur@);
                    assert(acc@ =~= join(done, seq!['/']));
                }
                let ghost before_set = texts_of(set@);
                assert(forall|p: Seq<char>| #[trigger] before_set.contains(p) <==> (start.contains(p) || ancestors(prev_done).contains(p)));
                insert_sorted(set, string_of(acc.as_slice()));
                proof {
                    assert forall|p: Seq<char>| texts_of(set@).contains(p) <==> (start.contains(p)
                        || ancestors(done).contains(p)) by {
                        lemma_contains_push(ancestors(prev_done), acc@, p);
                        assert(texts_of(set@).contains(p) == (before_set.contains(p) || p == acc@));
                        assert(before_set.contains(p) == (start.contains(p) || ancestors(prev_done).contains(p)));
                    }
                }
                started = true;
            }
            proof {
                pieces = pieces.push(cur@);
            }
            cur = Vec::new();
            assert(split_on(chars@.take(i + 1), '/') =~= pieces.push(cur@));
        } else {
            let ghost before = cur@;
            cur.push(c);
            assert(split_on(chars@.take(i + 1), '/') =~= pieces.push(cur@));
        }
        i = i + 1;
    }
    proof {
        pieces.lemma_filter_push(cur@, nonempty);
        assert(chars@.take(chars@.len() as int) =~= chars@);
    }
    if cur.len() > 0 {
        proof {
            lemma_ancestors_push(done, cur@);
        }
        if started {
            acc.push('/');
        }
        push_all(&mut acc, &cur);
        let ghost prev_done = done;
        proof {
            done = done.push(cur@);
            assert(acc@ =~= join(done, seq!['/']));
        }
        let ghost before_set = texts_of(set@);
        assert(forall|p: Seq<char>| #[trigger] before_set.contains(p) <==> (start.contains(p) || ancestors(prev_done).contains(p)));
        insert_sorted(set, string_of(acc.as_slice()));
        proof {
            assert forall|p: Seq<char>| texts_of(set@).contains(p) <==> (start.contains(p)
                || ancestors(done).contains(p)) by {
                lemma_contains_push(ancestors(prev_done), acc@, p);
                assert(texts_of(set@).contains(p) == (before_set.contains(p) || p == acc@));
                assert(before_set.contains(p) == (start.contains(p) || ancestors(prev_done).contains(p)));
            }
        }
    }
    assert(segments(path@) =~= done);
    assert(forall|p: Seq<char>| #[trigger] texts_of(set@).contains(p) <==> (start.contains(p) || ancestors(done).contains(p)));
}

/// A folder path and its ancestors, as the folder tree lists them.
pub open spec fn chain(path: Seq<char>) -> Seq<Seq<char>> {
    ancestors(segments(path))
}

/// Whether an optional folder is `p` or lies below it.
pub open spec fn folder_lists(folder: Option<Seq<char>>, p: Seq<char>) -> bool {
    match folder {
        Some(f) => chain(f).contains(p),
        None => false,
    }
}

/// Whether the folder tree lists `p`: it is one of the explicitly created
/// folders or a folder holding a connection, or an ancestor of one.
pub open spec fn listed_folder(conns: Seq<ConnView>, explicit: Seq<Seq<char>>, p: Seq<char>) -> bool {
    ||| exists|i: int| 0 <= i < explicit.len() && #[trigger] chain(explicit[i]).contains(p)
    ||| exists|i: int|
        0 <= i < conns.len() && #[trigger] folder_lists(conns[i].folder, p)
}

/// Two strictly sorted lists that hold the same texts are the same list.
pub proof fn lemma_sorted_unique(a: Seq<Seq<char>>, b: Seq<Seq<char>>)
    requires
        strictly_sorted(a),
        strictly_sorted(b),
        forall|p: Seq<char>| a.contains(p) <==> b.contains(p),
    ensures
        a == b,
    decreases a.len(),
{
    if a.len() == 0 {
        if b.len() > 0 {
            assert(b.contains(b[0]));
        }
        assert(a =~= b);
    } else {
        assert(a.contains(a[0]));
        assert(b.len() > 0);
        assert(b.contains(b[0]));
        let k = choose|k: int| 0 <= k < b.len() && b[k] == a[0];
        let m = choose|m: int| 0 <= m < a.len() && a[m] == b[0];
        if k > 0 {
            assert(text_less(b[0], b[k]));
            if m == 0 {
                lemma_less_irreflexive(a[0]);
            } else {
                assert(text_less(a[0], a[m]));
                lemma_less_asymmetric(a[0], b[0]);
            }
        }
        assert(a[0] == b[0]);
        let a1 = a.drop_first();
        let b1 = b.drop_first();
        assert forall|p: Seq<char>| a1.contains(p) <==> b1.contains(p) by {
            if a1.contains(p) {
                let i = choose|i: int| 0 <= i < a1.len() && a1[i] == p;
                assert(text_less(a[0], a[i + 1]));
                assert(b.contains(p));
                let j = choose|j: int| 0 <= j < b.len() && b[j] == p;
                if j == 0 {
                    lemma_less_irreflexive(p);
                }
                assert(b1[j - 1] == p);
            }
            if b1.contains(p) {
                let i = choose|i: int| 0 <= i < b1.len() && b1[i] == p;
                assert(text_less(b[0], b[i + 1]));
                assert(a.contains(p));
                let j = choose|j: int| 0 <= j < a.len() && a[j] == p;
                if j == 0 {
                    lemma_less_irreflexive(p);
                }
                assert(a1[j - 1] == p);
            }
        }
        lemma_sorted_unique(a1, b1);
        assert(a =~= seq![a[0]] + a1);
        assert(b =~= seq![b[0]] + b1);
    }
}

/// The folder list the tree is built from: the listed folders in order.
pub open spec fn folder_list(conns: Seq<ConnView>, explicit: Seq<Seq<char>>) -> Seq<Seq<char>> {
    choose|q: Seq<Seq<char>>|
        strictly_sorted(q) && forall|p: Seq<char>| q.contains(p) <==> listed_folder(conns, explicit, p)
}

/// Every folder the tree shows, sorted and without repeats: the explicit
/// folders, the folders that hold connections, and all their ancestors.
pub fn connection_folder_paths(conns: &[FtpConnection], explicit: &[String]) -> (r: Vec<String>)
    ensures
        strictly_sorted(texts_of(r@)),
        forall|p: Seq<char>| texts_of(r@).contains(p) <==> listed_folder(conn_views(conns@), texts_of(explicit@), p),
        texts_of(r@) == folder_list(conn_views(conns@), texts_of(explicit@)),
{
    let ghost ex = texts_of(explicit@);
    let ghost cv = conn_views(conns@);
    let mut set: Vec<String> = Vec::new();
    let mut i: usize = 0;
    while i < explicit.len()
        invariant
            0 <= i <= explicit.len(),
            ex == texts_of(explicit@),
            strictly_sorted(texts_of(set@)),
            forall|p: Seq<char>|
                #[trigger] texts_of(set@).contains(p) <==> exists|k: int| 0 <= k < i && #[trigger] chain(ex[k]).contains(p),
        decreases explicit.len() - i,
    {
        let ghost before = texts_of(set@);
        assert(forall|p: Seq<char>| #[trigger] before.contains(p) <==> exists|k: int| 0 <= k < i && #[trigger] chain(ex[k]).contains(p));
        add_with_ancestors(&mut set, explicit[i].as_str());
        proof {
            assert forall|p: Seq<char>| #[trigger] texts_of(set@).contains(p) <==> exists|k: int| 0 <= k < i + 1 && #[trigger] chain(ex[k]).contains(p) by {
                if chain(ex[i as int]).contains(p) {
                    assert(0 <= i < i + 1 && chain(ex[i as int]).contains(p));
                }
                if before.contains(p) {
                    let k = choose|k: int| 0 <= k < i && #[trigger] chain(ex[k]).contains(p);
                    assert(0 <= k < i + 1 && chain(ex[k]).contains(p));
                }
            }
        }
        i = i + 1;
    }
    let mut j: usize = 0;
    while j < conns.len()
        invariant
            0 <= j <= conns.len(),
            ex == texts_of(explicit@),
            cv == conn_views(conns@),
            strictly_sorted(texts_of(set@)),
            forall|p: Seq<char>|
                #[trigger] texts_of(set@).contains(p) <==> (
                    (exists|k: int| 0 <= k < explicit.len() && #[trigger] chain(ex[k]).contains(p))
                    || exists|k: int| 0 <= k < j && #[trigger] folder_lists(cv[k].folder, p)),
        decreases conns.len() - j,
    {
        let ghost before = texts_of(set@);
        assert(forall|p: Seq<char>| #[trigger] before.contains(p) <==> (
                    (exists|k: int| 0 <= k < explicit.len() && #[trigger] chain(ex[k]).contains(p))
                    || exists|k: int| 0 <= k < j && #[trigger] folder_lists(cv[k].folder, p)));
        if let Some(f) = &conns[j].folder {
            add_with_ancestors(&mut set, f.as_str());
            proof {
                assert(cv[j as int].folder == Some(f@));
                assert forall|p: Seq<char>| #[trigger] texts_of(set@).contains(p) <==> (
                    (exists|k: int| 0 <= k < explicit.len() && #[trigger] chain(ex[k]).contains(p))
                    || exists|k: int| 0 <= k < j + 1 && #[trigger] folder_lists(cv[k].folder, p)) by {
                    if before.contains(p) && !(exists|k: int| 0 <= k < explicit.len() && #[trigger] chain(ex[k]).contains(p)) {
                        let k = choose|k: int| 0 <= k < j && #[trigger] folder_lists(cv[k].folder, p);
                        assert(0 <= k < j + 1 && folder_lists(cv[k].folder, p));
                    }
                    if chain(f@).contains(p) {
                        assert(0 <= j < j + 1 && folder_lists(cv[j as int].folder, p));
                    }
                }
            }
        } else {
            proof {
                assert(cv[j as int].folder is None);
                assert forall|p: Seq<char>| #[trigger] texts_of(set@).contains(p) <==> (
                    (exists|k: int| 0 <= k < explicit.len() && #[trigger] chain(ex[k]).contains(p))
                    || exists|k: int| 0 <= k < j + 1 && #[trigger] folder_lists(cv[k].folder, p)) by {
                    if exists|k: int| 0 <= k < j + 1 && #[trigger] folder_lists(cv[k].folder, p) {
                        let k = choose|k: int| 0 <= k < j + 1 && #[trigger] folder_lists(cv[k].folder, p);
                        assert(k != j);
                        assert(0 <= k < j && folder_lists(cv[k].folder, p));
                    }
                }
            }
        }
        j = j + 1;
    }
    proof {
        let q = folder_list(cv, ex);
        assert(strictly_sorted(q) && forall|p: Seq<char>| q.contains(p) <==> listed_folder(cv, ex, p)) by {
            assert(strictly_sorted(texts_of(set@)) && forall|p: Seq<char>| texts_of(set@).contains(p) <==> listed_folder(cv, ex, p));
        }
        lemma_sorted_unique(texts_of(set@), q);
    }
    set
}

/// The folder holding `path`: everything before its last `/`.
pub open spec fn parent_of(path: Seq<char>) -> Option<Seq<char>> {
    match last_index(path, '/') {
        Some(i) => Some(path.take(i)),
        None => None,
    }
}

/// The last segment of a folder path: everything after its last `/`.
pub open spec fn leaf_of(path: Seq<char>) -> Seq<char> {
    match last_index(path, '/') {
        Some(i) => path.skip(i + 1),
        None => path,
    }
}

fn copy_range(v: &Vec<char>, from: usize, to: usize) -> (r: String)
    requires
        from <= to <= v.len(),
    ensures
        r@ == v@.subrange(from as int, to as int),
{
    let mut out: Vec<char> = Vec::new();
    let mut i: usize = from;
    while i < to
        invariant
            from <= i <= to <= v.len(),
            out@ == v@.subrange(from as int, i as int),
        decreases to - i,
    {
        out.push(v[i]);
        i = i + 1;
    }
    string_of(out.as_slice())
}

/// The folder that holds `path`, if it is not at the top.
pub fn parent_folder(path: &str) -> (r: Option<String>)
    ensures
        opt_text(r) == parent_of(path@),
{
    let chars = chars_of(path);
    match find_last(&chars, '/') {
        Some(i) => {
            proof {
                lemma_last_index(path@, '/');
            }
            Some(copy_range(&chars, 0, i))
        },
        None => None,
    }
}

/// The name a folder is shown under: the last segment of its path.
pub fn folder_leaf(path: &str) -> (r: String)
    ensures
        r@ == leaf_of(path@),
{
    let chars = chars_of(path);
    match find_last(&chars, '/') {
        Some(i) => {
            proof {
                lemma_last_index(path@, '/');
            }
            copy_range(&chars, i + 1, chars.len())
        },
        None => path.to_owned(),
    }
}

/// A row of the connection tree.
pub enum ConnNode {
    Folder(String),
    Connection { index: usize, conn: FtpConnection },
}

/// A row of the connection tree as plain values.
pub enum NodeView {
    Folder(Seq<char>),
    Connection(int, ConnView),
}

/// The view of one row.
pub open spec fn node_view(n: ConnNode) -> NodeView {
    match n {
        ConnNode::Folder(p) => NodeView::Folder(p@),
        ConnNode::Connection { index, conn } => NodeView::Connection(index as int, conn@),
    }
}

/// The views of a list of rows.
pub open spec fn node_views(v: Seq<ConnNode>) -> Seq<NodeView> {
    v.map_values(|n: ConnNode| node_view(n))
}

/// The folder a connection is filed under in the tree; an empty folder
/// name files it at the top.
pub open spec fn conn_key(c: ConnView) -> Option<Seq<char>> {
    match c.folder {
        Some(f) => if f.len() > 0 { Some(f) } else { None },
        None => None,
    }
}

/// The folder rows directly under `key`, in list order.
pub open spec fn folder_rows(paths: Seq<Seq<char>>, key: Option<Seq<char>>) -> Seq<NodeView>
    decreases paths.len(),
{
    if paths.len() == 0 {
        Seq::empty()
    } else {
        let rest = folder_rows(paths.drop_last(), key);
        if parent_of(paths.last()) == key {
            rest.push(NodeView::Folder(paths.last()))
        } else {
            rest
        }
    }
}

/// The connection rows directly under `key`, in saved order, each with its
/// position in the saved list.
pub open spec fn conn_rows(conns: Seq<ConnView>, key: Option<Seq<char>>) -> Seq<NodeView>
    decreases conns.len(),
{
    if conns.len() == 0 {
        Seq::empty()
    } else {
        let rest = conn_rows(conns.drop_last(), key);
        if conn_key(conns.last()) == key {
            rest.push(NodeView::Connection(conns.len() - 1, conns.last()))
        } else {
            rest
        }
    }
}

/// What the tree shows under `key` (`None` for the top): subfolders first,
/// then connections.
pub open spec fn children(paths: Seq<Seq<char>>, conns: Seq<ConnView>, key: Option<Seq<char>>) -> Seq<NodeView> {
    folder_rows(paths, key) + conn_rows(conns, key)
}

/// Whether two optional strings hold the same text.
pub fn same_key(a: &Option<String>, b: &Option<String>) -> (r: bool)
    ensures
        r == (opt_text(*a) == opt_text(*b)),
{
    match (a, b) {
        (Some(x), Some(y)) => same_text(x.as_str(), y.as_str()),
        (None, None) => true,
        _ => false,
    }
}

fn key_of(c: &FtpConnection) -> (r: Option<String>)
    ensures
        opt_text(r) == conn_key(c@),
{
    match &c.folder {
        Some(f) => if !f.as_str().is_empty() { Some(f.clone()) } else { None },
        None => None,
    }
}

/// The rows of the tree under `key`.
pub fn children_of(paths: &Vec<String>, conns: &[FtpConnection], key: &Option<String>) -> (r: Vec<ConnNode>)
    ensures
        node_views(r@) == children(texts_of(paths@), conn_views(conns@), opt_text(*key)),
{
    let ghost ps = texts_of(paths@);
    let ghost cv = conn_views(conns@);
    let ghost k = opt_text(*key);
    let mut out: Vec<ConnNode> = Vec::new();
    let mut i: usize = 0;
    while i < paths.len()
        invariant
            0 <= i <= paths.len(),
            ps == texts_of(paths@),
            k == opt_text(*key),
            node_views(out@) == folder_rows(ps.take(i as int), k),
        decreases paths.len() - i,
    {
        proof {
            assert(ps.take(i + 1).drop_last() =~= ps.take(i as int));
        }
        let parent = parent_folder(paths[i].as_str());
        if same_key(&parent, key) {
            out.push(ConnNode::Folder(paths[i].clone()));
        }
        assert(node_views(out@) =~= folder_rows(ps.take(i + 1), k));
        i = i + 1;
    }
    assert(ps.take(ps.len() as int) =~= ps);
    let ghost head = node_views(out@);
    let mut j: usize = 0;
    while j < conns.len()
        invariant
            0 <= j <= conns.len(),
            cv == conn_views(conns@),
            k == opt_text(*key),
            node_views(out@) == head + conn_rows(cv.take(j as int), k),
        decreases conns.len() - j,
    {
        proof {
            assert(cv.take(j + 1).drop_last() =~= cv.take(j as int));
        }
        let ck = key_of(&conns[j]);
        assert(cv.take(j + 1).last() == conns@[j as int]@);
        if same_key(&ck, key) {
            let ghost before = out@;
            out.push(ConnNode::Connection { index: j, conn: conns[j].duplicate() });
            assert(node_views(out@) =~= node_views(before).push(NodeView::Connection(j as int, conns@[j as int]@)));
        }
        assert(node_views(out@) =~= head + conn_rows(cv.take(j + 1), k));
        j = j + 1;
    }
    assert(cv.take(cv.len() as int) =~= cv);
    out
}

proof fn lemma_folder_rows_nonempty(ps: Seq<Seq<char>>, key: Option<Seq<char>>)
    ensures
        folder_rows(ps, key).len() > 0 <==> exists|i: int| 0 <= i < ps.len() && #[trigger] parent_of(ps[i]) == key,
    decreases ps.len(),
{
    if ps.len() > 0 {
        let t = ps.drop_last();
        lemma_folder_rows_nonempty(t, key);
        if exists|i: int| 0 <= i < ps.len() && #[trigger] parent_of(ps[i]) == key {
            let i = choose|i: int| 0 <= i < ps.len() && #[trigger] parent_of(ps[i]) == key;
            if i < t.len() {
                assert(parent_of(t[i]) == key);
            }
        }
        if exists|i: int| 0 <= i < t.len() && #[trigger] parent_of(t[i]) == key {
            let i = choose|i: int| 0 <= i < t.len() && #[trigger] parent_of(t[i]) == key;
            assert(parent_of(ps[i]) == key);
        }
    }
}

proof fn lemma_conn_rows_nonempty(cs: Seq<ConnView>, key: Option<Seq<char>>)
    ensures
        conn_rows(cs, key).len() > 0 <==> exists|i: int| 0 <= i < cs.len() && #[trigger] conn_key(cs[i]) == key,
    decreases cs.len(),
{
    if cs.len() > 0 {
        let t = cs.drop_last();
        lemma_conn_rows_nonempty(t, key);
        if exists|i: int| 0 <= i < cs.len() && #[trigger] conn_key(cs[i]) == key {
            let i = choose|i: int| 0 <= i < cs.len() && #[trigger] conn_key(cs[i]) == key;
            if i < t.len() {
                assert(conn_key(t[i]) == key);
            }
        }
        if exists|i: int| 0 <= i < t.len() && #[trigger] conn_key(t[i]) == key {
            let i = choose|i: int| 0 <= i < t.len() && #[trigger] conn_key(t[i]) == key;
            assert(conn_key(cs[i]) == key);
        }
    }
}

/// The keys of a list of tree entries.
pub open spec fn entry_keys(m: Seq<(Option<String>, Vec<ConnNode>)>) -> Seq<Option<Seq<char>>> {
    m.map_values(|e: (Option<String>, Vec<ConnNode>)| opt_text(e.0))
}

/// The tree as a list of (folder, rows) entries: one entry per folder that
/// has rows, none twice, each with exactly the rows shown under it.
pub open spec fn tree_of(
    m: Seq<(Option<String>, Vec<ConnNode>)>,
    paths: Seq<Seq<char>>,
    conns: Seq<ConnView>,
) -> bool {
    &&& forall|a: int, b: int| 0 <= a < b < m.len() ==> entry_keys(m)[a] != entry_keys(m)[b]
    &&& forall|e: int|
        0 <= e < m.len() ==> node_views((#[trigger] m[e]).1@) == children(paths, conns, opt_text(m[e].0))
            && m[e].1@.len() > 0
    &&& forall|key: Option<Seq<char>>| children(paths, conns, key).len() > 0 ==> #[trigger] entry_keys(m).contains(key)
}

fn find_entry(m: &Vec<(Option<String>, Vec<ConnNode>)>, key: &Option<String>) -> (r: bool)
    ensures
        r == entry_keys(m@).contains(opt_text(*key)),
{
    let ghost ks = entry_keys(m@);
    let mut i: usize = 0;
    while i < m.len()
        invariant
            0 <= i <= m.len(),
            ks == entry_keys(m@),
            forall|j: int| 0 <= j < i ==> ks[j] != opt_text(*key),
        decreases m.len() - i,
    {
        if same_key(&m[i].0, key) {
            assert(ks[i as int] == opt_text(*key));
            return true;
        }
        i = i + 1;
    }
    false
}

fn add_entry(
    m: &mut Vec<(Option<String>, Vec<ConnNode>)>,
    paths: &Vec<String>,
    conns: &[FtpConnection],
    key: Option<String>,
)
    requires
        children(texts_of(paths@), conn_views(conns@), opt_text(key)).len() > 0,
        forall|a: int, b: int| 0 <= a < b < old(m)@.len() ==> entry_keys(old(m)@)[a] != entry_keys(old(m)@)[b],
        forall|e: int|
            0 <= e < old(m)@.len() ==> node_views((#[trigger] old(m)@[e]).1@) == children(texts_of(paths@), conn_views(conns@), opt_text(old(m)@[e].0))
                && old(m)@[e].1@.len() > 0,
    ensures
        forall|a: int, b: int| 0 <= a < b < final(m)@.len() ==> entry_keys(final(m)@)[a] != entry_keys(final(m)@)[b],
        forall|e: int|
            0 <= e < final(m)@.len() ==> node_views((#[trigger] final(m)@[e]).1@) == children(texts_of(paths@), conn_views(conns@), opt_text(final(m)@[e].0))
                && final(m)@[e].1@.len() > 0,
        forall|k: Option<Seq<char>>| #[trigger] entry_keys(final(m)@).contains(k) <==> (entry_keys(old(m)@).contains(k) || k == opt_text(key)),
{
    let ghost before = m@;
    if !find_entry(m, &key) {
        let rows = children_of(paths, conns, &key);
        m.push((key, rows));
        proof {
            assert(entry_keys(m@) =~= entry_keys(before).push(opt_text(key)));
            assert forall|k: Option<Seq<char>>| #[trigger] entry_keys(m@).contains(k) <==> (entry_keys(before).contains(k) || k == opt_text(key)) by {
                if entry_keys(m@).contains(k) {
                    let i = choose|i: int| 0 <= i < entry_keys(m@).len() && entry_keys(m@)[i] == k;
                    if i < before.len() {
                        assert(entry_keys(before)[i] == k);
                    }
                }
                if entry_keys(before).contains(k) {
                    let i = choose|i: int| 0 <= i < entry_keys(before).len() && entry_keys(before)[i] == k;
                    assert(entry_keys(m@)[i] == k);
                }
                if k == opt_text(key) {
                    assert(entry_keys(m@)[before.len() as int] == k);
                }
            }
            assert forall|e: int| 0 <= e < m@.len() implies node_views((#[trigger] m@[e]).1@) == children(texts_of(paths@), conn_views(conns@), opt_text(m@[e].0))
                && m@[e].1@.len() > 0 by {
                if e < before.len() {
                    assert(m@[e] == before[e]);
                } else {
                    assert(node_views(rows@).len() == rows@.len());
                }
            }
        }
    } else {
        assert forall|k: Option<Seq<char>>| #[trigger] entry_keys(m@).contains(k) <==> (entry_keys(before).contains(k) || k == opt_text(key)) by {}
    }
}

/// The whole connection tree: for every folder that has rows (and for the
/// top, `None`), the rows shown under it.
pub fn build_children_map(conns: &[FtpConnection], explicit: &[String]) -> (r: Vec<(Option<String>, Vec<ConnNode>)>)
    ensures
        tree_of(r@, folder_list(conn_views(conns@), texts_of(explicit@)), conn_views(conns@)),
{
    let paths = connection_folder_paths(conns, explicit);
    let ghost ps = texts_of(paths@);
    let ghost cv = conn_views(conns@);
    let mut m: Vec<(Option<String>, Vec<ConnNode>)> = Vec::new();
    let mut i: usize = 0;
    while i < paths.len()
        invariant
            0 <= i <= paths.len(),
            ps == texts_of(paths@),
            cv == conn_views(conns@),
            forall|a: int, b: int| 0 <= a < b < m@.len() ==> entry_keys(m@)[a] != entry_keys(m@)[b],
            forall|e: int|
                0 <= e < m@.len() ==> node_views((#[trigger] m@[e]).1@) == children(ps, cv, opt_text(m@[e].0))
                    && m@[e].1@.len() > 0,
            forall|j: int| 0 <= j < i ==> entry_keys(m@).contains(#[trigger] parent_of(ps[j])),
        decreases paths.len() - i,
    {
        let key = parent_folder(paths[i].as_str());
        proof {
            lemma_folder_rows_nonempty(ps, opt_text(key));
            assert(parent_of(ps[i as int]) == opt_text(key));
        }
        let ghost before = entry_keys(m@);
        add_entry(&mut m, &paths, conns, key);
        proof {
            assert forall|j: int| 0 <= j < i + 1 implies entry_keys(m@).contains(#[trigger] parent_of(ps[j])) by {
                if j < i {
                    assert(before.contains(parent_of(ps[j])));
                }
            }
        }
        i = i + 1;
    }
    let mut j: usize = 0;
    while j < conns.len()
        invariant
            0 <= j <= conns.len(),
            ps == texts_of(paths@),
            cv == conn_views(conns@),
            forall|a: int, b: int| 0 <= a < b < m@.len() ==> entry_keys(m@)[a] != entry_keys(m@)[b],
            forall|e: int|
                0 <= e < m@.len() ==> node_views((#[trigger] m@[e]).1@) == children(ps, cv, opt_text(m@[e].0))
                    && m@[e].1@.len() > 0,
            forall|t: int| 0 <= t < ps.len() ==> entry_keys(m@).contains(#[trigger] parent_of(ps[t])),
            forall|t: int| 0 <= t < j ==> entry_keys(m@).contains(#[trigger] conn_key(cv[t])),
        decreases conns.len() - j,
    {
        let key = key_of(&conns[j]);
        proof {
            lemma_conn_rows_nonempty(cv, opt_text(key));
            assert(conn_key(cv[j as int]) == opt_text(key));
        }
        let ghost before = entry_keys(m@);
        add_entry(&mut m, &paths, conns, key);
        proof {
            assert forall|t: int| 0 <= t < j + 1 implies entry_keys(m@).contains(#[trigger] conn_key(cv[t])) by {
                if t < j {
                    assert(before.contains(conn_key(cv[t])));
                }
            }
            assert forall|t: int| 0 <= t < ps.len() implies entry_keys(m@).contains(#[trigger] parent_of(ps[t])) by {
                assert(before.contains(parent_of(ps[t])));
            }
        }
        j = j + 1;
    }
    proof {
        assert forall|key: Option<Seq<char>>| children(ps, cv, key).len() > 0 implies #[trigger] entry_keys(m@).contains(key) by {
            lemma_folder_rows_nonempty(ps, key);
            lemma_conn_rows_nonempty(cv, key);
            if folder_rows(ps, key).len() > 0 {
                let t = choose|t: int| 0 <= t < ps.len() && #[trigger] parent_of(ps[t]) == key;
            } else {
                let t = choose|t: int| 0 <= t < cv.len() && #[trigger] conn_key(cv[t]) == key;
            }
        }
    }
    m
}

/// `/` in a new folder name becomes `-`, so that a rename never moves a
/// folder to another level.
pub open spec fn dash_slashes(s: Seq<char>) -> Seq<char> {
    s.map_values(|c: char| if c == '/' { '-' } else { c })
}

/// The path a folder gets when renamed to `leaf`: same parent, new last
/// segment.
pub open spec fn renamed_path(old_path: Seq<char>, leaf: Seq<char>) -> Seq<char> {
    match parent_of(old_path) {
        Some(p) => p + seq!['/'] + dash_slashes(leaf),
        None => dash_slashes(leaf),
    }
}

/// Whether a folder is `path` or lies somewhere below it.
pub open spec fn at_or_under(f: Seq<char>, path: Seq<char>) -> bool {
    f == path || starts_with(f, path + seq!['/'])
}

/// Where a folder ends up when `old_path` becomes `new_path`: the folder
/// itself and everything below it move along, the rest stays.
pub open spec fn moved(f: Seq<char>, old_path: Seq<char>, new_path: Seq<char>) -> Seq<char> {
    if f == old_path {
        new_path
    } else if starts_with(f, old_path + seq!['/']) {
        new_path + seq!['/'] + f.skip(old_path.len() + 1int)
    } else {
        f
    }
}

/// `moved` on an optional folder.
pub open spec fn moved_opt(f: Option<Seq<char>>, old_path: Seq<char>, new_path: Seq<char>) -> Option<Seq<char>> {
    match f {
        Some(g) => Some(moved(g, old_path, new_path)),
        None => None,
    }
}

/// Every folder of a list, moved.
pub open spec fn moved_all(fs: Seq<Seq<char>>, old_path: Seq<char>, new_path: Seq<char>) -> Seq<Seq<char>> {
    fs.map_values(|f: Seq<char>| moved(f, old_path, new_path))
}

/// Every connection of a list, with its folder moved.
pub open spec fn moved_conns(cs: Seq<ConnView>, old_path: Seq<char>, new_path: Seq<char>) -> Seq<ConnView> {
    cs.map_values(|c: ConnView| with_folder(c, moved_opt(c.folder, old_path, new_path)))
}

/// A connection with another folder.
pub open spec fn with_folder(c: ConnView, folder: Option<Seq<char>>) -> ConnView {
    ConnView {
        name: c.name,
        folder,
        protocol: c.protocol,
        host: c.host,
        port: c.port,
        user: c.user,
        pass: c.pass,
        auth_type: c.auth_type,
        key_path: c.key_path,
        passphrase: c.passphrase,
        remote_path: c.remote_path,
        use_tunnel: c.use_tunnel,
        tunnel_host: c.tunnel_host,
        tunnel_port: c.tunnel_port,
        tunnel_user: c.tunnel_user,
        tunnel_auth_type: c.tunnel_auth_type,
        tunnel_pass: c.tunnel_pass,
        tunnel_key_path: c.tunnel_key_path,
        tunnel_passphrase: c.tunnel_passphrase,
    }
}

fn concat3(a: &Vec<char>, b: &Vec<char>, c: &Vec<char>) -> (r: Vec<char>)
    ensures
        r@ == a@ + b@ + c@,
{
    let mut r: Vec<char> = Vec::new();
    push_all(&mut r, a);
    push_all(&mut r, b);
    push_all(&mut r, c);
    r
}

fn moved_folder(f: &str, old_path: &Vec<char>, new_path: &Vec<char>) -> (r: Option<String>)
    ensures
        r matches Some(g) ==> at_or_under(f@, old_path@) && g@ == moved(f@, old_path@, new_path@),
        r is None ==> !at_or_under(f@, old_path@),
{
    let fc = chars_of(f);
    if chars_eq(&fc, old_path) {
        return Some(string_of(new_path.as_slice()));
    }
    let mut prefix = old_path.clone();
    prefix.push('/');
    assert(prefix@ == old_path@ + seq!['/']);
    if has_prefix(&fc, &prefix) {
        let mut rest: Vec<char> = Vec::new();
        let mut i: usize = prefix.len();
        while i < fc.len()
            invariant
                prefix.len() <= i <= fc.len(),
                rest@ == fc@.subrange(prefix.len() as int, i as int),
            decreases fc.len() - i,
        {
            rest.push(fc[i]);
            i = i + 1;
        }
        assert(rest@ =~= f@.skip(old_path@.len() + 1int));
        let slash = vec!['/'];
        let joined = concat3(new_path, &slash, &rest);
        return Some(string_of(joined.as_slice()));
    }
    None
}

/// Renames a folder: the folder and every folder below it, in the saved
/// connections and in the list of explicit folders, move to the new name.
/// Nothing changes when the new path is empty or the same as the old one;
/// the result says whether anything was rewritten.
pub fn rename_folder(
    conns: &mut Vec<FtpConnection>,
    folders: &mut Vec<String>,
    old_path: &str,
    new_leaf: &str,
) -> (changed: bool)
    ensures
        changed == (renamed_path(old_path@, new_leaf@).len() > 0 && renamed_path(old_path@, new_leaf@) != old_path@),
        !changed ==> final(conns)@ == old(conns)@ && final(folders)@ == old(folders)@,
        changed ==> conn_views(final(conns)@) == moved_conns(conn_views(old(conns)@), old_path@, renamed_path(old_path@, new_leaf@)),
        changed ==> texts_of(final(folders)@) == moved_all(texts_of(old(folders)@), old_path@, renamed_path(old_path@, new_leaf@)),
{
    let ghost newp = renamed_path(old_path@, new_leaf@);
    let leaf_chars = chars_of(new_leaf);
    let mut leaf: Vec<char> = Vec::new();
    let mut k: usize = 0;
    while k < leaf_chars.len()
        invariant
            0 <= k <= leaf_chars.len(),
            leaf_chars@ == new_leaf@,
            leaf@ == dash_slashes(new_leaf@.take(k as int)),
        decreases leaf_chars.len() - k,
    {
        let c = leaf_chars[k];
        leaf.push(if c == '/' { '-' } else { c });
        k = k + 1;
        assert(dash_slashes(new_leaf@.take(k as int)) =~= dash_slashes(new_leaf@.take(k - 1)).push(if c == '/' { '-' } else { c }));
    }
    assert(new_leaf@.take(new_leaf@.len() as int) =~= new_leaf@);
    let new_path: Vec<char> = match parent_folder(old_path) {
        Some(p) => {
            let pc = chars_of(p.as_str());
            let slash = vec!['/'];
            concat3(&pc, &slash, &leaf)
        },
        None => leaf,
    };
    assert(new_path@ == newp);
    let old_chars = chars_of(old_path);
    if new_path.len() == 0 || chars_eq(&new_path, &old_chars) {
        return false;
    }
    let ghost oc = conn_views(conns@);
    let ghost of = texts_of(folders@);
    let mut nc: Vec<FtpConnection> = Vec::new();
    let mut i: usize = 0;
    while i < conns.len()
        invariant
            0 <= i <= conns.len(),
            oc == conn_views(conns@),
            old_chars@ == old_path@,
            new_path@ == newp,
            conn_views(nc@) == moved_conns(oc.take(i as int), old_path@, newp),
        decreases conns.len() - i,
    {
        let mut c = conns[i].duplicate();
        let mf = match &conns[i].folder {
            Some(f) => match moved_folder(f.as_str(), &old_chars, &new_path) {
                Some(g) => Some(g),
                None => copy_opt(&conns[i].folder),
            },
            None => None,
        };
        c.folder = mf;
        assert(opt_text(c.folder) == moved_opt(oc[i as int].folder, old_path@, newp));
        assert(c@ == with_folder(oc[i as int], moved_opt(oc[i as int].folder, old_path@, newp)));
        let ghost prev = nc@;
        nc.push(c);
        proof {
            assert(oc.take(i + 1) =~= oc.take(i as int).push(oc[i as int]));
            assert(conn_views(nc@) =~= conn_views(prev).push(c@));
            assert(moved_conns(oc.take(i + 1), old_path@, newp) =~= moved_conns(oc.take(i as int), old_path@, newp).push(
                with_folder(oc[i as int], moved_opt(oc[i as int].folder, old_path@, newp))));
            assert(conn_views(nc@) =~= moved_conns(oc.take(i + 1), old_path@, newp));
        }
        i = i + 1;
    }
    assert(oc.take(oc.len() as int) =~= oc);
    let mut nf: Vec<String> = Vec::new();
    let mut j: usize = 0;
    while j < folders.len()
        invariant
            0 <= j <= folders.len(),
            of == texts_of(folders@),
            old_chars@ == old_path@,
            new_path@ == newp,
            texts_of(nf@) == moved_all(of.take(j as int), old_path@, newp),
        decreases folders.len() - j,
    {
        let g = match moved_folder(folders[j].as_str(), &old_chars, &new_path) {
            Some(g) => g,
            None => folders[j].clone(),
        };
        assert(g@ == moved(of[j as int], old_path@, newp));
        let ghost prev = nf@;
        nf.push(g);
        proof {
            assert(of.take(j + 1) =~= of.take(j as int).push(of[j as int]));
            assert(texts_of(nf@) =~= texts_of(prev).push(g@));
            assert(moved_all(of.take(j + 1), old_path@, newp) =~= moved_all(of.take(j as int), old_path@, newp).push(
                moved(of[j as int], old_path@, newp)));
            assert(texts_of(nf@) =~= moved_all(of.take(j + 1), old_path@, newp));
        }
        j = j + 1;
    }
    assert(of.take(of.len() as int) =~= of);
    *conns = nc;
    *folders = nf;
    true
}

/// A connection no longer filed in `path` or below it: such a connection
/// goes to the top.
pub open spec fn unfiled(c: ConnView, path: Seq<char>) -> ConnView {
    match c.folder {
        Some(f) => if at_or_under(f, path) { with_folder(c, None) } else { c },
        None => c,
    }
}

/// Every connection of a list, unfiled from `path`.
pub open spec fn unfiled_all(cs: Seq<ConnView>, path: Seq<char>) -> Seq<ConnView> {
    cs.map_values(|c: ConnView| unfiled(c, path))
}

/// Folders that survive deleting `path`.
pub open spec fn outside(path: Seq<char>) -> spec_fn(Seq<char>) -> bool {
    |f: Seq<char>| !at_or_under(f, path)
}

/// Deletes a folder and every folder below it. Connections that were filed
/// there go to the top; none of them is deleted.
pub fn delete_folder(conns: &mut Vec<FtpConnection>, folders: &mut Vec<String>, path: &str)
    ensures
        conn_views(final(conns)@) == unfiled_all(conn_views(old(conns)@), path@),
        texts_of(final(folders)@) == texts_of(old(folders)@).filter(outside(path@)),
{
    let pc = chars_of(path);
    let ghost oc = conn_views(conns@);
    let ghost of = texts_of(folders@);
    let mut nc: Vec<FtpConnection> = Vec::new();
    let mut i: usize = 0;
    while i < conns.len()
        invariant
            0 <= i <= conns.len(),
            oc == conn_views(conns@),
            pc@ == path@,
            conn_views(nc@) == unfiled_all(oc.take(i as int), path@),
        decreases conns.len() - i,
    {
        let mut c = conns[i].duplicate();
        let inside = match &conns[i].folder {
            Some(f) => moved_folder(f.as_str(), &pc, &pc).is_some(),
            None => false,
        };
        if inside {
            c.folder = None;
        }
        assert(c@ == unfiled(oc[i as int], path@));
        let ghost prev = nc@;
        nc.push(c);
        proof {
            assert(oc.take(i + 1) =~= oc.take(i as int).push(oc[i as int]));
            assert(conn_views(nc@) =~= conn_views(prev).push(c@));
            assert(unfiled_all(oc.take(i + 1), path@) =~= unfiled_all(oc.take(i as int), path@).push(unfiled(oc[i as int], path@)));
        }
        i = i + 1;
    }
    assert(oc.take(oc.len() as int) =~= oc);
    let mut nf: Vec<String> = Vec::new();
    let mut j: usize = 0;
    while j < folders.len()
        invariant
            0 <= j <= folders.len(),
            of == texts_of(folders@),
            pc@ == path@,
            texts_of(nf@) == of.take(j as int).filter(outside(path@)),
        decreases folders.len() - j,
    {
        proof {
            of.take(j as int).lemma_filter_push(of[j as int], outside(path@));
            assert(of.take(j + 1) =~= of.take(j as int).push(of[j as int]));
        }
        if moved_folder(folders[j].as_str(), &pc, &pc).is_none() {
            let ghost prev = nf@;
            nf.push(folders[j].clone());
            assert(texts_of(nf@) =~= texts_of(prev).push(of[j as int]));
        }
        j = j + 1;
    }
    assert(of.take(of.len() as int) =~= of);
    *conns = nc;
    *folders = nf;
}

/// Adds a folder to the explicit list unless it is there already; says
/// whether it was added.
pub fn add_folder(folders: &mut Vec<String>, path: String) -> (added: bool)
    ensures
        added == !texts_of(old(folders)@).contains(path@),
        added ==> final(folders)@ == old(folders)@.push(path),
        !added ==> final(folders)@ == old(folders)@,
{
    let ghost of = texts_of(folders@);
    let mut i: usize = 0;
    while i < folders.len()
        invariant
            0 <= i <= folders.len(),
            of == texts_of(folders@),
            forall|j: int| 0 <= j < i ==> of[j] != path@,
        decreases folders.len() - i,
    {
        if same_text(folders[i].as_str(), path.as_str()) {
            assert(of[i as int] == path@);
            return false;
        }
        i = i + 1;
    }
    folders.push(path);
    true
}

/// The trimmed, non-empty segments of a typed folder path.
pub open spec fn typed_segments(input: Seq<char>) -> Seq<Seq<char>> {
    split_on(input, '/').map_values(|p: Seq<char>| trim(p)).filter(|p: Seq<char>| p.len() > 0)
}

/// A folder path as typed by the user, cleaned up: every segment trimmed,
/// empty segments dropped, the rest joined with `/`.
pub fn normalize_folder_input(input: &str) -> (r: String)
    ensures
        r@ == join(typed_segments(input@), seq!['/']),
{
    let chars = chars_of(input);
    let ghost nonempty = |p: Seq<char>| p.len() > 0;
    let ghost tr = |p: Seq<char>| trim(p);
    let mut parts: Vec<Vec<char>> = Vec::new();
    let mut cur: Vec<char> = Vec::new();
    let ghost mut pieces: Seq<Seq<char>> = Seq::empty();
    let mut i: usize = 0;
    assert(chars@.take(0) =~= Seq::<char>::empty());
    assert(pieces.push(cur@) =~= seq![Seq::<char>::empty()]);
    while i < chars.len()
        invariant
            0 <= i <= chars.len(),
            chars@ == input@,
            nonempty == (|p: Seq<char>| p.len() > 0),
            tr == (|p: Seq<char>| trim(p)),
            split_on(chars@.take(i as int), '/') == pieces.push(cur@),
            views(parts@) == pieces.map_values(tr).filter(nonempty),
        decreases chars.len() - i,
    {
        let c = chars[i];
        proof {
            lemma_split_on_push(chars@.take(i as int), '/', c);
            assert(chars@.take(i + 1) =~= chars@.take(i as int).push(c));
        }
        if c == '/' {
            let t = trim_chars(&cur);
            proof {
                assert(pieces.push(cur@).map_values(tr) =~= pieces.map_values(tr).push(trim(cur@)));
                pieces.map_values(tr).lemma_filter_push(trim(cur@), nonempty);
            }
            if t.len() > 0 {
                let ghost prev = parts@;
                parts.push(t);
                assert(views(parts@) =~= views(prev).push(trim(cur@)));
            }
            proof {
                pieces = pieces.push(cur@);
            }
            cur = Vec::new();
            assert(split_on(chars@.take(i + 1), '/') =~= pieces.push(cur@));
        } else {
            cur.push(c);
            assert(split_on(chars@.take(i + 1), '/') =~= pieces.push(cur@));
        }
        i = i + 1;
    }
    assert(chars@.take(chars@.len() as int) =~= chars@);
    let t = trim_chars(&cur);
    proof {
        assert(pieces.push(cur@).map_values(tr) =~= pieces.map_values(tr).push(trim(cur@)));
        pieces.map_values(tr).lemma_filter_push(trim(cur@), nonempty);
    }
    if t.len() > 0 {
        let ghost prev = parts@;
        parts.push(t);
        assert(views(parts@) =~= views(prev).push(trim(cur@)));
    }
    assert(views(parts@) =~= typed_segments(input@));
    let sep = vec!['/'];
    assert(sep@ =~= seq!['/']);
    let joined = join_chars(&parts, &sep);
    assert(joined@ == join(typed_segments(input@), seq!['/']));
    string_of(joined.as_slice())
}

/// The path of a new subfolder `leaf` of `parent`.
pub fn subfolder_path(parent: &str, leaf: &str) -> (r: String)
    ensures
        r@ == parent@ + seq!['/'] + leaf@,
{
    let a = chars_of(parent);
    let b = chars_of(leaf);
    let slash = vec!['/'];
    let v = concat3(&a, &slash, &b);
    string_of(v.as_slice())
}

/// What a folder-name prompt hands on: the typed text trimmed, or nothing
/// when that is empty.
pub fn prompt_result(text: &str) -> (r: Option<String>)
    ensures
        r matches Some(s) ==> s@ == trim(text@) && s@.len() > 0,
        r is None ==> trim(text@).len() == 0,
{
    let t = trim_chars(&chars_of(text));
    if t.len() == 0 {
        None
    } else {
        Some(string_of(t.as_slice()))
    }
}

/// Files a connection into the folder of the row it was dropped on; says
/// whether there was such a connection.
pub fn move_connection(conns: &mut Vec<FtpConnection>, from: usize, target: Option<String>) -> (moved_ok: bool)
    ensures
        moved_ok == (from < old(conns)@.len()),
        moved_ok ==> conn_views(final(conns)@) == conn_views(old(conns)@).update(from as int, with_folder(old(conns)@[from as int]@, opt_text(target))),
        !moved_ok ==> final(conns)@ == old(conns)@,
{
    if from >= conns.len() {
        return false;
    }
    let mut c = conns[from].duplicate();
    c.folder = target;
    let ghost before = conns@;
    conns.set(from, c);
    assert(conn_views(conns@) =~= conn_views(before).update(from as int, c@));
    true
}

/// The folder a dropped connection goes to: the folder row it was dropped
/// on, or the folder of the connection row it was dropped on.
pub fn drop_target(node: &ConnNode) -> (r: Option<String>)
    ensures
        opt_text(r) == match node_view(*node) {
            NodeView::Folder(p) => Some(p),
            NodeView::Connection(_, c) => c.folder,
        },
{
    match node {
        ConnNode::Folder(p) => Some(p.clone()),
        ConnNode::Connection { conn, .. } => copy_opt(&conn.folder),
    }
}

/// Whether an optional folder is neither `path` nor below it.
pub open spec fn clear_of(folder: Option<Seq<char>>, path: Seq<char>) -> bool {
    match folder {
        Some(f) => !at_or_under(f, path),
        None => true,
    }
}

proof fn lemma_renamed_shape(old_path: Seq<char>, leaf: Seq<char>) -> (pre: Seq<char>)
    ensures
        old_path == pre + leaf_of(old_path),
        renamed_path(old_path, leaf) == pre + dash_slashes(leaf),
        forall|j: int| 0 <= j < leaf_of(old_path).len() ==> leaf_of(old_path)[j] != '/',
        forall|j: int| 0 <= j < dash_slashes(leaf).len() ==> dash_slashes(leaf)[j] != '/',
{
    lemma_last_index(old_path, '/');
    let d = dash_slashes(leaf);
    assert forall|j: int| 0 <= j < d.len() implies d[j] != '/' by {}
    match last_index(old_path, '/') {
        Some(i) => {
            let pre = old_path.take(i) + seq!['/'];
            assert(old_path =~= pre + leaf_of(old_path));
            assert forall|j: int| 0 <= j < leaf_of(old_path).len() implies leaf_of(old_path)[j] != '/' by {
                assert(leaf_of(old_path)[j] == old_path[i + 1 + j]);
            }
            pre
        },
        None => {
            let pre = Seq::<char>::empty();
            assert(old_path =~= pre + leaf_of(old_path));
            assert(renamed_path(old_path, leaf) =~= pre + d);
            pre
        },
    }
}

/// After a rename, nothing is left at the old path or below it.
proof fn lemma_moved_away(f: Seq<char>, old_path: Seq<char>, leaf: Seq<char>)
    requires
        renamed_path(old_path, leaf) != old_path,
    ensures
        !at_or_under(moved(f, old_path, renamed_path(old_path, leaf)), old_path),
{
    let new_path = renamed_path(old_path, leaf);
    let pre = lemma_renamed_shape(old_path, leaf);
    let l = leaf_of(old_path);
    let pl = pre.len() as int;
    let dl = dash_slashes(leaf).len() as int;
    let ll = l.len() as int;
    let d = dash_slashes(leaf);
    let x = moved(f, old_path, new_path);
    let os = old_path + seq!['/'];
    if f == old_path || starts_with(f, os) {
        let tail: Seq<char> = if f == old_path { Seq::empty() } else { seq!['/'] + f.skip(old_path.len() + 1int) };
        assert(x =~= pre + d + tail) by {
            if f != old_path {
                assert(x =~= new_path + seq!['/'] + f.skip(old_path.len() + 1int));
            }
        }
        if x == old_path {
            if f == old_path {
                assert(new_path == old_path);
            } else {
                assert(x[pl + dl] == '/');
                if d.len() < l.len() {
                    assert(old_path[pl + dl] == l[dl]);
                } else {
                    assert(x.len() > old_path.len());
                }
            }
        }
        if starts_with(x, os) {
            assert(x.subrange(0, os.len() as int) == os);
            assert(os[pl + ll] == '/');
            if l.len() < d.len() {
                assert(x[pl + ll] == d[ll]);
            } else if l.len() > d.len() {
                assert(tail.len() > 0);
                assert(x[pl + dl] == '/');
                assert(os[pl + dl] == l[dl]);
            } else {
                assert forall|j: int| 0 <= j < l.len() implies l[j] == d[j] by {
                    assert(x[pl + j] == d[j]);
                    assert(os[pl + j] == l[j]);
                }
                assert(l =~= d);
                assert(new_path =~= old_path);
            }
        }
    }
}

/// Renaming a folder leaves no connection and no listed folder at the old
/// path or below it, whenever the rename happens at all.
pub proof fn law_rename_leaves_nothing_behind(
    conns: Seq<ConnView>,
    folders: Seq<Seq<char>>,
    old_path: Seq<char>,
    leaf: Seq<char>,
)
    requires
        renamed_path(old_path, leaf) != old_path,
    ensures
        forall|i: int| 0 <= i < folders.len() ==> !at_or_under(
            #[trigger] moved_all(folders, old_path, renamed_path(old_path, leaf))[i],
            old_path,
        ),
        forall|i: int| 0 <= i < conns.len() ==> clear_of((#[trigger] moved_conns(conns, old_path, renamed_path(old_path, leaf))[i]).folder, old_path),
{
    let new_path = renamed_path(old_path, leaf);
    assert forall|i: int| 0 <= i < folders.len() implies !at_or_under(
        #[trigger] moved_all(folders, old_path, new_path)[i], old_path) by {
        lemma_moved_away(folders[i], old_path, leaf);
    }
    assert forall|i: int| 0 <= i < conns.len() implies clear_of((#[trigger] moved_conns(conns, old_path, new_path)[i]).folder, old_path) by {
        if let Some(g) = conns[i].folder {
            lemma_moved_away(g, old_path, leaf);
        }
    }
}

/// Deleting a folder leaves no connection and no listed folder at that path
/// or below it, and keeps every connection.
pub proof fn law_delete_leaves_nothing_behind(conns: Seq<ConnView>, folders: Seq<Seq<char>>, path: Seq<char>)
    ensures
        unfiled_all(conns, path).len() == conns.len(),
        forall|i: int| 0 <= i < conns.len() ==> clear_of((#[trigger] unfiled_all(conns, path)[i]).folder, path),
        forall|i: int| 0 <= i < folders.filter(outside(path)).len() ==> !at_or_under(#[trigger] folders.filter(outside(path))[i], path),
{
    assert forall|i: int| 0 <= i < folders.filter(outside(path)).len() implies !at_or_under(#[trigger] folders.filter(outside(path))[i], path) by {
        folders.filter_lemma(outside(path));
    }
}

} // verus!
