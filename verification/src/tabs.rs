use vstd::prelude::*;
use crate::text::{chars_of, contains_text, has_substring, lemma_split_on_push, lowercase, split_on, string_of, to_lowercase};

verus! {

/// The tabs of one panel, by id, in strip order, with the id the tab view
/// last reported as selected and the id the next new tab gets.
pub struct TabSet {
    ids: Vec<u32>,
    selected: Option<u32>,
    next_id: u32,
}

impl TabSet {
    /// At least one tab; ids distinct and all below the next id.
    pub closed spec fn wf(&self) -> bool {
        &&& self.ids@.len() >= 1
        &&& forall|i: int, j: int| 0 <= i < j < self.ids@.len() ==> self.ids@[i] != self.ids@[j]
        &&& forall|i: int| 0 <= i < self.ids@.len() ==> self.ids@[i] < self.next_id
    }

    /// The ids of the tabs, in strip order.
    pub closed spec fn ids(&self) -> Seq<u32> {
        self.ids@
    }

    /// The tab last reported as selected.
    pub closed spec fn selected(&self) -> Option<u32> {
        self.selected
    }

    /// The id the next new tab gets.
    pub closed spec fn next(&self) -> u32 {
        self.next_id
    }

    /// The tab the panel acts on: the selected one when it is still open,
    /// otherwise the first.
    pub open spec fn active_spec(&self) -> u32 {
        match self.selected() {
            Some(s) => if self.ids().contains(s) { s } else { self.ids()[0] },
            None => self.ids()[0],
        }
    }

    /// A panel opens with one tab, id 0, selected.
    pub fn new() -> (r: Self)
        ensures
            r.wf(),
            r.ids() == seq![0u32],
            r.selected() == Some(0u32),
            r.next() == 1,
    {
        let mut ids: Vec<u32> = Vec::new();
        ids.push(0);
        TabSet { ids, selected: Some(0), next_id: 1 }
    }

    /// How many tabs are open.
    pub fn len(&self) -> (r: usize)
        ensures
            r == self.ids().len(),
    {
        self.ids.len()
    }

    /// The ids of the tabs, in strip order.
    pub fn tab_ids(&self) -> (r: Vec<u32>)
        ensures
            r@ == self.ids(),
    {
        self.ids.clone()
    }

    /// Opens a tab at the end of the strip with a fresh id, selecting it
    /// when asked to.
    pub fn add(&mut self, select: bool) -> (id: u32)
        requires
            old(self).wf(),
            old(self).next() < u32::MAX,
        ensures
            final(self).wf(),
            id == old(self).next(),
            !old(self).ids().contains(id),
            final(self).ids() == old(self).ids().push(id),
            final(self).next() == old(self).next() + 1,
            final(self).selected() == (if select { Some(id) } else { old(self).selected() }),
    {
        let id = self.next_id;
        assert(!self.ids@.contains(id)) by {
            if self.ids@.contains(id) {
                let k = choose|k: int| 0 <= k < self.ids@.len() && self.ids@[k] == id;
                assert(self.ids@[k] < self.next_id);
            }
        }
        self.ids.push(id);
        self.next_id = id + 1;
        if select {
            self.selected = Some(id);
        }
        id
    }

    /// Where the tab `id` stands in the strip.
    pub fn position(&self, id: u32) -> (r: Option<usize>)
        ensures
            match r {
                Some(i) => i < self.ids().len() && self.ids()[i as int] == id,
                None => !self.ids().contains(id),
            },
    {
        let mut i: usize = 0;
        while i < self.ids.len()
            invariant
                0 <= i <= self.ids@.len(),
                forall|k: int| 0 <= k < i ==> self.ids@[k] != id,
            decreases self.ids.len() - i,
        {
            if self.ids[i] == id {
                return Some(i);
            }
            i = i + 1;
        }
        None
    }

    /// The tab view reports a selected tab; ids of closed tabs are ignored.
    pub fn select(&mut self, id: u32)
        ensures
            final(self).ids() == old(self).ids(),
            final(self).next() == old(self).next(),
            final(self).selected() == (if old(self).ids().contains(id) { Some(id) } else { old(self).selected() }),
            old(self).wf() ==> final(self).wf(),
    {
        if self.position(id).is_some() {
            self.selected = Some(id);
        }
    }

    /// The tab the panel acts on.
    pub fn active(&self) -> (r: u32)
        requires
            self.wf(),
        ensures
            r == self.active_spec(),
    {
        match self.selected {
            Some(s) => match self.position(s) {
                Some(_) => s,
                None => self.ids[0],
            },
            None => self.ids[0],
        }
    }

    /// Whether a tab may be closed now: never the last one. The close
    /// button is shown exactly then.
    pub fn can_close(&self) -> (r: bool)
        ensures
            r == (self.ids().len() > 1),
    {
        self.ids.len() > 1
    }

    /// Closes the tab `id`: it leaves the strip when it is open and is not
    /// the last tab; otherwise nothing changes.
    pub fn close(&mut self, id: u32) -> (closed: bool)
        requires
            old(self).wf(),
        ensures
            final(self).wf(),
            final(self).next() == old(self).next(),
            final(self).selected() == old(self).selected(),
            closed == (old(self).ids().len() > 1 && old(self).ids().contains(id)),
            closed ==> exists|i: int|
                0 <= i < old(self).ids().len() && old(self).ids()[i] == id && final(self).ids() == old(self).ids().remove(i),
            !closed ==> final(self).ids() == old(self).ids(),
            !final(self).ids().contains(id) || !closed,
    {
        if self.ids.len() <= 1 {
            return false;
        }
        match self.position(id) {
            None => false,
            Some(i) => {
                let ghost before = self.ids@;
                self.ids.remove(i);
                assert(self.ids@ == before.remove(i as int));
                assert forall|a: int, b: int| 0 <= a < b < self.ids@.len() implies self.ids@[a] != self.ids@[b] by {
                    let a2 = if a < i { a } else { a + 1 };
                    let b2 = if b < i { b } else { b + 1 };
                    assert(self.ids@[a] == before[a2]);
                    assert(self.ids@[b] == before[b2]);
                }
                assert forall|k: int| 0 <= k < self.ids@.len() implies self.ids@[k] < self.next_id by {
                    let k2 = if k < i { k } else { k + 1 };
                    assert(self.ids@[k] == before[k2]);
                }
                assert(!self.ids@.contains(id)) by {
                    if self.ids@.contains(id) {
                        let k = choose|k: int| 0 <= k < self.ids@.len() && self.ids@[k] == id;
                        let k2 = if k < i { k } else { k + 1 };
                        assert(self.ids@[k] == before[k2]);
                    }
                }
                true
            },
        }
    }
}

/// A tab that is added and selected becomes the tab the panel acts on,
/// and the tabs open before keep their places.
pub proof fn law_added_tab_is_active(before: TabSet, after: TabSet, id: u32)
    requires
        before.wf(),
        after.wf(),
        id == before.next(),
        after.ids() == before.ids().push(id),
        after.selected() == Some(id),
    ensures
        after.active_spec() == id,
        forall|i: int| 0 <= i < before.ids().len() ==> after.ids()[i] == before.ids()[i],
{
    assert(after.ids()[before.ids().len() as int] == id);
}

/// Whether a new tab takes the focus: the setting (on by default), turned
/// around when Ctrl is held.
pub fn focus_new_tab(setting: Option<bool>, ctrl: bool) -> (r: bool)
    ensures
        r == (match setting {
            Some(b) => b,
            None => true,
        } != ctrl),
{
    let default_focus = match setting {
        Some(b) => b,
        None => true,
    };
    default_focus != ctrl
}

/// Whether a piece of a path names something: not empty and not `.`.
pub open spec fn is_name_part(s: Seq<char>) -> bool {
    s.len() > 0 && s != seq!['.']
}

/// The last piece of a path that names something.
pub open spec fn last_part(pieces: Seq<Seq<char>>) -> Option<Seq<char>>
    decreases pieces.len(),
{
    if pieces.len() == 0 {
        None
    } else if is_name_part(pieces.last()) {
        Some(pieces.last())
    } else {
        last_part(pieces.drop_last())
    }
}

/// The final component of a `/`-separated path, as `Path::file_name`
/// reads it: empty pieces and `.` are skipped, and a path that ends in
/// `..` (or names nothing) has none.
pub open spec fn file_name_of(p: Seq<char>) -> Option<Seq<char>> {
    match last_part(split_on(p, '/')) {
        Some(s) => if s == seq!['.', '.'] { None } else { Some(s) },
        None => None,
    }
}

/// The title of a tab opened at a path: the path's final component, or
/// `/` when there is no path or it has none.
pub open spec fn opening_title(path: Option<Seq<char>>) -> Seq<char> {
    match path {
        Some(p) => if p.len() > 0 {
            match file_name_of(p) {
                Some(n) => n,
                None => "/"@,
            }
        } else {
            "/"@
        },
        None => "/"@,
    }
}

fn is_dot(v: &Vec<char>) -> (r: bool)
    ensures
        r == (v@ == seq!['.']),
{
    if v.len() == 1 && v[0] == '.' {
        assert(v@ =~= seq!['.']);
        true
    } else {
        false
    }
}

/// The final component of a path.
pub fn file_name(path: &str) -> (r: Option<String>)
    ensures
        match r {
            Some(n) => file_name_of(path@) == Some(n@),
            None => file_name_of(path@) is None,
        },
{
    let chars = chars_of(path);
    let mut cur: Vec<char> = Vec::new();
    let mut last: Option<Vec<char>> = None;
    let ghost mut pieces: Seq<Seq<char>> = Seq::empty();
    let mut i: usize = 0;
    assert(chars@.take(0) =~= Seq::<char>::empty());
    assert(pieces.push(cur@) =~= seq![Seq::<char>::empty()]);
    while i < chars.len()
        invariant
            0 <= i <= chars.len(),
            chars@ == path@,
            split_on(chars@.take(i as int), '/') == pieces.push(cur@),
            match last {
                Some(v) => last_part(pieces) == Some(v@),
                None => last_part(pieces) is None,
            },
        decreases chars.len() - i,
    {
        let c = chars[i];
        proof {
            lemma_split_on_push(chars@.take(i as int), '/', c);
            assert(chars@.take(i + 1) =~= chars@.take(i as int).push(c));
        }
        if c == '/' {
            let ghost old_pieces = pieces;
            proof {
                pieces = pieces.push(cur@);
                assert(pieces.drop_last() =~= old_pieces);
            }
            if cur.len() > 0 && !is_dot(&cur) {
                last = Some(cur);
            }
            cur = Vec::new();
            assert(split_on(chars@.take(i + 1), '/') =~= pieces.push(cur@));
        } else {
            cur.push(c);
            assert(split_on(chars@.take(i + 1), '/') =~= pieces.push(cur@));
        }
        i = i + 1;
    }
    assert(chars@.take(chars@.len() as int) =~= chars@);
    let ghost all = pieces.push(cur@);
    assert(all.drop_last() =~= pieces);
    let name = if cur.len() > 0 && !is_dot(&cur) {
        Some(cur)
    } else {
        last
    };
    match name {
        Some(v) => {
            if v.len() == 2 && v[0] == '.' && v[1] == '.' {
                assert(v@ =~= seq!['.', '.']);
                None
            } else {
                assert(v@ != seq!['.', '.']);
                Some(string_of(v.as_slice()))
            }
        },
        None => None,
    }
}

/// The title a tab gets when it opens at `path`.
pub fn tab_title_for(path: &Option<String>) -> (r: String)
    ensures
        r@ == opening_title(match path {
            Some(p) => Some(p@),
            None => None,
        }),
{
    match path {
        Some(p) => {
            if p.as_str().is_empty() {
                "/".to_owned()
            } else {
                match file_name(p.as_str()) {
                    Some(n) => n,
                    None => "/".to_owned(),
                }
            }
        },
        None => "/".to_owned(),
    }
}

/// The title of a tab from what it shows: `/` for the source list, else
/// the name of its deepest folder, or `/` when that is empty or missing.
pub fn tab_title_for_view(showing_selector: bool, last_level: Option<&str>) -> (r: String)
    ensures
        r@ == (if showing_selector {
            "/"@
        } else {
            match last_level {
                Some(n) => if n@.len() > 0 { n@ } else { "/"@ },
                None => "/"@,
            }
        }),
{
    if showing_selector {
        return "/".to_owned();
    }
    match last_level {
        Some(n) => if n.is_empty() {
            "/".to_owned()
        } else {
            n.to_owned()
        },
        None => "/".to_owned(),
    }
}

/// Which side a panel is on, from its name: a name that mentions `left`
/// in any case is the left one.
pub fn is_left_panel(name: &str) -> (r: bool)
    ensures
        r == contains_text(lowercase(name@), "left"@),
{
    let lower = to_lowercase(name);
    let hay = chars_of(lower.as_str());
    let needle = chars_of("left");
    has_substring(&hay, &needle)
}

} // verus!
