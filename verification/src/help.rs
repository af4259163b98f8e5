use vstd::prelude::*;
use crate::hotkeys::{texts, HotKey, HotKeyText};
use crate::text::{chars_of, join, join_chars, push_str, same_text, string_of, texts_of, views};

verus! {

/// The keys bound to action `id`: those of the first hotkey with that id,
/// or nothing.
pub open spec fn keys_for(hotkeys: Seq<HotKeyText>, id: Seq<char>) -> Seq<char>
    decreases hotkeys.len(),
{
    if hotkeys.len() == 0 {
        Seq::empty()
    } else if hotkeys[0].0 == id {
        hotkeys[0].2
    } else {
        keys_for(hotkeys.drop_first(), id)
    }
}

/// A line of the help's shortcut list: `- **keys**: label`.
pub open spec fn shortcut_text(keys: Seq<char>, label: Seq<char>) -> Seq<char> {
    "- **"@ + keys + "**: "@ + label
}

/// The help lines for a list of (action id, label): one per action that
/// has keys bound, in list order.
pub open spec fn shortcut_lines(hotkeys: Seq<HotKeyText>, entries: Seq<(Seq<char>, Seq<char>)>) -> Seq<Seq<char>>
    decreases entries.len(),
{
    if entries.len() == 0 {
        Seq::empty()
    } else {
        let rest = shortcut_lines(hotkeys, entries.drop_last());
        let keys = keys_for(hotkeys, entries.last().0);
        if keys.len() == 0 { rest } else { rest.push(shortcut_text(keys, entries.last().1)) }
    }
}

/// The keys bound to action `id`.
pub fn keys_of(hotkeys: &Vec<HotKey>, id: &str) -> (r: String)
    ensures
        r@ == keys_for(texts(hotkeys@), id@),
{
    let ghost hs = texts(hotkeys@);
    let mut i: usize = 0;
    assert(hs.skip(0) =~= hs);
    while i < hotkeys.len()
        invariant
            0 <= i <= hotkeys@.len(),
            hs == texts(hotkeys@),
            keys_for(hs, id@) == keys_for(hs.skip(i as int), id@),
        decreases hotkeys.len() - i,
    {
        assert(hs.skip(i as int)[0] == hotkeys@[i as int]@);
        if same_text(hotkeys[i].id.as_str(), id) {
            return hotkeys[i].keys.clone();
        }
        assert(hs.skip(i as int).drop_first() =~= hs.skip(i + 1));
        i = i + 1;
    }
    String::new()
}

/// `- **keys**: label`.
pub fn shortcut_line(keys: &str, label: &str) -> (r: String)
    ensures
        r@ == shortcut_text(keys@, label@),
{
    let mut v: Vec<char> = Vec::new();
    push_str(&mut v, "- **");
    push_str(&mut v, keys);
    push_str(&mut v, "**: ");
    push_str(&mut v, label);
    string_of(v.as_slice())
}

/// The pair texts of a list of (id, label).
pub open spec fn entry_texts(entries: Seq<(String, String)>) -> Seq<(Seq<char>, Seq<char>)> {
    entries.map_values(|e: (String, String)| (e.0@, e.1@))
}

/// The help's lines for bindable actions: for each (id, label), its keys
/// and label, skipping actions with nothing bound.
pub fn help_shortcut_lines(hotkeys: &Vec<HotKey>, entries: &Vec<(String, String)>) -> (r: Vec<String>)
    ensures
        texts_of(r@) == shortcut_lines(texts(hotkeys@), entry_texts(entries@)),
{
    let ghost es = entry_texts(entries@);
    let mut out: Vec<String> = Vec::new();
    let mut i: usize = 0;
    assert(es.take(0) =~= Seq::<(Seq<char>, Seq<char>)>::empty());
    assert(texts_of(out@) =~= Seq::<Seq<char>>::empty());
    while i < entries.len()
        invariant
            0 <= i <= entries@.len(),
            es == entry_texts(entries@),
            texts_of(out@) == shortcut_lines(texts(hotkeys@), es.take(i as int)),
        decreases entries.len() - i,
    {
        assert(es.take(i + 1).drop_last() =~= es.take(i as int));
        assert(es.take(i + 1).last() == (entries@[i as int].0@, entries@[i as int].1@));
        let keys = keys_of(hotkeys, entries[i].0.as_str());
        if !keys.as_str().is_empty() {
            let line = shortcut_line(keys.as_str(), entries[i].1.as_str());
            let ghost before = out@;
            out.push(line);
            assert(texts_of(out@) =~= texts_of(before).push(line@));
        } else {
            assert(keys@ =~= Seq::<char>::empty());
        }
        i = i + 1;
    }
    assert(es.take(entries@.len() as int) =~= es);
    out
}

/// The help text: its lines joined with line breaks.
pub fn help_body(lines: &Vec<String>) -> (r: String)
    ensures
        r@ == join(texts_of(lines@), seq!['\n']),
{
    let mut parts: Vec<Vec<char>> = Vec::new();
    let mut i: usize = 0;
    while i < lines.len()
        invariant
            0 <= i <= lines@.len(),
            views(parts@) == texts_of(lines@).take(i as int),
        decreases lines.len() - i,
    {
        let ghost before = parts@;
        parts.push(chars_of(lines[i].as_str()));
        assert(views(parts@) =~= views(before).push(lines@[i as int]@));
        assert(texts_of(lines@).take(i + 1) =~= texts_of(lines@).take(i as int).push(lines@[i as int]@));
        i = i + 1;
    }
    assert(texts_of(lines@).take(lines@.len() as int) =~= texts_of(lines@));
    let mut sep: Vec<char> = Vec::new();
    sep.push('\n');
    assert(sep@ =~= seq!['\n']);
    let joined = join_chars(&parts, &sep);
    string_of(joined.as_slice())
}

} // verus!
