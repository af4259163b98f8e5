use vstd::prelude::*;
use crate::text::{chars_of, has_prefix, same_text, split_on, starts_with, string_of, texts_of};

verus! {

/// One file or folder of a scanned transfer, by its path below the folder
/// the transfer starts from.
pub struct TransferItem {
    pub relative_path: String,
    pub is_dir: bool,
    pub size: u64,
}

/// The number of files among the items.
pub open spec fn file_count(items: Seq<TransferItem>) -> nat
    decreases items.len(),
{
    if items.len() == 0 {
        0
    } else {
        file_count(items.drop_last()) + if items.last().is_dir { 0nat } else { 1nat }
    }
}

/// The number of folders among the items.
pub open spec fn dir_count(items: Seq<TransferItem>) -> nat
    decreases items.len(),
{
    if items.len() == 0 {
        0
    } else {
        dir_count(items.drop_last()) + if items.last().is_dir { 1nat } else { 0nat }
    }
}

/// The total size of the files among the items (folders count nothing).
pub open spec fn file_bytes(items: Seq<TransferItem>) -> nat
    decreases items.len(),
{
    if items.len() == 0 {
        0
    } else {
        file_bytes(items.drop_last()) + if items.last().is_dir { 0nat } else { items.last().size as nat }
    }
}

proof fn lemma_file_bytes_prefix(items: Seq<TransferItem>, k: int)
    requires
        0 <= k <= items.len(),
    ensures
        file_bytes(items.take(k)) <= file_bytes(items),
    decreases items.len() - k,
{
    if k < items.len() {
        assert(items.take(k + 1).drop_last() =~= items.take(k));
        lemma_file_bytes_prefix(items, k + 1);
    } else {
        assert(items.take(k) =~= items);
    }
}

/// What a scan found: files, folders and the bytes of the files.
#[derive(Clone, Copy, PartialEq, Eq, Debug, Structural)]
pub struct ScanTotals {
    pub files: usize,
    pub dirs: usize,
    pub bytes: u64,
}

/// Counts the files and folders of a scan and adds up the file sizes.
pub fn scan_totals(items: &Vec<TransferItem>) -> (r: ScanTotals)
    requires
        file_bytes(items@) <= u64::MAX,
    ensures
        r.files == file_count(items@),
        r.dirs == dir_count(items@),
        r.bytes == file_bytes(items@),
{
    let mut files: usize = 0;
    let mut dirs: usize = 0;
    let mut bytes: u64 = 0;
    let mut i: usize = 0;
    while i < items.len()
        invariant
            0 <= i <= items.len(),
            file_bytes(items@) <= u64::MAX,
            files == file_count(items@.take(i as int)),
            dirs == dir_count(items@.take(i as int)),
            bytes == file_bytes(items@.take(i as int)),
            files + dirs == i,
        decreases items.len() - i,
    {
        assert(items@.take(i + 1).drop_last() =~= items@.take(i as int));
        proof {
            lemma_file_bytes_prefix(items@, i + 1);
        }
        if items[i].is_dir {
            dirs = dirs + 1;
        } else {
            files = files + 1;
            bytes = bytes + items[i].size;
        }
        i = i + 1;
    }
    assert(items@.take(items@.len() as int) =~= items@);
    ScanTotals { files, dirs, bytes }
}

/// The first component of a relative path: the top-level entry it belongs to.
pub open spec fn top_level_of(rel: Seq<char>) -> Seq<char> {
    split_on(rel, '/')[0]
}

/// The top-level entry a relative path belongs to.
pub fn top_level(rel: &str) -> (r: String)
    ensures
        r@ == top_level_of(rel@),
{
    let chars = chars_of(rel);
    let mut out: Vec<char> = Vec::new();
    let mut i: usize = 0;
    while i < chars.len() && chars[i] != '/'
        invariant
            0 <= i <= chars.len(),
            chars@ == rel@,
            out@ == rel@.take(i as int),
            forall|j: int| 0 <= j < i ==> rel@[j] != '/',
        decreases chars.len() - i,
    {
        out.push(chars[i]);
        i = i + 1;
        assert(out@ =~= rel@.take(i as int));
    }
    proof {
        lemma_first_piece(rel@, i as int);
    }
    string_of(out.as_slice())
}

proof fn lemma_first_piece(s: Seq<char>, i: int)
    requires
        0 <= i <= s.len(),
        forall|j: int| 0 <= j < i ==> s[j] != '/',
        i == s.len() || s[i] == '/',
    ensures
        split_on(s, '/')[0] == s.take(i),
    decreases s.len(),
{
    crate::text::lemma_split_on_len(s, '/');
    if s.len() > i {
        let t = s.drop_last();
        crate::text::lemma_split_on_len(t, '/');
        if t.len() > i {
            lemma_first_piece(t, i);
        } else {
            lemma_first_piece(t, i);
            assert(t.take(i) =~= t);
        }
        assert(t.take(i) =~= s.take(i));
        if s.last() != '/' {
            assert(split_on(t, '/').len() >= 2) by {
                lemma_split_on_has_slash(t, i);
            }
        }
    } else if s.len() > 0 {
        let t = s.drop_last();
        lemma_first_piece(t, i - 1);
        assert(t.take(i - 1) =~= t);
        crate::text::lemma_split_on_len(t, '/');
        lemma_no_slash_single(t);
        assert(s.take(i) =~= t.push(s.last()));
    } else {
        assert(s.take(0) =~= Seq::<char>::empty());
    }
}

proof fn lemma_no_slash_single(s: Seq<char>)
    requires
        forall|j: int| 0 <= j < s.len() ==> s[j] != '/',
    ensures
        split_on(s, '/') == seq![s],
    decreases s.len(),
{
    if s.len() > 0 {
        let t = s.drop_last();
        assert forall|j: int| 0 <= j < t.len() implies t[j] != '/' by {
            assert(t[j] == s[j]);
        }
        lemma_no_slash_single(t);
        assert(s.last() != '/');
        assert(t.push(s.last()) =~= s);
        assert(seq![t].update(0, t.push(s.last())) =~= seq![s]);
    } else {
        assert(s =~= Seq::<char>::empty());
    }
}

proof fn lemma_split_on_has_slash(s: Seq<char>, i: int)
    requires
        0 <= i < s.len(),
        s[i] == '/',
    ensures
        split_on(s, '/').len() >= 2,
    decreases s.len(),
{
    crate::text::lemma_split_on_len(s.drop_last(), '/');
    if i < s.len() - 1 {
        lemma_split_on_has_slash(s.drop_last(), i);
    }
}

/// The top-level entries of a transfer that already exist at the
/// destination, in the order they first come, each once.
pub open spec fn conflicts_of(items: Seq<TransferItem>, existing: Seq<Seq<char>>) -> Seq<Seq<char>>
    decreases items.len(),
{
    if items.len() == 0 {
        Seq::empty()
    } else {
        let rest = conflicts_of(items.drop_last(), existing);
        let top = top_level_of(items.last().relative_path@);
        if existing.contains(top) && !rest.contains(top) { rest.push(top) } else { rest }
    }
}


/// The top-level entries that would overwrite something at the
/// destination, whose entries are `existing`.
pub fn find_conflicts(items: &Vec<TransferItem>, existing: &Vec<String>) -> (r: Vec<String>)
    ensures
        texts_of(r@) == conflicts_of(items@, texts_of(existing@)),
{
    let ghost ex = texts_of(existing@);
    let mut out: Vec<String> = Vec::new();
    let mut i: usize = 0;
    while i < items.len()
        invariant
            0 <= i <= items.len(),
            ex == texts_of(existing@),
            texts_of(out@) == conflicts_of(items@.take(i as int), ex),
        decreases items.len() - i,
    {
        assert(items@.take(i + 1).drop_last() =~= items@.take(i as int));
        let top = top_level(items[i].relative_path.as_str());
        if crate::text::contains_string(existing.as_slice(), top.as_str()) && !crate::text::contains_string(out.as_slice(), top.as_str()) {
            let ghost prev = out@;
            let ghost tv = top@;
            out.push(top);
            assert(texts_of(out@) =~= texts_of(prev).push(tv));
        }
        i = i + 1;
    }
    assert(items@.take(items@.len() as int) =~= items@);
    out
}

/// An answer to "overwrite this entry?".
#[derive(Clone, Copy, PartialEq, Eq, Debug, Structural)]
pub enum OverwriteDecision {
    Yes,
    YesToAll,
    Skip,
    SkipAll,
    Cancel,
}

/// The answer a button of the overwrite question stands for; closing the
/// question cancels.
pub fn overwrite_decision(response: &str) -> (r: OverwriteDecision)
    ensures
        r == (if response@ == "yes"@ {
            OverwriteDecision::Yes
        } else if response@ == "yes_all"@ {
            OverwriteDecision::YesToAll
        } else if response@ == "skip"@ {
            OverwriteDecision::Skip
        } else if response@ == "skip_all"@ {
            OverwriteDecision::SkipAll
        } else {
            OverwriteDecision::Cancel
        }),
{
    if same_text(response, "yes") {
        OverwriteDecision::Yes
    } else if same_text(response, "yes_all") {
        OverwriteDecision::YesToAll
    } else if same_text(response, "skip") {
        OverwriteDecision::Skip
    } else if same_text(response, "skip_all") {
        OverwriteDecision::SkipAll
    } else {
        OverwriteDecision::Cancel
    }
}

/// Whether the question offers "Skip All" and "Yes to All": only when more
/// than one conflict is left, this one included.
pub fn offers_all_choices(remaining: usize) -> (r: bool)
    ensures
        r == (remaining > 1),
{
    remaining > 1
}

/// Going through the conflicts one question at a time: the next conflict,
/// the answer given for all the rest (if any), the entries to skip so far,
/// and whether the user cancelled.
pub struct OverwriteWalk {
    pub next: usize,
    pub apply_all: Option<bool>,
    pub skip: Vec<String>,
    pub cancelled: bool,
}

/// The walk before the first question.
pub fn walk_start() -> (r: OverwriteWalk)
    ensures
        r.next == 0,
        r.apply_all is None,
        r.skip@.len() == 0,
        !r.cancelled,
{
    OverwriteWalk { next: 0, apply_all: None, skip: Vec::new(), cancelled: false }
}

/// Whether the user must be asked about conflict `walk.next`: not after
/// cancelling, and not once an answer was given for all.
pub open spec fn must_ask(walk: OverwriteWalk, count: nat) -> bool {
    !walk.cancelled && walk.apply_all is None && walk.next < count
}

/// The conflict to ask about next and how many are left with it, if the
/// user must be asked.
pub fn next_question(walk: &OverwriteWalk, conflicts: &Vec<String>) -> (r: Option<(usize, usize)>)
    ensures
        must_ask(*walk, conflicts@.len()) ==> r == Some((walk.next, (conflicts@.len() - walk.next) as usize)),
        !must_ask(*walk, conflicts@.len()) ==> r is None,
{
    if !walk.cancelled && walk.apply_all.is_none() && walk.next < conflicts.len() {
        Some((walk.next, conflicts.len() - walk.next))
    } else {
        None
    }
}

/// Records the answer about conflict `walk.next`.
pub fn answer(walk: &mut OverwriteWalk, conflicts: &Vec<String>, d: OverwriteDecision)
    requires
        must_ask(*old(walk), conflicts@.len()),
    ensures
        d == OverwriteDecision::Cancel ==> final(walk).cancelled && final(walk).next == old(walk).next
            && final(walk).skip@ == old(walk).skip@ && final(walk).apply_all == old(walk).apply_all,
        d != OverwriteDecision::Cancel ==> !final(walk).cancelled && final(walk).next == old(walk).next + 1,
        d == OverwriteDecision::Yes ==> final(walk).apply_all is None && final(walk).skip@ == old(walk).skip@,
        d == OverwriteDecision::YesToAll ==> final(walk).apply_all == Some(true) && final(walk).skip@ == old(walk).skip@,
        d == OverwriteDecision::Skip ==> final(walk).apply_all is None && texts_of(final(walk).skip@) == texts_of(
            old(walk).skip@,
        ).push(conflicts@[old(walk).next as int]@),
        d == OverwriteDecision::SkipAll ==> final(walk).apply_all == Some(false) && texts_of(final(walk).skip@)
            == texts_of(old(walk).skip@).push(conflicts@[old(walk).next as int]@),
{
    let _count = conflicts.len();
    let name = conflicts[walk.next].clone();
    match d {
        OverwriteDecision::Yes => {
            walk.next = walk.next + 1;
        },
        OverwriteDecision::YesToAll => {
            walk.apply_all = Some(true);
            walk.next = walk.next + 1;
        },
        OverwriteDecision::Skip => {
            let ghost prev = walk.skip@;
            walk.skip.push(name);
            assert(texts_of(walk.skip@) =~= texts_of(prev).push(conflicts@[old(walk).next as int]@));
            walk.next = walk.next + 1;
        },
        OverwriteDecision::SkipAll => {
            let ghost prev = walk.skip@;
            walk.skip.push(name);
            assert(texts_of(walk.skip@) =~= texts_of(prev).push(conflicts@[old(walk).next as int]@));
            walk.apply_all = Some(false);
            walk.next = walk.next + 1;
        },
        OverwriteDecision::Cancel => {
            walk.cancelled = true;
        },
    }
}

/// What the questions decided, once none is left to ask: nothing when the
/// user cancelled, else the entries to skip, which after "Skip All" include
/// every conflict not asked about.
pub fn walk_result(walk: OverwriteWalk, conflicts: &Vec<String>) -> (r: Option<Vec<String>>)
    requires
        !must_ask(walk, conflicts@.len()),
        walk.next <= conflicts@.len(),
    ensures
        walk.cancelled ==> r is None,
        !walk.cancelled ==> (r matches Some(skip) && texts_of(skip@) == texts_of(walk.skip@) + (if walk.apply_all == Some(false) {
            texts_of(conflicts@).skip(walk.next as int)
        } else {
            Seq::empty()
        })),
{
    if walk.cancelled {
        return None;
    }
    let mut skip = walk.skip;
    let ghost base = texts_of(skip@);
    let ghost cs = texts_of(conflicts@);
    if walk.apply_all == Some(false) {
        let mut i: usize = walk.next;
        while i < conflicts.len()
            invariant
                walk.next <= i <= conflicts.len(),
                cs == texts_of(conflicts@),
                texts_of(skip@) == base + cs.subrange(walk.next as int, i as int),
            decreases conflicts.len() - i,
        {
            let ghost prev = skip@;
            skip.push(conflicts[i].clone());
            assert(texts_of(skip@) =~= texts_of(prev).push(cs[i as int]));
            assert(cs.subrange(walk.next as int, i + 1) =~= cs.subrange(walk.next as int, i as int).push(cs[i as int]));
            i = i + 1;
        }
        assert(cs.subrange(walk.next as int, cs.len() as int) =~= cs.skip(walk.next as int));
    } else {
        assert(texts_of(skip@) =~= base + Seq::<Seq<char>>::empty());
    }
    Some(skip)
}

/// The items that are not below a skipped top-level entry.
pub open spec fn not_skipped(items: Seq<TransferItem>, skip: Seq<Seq<char>>) -> Seq<TransferItem>
    decreases items.len(),
{
    if items.len() == 0 {
        Seq::empty()
    } else {
        let rest = not_skipped(items.drop_last(), skip);
        if skip.contains(top_level_of(items.last().relative_path@)) { rest } else { rest.push(items.last()) }
    }
}

/// Drops every item below a skipped top-level entry.
pub fn drop_skipped(items: Vec<TransferItem>, skip: &Vec<String>) -> (r: Vec<TransferItem>)
    ensures
        r@ == not_skipped(items@, texts_of(skip@)),
{
    let ghost all = items@;
    let ghost sk = texts_of(skip@);
    let n = items.len();
    let mut out: Vec<TransferItem> = Vec::new();
    let mut i: usize = 0;
    for it_item in it: items
        invariant
            all == it.seq(),
            sk == texts_of(skip@),
            i == it.index(),
            i <= all.len() == n,
            out@ == not_skipped(all.take(i as int), sk),
    {
        assert(all.take(i + 1).drop_last() =~= all.take(i as int));
        assert(all.take(i + 1).last() == it_item);
        let top = top_level(it_item.relative_path.as_str());
        if !crate::text::contains_string(skip.as_slice(), top.as_str()) {
            out.push(it_item);
        }
        i = i + 1;
    }
    assert(all.take(all.len() as int) =~= all);
    out
}

/// Whether the items keep their place after a failed quick move: they lie
/// at or below one of the top-level entries that could not be renamed.
pub open spec fn under_failed(item: TransferItem, failed: Seq<Seq<char>>) -> bool {
    exists|i: int| 0 <= i < failed.len() && (item.relative_path@ == #[trigger] failed[i] || starts_with(item.relative_path@, failed[i] + seq!['/']))
}

/// The items left to transfer after a quick move by renaming: those of the
/// entries that could not be renamed.
pub open spec fn left_after_rename(items: Seq<TransferItem>, failed: Seq<Seq<char>>) -> Seq<TransferItem>
    decreases items.len(),
{
    if items.len() == 0 {
        Seq::empty()
    } else {
        let rest = left_after_rename(items.drop_last(), failed);
        if under_failed(items.last(), failed) { rest.push(items.last()) } else { rest }
    }
}

fn under_any_failed(path: &str, failed: &Vec<String>) -> (r: bool)
    ensures
        r == exists|i: int| 0 <= i < failed@.len() && (path@ == #[trigger] texts_of(failed@)[i] || starts_with(path@, texts_of(failed@)[i] + seq!['/'])),
{
    let ghost fs = texts_of(failed@);
    let pc = chars_of(path);
    let mut i: usize = 0;
    while i < failed.len()
        invariant
            0 <= i <= failed.len(),
            fs == texts_of(failed@),
            pc@ == path@,
            forall|j: int| 0 <= j < i ==> !(path@ == #[trigger] fs[j] || starts_with(path@, fs[j] + seq!['/'])),
        decreases failed.len() - i,
    {
        let mut prefix = chars_of(failed[i].as_str());
        prefix.push('/');
        assert(fs[i as int] == failed@[i as int]@);
        assert(prefix@ == fs[i as int] + seq!['/']);
        if same_text(path, failed[i].as_str()) || has_prefix(&pc, &prefix) {
            assert(path@ == fs[i as int] || starts_with(path@, fs[i as int] + seq!['/']));
            return true;
        }
        i = i + 1;
    }
    false
}

/// Keeps the items of the entries a quick move could not rename.
pub fn retain_failed(items: Vec<TransferItem>, failed: &Vec<String>) -> (r: Vec<TransferItem>)
    ensures
        r@ == left_after_rename(items@, texts_of(failed@)),
{
    let ghost all = items@;
    let ghost fs = texts_of(failed@);
    let n = items.len();
    let mut out: Vec<TransferItem> = Vec::new();
    let mut i: usize = 0;
    for it_item in it: items
        invariant
            all == it.seq(),
            fs == texts_of(failed@),
            i == it.index(),
            i <= all.len() == n,
            out@ == left_after_rename(all.take(i as int), fs),
    {
        assert(all.take(i + 1).drop_last() =~= all.take(i as int));
        assert(all.take(i + 1).last() == it_item);
        if under_any_failed(it_item.relative_path.as_str(), failed) {
            out.push(it_item);
        }
        i = i + 1;
    }
    assert(all.take(all.len() as int) =~= all);
    out
}

/// A move between two local folders is first tried by renaming each
/// top-level entry.
pub fn quick_move_applies(is_move: bool, src_local: bool, dest_local: bool, has_items: bool) -> (r: bool)
    ensures
        r == (is_move && src_local && has_items && dest_local),
{
    is_move && src_local && has_items && dest_local
}

/// What the transfer reports while it runs.
pub enum CopyMessage {
    FileStart { name: String, size: u64 },
    Progress { file_bytes: u64, total_bytes_copied: u64 },
    FileDone,
    FileSkipped,
}

/// What the progress dialog shows: the file in progress, its size and the
/// bytes of it copied, the bytes copied in all, the files finished, and
/// whether anything changed since the dialog was last redrawn.
pub struct ProgressState {
    pub current_name: String,
    pub current_size: u64,
    pub current_copied: u64,
    pub overall_copied: u64,
    pub files_copied: usize,
    pub changed: bool,
}

impl ProgressState {
    /// The state before the first message: nothing copied, `label` as the
    /// file name, and a redraw due.
    pub fn new(label: String) -> (r: ProgressState)
        ensures
            r.current_name@ == label@,
            r.current_size == 0,
            r.current_copied == 0,
            r.overall_copied == 0,
            r.files_copied == 0,
            r.changed,
    {
        ProgressState { current_name: label, current_size: 0, current_copied: 0, overall_copied: 0, files_copied: 0, changed: true }
    }

    /// Takes in one message of the transfer.
    pub fn apply(&mut self, msg: CopyMessage)
        requires
            (msg is FileDone || msg is FileSkipped) ==> old(self).files_copied < usize::MAX,
        ensures
            final(self).changed,
            match msg {
                CopyMessage::FileStart { name, size } => final(self).current_name@ == name@ && final(self).current_size == size
                    && final(self).current_copied == 0 && final(self).overall_copied == old(self).overall_copied
                    && final(self).files_copied == old(self).files_copied,
                CopyMessage::Progress { file_bytes, total_bytes_copied } => final(self).current_copied == file_bytes
                    && final(self).overall_copied == total_bytes_copied && final(self).current_name@ == old(self).current_name@
                    && final(self).current_size == old(self).current_size && final(self).files_copied == old(self).files_copied,
                CopyMessage::FileDone => final(self).files_copied == old(self).files_copied + 1
                    && final(self).current_copied == old(self).current_size && final(self).current_size == old(self).current_size
                    && final(self).overall_copied == old(self).overall_copied && final(self).current_name@ == old(self).current_name@,
                CopyMessage::FileSkipped => final(self).files_copied == old(self).files_copied + 1
                    && final(self).current_copied == old(self).current_copied && final(self).current_size == old(self).current_size
                    && final(self).overall_copied == old(self).overall_copied && final(self).current_name@ == old(self).current_name@,
            },
    {
        self.changed = true;
        match msg {
            CopyMessage::FileStart { name, size } => {
                self.current_name = name;
                self.current_size = size;
                self.current_copied = 0;
            },
            CopyMessage::Progress { file_bytes, total_bytes_copied } => {
                self.current_copied = file_bytes;
                self.overall_copied = total_bytes_copied;
            },
            CopyMessage::FileDone => {
                self.files_copied = self.files_copied + 1;
                self.current_copied = self.current_size;
            },
            CopyMessage::FileSkipped => {
                self.files_copied = self.files_copied + 1;
            },
        }
    }

    /// Whether the dialog is redrawn on this tick: only when something
    /// changed and the transfer is still connected.
    pub fn should_redraw(&self, disconnected: bool) -> (r: bool)
        ensures
            r == (self.changed && !disconnected),
    {
        self.changed && !disconnected
    }

    /// Marks the dialog as redrawn.
    pub fn redrawn(&mut self)
        ensures
            !final(self).changed,
            final(self).current_name@ == old(self).current_name@,
            final(self).current_size == old(self).current_size,
            final(self).current_copied == old(self).current_copied,
            final(self).overall_copied == old(self).overall_copied,
            final(self).files_copied == old(self).files_copied,
    {
        self.changed = false;
    }
}

/// The overall line of the progress dialog: bytes and files when there are
/// bytes to copy, else files only.
#[derive(Clone, Copy, PartialEq, Eq, Debug, Structural)]
pub enum OverallLine {
    Stats { copied_bytes: u64, total_bytes: u64, files_copied: usize, total_files: usize },
    Files { files_copied: usize, total_files: usize },
}

/// The overall line for the state and the transfer's totals.
pub fn overall_line(state: &ProgressState, total_bytes: u64, total_files: usize) -> (r: OverallLine)
    ensures
        r == (if total_bytes > 0 {
            OverallLine::Stats { copied_bytes: state.overall_copied, total_bytes, files_copied: state.files_copied, total_files }
        } else {
            OverallLine::Files { files_copied: state.files_copied, total_files }
        }),
{
    if total_bytes > 0 {
        OverallLine::Stats { copied_bytes: state.overall_copied, total_bytes, files_copied: state.files_copied, total_files }
    } else {
        OverallLine::Files { files_copied: state.files_copied, total_files }
    }
}

/// What to do about a file that failed to transfer.
#[derive(Clone, Copy, PartialEq, Eq, Debug, Structural)]
pub enum ErrorAction {
    Retry,
    Skip,
    Abort,
}

/// The action a button of the error question stands for; anything else
/// aborts.
pub fn error_action(response: &str) -> (r: ErrorAction)
    ensures
        r == (if response@ == "retry"@ {
            ErrorAction::Retry
        } else if response@ == "skip"@ {
            ErrorAction::Skip
        } else {
            ErrorAction::Abort
        }),
{
    if same_text(response, "retry") {
        ErrorAction::Retry
    } else if same_text(response, "skip") {
        ErrorAction::Skip
    } else {
        ErrorAction::Abort
    }
}

/// Where a transfer goes unless the user edits it: the given destination,
/// else the folder of the other panel.
pub fn transfer_destination(dest_override: Option<String>, other_panel: String) -> (r: String)
    ensures
        r@ == match dest_override {
            Some(d) => d@,
            None => other_panel@,
        },
{
    match dest_override {
        Some(d) => d,
        None => other_panel,
    }
}

/// Whether confirming the transfer dialog starts the transfer: the action
/// was chosen, a destination is typed, and the scan found something.
pub fn transfer_confirmed(chose_action: bool, dest: &str, scanned: usize) -> (r: bool)
    ensures
        r == (chose_action && dest@.len() > 0 && scanned > 0),
{
    chose_action && !dest.is_empty() && scanned > 0
}

/// Lists the items a transfer still has to do, with the bytes and files
/// it has to copy.
pub fn transfer_totals(items: &Vec<TransferItem>) -> (r: (u64, usize))
    requires
        file_bytes(items@) <= u64::MAX,
    ensures
        r.0 == file_bytes(items@),
        r.1 == file_count(items@),
{
    let t = scan_totals(items);
    (t.bytes, t.files)
}

/// Skipping keeps exactly the items whose top-level entry is not skipped,
/// in order; and the conflicts are distinct entries that all exist at the
/// destination.
pub proof fn law_skipped_entries_are_dropped(items: Seq<TransferItem>, skip: Seq<Seq<char>>, existing: Seq<Seq<char>>)
    ensures
        forall|i: int| 0 <= i < not_skipped(items, skip).len() ==> !skip.contains(
            top_level_of((#[trigger] not_skipped(items, skip)[i]).relative_path@),
        ),
        not_skipped(items, skip).len() + (items.filter(|it: TransferItem| skip.contains(top_level_of(it.relative_path@)))).len()
            == items.len(),
        forall|i: int| 0 <= i < conflicts_of(items, existing).len() ==> existing.contains(#[trigger] conflicts_of(items, existing)[i]),
        forall|a: int, b: int| 0 <= a < b < conflicts_of(items, existing).len() ==> #[trigger] conflicts_of(items, existing)[a]
            != #[trigger] conflicts_of(items, existing)[b],
    decreases items.len(),
{
    let f = |it: TransferItem| skip.contains(top_level_of(it.relative_path@));
    if items.len() > 0 {
        let t = items.drop_last();
        law_skipped_entries_are_dropped(t, skip, existing);
        t.lemma_filter_push(items.last(), f);
        assert(t.push(items.last()) =~= items);
        let rest = conflicts_of(t, existing);
        let top = top_level_of(items.last().relative_path@);
        if existing.contains(top) && !rest.contains(top) {
            let c = rest.push(top);
            assert forall|a: int, b: int| 0 <= a < b < c.len() implies #[trigger] c[a] != #[trigger] c[b] by {
                if b == rest.len() {
                    assert(rest[a] == c[a]);
                }
            }
        }
    } else {
        assert(items.filter(f) =~= Seq::<TransferItem>::empty());
    }
}

} // verus!
