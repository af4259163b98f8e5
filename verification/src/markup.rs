use vstd::prelude::*;
use crate::text::{chars_of, push_all, push_str, split_on, starts_with, string_of, trim, trim_chars};

verus! {

/// How many times `c` occurs in `s`.
pub open spec fn count_of(s: Seq<char>, c: char) -> nat
    decreases s.len(),
{
    if s.len() == 0 {
        0
    } else {
        count_of(s.drop_last(), c) + if s.last() == c { 1nat } else { 0nat }
    }
}

proof fn lemma_count_concat(a: Seq<char>, b: Seq<char>, c: char)
    ensures
        count_of(a + b, c) == count_of(a, c) + count_of(b, c),
    decreases b.len(),
{
    if b.len() == 0 {
        assert(a + b =~= a);
    } else {
        lemma_count_concat(a, b.drop_last(), c);
        assert((a + b).drop_last() =~= a + b.drop_last());
    }
}

proof fn lemma_count_split(s: Seq<char>, i: int, c: char)
    requires
        0 <= i <= s.len(),
    ensures
        count_of(s, c) == count_of(s.take(i), c) + count_of(s.skip(i), c),
{
    assert(s =~= s.take(i) + s.skip(i));
    lemma_count_concat(s.take(i), s.skip(i), c);
}

/// The first position where `p` occurs in `s`, as `str::find` gives it.
#[verifier::opaque]
pub open spec fn find_in(s: Seq<char>, p: Seq<char>) -> Option<int> {
    if exists|i: int| 0 <= i && i + p.len() <= s.len() && #[trigger] s.subrange(i, i + p.len()) == p {
        Some(choose|i: int| 0 <= i && i + p.len() <= s.len() && #[trigger] s.subrange(i, i + p.len()) == p
            && forall|j: int| 0 <= j < i ==> #[trigger] s.subrange(j, j + p.len()) != p)
    } else {
        None
    }
}

proof fn lemma_find_in_first(s: Seq<char>, p: Seq<char>, i: int)
    requires
        0 <= i && i + p.len() <= s.len(),
        s.subrange(i, i + p.len()) == p,
        forall|j: int| 0 <= j < i ==> #[trigger] s.subrange(j, j + p.len()) != p,
    ensures
        find_in(s, p) == Some(i),
{
    reveal(find_in);
    let k = choose|k: int| 0 <= k && k + p.len() <= s.len() && #[trigger] s.subrange(k, k + p.len()) == p
        && forall|j: int| 0 <= j < k ==> #[trigger] s.subrange(j, j + p.len()) != p;
    assert(0 <= i && i + p.len() <= s.len() && s.subrange(i, i + p.len()) == p
        && forall|j: int| 0 <= j < i ==> #[trigger] s.subrange(j, j + p.len()) != p);
    if k < i {
    } else if k > i {
        assert(s.subrange(i, i + p.len()) != p);
    }
}

/// Finds the first occurrence of `p` in `s` at or after `from`.
fn find_from(s: &Vec<char>, p: &Vec<char>, from: usize) -> (r: Option<usize>)
    requires
        from <= s.len(),
        p.len() > 0,
    ensures
        match r {
            Some(i) => find_in(s@.skip(from as int), p@) == Some(i - from) && from <= i,
            None => find_in(s@.skip(from as int), p@) is None,
        },
{
    let ghost t = s@.skip(from as int);
    proof {
        reveal(find_in);
    }
    if p.len() > s.len() - from {
        assert(!exists|i: int| 0 <= i && i + p@.len() <= t.len() && #[trigger] t.subrange(i, i + p@.len()) == p@);
        return None;
    }
    let last = s.len() - p.len();
    let mut i: usize = from;
    while i <= last
        invariant
            from <= i <= last + 1,
            last == s.len() - p.len(),
            p.len() > 0,
            t == s@.skip(from as int),
            forall|j: int| 0 <= j < i - from ==> #[trigger] t.subrange(j, j + p@.len()) != p@,
        decreases last + 1 - i,
    {
        let mut k: usize = 0;
        let mut same = true;
        while k < p.len()
            invariant
                0 <= k <= p.len(),
                i + p.len() <= s.len(),
                same ==> forall|m: int| 0 <= m < k ==> s@[i + m] == #[trigger] p@[m],
                !same ==> s@.subrange(i as int, i + p@.len()) != p@,
            decreases p.len() - k,
        {
            if s[i + k] != p[k] {
                if same {
                    assert(s@.subrange(i as int, i + p@.len())[k as int] != p@[k as int]);
                }
                same = false;
            }
            k = k + 1;
        }
        assert(t.subrange(i - from, i - from + p@.len()) =~= s@.subrange(i as int, i + p@.len()));
        if same {
            assert(s@.subrange(i as int, i + p@.len()) =~= p@);
            proof {
                lemma_find_in_first(t, p@, i - from);
            }
            return Some(i);
        }
        i = i + 1;
    }
    assert(!exists|j: int| 0 <= j && j + p@.len() <= t.len() && #[trigger] t.subrange(j, j + p@.len()) == p@) by {
        if exists|j: int| 0 <= j && j + p@.len() <= t.len() && #[trigger] t.subrange(j, j + p@.len()) == p@ {
            let j = choose|j: int| 0 <= j && j + p@.len() <= t.len() && #[trigger] t.subrange(j, j + p@.len()) == p@;
            assert(j < i - from);
        }
    }
    None
}

/// Whether a rewrite of marked pairs is well formed: the marker is one
/// character repeated, and the tags that replace it hold no such character.
pub open spec fn pair_rewrite_ok(p: Seq<char>, open: Seq<char>, close: Seq<char>) -> bool {
    &&& p.len() > 0
    &&& forall|i: int| 0 <= i < p.len() ==> #[trigger] p[i] == p[0]
    &&& count_of(open, p[0]) == 0
    &&& count_of(close, p[0]) == 0
}

proof fn lemma_count_all(p: Seq<char>, c: char)
    requires
        forall|i: int| 0 <= i < p.len() ==> #[trigger] p[i] == c,
    ensures
        count_of(p, c) == p.len(),
    decreases p.len(),
{
    if p.len() > 0 {
        lemma_count_all(p.drop_last(), c);
    }
}

/// One rewrite step: the first marked pair `p … p` becomes `open … close`.
pub open spec fn rewrite_once(s: Seq<char>, p: Seq<char>, open: Seq<char>, close: Seq<char>) -> Option<Seq<char>> {
    match find_in(s, p) {
        None => None,
        Some(i) => {
            let rest = s.skip(i + p.len());
            match find_in(rest, p) {
                None => None,
                Some(j) => Some(s.take(i) + open + rest.take(j) + close + rest.skip(j + p.len())),
            }
        },
    }
}

proof fn lemma_find_in_bounds(s: Seq<char>, p: Seq<char>)
    ensures
        find_in(s, p) matches Some(i) ==> 0 <= i && i + p.len() <= s.len() && s.subrange(i, i + p.len()) == p,
{
    reveal(find_in);
    if exists|i: int| 0 <= i && i + p.len() <= s.len() && #[trigger] s.subrange(i, i + p.len()) == p {
        let w = choose|i: int| 0 <= i && i + p.len() <= s.len() && #[trigger] s.subrange(i, i + p.len()) == p;
        lemma_first_witness(s, p, w);
    }
}

proof fn lemma_first_witness(s: Seq<char>, p: Seq<char>, w: int)
    requires
        0 <= w && w + p.len() <= s.len() && s.subrange(w, w + p.len()) == p,
    ensures
        exists|i: int| 0 <= i && i + p.len() <= s.len() && #[trigger] s.subrange(i, i + p.len()) == p
            && forall|j: int| 0 <= j < i ==> #[trigger] s.subrange(j, j + p.len()) != p,
    decreases w,
{
    if exists|j: int| 0 <= j < w && #[trigger] s.subrange(j, j + p.len()) == p {
        let j = choose|j: int| 0 <= j < w && #[trigger] s.subrange(j, j + p.len()) == p;
        lemma_first_witness(s, p, j);
    } else {
        assert(0 <= w && w + p.len() <= s.len() && s.subrange(w, w + p.len()) == p
            && forall|j: int| 0 <= j < w ==> #[trigger] s.subrange(j, j + p.len()) != p);
    }
}

proof fn lemma_count_around(s: Seq<char>, i: int, p: Seq<char>, c: char)
    requires
        0 <= i && i + p.len() <= s.len(),
        s.subrange(i, i + p.len()) == p,
        forall|k: int| 0 <= k < p.len() ==> #[trigger] p[k] == c,
    ensures
        count_of(s, c) == count_of(s.take(i), c) + p.len() + count_of(s.skip(i + p.len()), c),
{
    lemma_count_all(p, c);
    lemma_count_split(s, i, c);
    let after = s.skip(i);
    assert(after.take(p.len() as int) =~= p);
    lemma_count_split(after, p.len() as int, c);
    assert(after.skip(p.len() as int) =~= s.skip(i + p.len()));
}

/// Each rewrite removes markers, so rewriting comes to an end.
#[verifier::spinoff_prover]
pub proof fn lemma_rewrite_shrinks(s: Seq<char>, p: Seq<char>, open: Seq<char>, close: Seq<char>)
    requires
        pair_rewrite_ok(p, open, close),
        rewrite_once(s, p, open, close) is Some,
    ensures
        count_of(rewrite_once(s, p, open, close)->0, p[0]) < count_of(s, p[0]),
{
    let c = p[0];
    lemma_find_in_bounds(s, p);
    let i = find_in(s, p)->0;
    let rest = s.skip(i + p.len());
    lemma_find_in_bounds(rest, p);
    let j = find_in(rest, p)->0;
    lemma_count_around(s, i, p, c);
    lemma_count_around(rest, j, p, c);
    let a = s.take(i);
    let m = rest.take(j);
    let z = rest.skip(j + p.len());
    lemma_count_concat(a, open, c);
    lemma_count_concat(a + open, m, c);
    lemma_count_concat(a + open + m, close, c);
    lemma_count_concat(a + open + m + close, z, c);
    assert(rewrite_once(s, p, open, close)->0 == a + open + m + close + z);
}

/// Rewrites every marked pair, first to last, as the help page's markup
/// does: while the text holds a marker with another one after it, the
/// first such pair becomes a tagged span. An unpaired marker stops it.
pub open spec fn rewrite_pairs(s: Seq<char>, p: Seq<char>, open: Seq<char>, close: Seq<char>) -> Seq<char>
    decreases count_of(s, p[0]),
    when pair_rewrite_ok(p, open, close)
{
    match rewrite_once(s, p, open, close) {
        None => s,
        Some(t) => {
            proof {
                lemma_rewrite_shrinks(s, p, open, close);
            }
            rewrite_pairs(t, p, open, close)
        },
    }
}

proof fn lemma_count_zero(s: Seq<char>, c: char)
    requires
        forall|i: int| 0 <= i < s.len() ==> s[i] != c,
    ensures
        count_of(s, c) == 0,
    decreases s.len(),
{
    if s.len() > 0 {
        lemma_count_zero(s.drop_last(), c);
    }
}

fn splice(cur: &Vec<char>, i: usize, plen: usize, k: usize, open: &Vec<char>, close: &Vec<char>) -> (r: Vec<char>)
    requires
        i + plen <= k,
        k + plen <= cur.len(),
    ensures
        r@ == cur@.take(i as int) + open@ + cur@.subrange(i + plen, k as int) + close@ + cur@.skip(k + plen),
{
    let mut out: Vec<char> = Vec::new();
    let mut a: usize = 0;
    while a < i
        invariant
            0 <= a <= i,
            i + plen <= k,
            k + plen <= cur.len(),
            out@ == cur@.take(a as int),
        decreases i - a,
    {
        out.push(cur[a]);
        a = a + 1;
        assert(out@ =~= cur@.take(a as int));
    }
    push_all(&mut out, open);
    let ghost h1 = out@;
    let mut b: usize = i + plen;
    while b < k
        invariant
            i + plen <= b <= k,
            k + plen <= cur.len(),
            out@ == h1 + cur@.subrange(i + plen, b as int),
        decreases k - b,
    {
        out.push(cur[b]);
        b = b + 1;
        assert(out@ =~= h1 + cur@.subrange(i + plen, b as int));
    }
    push_all(&mut out, close);
    let ghost h2 = out@;
    let mut d: usize = k + plen;
    while d < cur.len()
        invariant
            k + plen <= d <= cur.len(),
            out@ == h2 + cur@.subrange(k + plen, d as int),
        decreases cur.len() - d,
    {
        out.push(cur[d]);
        d = d + 1;
        assert(out@ =~= h2 + cur@.subrange(k + plen, d as int));
    }
    assert(cur@.subrange(k + plen, cur@.len() as int) =~= cur@.skip(k + plen));
    out
}

proof fn lemma_rewrite_step(cur: Seq<char>, p: Seq<char>, open: Seq<char>, close: Seq<char>, i: int, k: int)
    requires
        pair_rewrite_ok(p, open, close),
        find_in(cur, p) == Some(i),
        i + p.len() <= k,
        find_in(cur.skip(i + p.len()), p) == Some(k - (i + p.len())),
    ensures
        k + p.len() <= cur.len(),
        rewrite_pairs(cur, p, open, close) == rewrite_pairs(
            cur.take(i) + open + cur.subrange(i + p.len(), k) + close + cur.skip(k + p.len()),
            p,
            open,
            close,
        ),
        count_of(cur.take(i) + open + cur.subrange(i + p.len(), k) + close + cur.skip(k + p.len()), p[0]) < count_of(cur, p[0]),
{
    lemma_find_in_bounds(cur, p);
    let rest = cur.skip(i + p.len());
    lemma_find_in_bounds(rest, p);
    let j = k - (i + p.len());
    assert(rest.take(j) =~= cur.subrange(i + p.len(), k));
    assert(rest.skip(j + p.len()) =~= cur.skip(k + p.len()));
    lemma_rewrite_shrinks(cur, p, open, close);
}

/// Rewrites the marked pairs of `s`.
fn rewrite_all(s: Vec<char>, p: &Vec<char>, open: &Vec<char>, close: &Vec<char>) -> (r: Vec<char>)
    requires
        pair_rewrite_ok(p@, open@, close@),
    ensures
        r@ == rewrite_pairs(s@, p@, open@, close@),
{
    let mut cur = s;
    let plen = p.len();
    let mut done = false;
    while !done
        invariant
            pair_rewrite_ok(p@, open@, close@),
            plen == p@.len(),
            rewrite_pairs(cur@, p@, open@, close@) == rewrite_pairs(s@, p@, open@, close@),
            done ==> rewrite_once(cur@, p@, open@, close@) is None,
        decreases count_of(cur@, p@[0]), if done { 0int } else { 1int },
    {
        assert(cur@.skip(0) =~= cur@);
        match find_from(&cur, p, 0) {
            None => {
                done = true;
            },
            Some(i) => {
                proof {
                    lemma_find_in_bounds(cur@, p@);
                }
                let from = i + plen;
                match find_from(&cur, p, from) {
                    None => {
                        done = true;
                    },
                    Some(k) => {
                        proof {
                            lemma_rewrite_step(cur@, p@, open@, close@, i as int, k as int);
                        }
                        let next = splice(&cur, i, plen, k, open, close);
                        cur = next;
                    },
                }
            },
        }
    }
    cur
}

/// The tag that opens inline code on the help page.
pub open spec fn code_open() -> Seq<char> {
    "<span font_family=\"monospace\" background=\"alpha(currentColor,0.07)\">"@
}

/// The inline markup of a help line: `**bold**`, then `*italic*`, then
/// `` `code` `` pairs become Pango tags.
pub open spec fn inline_markup(s: Seq<char>) -> Seq<char> {
    let bold = rewrite_pairs(s, "**"@, "<b>"@, "</b>"@);
    let italic = rewrite_pairs(bold, "*"@, "<i>"@, "</i>"@);
    rewrite_pairs(italic, "`"@, code_open(), "</span>"@)
}

/// Turns a help line's inline markdown into Pango markup.
pub fn parse_inline_markdown(text: &str) -> (r: String)
    ensures
        r@ == inline_markup(text@),
{
    let s = chars_of(text);
    let bold_p = chars_of("**");
    let bold_o = chars_of("<b>");
    let bold_c = chars_of("</b>");
    let it_p = chars_of("*");
    let it_o = chars_of("<i>");
    let it_c = chars_of("</i>");
    let code_p = chars_of("`");
    let code_o = chars_of("<span font_family=\"monospace\" background=\"alpha(currentColor,0.07)\">");
    let code_c = chars_of("</span>");
    proof {
        reveal_strlit("**");
        reveal_strlit("<b>");
        reveal_strlit("</b>");
        reveal_strlit("*");
        reveal_strlit("<i>");
        reveal_strlit("</i>");
        reveal_strlit("`");
        reveal_strlit("<span font_family=\"monospace\" background=\"alpha(currentColor,0.07)\">");
        reveal_strlit("</span>");
        lemma_count_zero("<b>"@, '*');
        lemma_count_zero("</b>"@, '*');
        lemma_count_zero("<i>"@, '*');
        lemma_count_zero("</i>"@, '*');
        lemma_count_zero(code_open(), '`');
        lemma_count_zero("</span>"@, '`');
    }
    let a = rewrite_all(s, &bold_p, &bold_o, &bold_c);
    let b = rewrite_all(a, &it_p, &it_o, &it_c);
    let c = rewrite_all(b, &code_p, &code_o, &code_c);
    string_of(c.as_slice())
}

/// A line without the `\r` of a `\r\n` ending.
pub open spec fn strip_cr(x: Seq<char>) -> Seq<char> {
    if x.len() > 0 && x.last() == '\r' { x.drop_last() } else { x }
}

/// The lines of a text, as `str::lines` gives them: split at `\n`, a `\r`
/// before the `\n` dropped, and no empty line after a final `\n`.
pub open spec fn lines_of(s: Seq<char>) -> Seq<Seq<char>> {
    let pieces = split_on(s, '\n');
    let n = pieces.len() as int;
    let k = if pieces[n - 1].len() == 0 { n - 1 } else { n };
    Seq::new(k as nat, |i: int| if i < n - 1 { strip_cr(pieces[i]) } else { pieces[i] })
}

/// The lines of a text.
pub fn text_lines(md: &str) -> (r: Vec<String>)
    ensures
        crate::text::texts_of(r@) == lines_of(md@),
{
    let chars = chars_of(md);
    let mut out: Vec<String> = Vec::new();
    let mut cur: Vec<char> = Vec::new();
    let ghost mut pieces: Seq<Seq<char>> = Seq::empty();
    let mut i: usize = 0;
    assert(md@.take(0) =~= Seq::<char>::empty());
    assert(pieces.push(cur@) =~= seq![Seq::<char>::empty()]);
    while i < chars.len()
        invariant
            0 <= i <= chars.len(),
            chars@ == md@,
            split_on(md@.take(i as int), '\n') == pieces.push(cur@),
            crate::text::texts_of(out@) == pieces.map_values(|x: Seq<char>| strip_cr(x)),
        decreases chars.len() - i,
    {
        let c = chars[i];
        proof {
            crate::text::lemma_split_on_push(md@.take(i as int), '\n', c);
            assert(md@.take(i + 1) =~= md@.take(i as int).push(c));
        }
        if c == '\n' {
            let n = cur.len();
            let line = if n > 0 && cur[n - 1] == '\r' {
                let mut t = cur.clone();
                t.pop();
                t
            } else {
                cur.clone()
            };
            assert(line@ == strip_cr(cur@));
            let ghost prev = out@;
            out.push(string_of(line.as_slice()));
            proof {
                assert(crate::text::texts_of(out@) =~= crate::text::texts_of(prev).push(strip_cr(cur@)));
                assert(pieces.push(cur@).map_values(|x: Seq<char>| strip_cr(x)) =~= pieces.map_values(|x: Seq<char>| strip_cr(x)).push(strip_cr(cur@)));
                pieces = pieces.push(cur@);
            }
            cur = Vec::new();
            assert(split_on(md@.take(i + 1), '\n') =~= pieces.push(cur@));
        } else {
            cur.push(c);
            assert(split_on(md@.take(i + 1), '\n') =~= pieces.push(cur@));
        }
        i = i + 1;
    }
    assert(md@.take(md@.len() as int) =~= md@);
    let ghost all = pieces.push(cur@);
    if cur.len() > 0 {
        let ghost prev = out@;
        let ghost cv = cur@;
        out.push(string_of(cur.as_slice()));
        assert(crate::text::texts_of(out@) =~= crate::text::texts_of(prev).push(cv));
        assert(crate::text::texts_of(out@) =~= lines_of(md@));
    } else {
        assert(crate::text::texts_of(out@) =~= lines_of(md@));
    }
    out
}

/// The kind of a help line, by its start once trimmed.
pub enum MdLine {
    Heading1(String),
    Heading2(String),
    Heading3(String),
    Bullet(String),
    Blank,
    Text(String),
}

/// The kind of a line as plain values.
pub enum MdLineView {
    Heading1(Seq<char>),
    Heading2(Seq<char>),
    Heading3(Seq<char>),
    Bullet(Seq<char>),
    Blank,
    Text(Seq<char>),
}

/// The view of a line's kind.
pub open spec fn md_view(l: MdLine) -> MdLineView {
    match l {
        MdLine::Heading1(t) => MdLineView::Heading1(t@),
        MdLine::Heading2(t) => MdLineView::Heading2(t@),
        MdLine::Heading3(t) => MdLineView::Heading3(t@),
        MdLine::Bullet(t) => MdLineView::Bullet(t@),
        MdLine::Blank => MdLineView::Blank,
        MdLine::Text(t) => MdLineView::Text(t@),
    }
}

/// How the help page reads a line: `# `, `## ` and `### ` headings, `- `
/// and `* ` bullets, blank lines, and text; the marker is dropped.
pub open spec fn classify(line: Seq<char>) -> MdLineView {
    let t = trim(line);
    if starts_with(t, "# "@) {
        MdLineView::Heading1(t.skip(2))
    } else if starts_with(t, "## "@) {
        MdLineView::Heading2(t.skip(3))
    } else if starts_with(t, "### "@) {
        MdLineView::Heading3(t.skip(4))
    } else if starts_with(t, "- "@) || starts_with(t, "* "@) {
        MdLineView::Bullet(t.skip(2))
    } else if t.len() == 0 {
        MdLineView::Blank
    } else {
        MdLineView::Text(t)
    }
}

fn skip_chars(v: &Vec<char>, n: usize) -> (r: String)
    requires
        n <= v.len(),
    ensures
        r@ == v@.skip(n as int),
{
    let mut out: Vec<char> = Vec::new();
    let mut i: usize = n;
    while i < v.len()
        invariant
            n <= i <= v.len(),
            out@ == v@.subrange(n as int, i as int),
        decreases v.len() - i,
    {
        out.push(v[i]);
        i = i + 1;
    }
    string_of(out.as_slice())
}

/// The kind of a help line.
pub fn classify_line(line: &str) -> (r: MdLine)
    ensures
        md_view(r) == classify(line@),
{
    let t = trim_chars(&chars_of(line));
    let h1 = chars_of("# ");
    let h2 = chars_of("## ");
    let h3 = chars_of("### ");
    let b1 = chars_of("- ");
    let b2 = chars_of("* ");
    proof {
        reveal_strlit("# ");
        reveal_strlit("## ");
        reveal_strlit("### ");
        reveal_strlit("- ");
        reveal_strlit("* ");
    }
    if crate::text::has_prefix(&t, &h1) {
        MdLine::Heading1(skip_chars(&t, 2))
    } else if crate::text::has_prefix(&t, &h2) {
        MdLine::Heading2(skip_chars(&t, 3))
    } else if crate::text::has_prefix(&t, &h3) {
        MdLine::Heading3(skip_chars(&t, 4))
    } else if crate::text::has_prefix(&t, &b1) || crate::text::has_prefix(&t, &b2) {
        MdLine::Bullet(skip_chars(&t, 2))
    } else if t.len() == 0 {
        MdLine::Blank
    } else {
        MdLine::Text(string_of(t.as_slice()))
    }
}

/// The Pango markup of a help line of the given kind, whose text was
/// escaped for markup as `escaped`.
pub open spec fn pango_of(kind: MdLineView, escaped: Seq<char>) -> Seq<char> {
    match kind {
        MdLineView::Heading1(_) => "<span size=\"xx-large\" weight=\"bold\">"@ + escaped + "</span>\n\n"@,
        MdLineView::Heading2(_) => "<span size=\"x-large\" weight=\"bold\">"@ + escaped + "</span>\n\n"@,
        MdLineView::Heading3(_) => "<span size=\"large\" weight=\"bold\">"@ + escaped + "</span>\n\n"@,
        MdLineView::Bullet(_) => "  • "@ + inline_markup(escaped) + "\n"@,
        MdLineView::Blank => "\n"@,
        MdLineView::Text(_) => inline_markup(escaped) + "\n"@,
    }
}

/// The Pango markup of one help line.
pub fn pango_line(kind: &MdLine, escaped: &str) -> (r: String)
    ensures
        r@ == pango_of(md_view(*kind), escaped@),
{
    let mut v: Vec<char> = Vec::new();
    match kind {
        MdLine::Heading1(_) => {
            push_str(&mut v, "<span size=\"xx-large\" weight=\"bold\">");
            push_str(&mut v, escaped);
            push_str(&mut v, "</span>\n\n");
        },
        MdLine::Heading2(_) => {
            push_str(&mut v, "<span size=\"x-large\" weight=\"bold\">");
            push_str(&mut v, escaped);
            push_str(&mut v, "</span>\n\n");
        },
        MdLine::Heading3(_) => {
            push_str(&mut v, "<span size=\"large\" weight=\"bold\">");
            push_str(&mut v, escaped);
            push_str(&mut v, "</span>\n\n");
        },
        MdLine::Bullet(_) => {
            push_str(&mut v, "  • ");
            let m = parse_inline_markdown(escaped);
            push_str(&mut v, m.as_str());
            push_str(&mut v, "\n");
        },
        MdLine::Blank => {
            push_str(&mut v, "\n");
        },
        MdLine::Text(_) => {
            let m = parse_inline_markdown(escaped);
            push_str(&mut v, m.as_str());
            push_str(&mut v, "\n");
        },
    }
    string_of(v.as_slice())
}

} // verus!
