use vstd::prelude::*;
use crate::text::{decimal, push_str, string_of, to_decimal};

verus! {

/// The zoom of a PDF page view, in percent, and the page width it gives
/// (800 pixels at 100%).
pub open spec fn zoom_width(zoom: int) -> int {
    800 * zoom / 100
}

/// `zoom + delta`, kept between 40% and 200%.
pub open spec fn clamped_zoom(zoom: int, delta: int) -> int {
    let z = zoom + delta;
    if z < 40 {
        40
    } else if z > 200 {
        200
    } else {
        z
    }
}

/// How many rendered pages the view keeps.
pub const CACHE_PAGES: usize = 8;

/// The last `CACHE_PAGES` keys of `s` (all of them when there are fewer).
pub open spec fn last_cached(s: Seq<(u32, u32)>) -> Seq<(u32, u32)> {
    if s.len() > CACHE_PAGES {
        s.subrange(s.len() - CACHE_PAGES, s.len() as int)
    } else {
        s
    }
}

/// The PDF viewer's page state: the zoom, the page width it gives, the
/// pages (index, width) whose rendering was asked for and has not come back,
/// and the rendered pages kept, oldest first. The textures themselves are
/// kept by the caller under the same keys.
pub struct PdfView {
    pub zoom: i32,
    pub width: u32,
    pub pending: Vec<(u32, u32)>,
    pub cached: Vec<(u32, u32)>,
}

impl PdfView {
    /// The zoom is between 40% and 200%, the width follows it, at most
    /// `CACHE_PAGES` pages are kept, and no render is pending twice.
    pub open spec fn wf(&self) -> bool {
        &&& 40 <= self.zoom <= 200
        &&& self.width == zoom_width(self.zoom as int)
        &&& self.cached@.len() <= CACHE_PAGES
        &&& self.pending@.no_duplicates()
    }

    /// A freshly opened document: 100%, 800 pixels, nothing rendered.
    pub fn new() -> (r: Self)
        ensures
            r.wf(),
            r.zoom == 100,
            r.width == 800,
            r.pending@.len() == 0,
            r.cached@.len() == 0,
    {
        PdfView { zoom: 100, width: 800, pending: Vec::new(), cached: Vec::new() }
    }
}

/// What happens to the page view.
pub enum PdfViewEvent {
    /// Page `i` comes on screen.
    Bound(u32),
    /// The rendering of page `i` at width `w` came back.
    Rendered(u32, u32),
    /// The zoom changes by this many percent; the pages on screen are listed.
    ZoomBy(i32, Vec<u32>),
}

/// What the caller does.
#[derive(Clone, Copy, PartialEq, Eq, Debug, Structural)]
pub enum PdfViewAction {
    /// Show the kept rendering of page `i` at width `w`.
    ShowCached(u32, u32),
    /// Ask for page `i` to be rendered at width `w`.
    RequestRender(u32, u32),
    /// Show this zoom in the zoom label (see `zoom_label`).
    SetZoomLabel(i32),
}

/// Walks the pages on screen after a zoom, asking for each one at width `w`
/// unless that rendering is pending already: the pending keys afterwards and
/// the pages asked for, in order.
pub open spec fn zoom_requests(pending: Seq<(u32, u32)>, shown: Seq<u32>, w: u32) -> (Seq<(u32, u32)>, Seq<u32>)
    decreases shown.len(),
{
    if shown.len() == 0 {
        (pending, Seq::empty())
    } else {
        let (p, r) = zoom_requests(pending, shown.drop_last(), w);
        let k = (shown.last(), w);
        if p.contains(k) {
            (p, r)
        } else {
            (p.push(k), r.push(shown.last()))
        }
    }
}

/// The render requests for the pages asked for.
pub open spec fn render_requests(pages: Seq<u32>, w: u32) -> Seq<PdfViewAction> {
    pages.map_values(|i: u32| PdfViewAction::RequestRender(i, w))
}

proof fn lemma_zoom_requests_unique(pending: Seq<(u32, u32)>, shown: Seq<u32>, w: u32)
    requires
        pending.no_duplicates(),
    ensures
        zoom_requests(pending, shown, w).0.no_duplicates(),
    decreases shown.len(),
{
    if shown.len() > 0 {
        lemma_zoom_requests_unique(pending, shown.drop_last(), w);
        let (p, r) = zoom_requests(pending, shown.drop_last(), w);
        let k = (shown.last(), w);
        if !p.contains(k) {
            assert forall|a: int, b: int| 0 <= a < b < p.push(k).len() implies p.push(k)[a] != p.push(k)[b] by {
                if b == p.len() {
                    assert(p.contains(p[a]));
                }
            }
        }
    }
}

/// The text of the zoom label: the zoom followed by `%`.
pub fn zoom_label(zoom: i32) -> (r: String)
    requires
        zoom >= 0,
    ensures
        r@ == decimal(zoom as nat) + "%"@,
{
    let mut v = to_decimal(zoom as u128);
    push_str(&mut v, "%");
    string_of(v.as_slice())
}

fn contains_key(v: &Vec<(u32, u32)>, k: (u32, u32)) -> (r: bool)
    ensures
        r == v@.contains(k),
{
    let mut i: usize = 0;
    while i < v.len()
        invariant
            0 <= i <= v.len(),
            forall|j: int| 0 <= j < i ==> v@[j] != k,
        decreases v.len() - i,
    {
        if v[i].0 == k.0 && v[i].1 == k.1 {
            assert(v@[i as int] == k);
            return true;
        }
        i = i + 1;
    }
    false
}

/// One step of the page view.
/// - `Bound(i)`: a kept rendering of `(i, width)` is shown; otherwise its
///   rendering is asked for, unless it is pending already.
/// - `Rendered(i, w)`: `(i, w)` is no longer pending, and it joins the kept
///   pages, the oldest dropping out beyond `CACHE_PAGES`.
/// - `ZoomBy(d, shown)`: the zoom moves by `d` within 40% to 200%, the width
///   follows, the label shows the new zoom, the kept pages are dropped, and
///   every page on screen is asked for at the new width unless that is
///   pending already.
pub fn pdf_view_step(view: &mut PdfView, ev: PdfViewEvent) -> (acts: Vec<PdfViewAction>)
    requires
        old(view).wf(),
        ev matches PdfViewEvent::ZoomBy(d, _) ==> i32::MIN <= old(view).zoom + d <= i32::MAX,
    ensures
        final(view).wf(),
        match ev {
            PdfViewEvent::Bound(i) => {
                let k = (i, old(view).width);
                &&& final(view).zoom == old(view).zoom
                &&& final(view).width == old(view).width
                &&& final(view).cached@ == old(view).cached@
                &&& if old(view).cached@.contains(k) {
                    &&& acts@ == seq![PdfViewAction::ShowCached(i, old(view).width)]
                    &&& final(view).pending@ == old(view).pending@
                } else if old(view).pending@.contains(k) {
                    &&& acts@.len() == 0
                    &&& final(view).pending@ == old(view).pending@
                } else {
                    &&& acts@ == seq![PdfViewAction::RequestRender(i, old(view).width)]
                    &&& final(view).pending@ == old(view).pending@.push(k)
                }
            },
            PdfViewEvent::Rendered(i, w) => {
                &&& acts@.len() == 0
                &&& final(view).zoom == old(view).zoom
                &&& final(view).width == old(view).width
                &&& final(view).pending@ == old(view).pending@.filter(|x: (u32, u32)| x != (i, w))
                &&& final(view).cached@ == last_cached(old(view).cached@.push((i, w)))
            },
            PdfViewEvent::ZoomBy(d, shown) => {
                let z = clamped_zoom(old(view).zoom as int, d as int);
                let w = zoom_width(z) as u32;
                &&& final(view).zoom == z
                &&& final(view).width == zoom_width(z)
                &&& final(view).cached@.len() == 0
                &&& final(view).pending@ == zoom_requests(old(view).pending@, shown@, w).0
                &&& acts@ == seq![PdfViewAction::SetZoomLabel(z as i32)] + render_requests(
                    zoom_requests(old(view).pending@, shown@, w).1,
                    w,
                )
            },
        },
{
    match ev {
        PdfViewEvent::Bound(i) => {
            let k = (i, view.width);
            let mut acts: Vec<PdfViewAction> = Vec::new();
            if contains_key(&view.cached, k) {
                acts.push(PdfViewAction::ShowCached(i, view.width));
            } else if !contains_key(&view.pending, k) {
                view.pending.push(k);
                acts.push(PdfViewAction::RequestRender(i, view.width));
                proof {
                    let p = old(view).pending@;
                    assert forall|a: int, b: int| 0 <= a < b < p.push(k).len() implies p.push(k)[a] != p.push(k)[b] by {
                        if b == p.len() {
                            assert(p.contains(p[a]));
                        }
                    }
                }
            }
            assert(acts@ =~= seq![PdfViewAction::ShowCached(i, old(view).width)] || acts@.len() == 0 || acts@
                =~= seq![PdfViewAction::RequestRender(i, old(view).width)]);
            acts
        },
        PdfViewEvent::Rendered(i, w) => {
            let ghost p0 = view.pending@;
            let mut kept: Vec<(u32, u32)> = Vec::new();
            let mut j: usize = 0;
            while j < view.pending.len()
                invariant
                    0 <= j <= view.pending@.len(),
                    view.pending@ == p0,
                    p0.no_duplicates(),
                    kept@ == p0.take(j as int).filter(|x: (u32, u32)| x != (i, w)),
                    kept@.no_duplicates(),
                    forall|m: int| 0 <= m < kept@.len() ==> exists|idx: int| 0 <= idx < j && p0[idx] == #[trigger] kept@[m],
                decreases view.pending.len() - j,
            {
                let x = view.pending[j];
                proof {
                    p0.take(j as int).lemma_filter_push(p0[j as int], |x: (u32, u32)| x != (i, w));
                    assert(p0.take(j + 1) =~= p0.take(j as int).push(p0[j as int]));
                }
                if !(x.0 == i && x.1 == w) {
                    let ghost before = kept@;
                    proof {
                        assert forall|m: int| 0 <= m < before.len() implies before[m] != x by {
                            let idx = choose|idx: int| 0 <= idx < j && p0[idx] == before[m];
                            assert(p0[idx] != p0[j as int]);
                        }
                    }
                    kept.push(x);
                    proof {
                        assert forall|a: int, b: int| 0 <= a < b < kept@.len() implies kept@[a] != kept@[b] by {
                            if b == before.len() {
                                assert(before[a] != x);
                            }
                        }
                        assert forall|m: int| 0 <= m < kept@.len() implies exists|idx: int| 0 <= idx < j + 1 && p0[idx] == #[trigger] kept@[m] by {
                            if m == before.len() {
                                assert(p0[j as int] == kept@[m]);
                            } else {
                                let idx = choose|idx: int| 0 <= idx < j && p0[idx] == before[m];
                                assert(p0[idx] == kept@[m]);
                            }
                        }
                    }
                }
                j = j + 1;
            }
            assert(p0.take(p0.len() as int) =~= p0);
            view.pending = kept;
            let ghost c0 = view.cached@;
            view.cached.push((i, w));
            if view.cached.len() > CACHE_PAGES {
                view.cached.remove(0);
                assert(view.cached@ =~= last_cached(c0.push((i, w))));
            }
            Vec::new()
        },
        PdfViewEvent::ZoomBy(d, shown) => {
            let sum = view.zoom + d;
            let z: i32 = if sum < 40 {
                40
            } else if sum > 200 {
                200
            } else {
                sum
            };
            let w: u32 = (800 * z / 100) as u32;
            view.zoom = z;
            view.width = w;
            view.cached = Vec::new();
            let mut acts: Vec<PdfViewAction> = Vec::new();
            acts.push(PdfViewAction::SetZoomLabel(z));
            let ghost p0 = old(view).pending@;
            let mut k: usize = 0;
            while k < shown.len()
                invariant
                    0 <= k <= shown@.len(),
                    p0 == old(view).pending@,
                    p0.no_duplicates(),
                    view.zoom == z,
                    view.width == w,
                    w == zoom_width(z as int),
                    40 <= z <= 200,
                    view.cached@.len() == 0,
                    view.pending@ == zoom_requests(p0, shown@.take(k as int), w).0,
                    acts@ == seq![PdfViewAction::SetZoomLabel(z)] + render_requests(
                        zoom_requests(p0, shown@.take(k as int), w).1,
                        w,
                    ),
                decreases shown@.len() - k,
            {
                let i = shown[k];
                let key = (i, w);
                assert(shown@.take(k + 1).drop_last() =~= shown@.take(k as int));
                proof {
                    lemma_zoom_requests_unique(p0, shown@.take(k as int), w);
                }
                let ghost r0 = zoom_requests(p0, shown@.take(k as int), w).1;
                if !contains_key(&view.pending, key) {
                    view.pending.push(key);
                    acts.push(PdfViewAction::RequestRender(i, w));
                    assert(render_requests(r0.push(i), w) =~= render_requests(r0, w).push(PdfViewAction::RequestRender(i, w)));
                    assert(acts@ =~= seq![PdfViewAction::SetZoomLabel(z)] + render_requests(r0.push(i), w));
                }
                k = k + 1;
            }
            assert(shown@.take(shown@.len() as int) =~= shown@);
            proof {
                lemma_zoom_requests_unique(p0, shown@, w);
            }
            acts
        },
    }
}

} // verus!
