use ice_commander::pdf_view::{pdf_view_step, zoom_label, PdfView, PdfViewAction, PdfViewEvent};

#[test]
fn a_page_on_screen_is_rendered_once_and_then_shown_from_the_cache() {
    let mut v = PdfView::new();
    assert_eq!((v.zoom, v.width), (100, 800));
    assert_eq!(pdf_view_step(&mut v, PdfViewEvent::Bound(0)), vec![PdfViewAction::RequestRender(0, 800)]);
    assert_eq!(pdf_view_step(&mut v, PdfViewEvent::Bound(0)), vec![]);
    assert_eq!(v.pending, vec![(0, 800)]);
    assert_eq!(pdf_view_step(&mut v, PdfViewEvent::Rendered(0, 800)), vec![]);
    assert!(v.pending.is_empty());
    assert_eq!(v.cached, vec![(0, 800)]);
    assert_eq!(pdf_view_step(&mut v, PdfViewEvent::Bound(0)), vec![PdfViewAction::ShowCached(0, 800)]);
}

#[test]
fn the_cache_keeps_the_last_eight_pages() {
    let mut v = PdfView::new();
    for i in 0..10u32 {
        pdf_view_step(&mut v, PdfViewEvent::Bound(i));
        pdf_view_step(&mut v, PdfViewEvent::Rendered(i, 800));
    }
    assert_eq!(v.cached, (2..10u32).map(|i| (i, 800)).collect::<Vec<_>>());
    assert_eq!(pdf_view_step(&mut v, PdfViewEvent::Bound(1)), vec![PdfViewAction::RequestRender(1, 800)]);
}

#[test]
fn zooming_clamps_clears_the_cache_and_rerequests_the_shown_pages() {
    let mut v = PdfView::new();
    pdf_view_step(&mut v, PdfViewEvent::Bound(0));
    pdf_view_step(&mut v, PdfViewEvent::Rendered(0, 800));
    pdf_view_step(&mut v, PdfViewEvent::Bound(1));
    let acts = pdf_view_step(&mut v, PdfViewEvent::ZoomBy(10, vec![0, 1]));
    assert_eq!((v.zoom, v.width), (110, 880));
    assert!(v.cached.is_empty());
    assert_eq!(
        acts,
        vec![PdfViewAction::SetZoomLabel(110), PdfViewAction::RequestRender(0, 880), PdfViewAction::RequestRender(1, 880)]
    );
    let again = pdf_view_step(&mut v, PdfViewEvent::ZoomBy(0, vec![0]));
    assert_eq!(again, vec![PdfViewAction::SetZoomLabel(110)]);
    pdf_view_step(&mut v, PdfViewEvent::ZoomBy(500, vec![]));
    assert_eq!((v.zoom, v.width), (200, 1600));
    pdf_view_step(&mut v, PdfViewEvent::ZoomBy(-500, vec![]));
    assert_eq!((v.zoom, v.width), (40, 320));
    assert_eq!(zoom_label(110), "110%");
    assert_eq!(zoom_label(40), "40%");
}
