//! Page rasterisation through PDFium (`pdfium-render`).
use vstd::prelude::*;
use pdfium_render::prelude::{PdfDocument, PdfPage, PdfiumError};
use crate::pdfium::{error_text, page_at, render_rgba, PageReceipt, RenderReceipt, RenderSettings};
use crate::text::{push_signed_decimal, push_str, signed_decimal, string_of};

verus! {

/// What one call of [`render_page_bytes`] asked of PDFium and got back: the
/// receipt of opening the page, and the receipt of rendering it (once the
/// page opened).
pub struct PageRender {
    pub page: PageReceipt,
    pub render: Option<RenderReceipt>,
}

/// The settings of a page rendered `target_width` pixels wide: the height is
/// capped at four times the width.
pub open spec fn settings_for_width(target_width: i32) -> RenderSettings {
    RenderSettings { target_width, maximum_height: (target_width * 4) as i32 }
}

/// A page is asked for `target_width` pixels wide with its height capped at
/// four times that width, so a page whose height is under four times its
/// width comes back `target_width` wide.
pub proof fn law_settings_cap_height(target_width: i32)
    requires
        i32::MIN <= target_width * 4 <= i32::MAX,
    ensures
        settings_for_width(target_width).target_width == target_width,
        settings_for_width(target_width).maximum_height == target_width * 4,
{
}

/// The message of a failed page step: `what`, the 1-based page number, a
/// colon and PDFium's description `detail`.
pub open spec fn page_error(what: Seq<char>, index: i32, detail: Seq<char>) -> Seq<char> {
    what + signed_decimal(index + 1) + ": "@ + detail
}

/// Builds `what <index + 1>: <detail>`.
fn page_error_text(what: &str, index: i32, e: &PdfiumError) -> (m: String)
    requires
        index < i32::MAX,
    ensures
        exists|detail: Seq<char>| m@ == page_error(what@, index, detail),
{
    let detail = error_text(e);
    let mut out: Vec<char> = Vec::new();
    push_str(&mut out, what);
    push_signed_decimal(&mut out, (index + 1) as i64);
    push_str(&mut out, ": ");
    push_str(&mut out, detail.as_str());
    assert(out@ =~= page_error(what@, index, detail@));
    string_of(&out)
}

/// What becomes of an opened (or failed) page: a failure to open reads
/// `open page N: ...`; an opened page is rendered with
/// [`settings_for_width`]`(target_width)`, and PDFium's bitmap is returned as
/// `(width, height, bytes)`, or its failure as `render page N: ...`.
pub fn finish_page(opened: Result<PdfPage, PdfiumError>, asked: PageReceipt, index: i32, target_width: i32) -> (r: (
    Result<(u32, u32, Vec<u8>), String>,
    PageRender,
))
    requires
        index < i32::MAX,
        i32::MIN <= target_width * 4 <= i32::MAX,
    ensures
        r.1.page == asked,
        match opened {
            Err(_) => {
                &&& r.1.render is None
                &&& r.0 matches Err(m) && exists|d: Seq<char>| m@ == page_error("open page "@, index, d)
            },
            Ok(_) => r.1.render matches Some(rr) && rendered_as(rr, target_width, index, r.0),
        },
        r.1.render matches Some(rr) ==> rr.settings().target_width == target_width
            && rr.settings().maximum_height == target_width * 4,
{
    match opened {
        Err(e) => {
            let m = page_error_text("open page ", index, &e);
            (Err(m), PageRender { page: asked, render: None })
        },
        Ok(page) => {
            let settings = RenderSettings { target_width, maximum_height: target_width * 4 };
            let (rendered, receipt) = render_rgba(&page, &settings);
            let result = match rendered {
                Ok((w, h, bytes)) => Ok((w as u32, h as u32, bytes)),
                Err(e) => Err(page_error_text("render page ", index, &e)),
            };
            (result, PageRender { page: asked, render: Some(receipt) })
        },
    }
}

/// `result` is what a page rendered with the receipt `rr` gives: the receipt
/// shows the settings for `target_width`, and the result is PDFium's bitmap
/// converted, or `render page N: ...` when PDFium returned none.
pub open spec fn rendered_as(rr: RenderReceipt, target_width: i32, index: i32, result: Result<(u32, u32, Vec<u8>), String>) -> bool {
    &&& rr.settings() == settings_for_width(target_width)
    &&& match rr.output() {
        Some((w, h, b)) => result == Ok::<(u32, u32, Vec<u8>), String>((w as u32, h as u32, b)),
        None => result matches Err(m) && exists|d: Seq<char>| m@ == page_error("render page "@, index, d),
    }
}

/// Render page `index` of `doc` to RGBA8 pixels: `(width, height, bytes)`.
///
/// The page is rendered `target_width` pixels wide, its height following
/// the page's aspect ratio but capped at four times the width. A failure to
/// open the page reads `open page N: ...`, a failure to render it `render
/// page N: ...`, with N the 1-based page number. The receipts report what
/// was asked of PDFium and what it returned.
pub fn render_page_bytes(doc: &PdfDocument, index: i32, target_width: i32) -> (r: (
    Result<(u32, u32, Vec<u8>), String>,
    PageRender,
))
    requires
        index < i32::MAX,
        i32::MIN <= target_width * 4 <= i32::MAX,
    ensures
        r.1.page.index() == index,
        r.1.page.opened() == r.1.render is Some,
        match r.1.render {
            None => r.0 matches Err(m) && exists|d: Seq<char>| m@ == page_error("open page "@, index, d),
            Some(rr) => rendered_as(rr, target_width, index, r.0),
        },
        r.1.render matches Some(rr) ==> rr.settings().target_width == target_width
            && rr.settings().maximum_height == target_width * 4,
{
    let (opened, asked) = page_at(doc, index);
    finish_page(opened, asked, index, target_width)
}

} // verus!
