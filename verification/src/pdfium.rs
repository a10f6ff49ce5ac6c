//! The calls into PDFium (`pdfium-render`) that page rendering makes, each
//! returning a receipt of what it handed to PDFium and what came back.
//! Receipts have private fields and only these wrappers make them.
use vstd::prelude::*;
use pdfium_render::prelude::{PdfDocument, PdfPage, PdfRenderConfig, PdfiumError};

verus! {

// PDFium's types, declared to Verus as opaque.
#[verifier::external_type_specification]
#[verifier::external_body]
pub struct ExPdfDocument<'a>(PdfDocument<'a>);

#[verifier::external_type_specification]
#[verifier::external_body]
pub struct ExPdfPage<'a>(PdfPage<'a>);

#[verifier::external_type_specification]
#[verifier::external_body]
pub struct ExPdfiumError(PdfiumError);

/// The settings a page is rendered with: scaled to `target_width` pixels
/// wide, its height following the page's aspect ratio, at most
/// `maximum_height` pixels high.
#[derive(Clone, Copy)]
pub struct RenderSettings {
    pub target_width: i32,
    pub maximum_height: i32,
}

/// What one [`page_at`] call asked for and whether the page opened.
pub struct PageReceipt {
    index: Ghost<i32>,
    opened: Ghost<bool>,
}

impl PageReceipt {
    /// The page index handed to `PdfPages::get`.
    pub closed spec fn index(&self) -> i32 {
        self.index@
    }

    /// Whether `PdfPages::get` returned a page.
    pub closed spec fn opened(&self) -> bool {
        self.opened@
    }
}

/// What one [`render_rgba`] call asked for and what PDFium returned.
pub struct RenderReceipt {
    settings: Ghost<RenderSettings>,
    output: Ghost<Option<(i32, i32, Vec<u8>)>>,
}

impl RenderReceipt {
    /// The settings handed to PDFium.
    pub closed spec fn settings(&self) -> RenderSettings {
        self.settings@
    }

    /// The bitmap PDFium returned (width, height, RGBA bytes), if it did.
    pub closed spec fn output(&self) -> Option<(i32, i32, Vec<u8>)> {
        self.output@
    }
}

/// `PdfPages::get` on the document's pages (`PdfDocument::pages`). Claims
/// that the index handed to `get` is `index` and that the receipt tells
/// whether a page came back; the page, or the error, depends on the
/// document's content.
#[verifier::external_body]
pub(crate) fn page_at<'a>(doc: &PdfDocument<'a>, index: i32) -> (r: (Result<PdfPage<'a>, PdfiumError>, PageReceipt))
    ensures
        r.1.index() == index,
        r.1.opened() == r.0 is Ok,
{
    let got = doc.pages().get(index);
    let receipt = PageReceipt { index: Ghost(index), opened: Ghost(got.is_ok()) };
    (got, receipt)
}

/// `PdfPage::render_with_config`, with a `PdfRenderConfig` made by
/// `PdfRenderConfig::new`, `set_target_width(settings.target_width)` and
/// `set_maximum_height(settings.maximum_height)`; the bitmap is read back as
/// `PdfBitmap::width`, `PdfBitmap::height` and `PdfBitmap::as_rgba_bytes`.
/// Claims that the settings handed over are `settings` and that the receipt
/// holds what came back; the pixels depend on the page, and their size comes
/// from floating-point scaling inside PDFium, so nothing is claimed of them.
#[verifier::external_body]
pub(crate) fn render_rgba(page: &PdfPage, settings: &RenderSettings) -> (r: (
    Result<(i32, i32, Vec<u8>), PdfiumError>,
    RenderReceipt,
))
    ensures
        r.1.settings() == *settings,
        match r.0 {
            Ok(b) => r.1.output() == Some(b),
            Err(_) => r.1.output() is None,
        },
{
    let config = PdfRenderConfig::new()
        .set_target_width(settings.target_width)
        .set_maximum_height(settings.maximum_height);
    let result = match page.render_with_config(&config) {
        Ok(bitmap) => Ok((bitmap.width(), bitmap.height(), bitmap.as_rgba_bytes())),
        Err(e) => Err(e),
    };
    let receipt = RenderReceipt { settings: Ghost(*settings), output: Ghost(result.as_ref().ok().cloned()) };
    (result, receipt)
}

/// What one [`platform_library_name`] call returned: the file name of the
/// PDFium library on the running platform. Only that wrapper makes one.
pub struct LibraryName {
    text: Ghost<Seq<char>>,
}

impl LibraryName {
    /// The text the call returned.
    pub closed spec fn text(&self) -> Seq<char> {
        self.text@
    }
}

/// `Pdfium::pdfium_platform_library_name` (`pdfium.dll`, `libpdfium.so` or
/// `libpdfium.dylib`, by platform), converted with `to_string_lossy`. Claims
/// only that the receipt holds the text returned; the text itself depends on
/// the platform the program runs on, so nothing is claimed of it.
#[verifier::external_body]
pub(crate) fn platform_library_name() -> (r: (String, LibraryName))
    ensures
        r.1.text() == r.0@,
{
    let name = pdfium_render::prelude::Pdfium::pdfium_platform_library_name().to_string_lossy().into_owned();
    let receipt = LibraryName { text: Ghost(name@) };
    (name, receipt)
}

/// The `Debug` text of a PDFium error (`format!` with `{:?}`). Nothing is
/// claimed of the text.
#[verifier::external_body]
pub(crate) fn error_text(e: &PdfiumError) -> String {
    format!("{e:?}")
}

} // verus!
