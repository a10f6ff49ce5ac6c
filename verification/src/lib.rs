//! Open PDF Studio: the verified core of a tabbed PDF viewer.
//!
//! The crate holds the decisions of the viewer, apart from the windowing
//! toolkit and the threads that carry them out: the open-documents store
//! (one entry per tab), the recent-files list of the settings, the engine's
//! command handle and the state machine of its rendering worker, page
//! rasterisation through PDFium, and the text shown in the properties panel.
pub mod channel;
pub mod docs;
pub mod engine;
pub mod format;
pub mod library;
pub mod paths;
pub mod pdfium;
pub mod render;
pub mod settings;
pub mod text;
pub mod worker;
