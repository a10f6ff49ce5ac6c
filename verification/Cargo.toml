[package]
name = "open_pdf_studio"
version = "0.1.0"
edition = "2021"
publish = false

[dependencies]
pdfium-render = "=0.9.5"
serde = { version = "=1.0.229", features = ["derive"] }
serde_json = "=1.0.154"
directories = "=6.0.0"
