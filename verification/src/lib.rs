//! A thin, verified core for a platform-OCR wrapper: plain value types for
//! recognized lines, words and bounding boxes, word-gap statistics, and the
//! adapter that flattens an engine's hierarchical result into this model.
//! All platform calls (image decoding, the recognizer itself) stay outside;
//! this crate receives their outcomes as plain values and shapes them.

pub mod adapter;
pub mod engine;
pub mod geometry;
pub mod model;
pub mod service;
pub mod text;

pub use adapter::convert_ocr_result;
pub use engine::AngleReading;
pub use engine::EngineLine;
pub use engine::EngineResult;
pub use geometry::BoundingBox;
pub use model::OcrLine;
pub use model::OcrRecognitionResult;
pub use model::OcrWord;
pub use service::get_available_languages;
pub use service::not_found_message;
pub use service::recognition_outcome;
