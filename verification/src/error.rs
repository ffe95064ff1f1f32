//! The pipeline's error taxonomy: filesystem faults, an empty or invalid
//! input set, external tool failures, and malformed clip-list input.
use vstd::prelude::*;
use crate::text::push_str;

verus! {

/// One terminal error per failed analysis or export call. Each variant
/// carries diagnostic text, raw tool output included where available.
#[derive(Clone, Debug)]
pub enum AppError {
    /// A filesystem read, write or delete failed.
    Io(String),
    /// The input set was empty or named nothing to work on.
    NotFound(String),
    /// The external tool could not be run, or returned a failure status.
    FFmpeg(String),
    /// The clip-list input could not be decoded.
    Json(String),
    /// The external tool could not be spawned by the shell.
    Shell(String),
}

impl AppError {
    /// Render the error as one line of text, a fixed label before the
    /// carried diagnostic.
    pub fn message(&self) -> (r: String)
        ensures
            match self {
                AppError::Io(m) => r@ == "IO error: "@ + m@,
                AppError::NotFound(m) => r@ == "Not found: "@ + m@,
                AppError::FFmpeg(m) => r@ == "FFmpeg error: "@ + m@,
                AppError::Json(m) => r@ == "JSON error: "@ + m@,
                AppError::Shell(m) => r@ == "Shell error: "@ + m@,
            },
    {
        match self {
            AppError::Io(m) => {
                let mut s: String = "IO error: ".to_owned();
                push_str(&mut s, m.as_str());
                s
            },
            AppError::NotFound(m) => {
                let mut s: String = "Not found: ".to_owned();
                push_str(&mut s, m.as_str());
                s
            },
            AppError::FFmpeg(m) => {
                let mut s: String = "FFmpeg error: ".to_owned();
                push_str(&mut s, m.as_str());
                s
            },
            AppError::Json(m) => {
                let mut s: String = "JSON error: ".to_owned();
                push_str(&mut s, m.as_str());
                s
            },
            AppError::Shell(m) => {
                let mut s: String = "Shell error: ".to_owned();
                push_str(&mut s, m.as_str());
                s
            },
        }
    }
}

} // verus!
