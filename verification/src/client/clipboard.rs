//! Picking the file that the clipboard names.
use vstd::prelude::*;

use crate::relay::session::opt_string_view;
use crate::text::{trim, trim_seq};

verus! {

/// A file found through the clipboard: its path, its name and its size.
#[derive(Debug)]
pub struct ClipboardFile {
    pub path: String,
    pub filename: String,
    pub size: u64,
}

/// The first copied file that exists as a file, given whether each one
/// does.
pub fn first_file(is_file: &Vec<bool>) -> (r: Option<usize>)
    ensures
        match r {
            Some(i) => i < is_file@.len() && is_file@[i as int] && forall|j: int|
                0 <= j < i ==> !#[trigger] is_file@[j],
            None => forall|j: int| 0 <= j < is_file@.len() ==> !#[trigger] is_file@[j],
        },
{
    let mut i: usize = 0;
    while i < is_file.len()
        invariant
            i <= is_file@.len(),
            forall|j: int| 0 <= j < i ==> !#[trigger] is_file@[j],
        decreases is_file@.len() - i,
    {
        if is_file[i] {
            return Some(i);
        }
        i = i + 1;
    }
    None
}

/// The path that copied text names: the text, trimmed, when not empty.
pub fn clipboard_text_path(text: &str) -> (r: Option<String>)
    ensures
        opt_string_view(r) == if trim_seq(text@).len() > 0 {
            Some(trim_seq(text@))
        } else {
            None
        },
{
    let t = trim(text);
    if t.as_str().is_empty() {
        None
    } else {
        Some(t)
    }
}

} // verus!
