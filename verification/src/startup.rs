//! Where the application keeps its data, and what closing the window does.
use vstd::prelude::*;
use crate::text::{chars_of, extend_chars, string_of};

verus! {

/// `base` with the relative path `part` appended, as `PathBuf::join` appends a relative
/// path: with a `/` between them unless `base` is empty or already ends with one.
pub open spec fn joined_path(base: Seq<char>, part: Seq<char>) -> Seq<char> {
    if base.len() == 0 || base.last() == '/' {
        base + part
    } else {
        base + "/"@ + part
    }
}

fn join_path(base: &str, part: &str) -> (r: Vec<char>)
    ensures
        r@ == joined_path(base@, part@),
{
    let mut out = chars_of(base);
    if out.len() > 0 && out[out.len() - 1] != '/' {
        extend_chars(&mut out, chars_of("/").as_slice());
    }
    extend_chars(&mut out, chars_of(part).as_slice());
    out
}

/// The data directory: `MADARI_DATA_DIR` when set, else `madari` under `XDG_DATA_HOME`, else
/// under `.local/share` in `HOME`; without any of them there is none.
pub open spec fn data_directory_of(madari: Option<Seq<char>>, xdg: Option<Seq<char>>, home: Option<Seq<char>>) -> Option<Seq<char>> {
    match madari {
        Some(d) => Some(d),
        None => match xdg {
            Some(x) => Some(joined_path(x, "madari"@)),
            None => match home {
                Some(h) => Some(joined_path(joined_path(h, ".local/share"@), "madari"@)),
                None => None,
            },
        },
    }
}

/// The text of an optional value.
pub open spec fn text_of(v: Option<&str>) -> Option<Seq<char>> {
    match v {
        Some(s) => Some(s@),
        None => None,
    }
}

/// Choose the data directory from the environment's values; at least one of them is set
/// (without any of them there is no data directory to use).
pub fn data_directory(madari: Option<&str>, xdg: Option<&str>, home: Option<&str>) -> (r: String)
    requires
        madari is Some || xdg is Some || home is Some,
    ensures
        data_directory_of(text_of(madari), text_of(xdg), text_of(home)) == Some(r@),
{
    match madari {
        Some(d) => string_of(chars_of(d).as_slice()),
        None => match xdg {
            Some(x) => string_of(join_path(x, "madari").as_slice()),
            None => match home {
                Some(h) => {
                    let share = string_of(join_path(h, ".local/share").as_slice());
                    string_of(join_path(share.as_str(), "madari").as_slice())
                },
                None => string_of(Vec::new().as_slice()),
            },
        },
    }
}

/// What closing the main window does.
#[derive(Clone, Copy, Debug, PartialEq, Eq)]
pub enum CloseStep {
    /// Stop playback first, saving progress; the window closes when playback has stopped.
    StopPlayback,
    /// Cancel the running request and close.
    Close,
}

/// Closing Madari while a video plays stops playback first.
pub fn close_step(playback_active: bool) -> (r: CloseStep)
    ensures
        r == if playback_active { CloseStep::StopPlayback } else { CloseStep::Close },
{
    if playback_active {
        CloseStep::StopPlayback
    } else {
        CloseStep::Close
    }
}

} // verus!
