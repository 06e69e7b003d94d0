//! Still/Video path helpers used when a session is applied and when operators
//! rematch files by name.
//!
//! Whether a path names an existing file is a question for the file system;
//! callers look the paths up and hand the ones that are regular files in as
//! `files`. Directory walks likewise happen outside: they hand in every file
//! found as a `(file name, full path)` pair.

use vstd::prelude::*;

use crate::session::edit::id_text;
use crate::session::edit::id_text_exec;
use crate::session::model::{Document, DocumentView, InputDto, InputDtoView, InputKind};
use crate::text::{spec_trim, trim};

verus! {

pub open spec fn is_media(kind: InputKind) -> bool {
    kind == InputKind::Still || kind == InputKind::Video
}

/// The trimmed path of an input, when it has a non-blank one.
pub open spec fn media_path(input: InputDtoView) -> Option<Seq<char>> {
    match input.path_or_address {
        Some(p) => if spec_trim(p).len() > 0 {
            Some(spec_trim(p))
        } else {
            None
        },
        None => None,
    }
}

pub open spec fn texts(v: Seq<String>) -> Seq<Seq<char>> {
    v.map_values(|s: String| s@)
}

/// A still or video input whose path is blank or not among the existing
/// files.
pub open spec fn spec_media_file_missing(input: InputDtoView, files: Seq<Seq<char>>) -> bool {
    is_media(input.kind) && !(media_path(input) is Some && files.contains(media_path(input)->0))
}

pub fn str_in(list: &Vec<String>, s: &str) -> (r: bool)
    ensures
        r == texts(list@).contains(s@),
{
    let mut i: usize = 0;
    while i < list.len()
        invariant
            i <= list.len(),
            forall|j: int| 0 <= j < i ==> list@[j]@ != s@,
        decreases list.len() - i,
    {
        if crate::session::edit::str_eq(list[i].as_str(), s) {
            assert(texts(list@)[i as int] == s@);
            return true;
        }
        i = i + 1;
    }
    assert forall|j: int| 0 <= j < texts(list@).len() implies texts(list@)[j] != s@ by {
        assert(texts(list@)[j] == list@[j]@);
    }
    false
}

fn trimmed_path(input: &InputDto) -> (r: Option<&str>)
    ensures
        match r {
            Some(p) => media_path(input@) == Some(p@),
            None => media_path(input@) is None,
        },
{
    match &input.path_or_address {
        Some(p) => {
            let t = trim(p.as_str());
            if t.unicode_len() > 0 {
                Some(t)
            } else {
                None
            }
        },
        None => None,
    }
}

pub fn media_file_missing(input: &InputDto, files: &Vec<String>) -> (r: bool)
    ensures
        r == spec_media_file_missing(input@, texts(files@)),
{
    if !(input.kind == InputKind::Still || input.kind == InputKind::Video) {
        return false;
    }
    match trimmed_path(input) {
        Some(p) => !str_in(files, p),
        None => true,
    }
}

/// Why a still or video input cannot be loaded, if it cannot.
pub open spec fn spec_missing_media_message(input: InputDtoView, files: Seq<Seq<char>>) -> Option<
    Seq<char>,
> {
    if !is_media(input.kind) {
        None
    } else {
        match media_path(input) {
            None => Some(id_text("input "@, input.id, " is missing a file path"@)),
            Some(p) => if files.contains(p) {
                None
            } else {
                Some(id_text("input "@, input.id, " file does not exist: "@) + p)
            },
        }
    }
}

pub fn missing_media_message(input: &InputDto, files: &Vec<String>) -> (r: Option<String>)
    ensures
        match r {
            Some(m) => spec_missing_media_message(input@, texts(files@)) == Some(m@),
            None => spec_missing_media_message(input@, texts(files@)) is None,
        },
{
    if !(input.kind == InputKind::Still || input.kind == InputKind::Video) {
        return None;
    }
    match trimmed_path(input) {
        None => Some(id_text_exec("input ", input.id, " is missing a file path")),
        Some(p) => {
            if str_in(files, p) {
                None
            } else {
                let mut m = id_text_exec("input ", input.id, " file does not exist: ");
                m.append(p);
                Some(m)
            }
        },
    }
}

/// What `std::path::Path::file_name` gives for a path, as text. Which
/// characters separate path components is fixed by the target the crate is
/// built for (`/` on Unix, `/` and `\` on Windows), so the value is the same
/// throughout one build but may differ between targets.
pub uninterp spec fn path_file_name(path: Seq<char>) -> Option<Seq<char>>;

/// `Path::new(path).file_name()` read back as UTF-8 text; `None` where the
/// path has no final component (or it is not valid UTF-8).
#[verifier::external_body]
fn file_name(path: &str) -> (r: Option<String>)
    ensures
        match r {
            Some(s) => path_file_name(path@) == Some(s@),
            None => path_file_name(path@) is None,
        },
{
    match std::path::Path::new(path).file_name() {
        Some(name) => match name.to_str() {
            Some(text) => Some(text.to_string()),
            None => None,
        },
        None => None,
    }
}

pub open spec fn found_view(found: Seq<(String, String)>) -> Seq<(Seq<char>, Seq<char>)> {
    found.map_values(|e: (String, String)| (e.0@, e.1@))
}

/// The one path found under a file name, when every file found under that
/// name is that same path.
pub open spec fn unique_path(found: Seq<(Seq<char>, Seq<char>)>, name: Seq<char>) -> Option<Seq<char>> {
    if exists|i: int| 0 <= i < found.len() && found[i].0 == name {
        let i = choose|i: int| 0 <= i < found.len() && found[i].0 == name;
        if forall|j: int| 0 <= j < found.len() && found[j].0 == name ==> found[j].1 == found[i].1 {
            Some(found[i].1)
        } else {
            None
        }
    } else {
        None
    }
}

fn lookup_unique(found: &Vec<(String, String)>, name: &str) -> (r: Option<String>)
    ensures
        match r {
            Some(p) => unique_path(found_view(found@), name@) == Some(p@),
            None => unique_path(found_view(found@), name@) is None,
        },
{
    let ghost fv = found_view(found@);
    let mut hit: Option<usize> = None;
    let mut i: usize = 0;
    while i < found.len()
        invariant
            i <= found.len(),
            fv == found_view(found@),
            match hit {
                Some(k) => k < i && fv[k as int].0 == name@ && forall|j: int|
                    0 <= j < i && fv[j].0 == name@ ==> fv[j].1 == fv[k as int].1,
                None => forall|j: int| 0 <= j < i ==> fv[j].0 != name@,
            },
        decreases found.len() - i,
    {
        assert(fv[i as int] == (found@[i as int].0@, found@[i as int].1@));
        if crate::session::edit::str_eq(found[i].0.as_str(), name) {
            match hit {
                None => {
                    hit = Some(i);
                },
                Some(k) => {
                    if !crate::session::edit::str_eq(found[i].1.as_str(), found[k].1.as_str()) {
                        proof {
                            assert(fv[k as int] == (found@[k as int].0@, found@[k as int].1@));
                            let c = choose|c: int| 0 <= c < fv.len() && fv[c].0 == name@;
                            if fv[c].1 == fv[k as int].1 {
                                assert(fv[i as int].1 != fv[c].1);
                            } else {
                                assert(fv[k as int].1 != fv[c].1);
                            }
                        }
                        return None;
                    }
                },
            }
        }
        i = i + 1;
    }
    match hit {
        None => None,
        Some(k) => {
            proof {
                assert(fv[k as int] == (found@[k as int].0@, found@[k as int].1@));
                let c = choose|c: int| 0 <= c < fv.len() && fv[c].0 == name@;
                assert(fv[c].1 == fv[k as int].1);
            }
            Some(found[k].1.clone())
        },
    }
}

/// Where an input's file moved to: a missing still or video file whose file
/// name was found at exactly one path.
pub open spec fn relinked_path(
    input: InputDtoView,
    files: Seq<Seq<char>>,
    found: Seq<(Seq<char>, Seq<char>)>,
) -> Option<Seq<char>> {
    if spec_media_file_missing(input, files) && input.path_or_address is Some {
        match path_file_name(input.path_or_address->0) {
            Some(name) => if name.len() > 0 {
                unique_path(found, name)
            } else {
                None
            },
            None => None,
        }
    } else {
        None
    }
}

pub open spec fn relinked(
    input: InputDtoView,
    files: Seq<Seq<char>>,
    found: Seq<(Seq<char>, Seq<char>)>,
) -> InputDtoView {
    match relinked_path(input, files, found) {
        Some(p) => InputDtoView { path_or_address: Some(p), ..input },
        None => input,
    }
}

/// How many of the first `n` inputs were relinked.
pub open spec fn relink_count(
    inputs: Seq<InputDtoView>,
    files: Seq<Seq<char>>,
    found: Seq<(Seq<char>, Seq<char>)>,
    n: int,
) -> nat
    decreases n,
{
    if n <= 0 {
        0
    } else {
        relink_count(inputs, files, found, n - 1) + if relinked_path(inputs[n - 1], files, found) is Some {
            1nat
        } else {
            0nat
        }
    }
}

/// Updates still and video paths whose file is missing when their file name
/// was found at exactly one path. Zero or several matches leave the stored
/// path unchanged. Returns how many inputs moved.
pub fn relink_missing_media(doc: &mut Document, files: &Vec<String>, found: &Vec<(String, String)>) -> (r:
    usize)
    ensures
        final(doc)@ == (DocumentView {
            inputs: old(doc)@.inputs.map_values(
                |x: InputDtoView| relinked(x, texts(files@), found_view(found@)),
            ),
            ..old(doc)@
        }),
        r == relink_count(old(doc)@.inputs, texts(files@), found_view(found@), old(doc)@.inputs.len() as int),
{
    let ghost start = doc@;
    let ghost fs = texts(files@);
    let ghost fv = found_view(found@);
    let mut count: usize = 0;
    let mut i: usize = 0;
    while i < doc.inputs.len()
        invariant
            i <= doc.inputs.len(),
            doc.inputs.len() == start.inputs.len(),
            fs == texts(files@),
            fv == found_view(found@),
            doc@ == (DocumentView { inputs: doc@.inputs, ..start }),
            forall|j: int| 0 <= j < i ==> doc@.inputs[j] == relinked(start.inputs[j], fs, fv),
            forall|j: int| i <= j < doc.inputs.len() ==> doc@.inputs[j] == start.inputs[j],
            count == relink_count(start.inputs, fs, fv, i as int),
            count <= i,
        decreases doc.inputs.len() - i,
    {
        assert(doc@.inputs[i as int] == doc.inputs@[i as int]@);
        let mut target: Option<String> = None;
        if media_file_missing(&doc.inputs[i], files) {
            match &doc.inputs[i].path_or_address {
                Some(path) => match file_name(path.as_str()) {
                    Some(name) => {
                        if name.unicode_len() > 0 {
                            target = lookup_unique(found, name.as_str());
                        }
                    },
                    None => {},
                },
                None => {},
            }
        }
        assert(match target {
            Some(p) => relinked_path(start.inputs[i as int], fs, fv) == Some(p@),
            None => relinked_path(start.inputs[i as int], fs, fv) is None,
        });
        match target {
            Some(p) => {
                let mut x = doc.inputs[i].clone();
                x.path_or_address = Some(p);
                let ghost before = doc.inputs@;
                doc.inputs.set(i, x);
                proof {
                    assert(doc.inputs@.map_values(|y: InputDto| y@) =~= before.map_values(
                        |y: InputDto| y@,
                    ).update(i as int, x@));
                }
                count = count + 1;
            },
            None => {},
        }
        i = i + 1;
    }
    assert(doc@.inputs =~= start.inputs.map_values(|x: InputDtoView| relinked(x, fs, fv)));
    count
}

} // verus!
