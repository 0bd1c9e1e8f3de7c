//! Font lookup of the timeline visualizer: the directories searched for the bundled
//! CJK font and the font family used once the search is done.
//! Checking which candidate exists is done by the application.

use vstd::prelude::*;
use crate::remote::{join_path, joined_path};
use crate::text::owned;

verus! {

/// File name of the bundled font.
pub const FONT_NAME: &'static str = "SarasaTermSCNerd-Regular.ttf";

/// Family name of the bundled font.
pub open spec fn bundled_family() -> Seq<char> {
    "Sarasa Term SC Nerd"@
}

/// Family used when the bundled font is missing.
pub open spec fn fallback_family() -> Seq<char> {
    "sans-serif"@
}

/// The directories searched for the font, by priority: `fonts/` and `.fonts/` beside
/// the program, `./fonts`, the user's font directories and the platform font directory.
pub open spec fn search_dirs_spec(
    exe_dir: Option<Seq<char>>,
    home: Option<Seq<char>>,
    font_dir: Option<Seq<char>>,
    data_local: Option<Seq<char>>,
) -> Seq<Seq<char>> {
    let a = match exe_dir {
        Some(d) => seq![joined_path(d, "fonts"@)],
        None => seq![],
    };
    let b = seq!["./fonts"@];
    let c = match exe_dir {
        Some(d) => seq![joined_path(d, ".fonts"@)],
        None => seq![],
    };
    let d = match home {
        Some(h) => seq![joined_path(h, ".local/share/fonts"@), joined_path(h, ".fonts"@)],
        None => seq![],
    };
    let e = match font_dir {
        Some(f) => seq![f],
        None => seq![],
    };
    let f = match data_local {
        Some(l) => seq![joined_path(l, "analyzer/fonts"@)],
        None => seq![],
    };
    let g = match home {
        Some(h) => seq![joined_path(h, "Library/Fonts"@)],
        None => seq![],
    };
    a + b + c + d + e + f + g
}

/// The characters of an optional string.
pub open spec fn opt_view(o: Option<String>) -> Option<Seq<char>> {
    match o {
        Some(s) => Some(s@),
        None => None,
    }
}

fn push_joined(v: &mut Vec<String>, base: &Option<String>, rel: &str)
    ensures
        final(v)@.len() == old(v)@.len() + (if base is Some { 1int } else { 0int }),
        forall|i: int| 0 <= i < old(v)@.len() ==> #[trigger] final(v)@[i] == old(v)@[i],
        base matches Some(b) ==> final(v)@[old(v)@.len() as int]@ == joined_path(b@, rel@),
{
    match base {
        Some(b) => v.push(join_path(b.as_str(), rel)),
        None => {},
    }
}

/// The directories to search for the bundled font, in order, given the program's
/// directory, the home directory, the platform font directory and the local data directory.
pub fn font_search_dirs(
    exe_dir: Option<String>,
    home: Option<String>,
    font_dir: Option<String>,
    data_local: Option<String>,
) -> (r: Vec<String>)
    ensures
        r@.map_values(|s: String| s@) == search_dirs_spec(
            opt_view(exe_dir),
            opt_view(home),
            opt_view(font_dir),
            opt_view(data_local),
        ),
{
    let ghost fd = opt_view(font_dir);
    let mut v: Vec<String> = Vec::new();
    push_joined(&mut v, &exe_dir, "fonts");
    v.push(owned("./fonts"));
    push_joined(&mut v, &exe_dir, ".fonts");
    push_joined(&mut v, &home, ".local/share/fonts");
    push_joined(&mut v, &home, ".fonts");
    match font_dir {
        Some(f) => v.push(f),
        None => {},
    }
    push_joined(&mut v, &data_local, "analyzer/fonts");
    push_joined(&mut v, &home, "Library/Fonts");
    proof {
        let ed = opt_view(exe_dir);
        let hd = opt_view(home);
        let ld = opt_view(data_local);
        assert(v@.map_values(|s: String| s@) =~= search_dirs_spec(ed, hd, fd, ld));
    }
    v
}

/// Font settings of the visualizer once the font search is done.
pub struct FontLoader {
    font_available: bool,
    font_path: Option<String>,
}

impl FontLoader {
    /// Whether the bundled font was found.
    pub closed spec fn available_spec(&self) -> bool {
        self.font_available
    }

    /// Where the bundled font was found.
    pub closed spec fn path_spec(&self) -> Option<String> {
        self.font_path
    }

    /// The loader for the result of the font search (the font file found, if any);
    /// creating it always succeeds.
    pub fn new(found: Option<String>) -> (r: Result<Self, String>)
        ensures
            r matches Ok(l) && l.available_spec() == found is Some && l.path_spec() == found,
    {
        Ok(FontLoader { font_available: found.is_some(), font_path: found })
    }

    /// The font file, if it was found.
    pub fn font_path(&self) -> (r: Option<&String>)
        ensures
            match self.path_spec() {
                Some(p) => r == Some(&p),
                None => r is None,
            },
    {
        match &self.font_path {
            Some(p) => Some(p),
            None => None,
        }
    }

    /// The font family to draw with: the bundled font when found, `sans-serif` otherwise.
    pub fn font_family(&self) -> (r: &'static str)
        ensures
            r@ == (if self.available_spec() {
                bundled_family()
            } else {
                fallback_family()
            }),
    {
        if self.font_available {
            "Sarasa Term SC Nerd"
        } else {
            "sans-serif"
        }
    }

    /// Whether the bundled font is available.
    pub fn is_available(&self) -> (r: bool)
        ensures
            r == self.available_spec(),
    {
        self.font_available
    }
}

} // verus!
