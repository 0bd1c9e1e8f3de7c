//! Command-line settings: the arguments of the log analysis and the interface
//! language.

use vstd::prelude::*;
use crate::chart_style::starts_with_text;
use crate::text::{owned, to_chars};

verus! {

/// The arguments of the log analysis.
#[derive(Debug, Clone)]
pub struct Args {
    /// The log file to analyse.
    pub log: String,
    /// The directory the results are written to.
    pub outdir: String,
}

/// The default output directory: `output`.
pub fn default_outdir() -> (r: String)
    ensures
        r@ == "output"@,
{
    owned("output")
}

impl Args {
    /// Arguments for a log file, the output going to the default directory.
    pub fn for_log(log: String) -> (r: Self)
        ensures
            r.log == log,
            r.outdir@ == "output"@,
    {
        Args { log, outdir: default_outdir() }
    }
}

/// `s` in lower case, as `str::to_lowercase` gives it.
pub uninterp spec fn lowercase(s: Seq<char>) -> Seq<char>;

/// `str::to_lowercase`.
#[verifier::external_body]
pub(crate) fn to_lowercase(s: &str) -> (r: String)
    ensures
        r@ == lowercase(s@),
{
    s.to_lowercase()
}

/// The interface language for a language code: `en` for a code that starts with
/// `en` in any case, `zh-CN` for anything else.
pub open spec fn locale_for(lang: Seq<char>) -> Seq<char> {
    if starts_with_text(lowercase(lang), "en"@) {
        "en"@
    } else {
        "zh-CN"@
    }
}

/// The interface language for a language code (see `locale_for`).
pub fn normalize_locale(lang: &str) -> (r: String)
    ensures
        r@ == locale_for(lang@),
{
    let lower = to_lowercase(lang);
    let cs = to_chars(lower.as_str());
    proof {
        reveal_strlit("en");
    }
    if cs.len() >= 2 && cs[0] == 'e' && cs[1] == 'n' {
        assert(cs@.subrange(0, 2) =~= "en"@);
        owned("en")
    } else {
        proof {
            if starts_with_text(cs@, "en"@) {
                assert(cs@.subrange(0, 2)[0] == 'e');
                assert(cs@.subrange(0, 2)[1] == 'n');
            }
        }
        owned("zh-CN")
    }
}


/// The interface language from the `LANG` setting: that of its code when it is set
/// (see `locale_for`), `zh-CN` otherwise.
pub fn detect_locale(lang_env: Option<&str>) -> (r: String)
    ensures
        r@ == match lang_env {
            Some(l) => locale_for(l@),
            None => "zh-CN"@,
        },
{
    match lang_env {
        Some(l) => normalize_locale(l),
        None => owned("zh-CN"),
    }
}

} // verus!
