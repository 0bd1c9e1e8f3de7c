//! Font choice of the chart renderer: a CJK font when one is installed and
//! registered, an English font otherwise. Probing the system is the application's part.

use vstd::prelude::*;
use crate::chart_style::{contains_str, contains_text};
use crate::cli::{lowercase, to_lowercase};
use crate::config::str_eq;
use crate::remote::{trim, trimmed};
use crate::text::{owned, push_str, to_chars};

verus! {

/// The font chosen for charts.
#[derive(Debug, Clone)]
pub enum FontChoice {
    /// A font that can draw Chinese text.
    Chinese(String),
    /// A font for Latin text only.
    English(String),
}

/// The family name of a choice.
pub open spec fn choice_name(c: FontChoice) -> Seq<char> {
    match c {
        FontChoice::Chinese(n) => n@,
        FontChoice::English(n) => n@,
    }
}

/// The message when the chosen font cannot be rendered.
pub open spec fn unrenderable_message(name: Seq<char>) -> Seq<char> {
    "字体 '"@ + name + "' 无法渲染。请安装 CJK 字体:\n\nUbuntu/Debian: sudo apt install fonts-noto-cjk\nFedora/RHEL:   sudo dnf install google-noto-sans-cjk-fonts\nArch Linux:    sudo pacman -S noto-fonts-cjk\nAlpine:        apk add font-noto-cjk"@
}

/// Font settings of the chart renderer.
pub struct FontLoader {
    font_choice: FontChoice,
}

impl FontLoader {
    /// The chosen font.
    pub closed spec fn choice(&self) -> FontChoice {
        self.font_choice
    }

    /// The loader for the detected font; creating it always succeeds.
    pub fn new(font_choice: FontChoice) -> (r: Result<Self, String>)
        ensures
            r matches Ok(l) && l.choice() == font_choice,
    {
        Ok(FontLoader { font_choice })
    }

    /// The loader used when detection gives nothing: English `sans-serif`.
    pub fn fallback() -> (r: Self)
        ensures
            r.choice() matches FontChoice::English(n) && n@ == "sans-serif"@,
    {
        FontLoader { font_choice: FontChoice::English(owned("sans-serif")) }
    }

    /// Fonts are registered by name; there is no file path to report.
    pub fn font_path(&self) -> (r: Option<&String>)
        ensures
            r is None,
    {
        None
    }

    /// The family name to draw with.
    pub fn font_name(&self) -> (r: &str)
        ensures
            r@ == choice_name(self.choice()),
    {
        match &self.font_choice {
            FontChoice::Chinese(name) => name.as_str(),
            FontChoice::English(name) => name.as_str(),
        }
    }

    /// Whether the chosen font draws Chinese.
    pub fn is_chinese_font(&self) -> (r: bool)
        ensures
            r == (self.choice() is Chinese),
    {
        match &self.font_choice {
            FontChoice::Chinese(_) => true,
            FontChoice::English(_) => false,
        }
    }

    /// A font is always available: the English fallback is the last resort.
    pub fn is_available(&self) -> (r: bool)
        ensures
            r,
    {
        true
    }

    /// The outcome of checking that the chosen font renders, given whether a test
    /// rendering succeeded: an error naming the font and the packages to install otherwise.
    pub fn validate(&self, renders: bool) -> (r: Result<(), String>)
        ensures
            renders ==> r is Ok,
            !renders ==> (r matches Err(m) && m@ == unrenderable_message(choice_name(self.choice()))),
    {
        if renders {
            return Ok(());
        }
        let mut m = owned("字体 '");
        push_str(&mut m, self.font_name());
        push_str(
            &mut m,
            "' 无法渲染。请安装 CJK 字体:\n\nUbuntu/Debian: sudo apt install fonts-noto-cjk\nFedora/RHEL:   sudo dnf install google-noto-sans-cjk-fonts\nArch Linux:    sudo pacman -S noto-fonts-cjk\nAlpine:        apk add font-noto-cjk",
        );
        assert(m@ =~= unrenderable_message(choice_name(self.choice())));
        Err(m)
    }
}


// ---------------------------------------------------------------------------
// Which fonts to try, by platform
// ---------------------------------------------------------------------------

/// A font choice as plain values: whether it draws Chinese, and its family name.
pub open spec fn choice_view(c: FontChoice) -> (bool, Seq<char>) {
    match c {
        FontChoice::Chinese(n) => (true, n@),
        FontChoice::English(n) => (false, n@),
    }
}

/// The views of a sequence of choices.
pub open spec fn choices_view(v: Seq<FontChoice>) -> Seq<(bool, Seq<char>)> {
    v.map_values(|c: FontChoice| choice_view(c))
}

/// The CJK fonts tried on Linux, by preference.
pub open spec fn linux_cjk_fonts() -> Seq<Seq<char>> {
    seq![
        "Noto Sans CJK SC"@,
        "Noto Sans CJK"@,
        "WenQuanYi Micro Hei"@,
        "WenQuanYi Zen Hei"@,
        "Source Han Sans SC"@,
        "Source Han Sans CN"@,
        "Droid Sans Fallback"@,
    ]
}

/// The Latin fonts tried on Linux, by preference.
pub open spec fn linux_english_fonts() -> Seq<Seq<char>> {
    seq!["DejaVu Sans"@, "Liberation Sans"@, "Noto Sans"@]
}

/// The fonts of `names` that the listing mentions, in order, as Chinese choices.
pub open spec fn listed_cjk(listing: Seq<char>, names: Seq<Seq<char>>) -> Seq<(bool, Seq<char>)>
    decreases names.len(),
{
    if names.len() == 0 {
        seq![]
    } else {
        let prev = listed_cjk(listing, names.drop_last());
        if contains_text(listing, names.last()) {
            prev.push((true, names.last()))
        } else {
            prev
        }
    }
}

/// The fonts to try on Linux, in order, given what `fc-list :lang=zh` printed: the
/// preferred CJK fonts that it lists (none when it printed nothing but blanks), then
/// the Latin fonts.
pub open spec fn linux_candidates(cjk_listing: Seq<char>) -> Seq<(bool, Seq<char>)> {
    (if trim(cjk_listing).len() == 0 {
        Seq::empty()
    } else {
        listed_cjk(cjk_listing, linux_cjk_fonts())
    }) + linux_english_fonts().map_values(|n: Seq<char>| (false, n))
}

/// The fonts to try on Linux, in order (see `linux_candidates`); the first that can
/// be registered is used, `sans-serif` when none can.
pub fn linux_font_candidates(cjk_listing: &str) -> (r: Vec<FontChoice>)
    ensures
        choices_view(r@) == linux_candidates(cjk_listing@),
{
    let names = [
        "Noto Sans CJK SC",
        "Noto Sans CJK",
        "WenQuanYi Micro Hei",
        "WenQuanYi Zen Hei",
        "Source Han Sans SC",
        "Source Han Sans CN",
        "Droid Sans Fallback",
    ];
    let ghost cjk = linux_cjk_fonts();
    let mut out: Vec<FontChoice> = Vec::new();
    let t = trimmed(cjk_listing);
    if to_chars(t.as_str()).len() > 0 {
        let cs = to_chars(cjk_listing);
        let mut i: usize = 0;
        assert(cjk.take(0) =~= Seq::<Seq<char>>::empty());
        while i < 7
            invariant
                i <= 7,
                cs@ == cjk_listing@,
                cjk == linux_cjk_fonts(),
                forall|k: int| 0 <= k < 7 ==> (#[trigger] names@[k])@ == cjk[k],
                choices_view(out@) == listed_cjk(cjk_listing@, cjk.take(i as int)),
            decreases 7 - i,
        {
            proof {
                assert(cjk.take(i + 1).drop_last() =~= cjk.take(i as int));
                assert(cjk.take(i + 1).last() == names@[i as int]@);
            }
            if contains_str(&cs, names[i]) {
                let ghost before = out@;
                out.push(FontChoice::Chinese(owned(names[i])));
                assert(choices_view(out@) =~= choices_view(before).push((true, names@[i as int]@)));
            }
            i += 1;
        }
        assert(cjk.take(7) =~= cjk);
    }
    let ghost head = choices_view(out@);
    out.push(FontChoice::English(owned("DejaVu Sans")));
    out.push(FontChoice::English(owned("Liberation Sans")));
    out.push(FontChoice::English(owned("Noto Sans")));
    assert(choices_view(out@) =~= head + linux_english_fonts().map_values(|n: Seq<char>| (false, n)));
    out
}

/// Whether the `LANG` setting names Chinese: its lower case mentions `zh` or
/// `chinese`.
pub open spec fn lang_names_chinese(lang: Seq<char>) -> bool {
    contains_text(lowercase(lang), "zh"@) || contains_text(lowercase(lang), "chinese"@)
}

/// Whether text that names a language or culture mentions `zh`, in any case.
pub open spec fn mentions_zh(text: Seq<char>) -> bool {
    contains_text(lowercase(text), "zh"@)
}

/// Whether the active code page is the Chinese one: the text mentions `936`.
pub open spec fn codepage_is_chinese(text: Seq<char>) -> bool {
    contains_text(text, "936"@)
}

/// Whether the `LANG` setting names Chinese (see `lang_names_chinese`).
pub fn lang_is_chinese(lang: &str) -> (r: bool)
    ensures
        r == lang_names_chinese(lang@),
{
    let lower = to_chars(to_lowercase(lang).as_str());
    contains_str(&lower, "zh") || contains_str(&lower, "chinese")
}

/// Whether the text mentions `zh` in any case (see `mentions_zh`): the culture name on
/// Windows, `LANG` or the preferred languages on macOS.
pub fn text_mentions_zh(text: &str) -> (r: bool)
    ensures
        r == mentions_zh(text@),
{
    let lower = to_chars(to_lowercase(text).as_str());
    contains_str(&lower, "zh")
}

/// Whether the output of `chcp` shows the Chinese code page (see
/// `codepage_is_chinese`).
pub fn is_chinese_codepage(text: &str) -> (r: bool)
    ensures
        r == codepage_is_chinese(text@),
{
    let cs = to_chars(text);
    contains_str(&cs, "936")
}

/// The fonts tried on Windows, in order: the Chinese system fonts first in a Chinese
/// environment, then the Latin ones.
pub open spec fn windows_candidates(chinese: bool) -> Seq<(bool, Seq<char>)> {
    (if chinese {
        seq![
            (true, "Microsoft YaHei"@),
            (true, "SimHei"@),
            (true, "SimSun"@),
            (true, "KaiTi"@),
            (true, "FangSong"@),
        ]
    } else {
        Seq::empty()
    }) + seq![(false, "Segoe UI"@), (false, "Arial"@), (false, "Tahoma"@)]
}

/// The fonts tried on Windows, in order (see `windows_candidates`); the first that is
/// installed is used, `sans-serif` when none is.
pub fn windows_font_candidates(chinese: bool) -> (r: Vec<FontChoice>)
    ensures
        choices_view(r@) == windows_candidates(chinese),
{
    let mut out: Vec<FontChoice> = Vec::new();
    if chinese {
        out.push(FontChoice::Chinese(owned("Microsoft YaHei")));
        out.push(FontChoice::Chinese(owned("SimHei")));
        out.push(FontChoice::Chinese(owned("SimSun")));
        out.push(FontChoice::Chinese(owned("KaiTi")));
        out.push(FontChoice::Chinese(owned("FangSong")));
    }
    out.push(FontChoice::English(owned("Segoe UI")));
    out.push(FontChoice::English(owned("Arial")));
    out.push(FontChoice::English(owned("Tahoma")));
    assert(choices_view(out@) =~= windows_candidates(chinese));
    out
}

/// The files in the Windows font directory that hold a font.
pub open spec fn windows_files(name: Seq<char>) -> Seq<Seq<char>> {
    if name == "Microsoft YaHei"@ {
        seq!["msyh.ttc"@, "msyh.ttf"@, "msyhbd.ttc"@]
    } else if name == "SimHei"@ {
        seq!["simhei.ttf"@]
    } else if name == "SimSun"@ {
        seq!["simsun.ttc"@, "simsun.ttf"@]
    } else if name == "KaiTi"@ {
        seq!["simkai.ttf"@]
    } else if name == "FangSong"@ {
        seq!["simfang.ttf"@]
    } else if name == "Segoe UI"@ {
        seq!["segoeui.ttf"@, "segoeuib.ttf"@]
    } else if name == "Arial"@ {
        seq!["arial.ttf"@, "arialbd.ttf"@]
    } else if name == "Tahoma"@ {
        seq!["tahoma.ttf"@, "tahomabd.ttf"@]
    } else {
        seq![]
    }
}

/// The files in the Windows font directory that hold a font (see `windows_files`).
pub fn windows_font_files(name: &str) -> (r: Vec<&'static str>)
    ensures
        r@.map_values(|s: &'static str| s@) == windows_files(name@),
{
    let r: Vec<&'static str> = if str_eq(name, "Microsoft YaHei") {
        vec!["msyh.ttc", "msyh.ttf", "msyhbd.ttc"]
    } else if str_eq(name, "SimHei") {
        vec!["simhei.ttf"]
    } else if str_eq(name, "SimSun") {
        vec!["simsun.ttc", "simsun.ttf"]
    } else if str_eq(name, "KaiTi") {
        vec!["simkai.ttf"]
    } else if str_eq(name, "FangSong") {
        vec!["simfang.ttf"]
    } else if str_eq(name, "Segoe UI") {
        vec!["segoeui.ttf", "segoeuib.ttf"]
    } else if str_eq(name, "Arial") {
        vec!["arial.ttf", "arialbd.ttf"]
    } else if str_eq(name, "Tahoma") {
        vec!["tahoma.ttf", "tahomabd.ttf"]
    } else {
        vec![]
    };
    assert(r@.map_values(|s: &'static str| s@) =~= windows_files(name@));
    r
}

/// The fonts taken to be installed on Windows when none of their files is found.
pub open spec fn assumed_windows(name: Seq<char>) -> bool {
    name == "Microsoft YaHei"@ || name == "SimHei"@ || name == "Arial"@ || name == "Segoe UI"@
}

/// Whether a font is taken to be installed when none of its files is found (see
/// `assumed_windows`).
pub fn assumed_windows_font(name: &str) -> (r: bool)
    ensures
        r == assumed_windows(name@),
{
    str_eq(name, "Microsoft YaHei") || str_eq(name, "SimHei")
        || str_eq(name, "Arial") || str_eq(name, "Segoe UI")
}

/// The font used on macOS: PingFang SC in a Chinese environment, Helvetica Neue
/// otherwise.
pub fn macos_font_choice(chinese: bool) -> (r: FontChoice)
    ensures
        choice_view(r) == (if chinese {
            (true, "PingFang SC"@)
        } else {
            (false, "Helvetica Neue"@)
        }),
{
    if chinese {
        FontChoice::Chinese(owned("PingFang SC"))
    } else {
        FontChoice::English(owned("Helvetica Neue"))
    }
}

} // verus!
