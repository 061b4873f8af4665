//! Theme names for syntax highlighting: the kebab-case names accepted in
//! the configuration, the arborium themes they stand for, and the CSS of
//! those themes.

use vstd::prelude::*;
use crate::text::{
    append_chars, append_str, chars_to_string, eq_str, join, join_chars, str_chars, to_lowercase,
    lower_text,
};

verus! {

/// The theme names accepted in the configuration (kebab-case).
pub open spec fn theme_names() -> Seq<Seq<char>> {
    seq![
        "alabaster"@,
        "ayu-dark"@,
        "ayu-light"@,
        "catppuccin-frappe"@,
        "catppuccin-latte"@,
        "catppuccin-macchiato"@,
        "catppuccin-mocha"@,
        "cobalt2"@,
        "dayfox"@,
        "desert256"@,
        "dracula"@,
        "ef-melissa-dark"@,
        "github-dark"@,
        "github-light"@,
        "gruvbox-dark"@,
        "gruvbox-light"@,
        "kanagawa-dragon"@,
        "light-owl"@,
        "lucius-light"@,
        "melange-dark"@,
        "melange-light"@,
        "monokai"@,
        "nord"@,
        "one-dark"@,
        "rose-pine-moon"@,
        "rustdoc-ayu"@,
        "rustdoc-dark"@,
        "rustdoc-light"@,
        "solarized-dark"@,
        "solarized-light"@,
        "tokyo-night"@,
        "zenburn"@,
    ]
}

/// The arborium name of each accepted theme, in the same order.
pub open spec fn arborium_theme_names() -> Seq<Seq<char>> {
    seq![
        "alabaster"@,
        "ayu_dark"@,
        "ayu_light"@,
        "catppuccin_frappe"@,
        "catppuccin_latte"@,
        "catppuccin_macchiato"@,
        "catppuccin_mocha"@,
        "cobalt2"@,
        "dayfox"@,
        "desert256"@,
        "dracula"@,
        "ef_melissa_dark"@,
        "github_dark"@,
        "github_light"@,
        "gruvbox_dark"@,
        "gruvbox_light"@,
        "kanagawa_dragon"@,
        "light_owl"@,
        "lucius_light"@,
        "melange_dark"@,
        "melange_light"@,
        "monokai"@,
        "nord"@,
        "one_dark"@,
        "rose_pine_moon"@,
        "rustdoc_ayu"@,
        "rustdoc_dark"@,
        "rustdoc_light"@,
        "solarized_dark"@,
        "solarized_light"@,
        "tokyo_night"@,
        "zenburn"@,
    ]
}

/// All available theme names (kebab-case, for configuration files).
pub fn list_available_themes() -> (r: Vec<&'static str>)
    ensures
        r@.map_values(|s: &str| s@) == theme_names(),
{
    let v: Vec<&'static str> = vec![
        "alabaster",
        "ayu-dark",
        "ayu-light",
        "catppuccin-frappe",
        "catppuccin-latte",
        "catppuccin-macchiato",
        "catppuccin-mocha",
        "cobalt2",
        "dayfox",
        "desert256",
        "dracula",
        "ef-melissa-dark",
        "github-dark",
        "github-light",
        "gruvbox-dark",
        "gruvbox-light",
        "kanagawa-dragon",
        "light-owl",
        "lucius-light",
        "melange-dark",
        "melange-light",
        "monokai",
        "nord",
        "one-dark",
        "rose-pine-moon",
        "rustdoc-ayu",
        "rustdoc-dark",
        "rustdoc-light",
        "solarized-dark",
        "solarized-light",
        "tokyo-night",
        "zenburn",
    ];
    assert(v@.map_values(|s: &str| s@) =~= theme_names());
    v
}

fn arborium_names() -> (r: Vec<&'static str>)
    ensures
        r@.map_values(|s: &str| s@) == arborium_theme_names(),
{
    let v: Vec<&'static str> = vec![
        "alabaster",
        "ayu_dark",
        "ayu_light",
        "catppuccin_frappe",
        "catppuccin_latte",
        "catppuccin_macchiato",
        "catppuccin_mocha",
        "cobalt2",
        "dayfox",
        "desert256",
        "dracula",
        "ef_melissa_dark",
        "github_dark",
        "github_light",
        "gruvbox_dark",
        "gruvbox_light",
        "kanagawa_dragon",
        "light_owl",
        "lucius_light",
        "melange_dark",
        "melange_light",
        "monokai",
        "nord",
        "one_dark",
        "rose_pine_moon",
        "rustdoc_ayu",
        "rustdoc_dark",
        "rustdoc_light",
        "solarized_dark",
        "solarized_light",
        "tokyo_night",
        "zenburn",
    ];
    assert(v@.map_values(|s: &str| s@) =~= arborium_theme_names());
    v
}

/// Position of the first accepted name equal to `name`, if any.
pub open spec fn theme_index(name: Seq<char>) -> Option<int> {
    if exists|i: int| 0 <= i < 32 && theme_names()[i] == name && forall|j: int| 0 <= j < i ==> theme_names()[j] != name {
        Some(choose|i: int| 0 <= i < 32 && theme_names()[i] == name && forall|j: int| 0 <= j < i ==> theme_names()[j] != name)
    } else {
        None
    }
}

/// The error for an unknown theme: the name given and the accepted ones.
pub open spec fn unknown_theme_message(input: Seq<char>) -> Seq<char> {
    "Unknown theme '"@ + input + "'. Available themes:\n  "@ + join(theme_names(), "\n  "@)
}

/// What resolving `input` gives: the arborium name of the theme it names
/// (ignoring case), or the error listing the accepted names.
pub open spec fn resolved_theme(input: Seq<char>) -> Result<Seq<char>, Seq<char>> {
    match theme_index(lower_text(input)) {
        Some(i) => Ok(arborium_theme_names()[i]),
        None => Err(unknown_theme_message(input)),
    }
}

/// Position of the theme that `input` names (ignoring case), or the error
/// listing the accepted names.
fn resolve_index(input: &str) -> (r: Result<usize, String>)
    ensures
        match r {
            Ok(i) => theme_index(lower_text(input@)) == Some(i as int) && i < 32,
            Err(e) => theme_index(lower_text(input@)) is None && e@ == unknown_theme_message(
                input@,
            ),
        },
{
    let lower = to_lowercase(input);
    let l = str_chars(lower.as_str());
    let kebab = list_available_themes();
    let ghost names = theme_names();
    assert(names.len() == 32);
    let mut i: usize = 0;
    while i < kebab.len()
        invariant
            i <= kebab.len(),
            kebab@.map_values(|s: &str| s@) == names,
            kebab@.len() == 32,
            names == theme_names(),
            l@ == lower_text(input@),
            forall|j: int| 0 <= j < i ==> names[j] != l@,
        decreases kebab.len() - i,
    {
        assert(names[i as int] == kebab@[i as int]@);
        if eq_str(&l, kebab[i]) {
            proof {
                assert(0 <= i < 32 && theme_names()[i as int] == l@ && forall|j: int|
                    0 <= j < i ==> theme_names()[j] != l@);
                let k = choose|k: int|
                    0 <= k < 32 && theme_names()[k] == l@ && forall|j: int|
                        0 <= j < k ==> theme_names()[j] != l@;
                if k < i {
                    assert(names[k] != l@);
                } else if k > i {
                    assert(theme_names()[i as int] != l@);
                }
            }
            return Ok(i);
        }
        i += 1;
    }
    let mut parts: Vec<Vec<char>> = Vec::new();
    let mut k: usize = 0;
    while k < kebab.len()
        invariant
            k <= kebab.len(),
            kebab@.map_values(|s: &str| s@) == names,
            parts@.map_values(|p: Vec<char>| p@) == names.take(k as int),
        decreases kebab.len() - k,
    {
        let ghost before = parts@;
        parts.push(str_chars(kebab[k]));
        proof {
            assert(names[k as int] == kebab@[k as int]@);
            assert(parts@.map_values(|p: Vec<char>| p@) =~= before.map_values(|p: Vec<char>| p@).push(
                names[k as int],
            ));
            assert(names.take(k + 1) =~= names.take(k as int).push(names[k as int]));
        }
        k += 1;
    }
    assert(names.take(names.len() as int) =~= names);
    let sep = str_chars("\n  ");
    let listing = join_chars(&parts, &sep);
    let mut text = str_chars("Unknown theme '");
    append_str(&mut text, input);
    append_str(&mut text, "'. Available themes:\n  ");
    append_chars(&mut text, &listing);
    Err(chars_to_string(&text))
}

/// Resolves a theme name from kebab-case to its arborium name; an unknown
/// name gives an error listing the available themes.
pub fn resolve_theme_name(input: &str) -> (r: Result<&'static str, String>)
    ensures
        match r {
            Ok(t) => resolved_theme(input@) == Ok::<Seq<char>, Seq<char>>(t@),
            Err(e) => resolved_theme(input@) == Err::<Seq<char>, Seq<char>>(e@),
        },
{
    match resolve_index(input) {
        Ok(i) => {
            let snake = arborium_names();
            assert(arborium_theme_names().len() == 32);
            assert(snake@.map_values(|s: &str| s@)[i as int] == snake@[i as int]@);
            Ok(snake[i])
        },
        Err(e) => Err(e),
    }
}

proof fn lemma_first_equal_exists(s: Seq<Seq<char>>, n: Seq<char>, i: int)
    requires
        0 <= i < s.len(),
        s[i] == n,
    ensures
        exists|k: int| 0 <= k <= i && s[k] == n && forall|j: int| 0 <= j < k ==> s[j] != n,
    decreases i,
{
    if exists|j: int| 0 <= j < i && s[j] == n {
        let j = choose|j: int| 0 <= j < i && s[j] == n;
        lemma_first_equal_exists(s, n, j);
    } else {
        assert(0 <= i <= i && s[i] == n && forall|j: int| 0 <= j < i ==> s[j] != n);
    }
}

/// Every listed theme name is an accepted one: resolving it succeeds.
pub proof fn lemma_listed_names_resolve(i: int)
    requires
        0 <= i < theme_names().len(),
    ensures
        theme_index(theme_names()[i]) is Some,
{
    lemma_first_equal_exists(theme_names(), theme_names()[i], i);
}

/// A name resolves exactly when, lower-cased, it is one of the listed
/// theme names; otherwise the error names the input and every listed theme.
pub proof fn lemma_resolves_iff_listed(input: Seq<char>)
    ensures
        resolved_theme(input) is Ok <==> theme_names().contains(lower_text(input)),
        resolved_theme(input) is Err ==> resolved_theme(input) == Err::<Seq<char>, Seq<char>>(
            unknown_theme_message(input),
        ),
{
    let n = lower_text(input);
    assert(theme_names().len() == 32);
    if theme_names().contains(n) {
        let i = choose|i: int| 0 <= i < theme_names().len() && theme_names()[i] == n;
        lemma_first_equal_exists(theme_names(), n, i);
        let k = choose|k: int| 0 <= k <= i && theme_names()[k] == n && forall|j: int| 0 <= j < k ==> theme_names()[j] != n;
        assert(0 <= k < 32 && theme_names()[k] == n && forall|j: int| 0 <= j < k ==> theme_names()[j] != n);
    }
    if theme_index(n) is Some {
        let i = theme_index(n).unwrap();
        assert(theme_names()[i] == n);
    }
}

/// `s` with every `-` replaced by `_`.
pub open spec fn dashes_to_underscores(s: Seq<char>) -> Seq<char> {
    s.map_values(|c: char| if c == '-' { '_' } else { c })
}

/// Each theme's arborium name is its listed name with `-` replaced by `_`.
pub proof fn lemma_arborium_names_from_listed()
    ensures
        forall|i: int| 0 <= i < 32 ==> #[trigger] arborium_theme_names()[i]
            == dashes_to_underscores(theme_names()[i]),
{
    reveal_strlit("alabaster");
    reveal_strlit("ayu-dark");
    reveal_strlit("ayu-light");
    reveal_strlit("catppuccin-frappe");
    reveal_strlit("catppuccin-latte");
    reveal_strlit("catppuccin-macchiato");
    reveal_strlit("catppuccin-mocha");
    reveal_strlit("cobalt2");
    reveal_strlit("dayfox");
    reveal_strlit("desert256");
    reveal_strlit("dracula");
    reveal_strlit("ef-melissa-dark");
    reveal_strlit("github-dark");
    reveal_strlit("github-light");
    reveal_strlit("gruvbox-dark");
    reveal_strlit("gruvbox-light");
    reveal_strlit("kanagawa-dragon");
    reveal_strlit("light-owl");
    reveal_strlit("lucius-light");
    reveal_strlit("melange-dark");
    reveal_strlit("melange-light");
    reveal_strlit("monokai");
    reveal_strlit("nord");
    reveal_strlit("one-dark");
    reveal_strlit("rose-pine-moon");
    reveal_strlit("rustdoc-ayu");
    reveal_strlit("rustdoc-dark");
    reveal_strlit("rustdoc-light");
    reveal_strlit("solarized-dark");
    reveal_strlit("solarized-light");
    reveal_strlit("tokyo-night");
    reveal_strlit("zenburn");
    reveal_strlit("ayu_dark");
    reveal_strlit("ayu_light");
    reveal_strlit("catppuccin_frappe");
    reveal_strlit("catppuccin_latte");
    reveal_strlit("catppuccin_macchiato");
    reveal_strlit("catppuccin_mocha");
    reveal_strlit("ef_melissa_dark");
    reveal_strlit("github_dark");
    reveal_strlit("github_light");
    reveal_strlit("gruvbox_dark");
    reveal_strlit("gruvbox_light");
    reveal_strlit("kanagawa_dragon");
    reveal_strlit("light_owl");
    reveal_strlit("lucius_light");
    reveal_strlit("melange_dark");
    reveal_strlit("melange_light");
    reveal_strlit("one_dark");
    reveal_strlit("rose_pine_moon");
    reveal_strlit("rustdoc_ayu");
    reveal_strlit("rustdoc_dark");
    reveal_strlit("rustdoc_light");
    reveal_strlit("solarized_dark");
    reveal_strlit("solarized_light");
    reveal_strlit("tokyo_night");
    assert(arborium_theme_names()[0] =~= dashes_to_underscores(theme_names()[0]));
    assert(arborium_theme_names()[1] =~= dashes_to_underscores(theme_names()[1]));
    assert(arborium_theme_names()[2] =~= dashes_to_underscores(theme_names()[2]));
    assert(arborium_theme_names()[3] =~= dashes_to_underscores(theme_names()[3]));
    assert(arborium_theme_names()[4] =~= dashes_to_underscores(theme_names()[4]));
    assert(arborium_theme_names()[5] =~= dashes_to_underscores(theme_names()[5]));
    assert(arborium_theme_names()[6] =~= dashes_to_underscores(theme_names()[6]));
    assert(arborium_theme_names()[7] =~= dashes_to_underscores(theme_names()[7]));
    assert(arborium_theme_names()[8] =~= dashes_to_underscores(theme_names()[8]));
    assert(arborium_theme_names()[9] =~= dashes_to_underscores(theme_names()[9]));
    assert(arborium_theme_names()[10] =~= dashes_to_underscores(theme_names()[10]));
    assert(arborium_theme_names()[11] =~= dashes_to_underscores(theme_names()[11]));
    assert(arborium_theme_names()[12] =~= dashes_to_underscores(theme_names()[12]));
    assert(arborium_theme_names()[13] =~= dashes_to_underscores(theme_names()[13]));
    assert(arborium_theme_names()[14] =~= dashes_to_underscores(theme_names()[14]));
    assert(arborium_theme_names()[15] =~= dashes_to_underscores(theme_names()[15]));
    assert(arborium_theme_names()[16] =~= dashes_to_underscores(theme_names()[16]));
    assert(arborium_theme_names()[17] =~= dashes_to_underscores(theme_names()[17]));
    assert(arborium_theme_names()[18] =~= dashes_to_underscores(theme_names()[18]));
    assert(arborium_theme_names()[19] =~= dashes_to_underscores(theme_names()[19]));
    assert(arborium_theme_names()[20] =~= dashes_to_underscores(theme_names()[20]));
    assert(arborium_theme_names()[21] =~= dashes_to_underscores(theme_names()[21]));
    assert(arborium_theme_names()[22] =~= dashes_to_underscores(theme_names()[22]));
    assert(arborium_theme_names()[23] =~= dashes_to_underscores(theme_names()[23]));
    assert(arborium_theme_names()[24] =~= dashes_to_underscores(theme_names()[24]));
    assert(arborium_theme_names()[25] =~= dashes_to_underscores(theme_names()[25]));
    assert(arborium_theme_names()[26] =~= dashes_to_underscores(theme_names()[26]));
    assert(arborium_theme_names()[27] =~= dashes_to_underscores(theme_names()[27]));
    assert(arborium_theme_names()[28] =~= dashes_to_underscores(theme_names()[28]));
    assert(arborium_theme_names()[29] =~= dashes_to_underscores(theme_names()[29]));
    assert(arborium_theme_names()[30] =~= dashes_to_underscores(theme_names()[30]));
    assert(arborium_theme_names()[31] =~= dashes_to_underscores(theme_names()[31]));
}

/// A name that resolves gives the lower-cased name with `-` replaced by
/// `_`: so `Tokyo-Night` gives `tokyo_night`.
pub proof fn lemma_resolved_name_shape(input: Seq<char>)
    ensures
        resolved_theme(input) is Ok ==> resolved_theme(input) == Ok::<Seq<char>, Seq<char>>(
            dashes_to_underscores(lower_text(input)),
        ),
{
    lemma_arborium_names_from_listed();
    let n = lower_text(input);
    if theme_index(n) is Some {
        let i = theme_index(n).unwrap();
        assert(theme_names()[i] == n);
        assert(arborium_theme_names()[i] == dashes_to_underscores(theme_names()[i]));
    }
}

// ---------------------------------------------------------------------------
// Theme stylesheets
// ---------------------------------------------------------------------------

/// The CSS that `to_css("")` gives for the theme at position `index` of
/// `arborium_theme::theme::builtin::all()`.
pub uninterp spec fn builtin_theme_css(index: nat) -> Seq<char>;

/// The CSS of the built-in arborium theme at position `index` of
/// `arborium_theme::theme::builtin::all()` (33 themes in this version), with
/// an empty selector prefix. The contract only names the result: the theme
/// data and its rendering take pages, and depend on `index` alone.
#[verifier::external_body]
fn builtin_css(index: usize) -> (r: String)
    requires
        index < 33,
    ensures
        r@ == builtin_theme_css(index as nat),
{
    arborium_theme::theme::builtin::all()[index].to_css("")
}

/// Position in `builtin::all()` of the accepted theme at position `i`
/// (`builtin::all()` also holds `evergarden_fall`, after
/// `ef_melissa_dark`).
pub open spec fn builtin_position(i: int) -> int {
    if i < 12 {
        i
    } else {
        i + 1
    }
}

/// The CSS for a theme name (resolved as [`resolve_theme_name`] does).
pub open spec fn theme_css(input: Seq<char>) -> Result<Seq<char>, Seq<char>> {
    match theme_index(lower_text(input)) {
        Some(i) => Ok(builtin_theme_css(builtin_position(i) as nat)),
        None => Err(unknown_theme_message(input)),
    }
}

/// Generates the highlighting CSS of a theme, or the error for an unknown
/// name.
pub fn generate_theme_css(theme_name: &str) -> (r: Result<String, String>)
    ensures
        match r {
            Ok(css) => theme_css(theme_name@) == Ok::<Seq<char>, Seq<char>>(css@),
            Err(e) => theme_css(theme_name@) == Err::<Seq<char>, Seq<char>>(e@),
        },
{
    match resolve_index(theme_name) {
        Ok(i) => {
            let pos: usize = if i < 12 {
                i
            } else {
                i + 1
            };
            Ok(builtin_css(pos))
        },
        Err(e) => Err(e),
    }
}

} // verus!
