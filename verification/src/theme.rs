//! The color themes by name. The colors themselves belong to the terminal
//! front end; this module decides which theme a configured name selects.

use vstd::prelude::*;
use crate::text::{chars_of, lower_ascii, lower_eq, lower_eq_vec, string_from};

verus! {

#[derive(Debug, Clone, Copy, PartialEq, Eq, Structural)]
pub enum ThemeKind {
    Default,
    TokyoNight,
    CatppuccinMocha,
    CatppuccinLatte,
    Dracula,
    GruvboxDark,
    Nord,
    SolarizedLight,
    RosePineDawn,
}

/// `s` with spaces and underscores turned into dashes.
pub open spec fn dashed(s: Seq<char>) -> Seq<char> {
    s.map_values(|c: char| if c == ' ' || c == '_' { '-' } else { c })
}

/// Whether the lower-cased, dashed name is one of `names`.
pub open spec fn names_any(s: Seq<char>, names: Seq<Seq<char>>) -> bool {
    exists|i: int| 0 <= i < names.len() && lower_eq(dashed(s), #[trigger] names[i])
}

/// The theme a name selects: the name is lower-cased and its spaces and
/// underscores read as dashes (the two steps commute: no other character
/// lower-cases to a space, an underscore or a dash), then compared with
/// each theme's names; an unknown name selects the default theme.
pub open spec fn theme_of(s: Seq<char>) -> ThemeKind {
    if names_any(s, seq!["tokyo-night"@, "tokyonight"@]) {
        ThemeKind::TokyoNight
    } else if names_any(s, seq!["catppuccin"@, "catppuccin-mocha"@]) {
        ThemeKind::CatppuccinMocha
    } else if names_any(s, seq!["catppuccin-latte"@, "latte"@]) {
        ThemeKind::CatppuccinLatte
    } else if names_any(s, seq!["dracula"@]) {
        ThemeKind::Dracula
    } else if names_any(s, seq!["gruvbox"@, "gruvbox-dark"@]) {
        ThemeKind::GruvboxDark
    } else if names_any(s, seq!["nord"@]) {
        ThemeKind::Nord
    } else if names_any(s, seq!["solarized"@, "solarized-light"@]) {
        ThemeKind::SolarizedLight
    } else if names_any(s, seq!["rose-pine"@, "rose-pine-dawn"@, "rosepine"@]) {
        ThemeKind::RosePineDawn
    } else {
        ThemeKind::Default
    }
}

fn dashed_vec(s: &Vec<char>) -> (r: Vec<char>)
    ensures
        r@ == dashed(s@),
{
    let mut r: Vec<char> = Vec::new();
    let mut i: usize = 0;
    while i < s.len()
        invariant
            i <= s.len(),
            r@ =~= dashed(s@.take(i as int)),
        decreases s.len() - i,
    {
        let c = s[i];
        r.push(if c == ' ' || c == '_' { '-' } else { c });
        assert(s@.take(i + 1) =~= s@.take(i as int).push(c));
        i += 1;
    }
    assert(s@.take(s.len() as int) =~= s@);
    r
}

fn matches_any(d: &Vec<char>, names: &Vec<Vec<char>>) -> (b: bool)
    ensures
        b == exists|i: int| 0 <= i < names@.len() && lower_eq(d@, #[trigger] names@[i]@),
{
    let mut i: usize = 0;
    while i < names.len()
        invariant
            i <= names.len(),
            forall|j: int| 0 <= j < i ==> !lower_eq(d@, #[trigger] names@[j]@),
        decreases names.len() - i,
    {
        if lower_eq_vec(d, &names[i]) {
            return true;
        }
        i += 1;
    }
    false
}

fn names_of(a: &str, b: &str) -> (r: Vec<Vec<char>>)
    ensures
        r@.len() == 2,
        r@[0]@ == a@,
        r@[1]@ == b@,
{
    let mut r: Vec<Vec<char>> = Vec::new();
    r.push(chars_of(a));
    r.push(chars_of(b));
    r
}

fn name_is(d: &Vec<char>, s: &Vec<char>, a: &str, b: &str) -> (r: bool)
    requires
        d@ == dashed(s@),
    ensures
        r == names_any(s@, seq![a@, b@]),
{
    let ghost names = seq![a@, b@];
    let v = names_of(a, b);
    let r = matches_any(d, &v);
    if r {
        proof {
            let i = choose|i: int| 0 <= i < v@.len() && lower_eq(d@, #[trigger] v@[i]@);
            assert(lower_eq(dashed(s@), names[i]));
        }
    } else {
        assert forall|i: int| 0 <= i < names.len() implies !lower_eq(dashed(s@), #[trigger] names[i]) by {
            assert(names[i] == v@[i]@);
        }
    }
    r
}

fn name_is_one(d: &Vec<char>, s: &Vec<char>, a: &str) -> (r: bool)
    requires
        d@ == dashed(s@),
    ensures
        r == names_any(s@, seq![a@]),
{
    let ghost names = seq![a@];
    let r = lower_eq_vec(d, &chars_of(a));
    if r {
        assert(lower_eq(dashed(s@), names[0]));
    }
    r
}

/// Resolve a theme by name from config. Falls back to Default on unknown names.
pub fn theme_kind(name: &str) -> (k: ThemeKind)
    ensures
        k == theme_of(name@),
{
    let s = chars_of(name);
    let d = dashed_vec(&s);
    if name_is(&d, &s, "tokyo-night", "tokyonight") {
        ThemeKind::TokyoNight
    } else if name_is(&d, &s, "catppuccin", "catppuccin-mocha") {
        ThemeKind::CatppuccinMocha
    } else if name_is(&d, &s, "catppuccin-latte", "latte") {
        ThemeKind::CatppuccinLatte
    } else if name_is_one(&d, &s, "dracula") {
        ThemeKind::Dracula
    } else if name_is(&d, &s, "gruvbox", "gruvbox-dark") {
        ThemeKind::GruvboxDark
    } else if name_is_one(&d, &s, "nord") {
        ThemeKind::Nord
    } else if name_is(&d, &s, "solarized", "solarized-light") {
        ThemeKind::SolarizedLight
    } else if rose_pine(&d, &s) {
        ThemeKind::RosePineDawn
    } else {
        ThemeKind::Default
    }
}

fn rose_pine(d: &Vec<char>, s: &Vec<char>) -> (r: bool)
    requires
        d@ == dashed(s@),
    ensures
        r == names_any(s@, seq!["rose-pine"@, "rose-pine-dawn"@, "rosepine"@]),
{
    let ghost names = seq!["rose-pine"@, "rose-pine-dawn"@, "rosepine"@];
    let mut v: Vec<Vec<char>> = Vec::new();
    v.push(chars_of("rose-pine"));
    v.push(chars_of("rose-pine-dawn"));
    v.push(chars_of("rosepine"));
    let r = matches_any(d, &v);
    if r {
        proof {
            let i = choose|i: int| 0 <= i < v@.len() && lower_eq(d@, #[trigger] v@[i]@);
            assert(lower_eq(dashed(s@), names[i]));
        }
    } else {
        assert forall|i: int| 0 <= i < names.len() implies !lower_eq(dashed(s@), #[trigger] names[i]) by {
            assert(names[i] == v@[i]@);
        }
    }
    r
}

impl ThemeKind {
    /// The theme's canonical name.
    pub open spec fn name_of(self) -> Seq<char> {
        match self {
            ThemeKind::Default => "default"@,
            ThemeKind::TokyoNight => "tokyo-night"@,
            ThemeKind::CatppuccinMocha => "catppuccin-mocha"@,
            ThemeKind::CatppuccinLatte => "catppuccin-latte"@,
            ThemeKind::Dracula => "dracula"@,
            ThemeKind::GruvboxDark => "gruvbox-dark"@,
            ThemeKind::Nord => "nord"@,
            ThemeKind::SolarizedLight => "solarized-light"@,
            ThemeKind::RosePineDawn => "rose-pine-dawn"@,
        }
    }

    pub fn name(&self) -> (r: String)
        ensures
            r@ == self.name_of(),
    {
        match self {
            ThemeKind::Default => string_from("default"),
            ThemeKind::TokyoNight => string_from("tokyo-night"),
            ThemeKind::CatppuccinMocha => string_from("catppuccin-mocha"),
            ThemeKind::CatppuccinLatte => string_from("catppuccin-latte"),
            ThemeKind::Dracula => string_from("dracula"),
            ThemeKind::GruvboxDark => string_from("gruvbox-dark"),
            ThemeKind::Nord => string_from("nord"),
            ThemeKind::SolarizedLight => string_from("solarized-light"),
            ThemeKind::RosePineDawn => string_from("rose-pine-dawn"),
        }
    }
}

proof fn lemma_differ(s: Seq<char>, t: Seq<char>, i: int)
    requires
        s.len() != t.len() || (0 <= i < s.len() && lower_ascii(s[i]) != t[i]),
    ensures
        !lower_eq(s, t),
{
}

/// Each theme's own name selects it, whatever the case of its letters.
pub proof fn lemma_theme_name_selects(k: ThemeKind)
    ensures
        theme_of(k.name_of()) == k,
{
    reveal_strlit("catppuccin");
    reveal_strlit("catppuccin-latte");
    reveal_strlit("catppuccin-mocha");
    reveal_strlit("default");
    reveal_strlit("dracula");
    reveal_strlit("gruvbox");
    reveal_strlit("gruvbox-dark");
    reveal_strlit("latte");
    reveal_strlit("nord");
    reveal_strlit("rose-pine");
    reveal_strlit("rose-pine-dawn");
    reveal_strlit("rosepine");
    reveal_strlit("solarized");
    reveal_strlit("solarized-light");
    reveal_strlit("tokyo-night");
    reveal_strlit("tokyonight");
    let n = k.name_of();
    assert(dashed(n) =~= n);
    assert(lower_eq(n, n));
    match k {
        ThemeKind::TokyoNight => {
            let names = seq!["tokyo-night"@, "tokyonight"@];
            assert(n == names[0]);
            assert(lower_eq(dashed(n), names[0]));
            assert(names_any(n, names));
        },
        ThemeKind::CatppuccinMocha => {
            lemma_differ(n, "tokyo-night"@, 0);
            lemma_differ(n, "tokyonight"@, 0);
        },
        ThemeKind::CatppuccinLatte => {
            lemma_differ(n, "tokyo-night"@, 0);
            lemma_differ(n, "tokyonight"@, 0);
            lemma_differ(n, "catppuccin"@, 0);
            lemma_differ(n, "catppuccin-mocha"@, 11);
        },
        ThemeKind::Dracula => {
            lemma_differ(n, "tokyo-night"@, 0);
            lemma_differ(n, "tokyonight"@, 0);
            lemma_differ(n, "catppuccin"@, 0);
            lemma_differ(n, "catppuccin-mocha"@, 0);
            lemma_differ(n, "catppuccin-latte"@, 0);
            lemma_differ(n, "latte"@, 0);
            let names = seq!["dracula"@];
            assert(n == names[0]);
            assert(names_any(n, names));
        },
        ThemeKind::GruvboxDark => {
            lemma_differ(n, "tokyo-night"@, 0);
            lemma_differ(n, "tokyonight"@, 0);
            lemma_differ(n, "catppuccin"@, 0);
            lemma_differ(n, "catppuccin-mocha"@, 0);
            lemma_differ(n, "catppuccin-latte"@, 0);
            lemma_differ(n, "latte"@, 0);
            lemma_differ(n, "dracula"@, 0);
        },
        ThemeKind::Nord => {
            lemma_differ(n, "tokyo-night"@, 0);
            lemma_differ(n, "tokyonight"@, 0);
            lemma_differ(n, "catppuccin"@, 0);
            lemma_differ(n, "catppuccin-mocha"@, 0);
            lemma_differ(n, "catppuccin-latte"@, 0);
            lemma_differ(n, "latte"@, 0);
            lemma_differ(n, "dracula"@, 0);
            lemma_differ(n, "gruvbox"@, 0);
            lemma_differ(n, "gruvbox-dark"@, 0);
            let names = seq!["nord"@];
            assert(n == names[0]);
            assert(names_any(n, names));
        },
        ThemeKind::SolarizedLight => {
            lemma_differ(n, "tokyo-night"@, 0);
            lemma_differ(n, "tokyonight"@, 0);
            lemma_differ(n, "catppuccin"@, 0);
            lemma_differ(n, "catppuccin-mocha"@, 0);
            lemma_differ(n, "catppuccin-latte"@, 0);
            lemma_differ(n, "latte"@, 0);
            lemma_differ(n, "dracula"@, 0);
            lemma_differ(n, "gruvbox"@, 0);
            lemma_differ(n, "gruvbox-dark"@, 0);
            lemma_differ(n, "nord"@, 0);
        },
        ThemeKind::RosePineDawn => {
            lemma_differ(n, "tokyo-night"@, 0);
            lemma_differ(n, "tokyonight"@, 0);
            lemma_differ(n, "catppuccin"@, 0);
            lemma_differ(n, "catppuccin-mocha"@, 0);
            lemma_differ(n, "catppuccin-latte"@, 0);
            lemma_differ(n, "latte"@, 0);
            lemma_differ(n, "dracula"@, 0);
            lemma_differ(n, "gruvbox"@, 0);
            lemma_differ(n, "gruvbox-dark"@, 0);
            lemma_differ(n, "nord"@, 0);
            lemma_differ(n, "solarized"@, 0);
            lemma_differ(n, "solarized-light"@, 0);
        },
        ThemeKind::Default => {
            lemma_differ(n, "tokyo-night"@, 0);
            lemma_differ(n, "tokyonight"@, 0);
            lemma_differ(n, "catppuccin"@, 0);
            lemma_differ(n, "catppuccin-mocha"@, 0);
            lemma_differ(n, "catppuccin-latte"@, 0);
            lemma_differ(n, "latte"@, 0);
            lemma_differ(n, "dracula"@, 1);
            lemma_differ(n, "gruvbox"@, 0);
            lemma_differ(n, "gruvbox-dark"@, 0);
            lemma_differ(n, "nord"@, 0);
            lemma_differ(n, "solarized"@, 0);
            lemma_differ(n, "solarized-light"@, 0);
            lemma_differ(n, "rose-pine"@, 0);
            lemma_differ(n, "rose-pine-dawn"@, 0);
            lemma_differ(n, "rosepine"@, 0);
        },
    }
}

} // verus!
