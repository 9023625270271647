use vstd::prelude::*;

verus! {

/// The visual themes, chosen by name.
#[derive(Clone, Copy, Debug, PartialEq, Eq, Structural)]
pub enum Theme {
    Default,
    Gruvbox,
    Nord,
    Dracula,
    SolarizedDark,
    Monokai,
}

/// What `str::to_lowercase` returns for a text.
pub uninterp spec fn lower_of(s: Seq<char>) -> Seq<char>;

/// Relies on `str::to_lowercase`: the result depends on the text alone.
#[verifier::external_body]
fn lowercase(s: &str) -> (r: String)
    ensures
        r@ == lower_of(s@),
{
    s.to_lowercase()
}

/// The theme a lower-case name stands for; unknown names give the default.
pub open spec fn theme_named(lower: Seq<char>) -> Theme {
    if lower == "gruvbox"@ {
        Theme::Gruvbox
    } else if lower == "nord"@ {
        Theme::Nord
    } else if lower == "dracula"@ {
        Theme::Dracula
    } else if lower == "solarized-dark"@ || lower == "solarized"@ {
        Theme::SolarizedDark
    } else if lower == "monokai"@ {
        Theme::Monokai
    } else {
        Theme::Default
    }
}

fn same_text(a: &str, b: &str) -> (r: bool)
    ensures
        r == (a@ == b@),
{
    let x = crate::text::chars_of(a);
    let y = crate::text::chars_of(b);
    if x.len() != y.len() {
        return false;
    }
    let mut i: usize = 0;
    while i < x.len()
        invariant
            x@ == a@,
            y@ == b@,
            x@.len() == y@.len(),
            i <= x@.len(),
            forall|j: int| 0 <= j < i ==> x@[j] == y@[j],
        decreases x@.len() - i,
    {
        if x[i] != y[i] {
            return false;
        }
        i = i + 1;
    }
    assert(x@ =~= y@);
    true
}

/// The theme of an already lower-case name.
pub fn theme_from_lowercase(lower: &str) -> (r: Theme)
    ensures
        r == theme_named(lower@),
{
    if same_text(lower, "gruvbox") {
        Theme::Gruvbox
    } else if same_text(lower, "nord") {
        Theme::Nord
    } else if same_text(lower, "dracula") {
        Theme::Dracula
    } else if same_text(lower, "solarized-dark") || same_text(lower, "solarized") {
        Theme::SolarizedDark
    } else if same_text(lower, "monokai") {
        Theme::Monokai
    } else {
        Theme::Default
    }
}

impl Theme {
    pub fn default_theme() -> (r: Theme)
        ensures
            r == Theme::Default,
    {
        Theme::Default
    }

    pub fn gruvbox() -> (r: Theme)
        ensures
            r == Theme::Gruvbox,
    {
        Theme::Gruvbox
    }

    pub fn nord() -> (r: Theme)
        ensures
            r == Theme::Nord,
    {
        Theme::Nord
    }

    pub fn dracula() -> (r: Theme)
        ensures
            r == Theme::Dracula,
    {
        Theme::Dracula
    }

    pub fn solarized_dark() -> (r: Theme)
        ensures
            r == Theme::SolarizedDark,
    {
        Theme::SolarizedDark
    }

    pub fn monokai() -> (r: Theme)
        ensures
            r == Theme::Monokai,
    {
        Theme::Monokai
    }

    /// The theme a name stands for, ignoring case; unknown names give the
    /// default theme.
    pub fn get_by_name(name: &str) -> (r: Theme)
        ensures
            r == theme_named(lower_of(name@)),
    {
        let lower = lowercase(name);
        theme_from_lowercase(lower.as_str())
    }

    /// The names under which the themes are offered.
    pub fn available_themes() -> (r: Vec<&'static str>)
        ensures
            r@.len() == 6,
            r@[0]@ == "default"@,
            r@[1]@ == "gruvbox"@,
            r@[2]@ == "nord"@,
            r@[3]@ == "dracula"@,
            r@[4]@ == "solarized-dark"@,
            r@[5]@ == "monokai"@,
    {
        let mut v: Vec<&'static str> = Vec::new();
        v.push("default");
        v.push("gruvbox");
        v.push("nord");
        v.push("dracula");
        v.push("solarized-dark");
        v.push("monokai");
        v
    }
}

} // verus!
