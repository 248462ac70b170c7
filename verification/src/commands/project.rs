//! `pybun init`: the package name derived from a project name, and the text
//! of the files a new project starts with.

use vstd::prelude::*;
use crate::text::{
    all_ascii, ascii_lower, char_is_ascii_alnum, char_is_digit, chars_of, dec, dec_chars, is_ascii_alnum,
    is_digit, string_of, to_lowercase,
};

verus! {

/// Spaces and hyphens become underscores.
pub open spec fn underscore_separator(c: char) -> char {
    if c == ' ' || c == '-' {
        '_'
    } else {
        c
    }
}

/// A character that a package name keeps.
pub open spec fn name_char(c: char) -> bool {
    is_ascii_alnum(c) || c == '_'
}

/// The characters of `name` that a package name keeps, spaces and hyphens
/// turned into underscores, lower-cased.
pub open spec fn sanitized_body(name: Seq<char>) -> Seq<char> {
    name.map_values(|c: char| underscore_separator(c)).filter(|c: char| name_char(c)).map_values(
        |c: char| ascii_lower(c),
    )
}

/// The importable package name for a project name: [`sanitized_body`], with
/// a leading underscore when it would start with a digit.
pub open spec fn sanitized_name(name: Seq<char>) -> Seq<char> {
    let b = sanitized_body(name);
    if b.len() > 0 && is_digit(b[0]) {
        seq!['_'] + b
    } else {
        b
    }
}

/// Turn a project name into an importable package name.
pub fn sanitize_project_name(name: &str) -> (r: String)
    ensures
        r@ == sanitized_name(name@),
{
    let s = chars_of(name);
    let ghost mapped = name@.map_values(|c: char| underscore_separator(c));
    let ghost keep = |c: char| name_char(c);
    let mut kept: Vec<char> = Vec::new();
    let mut i: usize = 0;
    proof {
        reveal(Seq::filter);
        assert(mapped.take(0) =~= Seq::<char>::empty());
    }
    while i < s.len()
        invariant
            0 <= i <= s.len(),
            s@ == name@,
            mapped == name@.map_values(|c: char| underscore_separator(c)),
            keep == (|c: char| name_char(c)),
            kept@ == mapped.take(i as int).filter(keep),
            forall|k: int| 0 <= k < kept@.len() ==> name_char(#[trigger] kept@[k]),
        decreases s.len() - i,
    {
        let c = if s[i] == ' ' || s[i] == '-' {
            '_'
        } else {
            s[i]
        };
        assert(c == mapped[i as int]);
        assert(mapped.take(i + 1).drop_last() =~= mapped.take(i as int));
        proof {
            reveal(Seq::filter);
        }
        if char_is_ascii_alnum(c) || c == '_' {
            kept.push(c);
        }
        i = i + 1;
    }
    assert(mapped.take(i as int) =~= mapped);
    assert(all_ascii(kept@)) by {
        assert forall|k: int| 0 <= k < kept@.len() implies (kept@[k] as u32) < 128 by {
            assert(name_char(kept@[k]));
        }
    }
    let joined = string_of(kept.as_slice());
    let lower = to_lowercase(joined.as_str());
    let l = chars_of(lower.as_str());
    assert(l@ =~= sanitized_body(name@));
    // Every character left is ASCII, where `char::is_numeric` holds exactly
    // of the ASCII digits.
    if l.len() > 0 && char_is_digit(l[0]) {
        proof {
            reveal_strlit("_");
        }
        String::from_str("_").concat(lower.as_str())
    } else {
        lower
    }
}

/// The package name of a new project in a directory named `dir_name`: the
/// sanitized directory name, or `my_project` when there is none or it
/// sanitizes to nothing.
pub open spec fn default_name(dir_name: Option<Seq<char>>) -> Seq<char> {
    match dir_name {
        Some(d) => if sanitized_name(d).len() > 0 {
            sanitized_name(d)
        } else {
            "my_project"@
        },
        None => "my_project"@,
    }
}

/// The project name `pybun init` proposes for the current directory.
pub fn default_project_name(dir_name: Option<&str>) -> (r: String)
    ensures
        r@ == default_name(
            match dir_name {
                Some(d) => Some(d@),
                None => None,
            },
        ),
{
    match dir_name {
        Some(d) => {
            let s = sanitize_project_name(d);
            if !s.as_str().is_empty() {
                s
            } else {
                String::from_str("my_project")
            }
        },
        None => String::from_str("my_project"),
    }
}

/// The line `key = "value"` of a TOML table, or nothing.
pub open spec fn opt_line(prefix: Seq<char>, value: Option<Seq<char>>, suffix: Seq<char>) -> Seq<char> {
    match value {
        Some(v) => prefix + v + suffix,
        None => Seq::empty(),
    }
}

/// The `pyproject.toml` of a new project.
pub open spec fn pyproject_text(
    name: Seq<char>,
    description: Option<Seq<char>>,
    python: Option<Seq<char>>,
    author: Option<Seq<char>>,
) -> Seq<char> {
    "[project]\n"@ + "name = \""@ + name + "\"\n"@ + "version = \"0.1.0\"\n"@ + opt_line(
        "description = \""@,
        description,
        "\"\n"@,
    ) + opt_line("requires-python = \">="@, python, "\"\n"@) + opt_line(
        "authors = [{ name = \""@,
        author,
        "\" }]\n"@,
    ) + "dependencies = []\n"@ + "\n[build-system]\n"@ + "requires = [\"hatchling\"]\n"@
        + "build-backend = \"hatchling.build\"\n"@
}

fn push_opt_line(text: String, prefix: &str, value: Option<&str>, suffix: &str) -> (r: String)
    ensures
        r@ == text@ + opt_line(
            prefix@,
            match value {
                Some(v) => Some(v@),
                None => None,
            },
            suffix@,
        ),
{
    match value {
        Some(v) => {
            let r = text.concat(prefix).concat(v).concat(suffix);
            r
        },
        None => {
            assert(text@ + Seq::<char>::empty() =~= text@);
            text
        },
    }
}

/// Build the `pyproject.toml` of a new project.
pub fn render_pyproject(name: &str, description: Option<&str>, python: Option<&str>, author: Option<&str>) -> (r: String)
    ensures
        r@ == pyproject_text(
            name@,
            match description {
                Some(v) => Some(v@),
                None => None,
            },
            match python {
                Some(v) => Some(v@),
                None => None,
            },
            match author {
                Some(v) => Some(v@),
                None => None,
            },
        ),
{
    let t = String::from_str("[project]\n").concat("name = \"").concat(name).concat("\"\n").concat(
        "version = \"0.1.0\"\n",
    );
    let t = push_opt_line(t, "description = \"", description, "\"\n");
    let t = push_opt_line(t, "requires-python = \">=", python, "\"\n");
    let t = push_opt_line(t, "authors = [{ name = \"", author, "\" }]\n");
    let t = t.concat("dependencies = []\n").concat("\n[build-system]\n").concat(
        "requires = [\"hatchling\"]\n",
    ).concat("build-backend = \"hatchling.build\"\n");
    t
}

/// The `README.md` of a new project.
pub fn render_readme(name: &str) -> (r: String)
    ensures
        r@ == "# "@ + name@ + "\n\nA Python project.\n"@,
{
    String::from_str("# ").concat(name).concat("\n\nA Python project.\n")
}

/// The summary line of `pybun init`.
pub fn init_summary(name: &str, created: usize, skipped: usize) -> (r: String)
    ensures
        r@ == "Initialized project '"@ + name@ + "' with "@ + dec(created as nat) + " files ("@ + dec(
            skipped as nat,
        ) + " skipped)"@,
{
    let c = dec_chars(created as u128);
    let s = dec_chars(skipped as u128);
    String::from_str("Initialized project '").concat(name).concat("' with ").concat(
        string_of(c.as_slice()).as_str(),
    ).concat(" files (").concat(string_of(s.as_slice()).as_str()).concat(" skipped)")
}

/// An importable package name as `pybun init` makes them: lower-case ASCII
/// letters, digits and underscores, not starting with a digit.
pub open spec fn is_package_name(s: Seq<char>) -> bool {
    &&& forall|i: int| 0 <= i < s.len() ==> name_char(#[trigger] s[i]) && !('A' <= s[i] && s[i] <= 'Z')
    &&& !(s.len() > 0 && is_digit(s[0]))
}

proof fn lemma_filter_keeps_all(s: Seq<char>)
    requires
        forall|i: int| 0 <= i < s.len() ==> name_char(#[trigger] s[i]),
    ensures
        s.filter(|c: char| name_char(c)) == s,
    decreases s.len(),
{
    reveal(Seq::filter);
    if s.len() > 0 {
        assert forall|i: int| 0 <= i < s.drop_last().len() implies name_char(#[trigger] s.drop_last()[i]) by {
            assert(s.drop_last()[i] == s[i]);
        }
        lemma_filter_keeps_all(s.drop_last());
        assert(s.drop_last().push(s.last()) =~= s);
    }
}

/// Every sanitized project name is an importable package name: only
/// lower-case ASCII letters, digits and underscores, and no leading digit.
pub proof fn lemma_sanitized_is_package_name(name: Seq<char>)
    ensures
        is_package_name(sanitized_name(name)),
        forall|i: int|
            0 <= i < sanitized_name(name).len() ==> {
                let c = #[trigger] sanitized_name(name)[i];
                ('a' <= c && c <= 'z') || ('0' <= c && c <= '9') || c == '_'
            },
        !(sanitized_name(name).len() > 0 && is_digit(sanitized_name(name)[0])),
{
    broadcast use vstd::seq_lib::group_filter_ensures;

    let kept = name.map_values(|c: char| underscore_separator(c)).filter(|c: char| name_char(c));
    let b = sanitized_body(name);
    assert forall|i: int| 0 <= i < b.len() implies name_char(#[trigger] b[i]) && !('A' <= b[i] && b[i] <= 'Z') by {
        assert(name_char(kept[i]));
    }
    if b.len() > 0 && is_digit(b[0]) {
        let r = seq!['_'] + b;
        assert forall|i: int| 0 <= i < r.len() implies name_char(#[trigger] r[i]) && !('A' <= r[i] && r[i] <= 'Z') by {
            if i > 0 {
                assert(r[i] == b[i - 1]);
            }
        }
    }
}

/// Sanitizing leaves an importable package name as it is.
pub proof fn lemma_sanitize_keeps_package_names(s: Seq<char>)
    requires
        is_package_name(s),
    ensures
        sanitized_name(s) == s,
{
    let mapped = s.map_values(|c: char| underscore_separator(c));
    assert(mapped =~= s);
    lemma_filter_keeps_all(s);
    assert(s.map_values(|c: char| ascii_lower(c)) =~= s);
}

/// Sanitizing a name twice gives what sanitizing it once gives.
pub proof fn lemma_sanitize_idempotent(name: Seq<char>)
    ensures
        sanitized_name(sanitized_name(name)) == sanitized_name(name),
{
    lemma_sanitized_is_package_name(name);
    lemma_sanitize_keeps_package_names(sanitized_name(name));
}

} // verus!
