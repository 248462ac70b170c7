//! The JSON form of a command's help (`pybun <command> --help --format=json`),
//! built from the command's help metadata.

use vstd::prelude::*;
use crate::json::{Json, as_str, get, get_array, get_str, lemma_keys_differ, lemma_lookup_at, member, member_count};
use crate::text::{chars_eq_str, chars_of, opt_view};

verus! {

/// The help metadata of one argument.
pub struct HelpArg {
    pub id: String,
    pub help: Option<String>,
    pub long: Option<String>,
    pub short: Option<char>,
    pub required: bool,
    pub takes_value: bool,
    pub default_values: Vec<String>,
}

/// The help metadata of one subcommand, as its parent lists it.
pub struct HelpSubcommand {
    pub name: String,
    pub about: Option<String>,
}

/// The help metadata of a command.
pub struct HelpCommand {
    pub name: String,
    pub about: Option<String>,
    pub long_about: Option<String>,
    pub usage: String,
    pub args: Vec<HelpArg>,
    pub subcommands: Vec<HelpSubcommand>,
}

/// `j` is the string `o` holds, or `null` when it holds none.
pub open spec fn is_opt_str(j: Json, o: Option<Seq<char>>) -> bool {
    match o {
        Some(s) => as_str(j) == Some(s),
        None => j is Null,
    }
}

/// The member `key` of `j` is the string `o` holds, or `null`.
pub open spec fn member_is_opt_str(j: Json, key: Seq<char>, o: Option<Seq<char>>) -> bool {
    match get(j, key) {
        Some(v) => is_opt_str(v, o),
        None => false,
    }
}

/// `j` is the help of argument `a`: its name, help, long and short flags,
/// whether it is required and takes a value, and its default values.
pub open spec fn is_arg_help(j: Json, a: HelpArg) -> bool {
    &&& member_count(j) == Some(7nat)
    &&& get_str(j, "name"@) == Some(a.id@)
    &&& member_is_opt_str(j, "help"@, opt_view(a.help))
    &&& member_is_opt_str(j, "long"@, opt_view(a.long))
    &&& member_is_opt_str(
        j,
        "short"@,
        match a.short {
            Some(c) => Some(seq![c]),
            None => None,
        },
    )
    &&& get(j, "required"@) == Some(Json::Bool(a.required))
    &&& get(j, "takes_value"@) == Some(Json::Bool(a.takes_value))
    &&& match get_array(j, "default_values"@) {
        Some(items) => items.len() == a.default_values@.len() && forall|i: int|
            0 <= i < items.len() ==> as_str(#[trigger] items[i]) == Some(a.default_values@[i]@),
        None => false,
    }
}

/// The arguments a help lists: all but `help` and `version`.
pub open spec fn shown_args(args: Seq<HelpArg>) -> Seq<HelpArg> {
    args.filter(|a: HelpArg| a.id@ != "help"@ && a.id@ != "version"@)
}

/// `j` is the entry of subcommand `s` in its parent's help.
pub open spec fn is_subcommand_entry(j: Json, s: HelpSubcommand) -> bool {
    &&& member_count(j) == Some(2nat)
    &&& get_str(j, "name"@) == Some(s.name@)
    &&& member_is_opt_str(j, "about"@, opt_view(s.about))
}

/// `j` is the help of command `c`: its name, about, long about and usage,
/// the help of each argument shown, and an entry for each subcommand.
pub open spec fn is_command_help(j: Json, c: HelpCommand) -> bool {
    &&& member_count(j) == Some(6nat)
    &&& get_str(j, "name"@) == Some(c.name@)
    &&& member_is_opt_str(j, "about"@, opt_view(c.about))
    &&& member_is_opt_str(j, "long_about"@, opt_view(c.long_about))
    &&& get_str(j, "usage"@) == Some(c.usage@)
    &&& match get_array(j, "args"@) {
        Some(items) => items.len() == shown_args(c.args@).len() && forall|i: int|
            0 <= i < items.len() ==> is_arg_help(#[trigger] items[i], shown_args(c.args@)[i]),
        None => false,
    }
    &&& match get_array(j, "subcommands"@) {
        Some(items) => items.len() == c.subcommands@.len() && forall|i: int|
            0 <= i < items.len() ==> is_subcommand_entry(#[trigger] items[i], c.subcommands@[i]),
        None => false,
    }
}

fn opt_str(o: &Option<String>) -> (j: Json)
    ensures
        is_opt_str(j, opt_view(*o)),
{
    match o {
        Some(s) => Json::Str(s.clone()),
        None => Json::Null,
    }
}

/// The help of one argument.
pub fn arg_help_json(a: &HelpArg) -> (j: Json)
    ensures
        is_arg_help(j, *a),
{
    let short = match a.short {
        Some(c) => {
            let mut v: Vec<char> = Vec::new();
            v.push(c);
            let s = crate::text::string_of(v.as_slice());
            assert(v@ =~= seq![c]);
            Json::Str(s)
        },
        None => Json::Null,
    };
    let mut defaults: Vec<Json> = Vec::new();
    let mut i: usize = 0;
    while i < a.default_values.len()
        invariant
            0 <= i <= a.default_values.len(),
            defaults@.len() == i,
            forall|k: int| 0 <= k < i ==> as_str(#[trigger] defaults@[k]) == Some(a.default_values@[k]@),
        decreases a.default_values.len() - i,
    {
        defaults.push(Json::Str(a.default_values[i].clone()));
        i = i + 1;
    }
    let mut m: Vec<(String, Json)> = Vec::new();
    m.push(member("name", Json::Str(a.id.clone())));
    m.push(member("help", opt_str(&a.help)));
    m.push(member("long", opt_str(&a.long)));
    m.push(member("short", short));
    m.push(member("required", Json::Bool(a.required)));
    m.push(member("takes_value", Json::Bool(a.takes_value)));
    m.push(member("default_values", Json::Array(defaults)));
    proof {
        reveal_strlit("name");
        reveal_strlit("help");
        reveal_strlit("long");
        reveal_strlit("short");
        reveal_strlit("required");
        reveal_strlit("takes_value");
        reveal_strlit("default_values");
        let s = m@;
        let keys = seq!["name"@, "help"@, "long"@, "short"@, "required"@, "takes_value"@, "default_values"@];
        assert forall|x: int, y: int| 0 <= x < y < 7 implies #[trigger] keys[x] != #[trigger] keys[y] by {
            lemma_keys_differ(keys[x], keys[y]);
        }
        assert forall|x: int| 0 <= x < 7 implies #[trigger] s[x].0@ == keys[x] by {}
        lemma_lookup_at(s, "name"@, 0);
        lemma_lookup_at(s, "help"@, 1);
        lemma_lookup_at(s, "long"@, 2);
        lemma_lookup_at(s, "short"@, 3);
        lemma_lookup_at(s, "required"@, 4);
        lemma_lookup_at(s, "takes_value"@, 5);
        lemma_lookup_at(s, "default_values"@, 6);
    }
    Json::Object(m)
}

fn is_shown(id: &str) -> (r: bool)
    ensures
        r == (id@ != "help"@ && id@ != "version"@),
{
    let c = chars_of(id);
    !chars_eq_str(c.as_slice(), "help") && !chars_eq_str(c.as_slice(), "version")
}

fn subcommand_entry(s: &HelpSubcommand) -> (j: Json)
    ensures
        is_subcommand_entry(j, *s),
{
    let mut m: Vec<(String, Json)> = Vec::new();
    m.push(member("name", Json::Str(s.name.clone())));
    m.push(member("about", opt_str(&s.about)));
    proof {
        reveal_strlit("name");
        reveal_strlit("about");
        lemma_keys_differ("name"@, "about"@);
        lemma_lookup_at(m@, "name"@, 0);
        lemma_lookup_at(m@, "about"@, 1);
    }
    Json::Object(m)
}

/// The help of a command.
pub fn command_help_json(c: &HelpCommand) -> (j: Json)
    ensures
        is_command_help(j, *c),
{
    let ghost keep = |a: HelpArg| a.id@ != "help"@ && a.id@ != "version"@;
    let mut args: Vec<Json> = Vec::new();
    let mut i: usize = 0;
    proof {
        reveal(Seq::filter);
        assert(c.args@.take(0) =~= Seq::<HelpArg>::empty());
    }
    while i < c.args.len()
        invariant
            0 <= i <= c.args.len(),
            keep == (|a: HelpArg| a.id@ != "help"@ && a.id@ != "version"@),
            args@.len() == c.args@.take(i as int).filter(keep).len(),
            forall|k: int|
                0 <= k < args@.len() ==> is_arg_help(#[trigger] args@[k], c.args@.take(i as int).filter(keep)[k]),
        decreases c.args.len() - i,
    {
        let ghost prev = c.args@.take(i as int).filter(keep);
        assert(c.args@.take(i + 1).drop_last() =~= c.args@.take(i as int));
        proof {
            reveal(Seq::filter);
        }
        if is_shown(c.args[i].id.as_str()) {
            args.push(arg_help_json(&c.args[i]));
            assert(c.args@.take(i + 1).filter(keep) == prev.push(c.args@[i as int]));
        } else {
            assert(c.args@.take(i + 1).filter(keep) == prev);
        }
        i = i + 1;
    }
    assert(c.args@.take(i as int) =~= c.args@);
    let mut subs: Vec<Json> = Vec::new();
    let mut k: usize = 0;
    while k < c.subcommands.len()
        invariant
            0 <= k <= c.subcommands.len(),
            subs@.len() == k,
            forall|x: int| 0 <= x < k ==> is_subcommand_entry(#[trigger] subs@[x], c.subcommands@[x]),
        decreases c.subcommands.len() - k,
    {
        subs.push(subcommand_entry(&c.subcommands[k]));
        k = k + 1;
    }
    let mut m: Vec<(String, Json)> = Vec::new();
    m.push(member("name", Json::Str(c.name.clone())));
    m.push(member("about", opt_str(&c.about)));
    m.push(member("long_about", opt_str(&c.long_about)));
    m.push(member("usage", Json::Str(c.usage.clone())));
    m.push(member("args", Json::Array(args)));
    m.push(member("subcommands", Json::Array(subs)));
    proof {
        reveal_strlit("name");
        reveal_strlit("about");
        reveal_strlit("long_about");
        reveal_strlit("usage");
        reveal_strlit("args");
        reveal_strlit("subcommands");
        let s = m@;
        let keys = seq!["name"@, "about"@, "long_about"@, "usage"@, "args"@, "subcommands"@];
        assert forall|x: int, y: int| 0 <= x < y < 6 implies #[trigger] keys[x] != #[trigger] keys[y] by {
            lemma_keys_differ(keys[x], keys[y]);
        }
        assert forall|x: int| 0 <= x < 6 implies #[trigger] s[x].0@ == keys[x] by {}
        lemma_lookup_at(s, "name"@, 0);
        lemma_lookup_at(s, "about"@, 1);
        lemma_lookup_at(s, "long_about"@, 2);
        lemma_lookup_at(s, "usage"@, 3);
        lemma_lookup_at(s, "args"@, 4);
        lemma_lookup_at(s, "subcommands"@, 5);
    }
    Json::Object(m)
}

} // verus!
