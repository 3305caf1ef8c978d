use vstd::prelude::*;
use crate::text::{str_eq, views};

verus! {

/// The command-line flag that names the variable set to apply.
pub const VARS_FLAG: &'static str = "--config-vars";

/// The variable set applied when the command line names none.
pub const DEFAULT_VARS: &'static str = "default";

/// Where the configuration was read from, and its text after substitution.
#[derive(Debug)]
pub struct Meta {
    pub path: String,
    pub contents: String,
}

/// The document engine's connection settings.
#[derive(Debug)]
pub struct Mongo {
    pub name: String,
    pub url: String,
    pub path: String,
}

/// The relational engine's connection settings.
#[derive(Debug)]
pub struct Sqlite {
    pub path: String,
}

/// The storage engines' settings.
#[derive(Debug)]
pub struct Db {
    pub mongo: Mongo,
    pub sqlite: Sqlite,
}

/// The process configuration. `vars` holds named sets of variables, each a list of
/// key and value.
#[derive(Debug)]
pub struct Config {
    pub port: u16,
    pub db: Db,
    pub vars: Vec<(String, Vec<(String, String)>)>,
    pub meta: Meta,
}

/// The index of the first argument equal to `flag`, or the length if there is none.
pub open spec fn first_arg(args: Seq<Seq<char>>, flag: Seq<char>) -> int
    decreases args.len(),
{
    if args.len() == 0 {
        0
    } else if args[0] == flag {
        0
    } else {
        1 + first_arg(args.drop_first(), flag)
    }
}

/// The first index of `flag` is in range, no earlier argument equals it, and the argument
/// there, if any, does.
proof fn lemma_first_arg(args: Seq<Seq<char>>, flag: Seq<char>)
    ensures
        0 <= first_arg(args, flag) <= args.len(),
        forall|j: int| 0 <= j < first_arg(args, flag) ==> args[j] != flag,
        first_arg(args, flag) < args.len() ==> args[first_arg(args, flag)] == flag,
    decreases args.len(),
{
    if args.len() > 0 && args[0] != flag {
        lemma_first_arg(args.drop_first(), flag);
        assert forall|j: int| 0 <= j < first_arg(args, flag) implies args[j] != flag by {
            if j > 0 {
                assert(args[j] == args.drop_first()[j - 1]);
            }
        }
    }
}

/// The name of the variable set that a command line asks for: the argument after the
/// first `--config-vars`, or `default` where there is none.
pub open spec fn vars_name_of(args: Seq<Seq<char>>) -> Seq<char> {
    let i = first_arg(args, VARS_FLAG@);
    if i + 1 < args.len() {
        args[i + 1]
    } else {
        DEFAULT_VARS@
    }
}

/// Reads the name of the variable set from the command line.
pub fn vars_name(args: &Vec<String>) -> (r: String)
    ensures
        r@ == vars_name_of(views(args@)),
{
    let ghost a = views(args@);
    proof {
        lemma_first_arg(a, VARS_FLAG@);
    }
    let mut i: usize = 0;
    while i < args.len()
        invariant
            i <= args@.len(),
            a == views(args@),
            forall|j: int| 0 <= j < i ==> a[j] != VARS_FLAG@,
            0 <= first_arg(a, VARS_FLAG@) <= a.len(),
            forall|j: int| 0 <= j < first_arg(a, VARS_FLAG@) ==> a[j] != VARS_FLAG@,
            first_arg(a, VARS_FLAG@) < a.len() ==> a[first_arg(a, VARS_FLAG@)] == VARS_FLAG@,
        decreases args.len() - i,
    {
        assert(a[i as int] == args@[i as int]@);
        if str_eq(args[i].as_str(), VARS_FLAG) {
            assert(first_arg(a, VARS_FLAG@) == i);
            assert(i + 1 < args.len() ==> a[i + 1] == args@[i + 1]@);
            if i + 1 < args.len() {
                return args[i + 1].clone();
            } else {
                return String::from_str(DEFAULT_VARS);
            }
        }
        i = i + 1;
    }
    String::from_str(DEFAULT_VARS)
}

/// The text with every match of `from` replaced by `to`: matches are found from the left
/// and do not overlap; an empty pattern matches before each character and at the end.
pub open spec fn replaced(s: Seq<char>, from: Seq<char>, to: Seq<char>) -> Seq<char>
    decreases s.len(),
{
    if from.len() == 0 {
        if s.len() == 0 {
            to
        } else {
            to + seq![s[0]] + replaced(s.drop_first(), from, to)
        }
    } else if s.len() < from.len() {
        s
    } else if s.subrange(0, from.len() as int) == from {
        to + replaced(s.subrange(from.len() as int, s.len() as int), from, to)
    } else {
        seq![s[0]] + replaced(s.drop_first(), from, to)
    }
}

/// Relies on `str::replace`, which replaces the matches that `match_indices` yields:
/// from the left, without overlap.
#[verifier::external_body]
fn replace_all(s: &str, from: &str, to: &str) -> (r: String)
    ensures
        r@ == replaced(s@, from@, to@),
{
    s.replace(from, to)
}

/// The placeholder of a variable in the configuration text: `${key}`.
pub open spec fn placeholder(key: Seq<char>) -> Seq<char> {
    "${"@ + key + "}"@
}

/// The text after each variable, in order, has replaced its placeholder.
pub open spec fn substituted(s: Seq<char>, vars: Seq<(String, String)>) -> Seq<char>
    decreases vars.len(),
{
    if vars.len() == 0 {
        s
    } else {
        replaced(substituted(s, vars.drop_last()), placeholder(vars.last().0@), vars.last().1@)
    }
}

/// Replaces the placeholder of each variable, in order, by its value.
pub fn substitute(contents: String, vars: &Vec<(String, String)>) -> (r: String)
    ensures
        r@ == substituted(contents@, vars@),
{
    let mut out = contents;
    let ghost start = out@;
    let mut i: usize = 0;
    while i < vars.len()
        invariant
            i <= vars@.len(),
            out@ == substituted(start, vars@.take(i as int)),
        decreases vars.len() - i,
    {
        assert(vars@.take(i + 1).drop_last() == vars@.take(i as int));
        let mut key = String::from_str("${");
        key.append(vars[i].0.as_str());
        key.append("}");
        out = replace_all(out.as_str(), key.as_str(), vars[i].1.as_str());
        i = i + 1;
    }
    assert(vars@.take(vars@.len() as int) == vars@);
    out
}

/// The variables of the first set under `name`.
pub open spec fn set_named(sets: Seq<(String, Vec<(String, String)>)>, name: Seq<char>) -> Option<Seq<(String, String)>>
    decreases sets.len(),
{
    if sets.len() == 0 {
        None
    } else if sets[0].0@ == name {
        Some(sets[0].1@)
    } else {
        set_named(sets.drop_first(), name)
    }
}

/// The configuration text after the variable set that the command line names has been
/// applied; the text as it is where no set has that name.
pub fn apply_vars(contents: String, sets: &Vec<(String, Vec<(String, String)>)>, args: &Vec<String>) -> (r: String)
    ensures
        r@ == match set_named(sets@, vars_name_of(views(args@))) {
            Some(vars) => substituted(contents@, vars),
            None => contents@,
        },
{
    let name = vars_name(args);
    assert(sets@.subrange(0, sets@.len() as int) == sets@);
    let mut i: usize = 0;
    while i < sets.len()
        invariant
            i <= sets@.len(),
            name@ == vars_name_of(views(args@)),
            set_named(sets@, name@) == set_named(sets@.subrange(i as int, sets@.len() as int), name@),
        decreases sets.len() - i,
    {
        let ghost rest = sets@.subrange(i as int, sets@.len() as int);
        assert(rest.drop_first() == sets@.subrange(i + 1, sets@.len() as int));
        assert(rest[0] == sets@[i as int]);
        if str_eq(sets[i].0.as_str(), name.as_str()) {
            return substitute(contents, &sets[i].1);
        }
        i = i + 1;
    }
    assert(sets@.subrange(i as int, sets@.len() as int).len() == 0);
    contents
}

} // verus!
