//! The fixed argument templates handed to the external tool, the
//! remote registry's query locations, and the parser for the active
//! environment in the tool's listing output.

use vstd::prelude::*;

verus! {

/// Pushes one string onto an argument vector, extending its deep view.
fn push_arg(args: &mut Vec<String>, arg: String)
    ensures
        final(args).deep_view() == old(args).deep_view().push(arg@),
{
    let ghost av = arg@;
    let ghost pre = *args;
    args.push(arg);
    proof {
        crate::deep::lemma_deep_push_last(pre, *args);
        assert(args.deep_view() =~= pre.deep_view().push(av));
    }
}

/// The package argument of an installation: the bare name without a
/// version constraint, else `name=version`.
pub open spec fn package_spec_text(name: Seq<char>, version: Option<Seq<char>>) -> Seq<char> {
    match version {
        Some(v) => name + "="@ + v,
        None => name,
    }
}

/// Arguments of an environment creation.
pub fn create_environment_args(name: &str, python_version: &str) -> (r: Vec<String>)
    ensures
        r.deep_view() == seq![
            "create"@,
            "-n"@,
            name@,
            "python="@ + python_version@,
            "-y"@,
        ],
{
    let mut args: Vec<String> = Vec::new();
    push_arg(&mut args, String::from_str("create"));
    push_arg(&mut args, String::from_str("-n"));
    push_arg(&mut args, String::from_str(name));
    let mut py = String::from_str("python=");
    py.append(python_version);
    push_arg(&mut args, py);
    push_arg(&mut args, String::from_str("-y"));
    proof {
        assert(args.deep_view() =~= seq![
            "create"@,
            "-n"@,
            name@,
            "python="@ + python_version@,
            "-y"@,
        ]);
    }
    args
}

/// Arguments of a package installation.  Without a version constraint
/// the bare package name is handed over; with one, `name=version`.
pub fn install_package_args(env_name: &str, package_name: &str, version: Option<&str>) -> (r: Vec<
    String,
>)
    ensures
        version is Some ==> r.deep_view() == seq![
            "install"@,
            "-n"@,
            env_name@,
            package_name@ + "="@ + version->0@,
            "-y"@,
        ],
        version is None ==> r.deep_view() == seq![
            "install"@,
            "-n"@,
            env_name@,
            package_name@,
            "-y"@,
        ],
{
    let mut args: Vec<String> = Vec::new();
    push_arg(&mut args, String::from_str("install"));
    push_arg(&mut args, String::from_str("-n"));
    push_arg(&mut args, String::from_str(env_name));
    match version {
        Some(v) => {
            let mut p = String::from_str(package_name);
            p.append("=");
            p.append(v);
            push_arg(&mut args, p);
        },
        None => {
            push_arg(&mut args, String::from_str(package_name));
        },
    }
    push_arg(&mut args, String::from_str("-y"));
    proof {
        if version is Some {
            assert(args.deep_view() =~= seq![
                "install"@,
                "-n"@,
                env_name@,
                package_name@ + "="@ + version->0@,
                "-y"@,
            ]);
        } else {
            assert(args.deep_view() =~= seq![
                "install"@,
                "-n"@,
                env_name@,
                package_name@,
                "-y"@,
            ]);
        }
    }
    args
}

/// Arguments of a package removal.
pub fn remove_package_args(env_name: &str, package_name: &str) -> (r: Vec<String>)
    ensures
        r.deep_view() == seq!["remove"@, "-n"@, env_name@, package_name@, "-y"@],
{
    let mut args: Vec<String> = Vec::new();
    push_arg(&mut args, String::from_str("remove"));
    push_arg(&mut args, String::from_str("-n"));
    push_arg(&mut args, String::from_str(env_name));
    push_arg(&mut args, String::from_str(package_name));
    push_arg(&mut args, String::from_str("-y"));
    proof {
        assert(args.deep_view() =~= seq!["remove"@, "-n"@, env_name@, package_name@, "-y"@]);
    }
    args
}

/// Arguments of an update of every package in an environment.
pub fn update_all_args(env_name: &str) -> (r: Vec<String>)
    ensures
        r.deep_view() == seq!["update"@, "--all"@, "-n"@, env_name@, "-y"@],
{
    let mut args: Vec<String> = Vec::new();
    push_arg(&mut args, String::from_str("update"));
    push_arg(&mut args, String::from_str("--all"));
    push_arg(&mut args, String::from_str("-n"));
    push_arg(&mut args, String::from_str(env_name));
    push_arg(&mut args, String::from_str("-y"));
    proof {
        assert(args.deep_view() =~= seq!["update"@, "--all"@, "-n"@, env_name@, "-y"@]);
    }
    args
}

/// Arguments of a cache clean-up.
pub fn clean_args() -> (r: Vec<String>)
    ensures
        r.deep_view() == seq!["clean"@, "--all"@, "-y"@],
{
    let mut args: Vec<String> = Vec::new();
    push_arg(&mut args, String::from_str("clean"));
    push_arg(&mut args, String::from_str("--all"));
    push_arg(&mut args, String::from_str("-y"));
    proof {
        assert(args.deep_view() =~= seq!["clean"@, "--all"@, "-y"@]);
    }
    args
}

/// Arguments of the environment listing.
pub fn info_envs_args() -> (r: Vec<String>)
    ensures
        r.deep_view() == seq!["info"@, "--envs"@],
{
    let mut args: Vec<String> = Vec::new();
    push_arg(&mut args, String::from_str("info"));
    push_arg(&mut args, String::from_str("--envs"));
    proof {
        assert(args.deep_view() =~= seq!["info"@, "--envs"@]);
    }
    args
}

/// Arguments of an environment verification.
pub fn verify_environment_args(env_name: &str) -> (r: Vec<String>)
    ensures
        r.deep_view() == seq!["verify"@, "-n"@, env_name@],
{
    let mut args: Vec<String> = Vec::new();
    push_arg(&mut args, String::from_str("verify"));
    push_arg(&mut args, String::from_str("-n"));
    push_arg(&mut args, String::from_str(env_name));
    proof {
        assert(args.deep_view() =~= seq!["verify"@, "-n"@, env_name@]);
    }
    args
}

/// The remote location of a text search.
pub fn search_url(channel: &str, query: &str) -> (r: String)
    ensures
        r@ == channel@ + "/search?q="@ + query@,
{
    let mut s = String::from_str(channel);
    s.append("/search?q=");
    s.append(query);
    s
}

/// The remote location of one package's record.
pub fn package_info_url(channel: &str, package_name: &str) -> (r: String)
    ensures
        r@ == channel@ + "/get/"@ + package_name@,
{
    let mut s = String::from_str(channel);
    s.append("/get/");
    s.append(package_name);
    s
}

/// Whether a character counts as blank between listing columns.
pub open spec fn is_blank(c: char) -> bool {
    c == ' ' || c == '\t'
}

/// A line without its leading blanks.
pub open spec fn skip_blanks(l: Seq<char>) -> Seq<char>
    decreases l.len(),
{
    if l.len() > 0 && is_blank(l[0]) {
        skip_blanks(l.drop_first())
    } else {
        l
    }
}

/// The leading run of non-blank characters.
pub open spec fn leading_word(l: Seq<char>) -> Seq<char>
    decreases l.len(),
{
    if l.len() == 0 || is_blank(l[0]) {
        Seq::empty()
    } else {
        seq![l[0]] + leading_word(l.drop_first())
    }
}

/// The first blank-separated word of a line.
pub open spec fn first_word(l: Seq<char>) -> Seq<char> {
    leading_word(skip_blanks(l))
}

/// The first line marked with a `*`, if any.
pub open spec fn marked_line(ls: Seq<Seq<char>>) -> Option<Seq<char>>
    decreases ls.len(),
{
    if ls.len() == 0 {
        None
    } else if ls[0].contains('*') {
        Some(ls[0])
    } else {
        marked_line(ls.drop_first())
    }
}

/// Whether a string holds a given character.
fn str_contains_char(s: &str, c: char) -> (r: bool)
    ensures
        r == s@.contains(c),
{
    let len = s.unicode_len();
    let mut i: usize = 0;
    while i < len
        invariant
            i <= len,
            len == s@.len(),
            forall|j: int| 0 <= j < i ==> s@[j] != c,
        decreases len - i,
    {
        if s.get_char(i) == c {
            assert(s@.contains(c));
            return true;
        }
        i = i + 1;
    }
    assert(!s@.contains(c));
    false
}

/// The first blank-separated word of a line, as a fresh string.
fn first_word_of(line: &str) -> (r: String)
    ensures
        r@ == first_word(line@),
{
    let len = line.unicode_len();
    proof {
        assert(line@.skip(0) =~= line@);
    }
    let mut start: usize = 0;
    loop
        invariant
            start <= len,
            len == line@.len(),
            skip_blanks(line@) == skip_blanks(line@.skip(start as int)),
        ensures
            start <= len,
            len == line@.len(),
            skip_blanks(line@) == line@.skip(start as int),
        decreases len - start,
    {
        if start >= len {
            assert(line@.skip(start as int).len() == 0);
            break;
        }
        proof {
            assert(line@.skip(start as int)[0] == line@[start as int]);
        }
        let c = line.get_char(start);
        if c != ' ' && c != '\t' {
            break;
        }
        proof {
            assert(line@.skip(start as int).drop_first() =~= line@.skip(start + 1));
        }
        start = start + 1;
    }
    let mut stop: usize = start;
    loop
        invariant
            start <= stop <= len,
            len == line@.len(),
            skip_blanks(line@) == line@.skip(start as int),
            leading_word(line@.skip(start as int)) =~= line@.subrange(start as int, stop as int)
                + leading_word(line@.skip(stop as int)),
        ensures
            start <= stop <= len,
            len == line@.len(),
            first_word(line@) =~= line@.subrange(start as int, stop as int),
        decreases len - stop,
    {
        if stop >= len {
            proof {
                assert(line@.skip(stop as int).len() == 0);
                assert(first_word(line@) =~= line@.subrange(start as int, stop as int));
            }
            break;
        }
        proof {
            assert(line@.skip(stop as int)[0] == line@[stop as int]);
        }
        let c = line.get_char(stop);
        if c == ' ' || c == '\t' {
            proof {
                assert(leading_word(line@.skip(stop as int)) =~= Seq::<char>::empty());
                assert(first_word(line@) =~= line@.subrange(start as int, stop as int));
            }
            break;
        }
        proof {
            assert(line@.skip(stop as int).drop_first() =~= line@.skip(stop + 1));
            assert(line@.subrange(start as int, stop as int).push(line@[stop as int]) =~= line@
                .subrange(start as int, stop + 1));
        }
        stop = stop + 1;
    }
    let word = line.substring_char(start, stop);
    String::from_str(word)
}

/// Picks the active environment out of the tool's listing output:
/// the first blank-separated word of the first line marked with `*`.
pub fn parse_active_environment(lines: &Vec<String>) -> (r: Option<String>)
    ensures
        match marked_line(lines.deep_view()) {
            Some(l) => r is Some && r->0@ == first_word(l),
            None => r is None,
        },
{
    let ghost dv = lines.deep_view();
    proof {
        assert(dv.skip(0) =~= dv);
    }
    let mut i: usize = 0;
    while i < lines.len()
        invariant
            i <= lines.len(),
            dv == lines.deep_view(),
            dv.len() == lines@.len(),
            marked_line(dv) == marked_line(dv.skip(i as int)),
        decreases lines.len() - i,
    {
        proof {
            assert(dv.skip(i as int)[0] == dv[i as int]);
            assert(dv[i as int] == lines@[i as int]@);
        }
        if str_contains_char(lines[i].as_str(), '*') {
            let word = first_word_of(lines[i].as_str());
            return Some(word);
        }
        proof {
            assert(dv.skip(i as int).drop_first() =~= dv.skip(i + 1));
        }
        i = i + 1;
    }
    assert(dv.skip(dv.len() as int).len() == 0);
    None
}

} // verus!
