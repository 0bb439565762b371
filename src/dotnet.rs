//! The .NET helper: finding the launch profiles of a project in its `launchSettings.json`,
//! and the arguments of `dotnet run` for a chosen profile. Finding the files and running
//! `dotnet` happen elsewhere.

use vstd::prelude::*;

use crate::doctor::{DoctorFailure, DoctorSuccess};
use crate::kube_config::opt_view;

verus! {

#[verifier::external_type_specification]
#[verifier::external_body]
pub struct ExRegex(regex::Regex);

/// Whether `pattern` is a valid regular expression.
pub uninterp spec fn regex_compiles(pattern: Seq<char>) -> bool;

/// Whether the regular expression `pattern` matches somewhere in `haystack`.
pub uninterp spec fn regex_matches(pattern: Seq<char>, haystack: Seq<char>) -> bool;

/// What the named group `group` of the first match of `pattern` in `haystack` holds, if
/// there is a match and the group took part in it.
pub uninterp spec fn regex_named_group(
    pattern: Seq<char>,
    haystack: Seq<char>,
    group: Seq<char>,
) -> Option<Seq<char>>;

/// The errors of the .NET helper.
#[derive(Debug)]
pub enum DotnetError {
    /// A built-in regular expression does not compile.
    InvalidPattern,
}

/// A regular expression together with the pattern it was compiled from.
pub struct CompiledPattern {
    pattern: String,
    regex: regex::Regex,
}

impl CompiledPattern {
    /// The pattern this expression was compiled from.
    pub closed spec fn pattern(&self) -> Seq<char> {
        self.pattern@
    }

    /// Relies on `regex::Regex::new`: it succeeds exactly when the pattern is valid.
    #[verifier::external_body]
    fn compile(pattern: &str) -> (r: Option<CompiledPattern>)
        ensures
            r is Some == regex_compiles(pattern@),
            r matches Some(c) ==> c.pattern() == pattern@,
    {
        regex::Regex::new(pattern).ok().map(|regex| CompiledPattern { pattern: pattern.to_string(), regex })
    }

    /// Relies on `regex::Regex::is_match`: whether the expression matches in `haystack`.
    #[verifier::external_body]
    fn is_match(&self, haystack: &str) -> (r: bool)
        ensures
            r == regex_matches(self.pattern(), haystack@),
    {
        self.regex.is_match(haystack)
    }

    /// Relies on `regex::Regex::captures` and `regex::Captures::name`: the text of the named
    /// group in the first match.
    #[verifier::external_body]
    fn captures_name(&self, haystack: &str, group: &str) -> (r: Option<String>)
        ensures
            opt_view(r) == regex_named_group(self.pattern(), haystack@, group@),
    {
        let captures = self.regex.captures(haystack)?;
        let found = captures.name(group)?;
        Some(found.as_str().to_string())
    }

    /// The expression compiled from `pattern`; `None` when the pattern is not valid.
    pub fn new(pattern: &str) -> (r: Option<CompiledPattern>)
        ensures
            r is Some == regex_compiles(pattern@),
            r matches Some(c) ==> c.pattern() == pattern@,
    {
        Self::compile(pattern)
    }

    /// Whether the expression matches somewhere in `haystack`.
    pub fn matches(&self, haystack: &str) -> (r: bool)
        ensures
            r == regex_matches(self.pattern(), haystack@),
    {
        self.is_match(haystack)
    }

    /// The text of the named group `group` in the first match in `haystack`.
    pub fn named_group(&self, haystack: &str, group: &str) -> (r: Option<String>)
        ensures
            opt_view(r) == regex_named_group(self.pattern(), haystack@, group@),
    {
        self.captures_name(haystack, group)
    }
}

/// The line that opens a launch profile: four to six spaces, then `"name": {`.
pub open spec fn launch_settings_pattern() -> Seq<char> {
    "^\\s{4,6}\\\"(?<lsn>[^:]*)\\\": \\{$"@
}

/// A line that mentions environment variables.
pub open spec fn env_var_pattern() -> Seq<char> {
    "environ.*Varia"@
}

/// The expression that finds launch profile names.
pub fn lauch_settings_regex() -> (r: Result<CompiledPattern, DotnetError>)
    ensures
        r is Ok == regex_compiles(launch_settings_pattern()),
        r matches Ok(c) ==> c.pattern() == launch_settings_pattern(),
{
    match CompiledPattern::new("^\\s{4,6}\\\"(?<lsn>[^:]*)\\\": \\{$") {
        Some(c) => Ok(c),
        None => Err(DotnetError::InvalidPattern),
    }
}

/// The expression that finds lines about environment variables.
pub fn env_var_regex() -> (r: Result<CompiledPattern, DotnetError>)
    ensures
        r is Ok == regex_compiles(env_var_pattern()),
        r matches Ok(c) ==> c.pattern() == env_var_pattern(),
{
    match CompiledPattern::new("environ.*Varia") {
        Some(c) => Ok(c),
        None => Err(DotnetError::InvalidPattern),
    }
}

/// `s` cut at each newline, as `str::split('\n')` cuts it: `k` newlines give `k + 1` pieces.
pub open spec fn split_lines(s: Seq<char>) -> Seq<Seq<char>>
    decreases s.len(),
{
    if s.len() == 0 {
        seq![Seq::empty()]
    } else {
        let before = split_lines(s.drop_last());
        if s.last() == '\n' {
            before.push(Seq::empty())
        } else {
            before.update(before.len() - 1, before.last().push(s.last()))
        }
    }
}

proof fn lemma_split_lines_nonempty(s: Seq<char>)
    ensures
        split_lines(s).len() >= 1,
    decreases s.len(),
{
    if s.len() > 0 {
        lemma_split_lines_nonempty(s.drop_last());
    }
}

/// The name of the launch profile that a line opens, if it opens one.
pub open spec fn launch_profile_of(line: Seq<char>) -> Option<Seq<char>> {
    if regex_matches(launch_settings_pattern(), line) && !regex_matches(env_var_pattern(), line) {
        regex_named_group(launch_settings_pattern(), line, "lsn"@)
    } else {
        None
    }
}

pub open spec fn strings_view(v: Seq<String>) -> Seq<Seq<char>> {
    v.map_values(|s: String| s@)
}

/// The lines of `text`, cut at each newline.
pub fn split_newlines(text: &str) -> (r: Vec<String>)
    ensures
        strings_view(r@) == split_lines(text@),
{
    let n = text.unicode_len();
    let mut done: Vec<String> = Vec::new();
    let mut current = String::new();
    let mut i: usize = 0;
    assert(text@.take(0) =~= Seq::<char>::empty());
    while i < n
        invariant
            n == text@.len(),
            i <= n,
            strings_view(done@).push(current@) == split_lines(text@.take(i as int)),
        decreases n - i,
    {
        let c = text.get_char(i);
        proof {
            assert(text@.take(i + 1).drop_last() =~= text@.take(i as int));
            assert(text@.take(i + 1).last() == c);
            lemma_split_lines_nonempty(text@.take(i as int));
        }
        if c == '\n' {
            let ghost before = done@;
            let line = current;
            done.push(line);
            current = String::new();
            assert(strings_view(done@) =~= strings_view(before).push(line@));
            assert(strings_view(done@).push(current@) =~= split_lines(text@.take(i + 1)));
        } else {
            let ghost old_current = current@;
            let mut piece = String::new();
            piece.append(text.substring_char(i, i + 1));
            assert(piece@ =~= seq![c]);
            current.append(piece.as_str());
            assert(current@ =~= old_current.push(c));
            assert(strings_view(done@).push(current@) =~= split_lines(text@.take(i + 1)));
        }
        i = i + 1;
    }
    assert(text@.take(n as int) =~= text@);
    let ghost before = done@;
    done.push(current);
    assert(strings_view(done@) =~= strings_view(before).push(done@.last()@));
    done
}

/// The launch profile names in the text of a `launchSettings.json`: the names on lines that
/// open a profile and do not mention environment variables, in file order.
pub fn get_launch_setting_names(settings: &str) -> (r: Result<Vec<String>, DotnetError>)
    ensures
        regex_compiles(launch_settings_pattern()) && regex_compiles(env_var_pattern()) ==> (r matches Ok(v)
            && strings_view(v@) == split_lines(settings@).filter_map(
            |l: Seq<char>| launch_profile_of(l),
        )),
        !(regex_compiles(launch_settings_pattern()) && regex_compiles(env_var_pattern())) ==> (r matches Err(e)
            && e is InvalidPattern),
{
    let regex = lauch_settings_regex()?;
    let env_regex = env_var_regex()?;
    let lines = split_newlines(settings);
    let ghost lv = strings_view(lines@);
    let ghost f = |l: Seq<char>| launch_profile_of(l);
    let n = lines.len();
    let mut names: Vec<String> = Vec::new();
    let mut i: usize = 0;
    while i < n
        invariant
            n == lines@.len(),
            lv == strings_view(lines@),
            regex.pattern() == launch_settings_pattern(),
            env_regex.pattern() == env_var_pattern(),
            forall|l: Seq<char>| #[trigger] f(l) == launch_profile_of(l),
            i <= n,
            strings_view(names@) == lv.take(i as int).filter_map(f),
        decreases n - i,
    {
        let line = lines[i].as_str();
        proof {
            lv.lemma_filter_map_take_succ(f, i as int);
            assert(lv[i as int] == line@);
        }
        if regex.matches(line) && !env_regex.matches(line) {
            match regex.named_group(line, "lsn") {
                Some(name) => {
                    let ghost before = names@;
                    names.push(name);
                    assert(strings_view(names@) =~= strings_view(before).push(names@.last()@));
                },
                None => {},
            }
        }
        i = i + 1;
    }
    assert(lv.take(n as int) =~= lv);
    Ok(names)
}

/// The .NET helper.
pub struct DotnetPlugin;

/// The .NET helper's command.
pub struct DotnetCommand {
    pub command: DotnetSubcommands,
}

pub enum DotnetSubcommands {
    /// Runs a project with a chosen launch profile.
    Run { additional_params: Option<String>, dry_run: bool },
}

/// The arguments of `dotnet run` for a launch profile, then the extra parameters if any.
pub fn dotnet_run_args(launch_setting_name: &str, additional_params: Option<String>) -> (r: Vec<
    String,
>)
    ensures
        r@.len() == if additional_params is Some {
            2int
        } else {
            1int
        },
        r@[0]@ == "--launch-profile '"@ + launch_setting_name@ + "'"@,
        additional_params matches Some(p) ==> r@[1] == p,
{
    let mut first = String::from_str("--launch-profile '");
    first.append(launch_setting_name);
    first.append("'");
    let mut args: Vec<String> = Vec::new();
    args.push(first);
    if let Some(p) = additional_params {
        args.push(p);
    }
    args
}

/// The check of the .NET SDK, given whether `dotnet --version` could be run.
pub fn dotnet_check(ran: bool) -> (r: Result<DoctorSuccess, DoctorFailure>)
    ensures
        ran ==> (r matches Ok(s) && s.plugin@ == "dotnet"@ && s.message@ == "dotnet is installed"@),
        !ran ==> (r matches Err(f) && f.plugin@ == "dotnet"@ && f.message@
            == "Dotnet is not available. Make sure it is installed"@ && f.fix is None),
{
    if ran {
        Ok(
            DoctorSuccess {
                message: String::from_str("dotnet is installed"),
                plugin: String::from_str("dotnet"),
            },
        )
    } else {
        Err(
            DoctorFailure {
                message: String::from_str("Dotnet is not available. Make sure it is installed"),
                plugin: String::from_str("dotnet"),
                fix: None,
            },
        )
    }
}

} // verus!
