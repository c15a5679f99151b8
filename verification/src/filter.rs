//! Entry filtering: compiled glob patterns, the include-overrides-exclude
//! rule, and the guard that keeps the destination's own trash area out of a
//! destination scan.

use vstd::prelude::*;
use crate::config::Config;
use crate::error::KopyError;
use crate::pathutil::path_starts_with;

verus! {

/// Whether the glob pattern text compiles.
pub uninterp spec fn glob_pattern_ok(s: Seq<char>) -> bool;

/// The text a compiled pattern was built from.
pub uninterp spec fn pattern_text(p: glob::Pattern) -> Seq<char>;

/// Whether a path matches a glob pattern, as a function of the pattern's text
/// and the path alone.
pub uninterp spec fn glob_matches(pattern: Seq<char>, path: Seq<char>) -> bool;

#[verifier::external_type_specification]
#[verifier::external_body]
pub struct ExPattern(glob::Pattern);

/// Relies on glob::Pattern::new: compiling succeeds exactly on well-formed
/// pattern text, and the compiled pattern keeps that text (its `original`
/// field). A failure's position and message come back as plain values.
#[verifier::external_body]
fn compile_one(pattern: &String) -> (r: Result<glob::Pattern, (usize, String)>)
    ensures
        r is Ok <==> glob_pattern_ok(pattern@),
        r matches Ok(p) ==> pattern_text(p) == pattern@,
{
    match glob::Pattern::new(pattern.as_str()) {
        Ok(p) => Ok(p),
        Err(e) => Err((e.pos, e.msg.to_string())),
    }
}

/// Relies on glob::Pattern::matches: whether the path matches, a function of
/// the pattern's text and the path alone.
#[verifier::external_body]
fn pattern_matches(p: &glob::Pattern, path: &String) -> (r: bool)
    ensures
        r == glob_matches(pattern_text(*p), path@),
{
    p.matches(path.as_str())
}

/// Some pattern in the list matches the path.
pub open spec fn spec_any_match(patterns: Seq<glob::Pattern>, path: Seq<char>) -> bool {
    exists|i: int|
        0 <= i < patterns.len() && glob_matches(pattern_text(#[trigger] patterns[i]), path)
}

/// The filter decision for a path under compiled exclude and include lists:
/// kept unless an exclude pattern matches it and no include pattern does.
pub open spec fn spec_should_include(
    excludes: Seq<glob::Pattern>,
    includes: Seq<glob::Pattern>,
    path: Seq<char>,
) -> bool {
    !spec_any_match(excludes, path) || spec_any_match(includes, path)
}

fn any_match(patterns: &Vec<glob::Pattern>, path: &String) -> (r: bool)
    ensures
        r == spec_any_match(patterns@, path@),
{
    let n = patterns.len();
    let mut i: usize = 0;
    while i < n
        invariant
            i <= n,
            n == patterns@.len(),
            forall|k: int|
                0 <= k < i ==> !glob_matches(pattern_text(#[trigger] patterns@[k]), path@),
        decreases n - i,
    {
        if pattern_matches(&patterns[i], path) {
            return true;
        }
        i = i + 1;
    }
    false
}

/// Compile a list of pattern strings, or report the first bad one as a
/// configuration error.
pub fn compile_patterns(patterns: &Vec<String>) -> (r: Result<Vec<glob::Pattern>, KopyError>)
    ensures
        r is Ok <==> (forall|i: int|
            0 <= i < patterns@.len() ==> glob_pattern_ok(#[trigger] patterns@[i]@)),
        r matches Ok(v) ==> v@.len() == patterns@.len() && (forall|i: int|
            0 <= i < patterns@.len() ==> pattern_text(#[trigger] v@[i]) == patterns@[i]@),
        r matches Err(e) ==> e is Config,
{
    let mut out: Vec<glob::Pattern> = Vec::new();
    let n = patterns.len();
    let mut i: usize = 0;
    while i < n
        invariant
            i <= n,
            n == patterns@.len(),
            out@.len() == i,
            forall|k: int| 0 <= k < i ==> glob_pattern_ok(#[trigger] patterns@[k]@),
            forall|k: int| 0 <= k < i ==> pattern_text(#[trigger] out@[k]) == patterns@[k]@,
        decreases n - i,
    {
        match compile_one(&patterns[i]) {
            Ok(p) => {
                out.push(p);
            },
            Err((pos, msg)) => {
                let m = invalid_pattern_message("Invalid pattern '", &patterns[i], pos, &msg);
                return Err(KopyError::Config(m));
            },
        }
        i = i + 1;
    }
    Ok(out)
}

fn invalid_pattern_message(prefix: &str, pattern: &String, pos: usize, msg: &String) -> (r: String)
{
    let mut m = prefix.to_owned();
    m.append(pattern.as_str());
    m.append("': Pattern syntax error near position ");
    let p = crate::textutil::usize_to_string(pos);
    m.append(p.as_str());
    m.append(": ");
    m.append(msg.as_str());
    m
}

/// Whether a relative path is kept, under the rule that a matching include
/// pattern overrides a matching exclude pattern.
pub fn should_include_path(
    relative_path: &String,
    exclude_patterns: &Vec<glob::Pattern>,
    include_patterns: &Vec<glob::Pattern>,
) -> (r: bool)
    ensures
        r == spec_should_include(exclude_patterns@, include_patterns@, relative_path@),
{
    let excluded = any_match(exclude_patterns, relative_path);
    if !excluded {
        return true;
    }
    any_match(include_patterns, relative_path)
}

/// Whether an entry seen while scanning `root` is the destination's own trash
/// area: the root is the configured destination and the relative path lies
/// under `.kopy_trash`.
pub fn is_destination_internal_trash(
    root_path: &String,
    config: &Config,
    relative_path: &String,
) -> (r: bool)
    ensures
        r == (root_path@ == config.destination@ && path_starts_with(
            relative_path@,
            ".kopy_trash"@,
        )),
{
    let same_root = crate::textutil::str_eq(root_path.as_str(), config.destination.as_str());
    if !same_root {
        return false;
    }
    crate::pathutil::starts_with_path(relative_path.as_str(), ".kopy_trash")
}

impl Config {
    /// Check that every include and exclude pattern parses; the first bad one
    /// is reported as a configuration error.
    pub fn validate_patterns(&self) -> (r: Result<(), KopyError>)
        ensures
            r is Ok <==> ((forall|i: int|
                0 <= i < self.exclude_patterns@.len() ==> glob_pattern_ok(
                    #[trigger] self.exclude_patterns@[i]@,
                )) && (forall|i: int|
                0 <= i < self.include_patterns@.len() ==> glob_pattern_ok(
                    #[trigger] self.include_patterns@[i]@,
                ))),
            r matches Err(e) ==> e is Config,
    {
        let n = self.exclude_patterns.len();
        let mut i: usize = 0;
        while i < n
            invariant
                i <= n,
                n == self.exclude_patterns@.len(),
                forall|k: int|
                    0 <= k < i ==> glob_pattern_ok(#[trigger] self.exclude_patterns@[k]@),
            decreases n - i,
        {
            match compile_one(&self.exclude_patterns[i]) {
                Ok(_) => {},
                Err((pos, msg)) => {
                    let m = invalid_pattern_message(
                        "Invalid exclude pattern '",
                        &self.exclude_patterns[i],
                        pos,
                        &msg,
                    );
                    return Err(KopyError::Config(m));
                },
            }
            i = i + 1;
        }
        let n2 = self.include_patterns.len();
        let mut j: usize = 0;
        while j < n2
            invariant
                j <= n2,
                n2 == self.include_patterns@.len(),
                forall|k: int|
                    0 <= k < j ==> glob_pattern_ok(#[trigger] self.include_patterns@[k]@),
            decreases n2 - j,
        {
            match compile_one(&self.include_patterns[j]) {
                Ok(_) => {},
                Err((pos, msg)) => {
                    let m = invalid_pattern_message(
                        "Invalid include pattern '",
                        &self.include_patterns[j],
                        pos,
                        &msg,
                    );
                    return Err(KopyError::Config(m));
                },
            }
            j = j + 1;
        }
        Ok(())
    }
}

} // verus!
