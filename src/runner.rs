//! The decisions of one invocation: which argument names the source, which
//! backend runs it, where the cache lives, and what a finished build reports.

use vstd::prelude::*;
use crate::error::RunError;

verus! {

/// Name of the persistent cache directory under the cache base.
pub const CACHE_DIR: &'static str = ".run_cache";

/// Subdirectory of the cache that holds downloaded registry data.
pub const REGISTRY_DIR: &'static str = "registry";

/// Subdirectory of the cache that holds compiled build artifacts.
pub const TARGET_DIR: &'static str = "target";

/// How a source file is run.
#[derive(Debug, Clone, Copy, PartialEq, Eq, Structural)]
pub enum Language {
    /// Staged in a scratch project, built and run (`.rs`).
    Rust,
    /// Handed straight to the interpreter (`.py`).
    Python,
}

/// The language an extension selects, if any; the match is exact and
/// case-sensitive.
pub open spec fn language_for(ext: Seq<char>) -> Option<Language> {
    if ext == "rs"@ {
        Some(Language::Rust)
    } else if ext == "py"@ {
        Some(Language::Python)
    } else {
        None
    }
}

/// The extension of a path's final component, as the platform's path rules
/// find it, or `None` where it has none.
pub uninterp spec fn path_extension(path: Seq<char>) -> Option<Seq<char>>;

/// Relies on `std::path::Path::extension` (with `OsStr::to_str`, which cannot
/// fail on text that came from a `&str`): the result depends on the path text
/// alone.
#[verifier::external_body]
fn extension_of(path: &str) -> (r: Option<String>)
    ensures
        match r {
            Some(e) => path_extension(path@) == Some(e@),
            None => path_extension(path@) is None,
        },
{
    std::path::Path::new(path).extension().and_then(|e| e.to_str()).map(|e| e.to_string())
}

/// The source path of a command line `[program, path]`; any other number of
/// arguments is a usage error.
pub fn source_argument(args: &Vec<String>) -> (r: Result<String, RunError>)
    ensures
        args@.len() == 2 ==> (r matches Ok(p) && p@ == args@[1]@),
        args@.len() != 2 ==> r matches Err(RunError::Usage),
{
    if args.len() == 2 {
        Ok(args[1].clone())
    } else {
        Err(RunError::Usage)
    }
}

/// The language selected by an extension; any other extension fails with
/// `RunError::UnsupportedExtension` holding it.
pub fn classify_extension(ext: &str) -> (r: Result<Language, RunError>)
    ensures
        match language_for(ext@) {
            Some(l) => r == Ok::<Language, RunError>(l),
            None => r matches Err(RunError::UnsupportedExtension(e)) && e@ == ext@,
        },
{
    let e = String::from_str(ext);
    if e == String::from_str("rs") {
        Ok(Language::Rust)
    } else if e == String::from_str("py") {
        Ok(Language::Python)
    } else {
        Err(RunError::UnsupportedExtension(e))
    }
}

/// The language a source path is run as. A path whose extension is unknown,
/// or that has none, fails with `RunError::UnsupportedExtension`, holding the
/// extension or an empty text; either way nothing has been run.
pub fn language_of(path: &str) -> (r: Result<Language, RunError>)
    ensures
        match path_extension(path@) {
            None => (r matches Err(RunError::UnsupportedExtension(e)) && e@.len() == 0),
            Some(x) => match language_for(x) {
                Some(l) => r == Ok::<Language, RunError>(l),
                None => r matches Err(RunError::UnsupportedExtension(e)) && e@ == x,
            },
        },
{
    match extension_of(path) {
        Some(e) => classify_extension(e.as_str()),
        None => Err(RunError::UnsupportedExtension(String::new())),
    }
}

/// The base directory of the cache: the home directory where one is known,
/// else the current directory.
pub fn cache_base(home: Option<String>) -> (r: String)
    ensures
        r@ == match home {
            Some(h) => h@,
            None => "."@,
        },
{
    match home {
        Some(h) => h,
        None => String::from_str("."),
    }
}

/// The characters with the Unicode `White_Space` property.
pub open spec fn is_white_space(c: char) -> bool {
    let u = c as u32;
    (0x9 <= u <= 0xd) || u == 0x20 || u == 0x85 || u == 0xa0 || u == 0x1680 || (0x2000 <= u
        <= 0x200a) || u == 0x2028 || u == 0x2029 || u == 0x202f || u == 0x205f || u == 0x3000
}

/// `s` without its trailing white space.
pub open spec fn trim_trailing(s: Seq<char>) -> Seq<char>
    decreases s.len(),
{
    if s.len() > 0 && is_white_space(s.last()) {
        trim_trailing(s.drop_last())
    } else {
        s
    }
}

/// Whether `c` has the Unicode `White_Space` property.
pub fn is_white_space_char(c: char) -> (r: bool)
    ensures
        r == is_white_space(c),
{
    let u = c as u32;
    (0x9 <= u && u <= 0xd) || u == 0x20 || u == 0x85 || u == 0xa0 || u == 0x1680 || (0x2000 <= u
        && u <= 0x200a) || u == 0x2028 || u == 0x2029 || u == 0x202f || u == 0x205f || u == 0x3000
}

/// `s` without its trailing white space.
pub fn trim_end(s: &str) -> (r: String)
    ensures
        r@ == trim_trailing(s@),
{
    let mut n: usize = s.unicode_len();
    assert(s@.subrange(0, n as int) =~= s@);
    loop
        invariant
            n <= s@.len(),
            trim_trailing(s@) == trim_trailing(s@.subrange(0, n as int)),
        ensures
            n <= s@.len(),
            trim_trailing(s@) == s@.subrange(0, n as int),
        decreases n,
    {
        if n == 0 {
            break;
        }
        if !is_white_space_char(s.get_char(n - 1)) {
            assert(s@.subrange(0, n as int).last() == s@[n - 1]);
            break;
        }
        assert(s@.subrange(0, n as int).drop_last() =~= s@.subrange(0, n - 1));
        n = n - 1;
    }
    String::from_str(s.substring_char(0, n))
}

/// What a finished build-and-run reports: on success its standard output
/// without trailing white space, which is what gets printed; on failure a
/// `RunError::Process` that carries its standard error.
pub fn build_outcome(success: bool, stdout: &str, stderr: &str) -> (r: Result<String, RunError>)
    ensures
        success ==> (r matches Ok(out) && out@ == trim_trailing(stdout@)),
        !success ==> (r matches Err(RunError::Process(m)) && m@ == stderr@),
{
    if success {
        Ok(trim_end(stdout))
    } else {
        Err(RunError::Process(String::from_str(stderr)))
    }
}

/// The exit status of an invocation: 0 on success, 1 on any failure.
pub fn exit_status(r: &Result<(), RunError>) -> (c: i32)
    ensures
        c == (if r is Ok { 0i32 } else { 1i32 }),
{
    if r.is_ok() {
        0
    } else {
        1
    }
}

} // verus!
