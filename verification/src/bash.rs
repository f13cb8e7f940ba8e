//! Where `bash.exe` is looked for on Windows, so the POSIX `ani-cli`
//! script can be driven without a manual shell setup.

use vstd::prelude::*;

use crate::error::AniError;
use crate::text::{concat2, owned, strings_view};

verus! {

broadcast use vstd::string::group_string_axioms;

/// `v` or, when absent, `default`.
pub open spec fn or_default(v: Option<String>, default: Seq<char>) -> Seq<char> {
    match v {
        Some(s) => s@,
        None => default,
    }
}

/// The probe list: Git for Windows under `%ProgramFiles%` and
/// `%ProgramFiles(x86)%` (with the usual install roots when those are
/// unset), then the scoop install under `%USERPROFILE%` when it is set.
pub open spec fn bash_candidates(
    program_files: Option<String>,
    program_files_x86: Option<String>,
    user_profile: Option<String>,
) -> Seq<Seq<char>> {
    let first = seq![
        or_default(program_files, "C:\\Program Files"@) + "\\Git\\bin\\bash.exe"@,
        or_default(program_files_x86, "C:\\Program Files (x86)"@) + "\\Git\\bin\\bash.exe"@,
    ];
    match user_profile {
        Some(h) => first.push(h@ + "\\scoop\\apps\\git\\current\\bin\\bash.exe"@),
        None => first,
    }
}

/// Ordered candidate paths for `bash.exe`, given the values of the
/// `ProgramFiles`, `ProgramFiles(x86)` and `USERPROFILE` variables.
pub fn windows_bash_candidate_paths(
    program_files: Option<String>,
    program_files_x86: Option<String>,
    user_profile: Option<String>,
) -> (r: Vec<String>)
    ensures
        strings_view(r@) == bash_candidates(program_files, program_files_x86, user_profile),
{
    let mut out: Vec<String> = Vec::new();
    let pf = match &program_files {
        Some(s) => owned(s.as_str()),
        None => owned("C:\\Program Files"),
    };
    out.push(concat2(pf.as_str(), "\\Git\\bin\\bash.exe"));
    let pf86 = match &program_files_x86 {
        Some(s) => owned(s.as_str()),
        None => owned("C:\\Program Files (x86)"),
    };
    out.push(concat2(pf86.as_str(), "\\Git\\bin\\bash.exe"));
    match &user_profile {
        Some(h) => {
            out.push(concat2(h.as_str(), "\\scoop\\apps\\git\\current\\bin\\bash.exe"));
        },
        None => {},
    }
    assert(strings_view(out@) =~= bash_candidates(program_files, program_files_x86, user_profile));
    out
}

/// The first candidate for which `is_file` answered `true`; every earlier
/// candidate got `false`. `None` when every answer was `false`.
pub fn pick_first_existing<F: Fn(&String) -> bool>(candidates: &[String], is_file: F) -> (r: Option<
    String,
>)
    requires
        forall|i: int| 0 <= i < candidates@.len() ==> is_file.requires((&candidates@[i],)),
    ensures
        match r {
            Some(p) => exists|i: int|
                0 <= i < candidates@.len() && p@ == candidates@[i]@ && is_file.ensures(
                    (&candidates@[i],),
                    true,
                ) && forall|j: int| 0 <= j < i ==> is_file.ensures((&candidates@[j],), false),
            None => forall|j: int|
                0 <= j < candidates@.len() ==> is_file.ensures((&candidates@[j],), false),
        },
{
    let mut i: usize = 0;
    while i < candidates.len()
        invariant
            i <= candidates.len(),
            forall|k: int| 0 <= k < candidates@.len() ==> is_file.requires((&candidates@[k],)),
            forall|j: int| 0 <= j < i ==> is_file.ensures((&candidates@[j],), false),
        decreases candidates.len() - i,
    {
        let hit = is_file(&candidates[i]);
        if hit {
            let p = candidates[i].clone();
            assert(p@ == candidates@[i as int]@);
            return Some(p);
        }
        i = i + 1;
    }
    None
}

/// The `bash` to drive the script with: none where the script runs by its
/// shebang; on Windows the located `bash.exe`, or `BashMissing`.
pub fn resolve_bash_path(needs_bash: bool, located: Option<String>) -> (r: Result<Option<String>, AniError>)
    ensures
        !needs_bash ==> r matches Ok(None),
        needs_bash ==> match located {
            Some(p) => r matches Ok(Some(x)) && x@ == p@,
            None => r matches Err(AniError::BashMissing),
        },
{
    if !needs_bash {
        return Ok(None);
    }
    match located {
        Some(p) => Ok(Some(p)),
        None => Err(AniError::BashMissing),
    }
}

/// How the script is started: through `bash.exe` with the script as its
/// first argument where bash is needed (Windows), else the script itself
/// with no argument.
pub fn anicli_invocation(needs_bash: bool, ani_cli_path: &str, bash_path: Option<&str>) -> (r: (
    String,
    Vec<String>,
))
    requires
        needs_bash ==> bash_path is Some,
    ensures
        needs_bash ==> (bash_path matches Some(b) && r.0@ == b@ && strings_view(r.1@) == seq![
            ani_cli_path@,
        ]),
        !needs_bash ==> r.0@ == ani_cli_path@ && r.1@.len() == 0,
{
    if needs_bash {
        match bash_path {
            Some(b) => {
                let args = vec![owned(ani_cli_path)];
                assert(strings_view(args@) =~= seq![ani_cli_path@]);
                (owned(b), args)
            },
            None => (owned(ani_cli_path), Vec::new()),
        }
    } else {
        (owned(ani_cli_path), Vec::new())
    }
}

} // verus!
