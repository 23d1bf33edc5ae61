//! Format dispatch and INI section extraction.

use vstd::prelude::*;

verus! {

/// The extension token of a path: the characters after the last `'.'`.
/// A path without a dot is its own extension token, and a path ending in
/// `'.'` has the empty token.
pub open spec fn extension_of(path: Seq<char>) -> Seq<char>
    decreases path.len(),
{
    if path.len() == 0 {
        path
    } else if path[path.len() - 1] == '.' {
        Seq::empty()
    } else {
        extension_of(path.drop_last()).push(path[path.len() - 1])
    }
}

/// The extension token is the suffix that starts right after the last dot,
/// or the whole path when it holds no dot.
proof fn lemma_extension_is_suffix(path: Seq<char>, j: int)
    requires
        0 <= j <= path.len(),
        forall|k: int| j <= k < path.len() ==> path[k] != '.',
        j > 0 ==> path[j - 1] == '.',
    ensures
        extension_of(path) == path.subrange(j, path.len() as int),
    decreases path.len(),
{
    if j == path.len() {
        if j > 0 {
            assert(path[path.len() - 1] == '.');
            assert(extension_of(path) =~= path.subrange(j, path.len() as int));
        } else {
            assert(path.len() == 0);
            assert(extension_of(path) =~= path.subrange(0, 0));
        }
    } else {
        assert(path[path.len() - 1] != '.');
        lemma_extension_is_suffix(path.drop_last(), j);
        assert(extension_of(path) =~= path.subrange(j, path.len() as int));
    }
}

/// Computes the extension token of `path`.
fn extension_token(path: &str) -> (r: String)
    ensures
        r@ == extension_of(path@),
{
    let n: usize = path.unicode_len();
    let mut j: usize = n;
    while j > 0 && path.get_char(j - 1) != '.'
        invariant
            0 <= j <= n,
            n == path@.len(),
            forall|k: int| j <= k < n ==> path@[k] != '.',
        decreases j,
    {
        j = j - 1;
    }
    proof {
        lemma_extension_is_suffix(path@, j as int);
    }
    let token = path.substring_char(j, n);
    String::from_str(token)
}

/// The name of the reserved container section, never reported as an
/// achievement.
pub open spec fn reserved_section() -> Seq<char> {
    "steamachievements"@
}

fn reserved_section_str() -> (r: &'static str)
    ensures
        r@ == reserved_section(),
{
    "steamachievements"
}

/// A section qualifies as an achievement when it is named, its name is not
/// empty, and its name is not the reserved container section.
pub open spec fn section_kept(sec: Option<Seq<char>>) -> bool {
    &&& sec is Some
    &&& sec->Some_0.len() > 0
    &&& sec->Some_0 != reserved_section()
}

/// The achievement names among a document's sections, in document order:
/// every qualifying section name, and nothing else.
pub open spec fn achievement_names(secs: Seq<Option<Seq<char>>>) -> Seq<Seq<char>>
    decreases secs.len(),
{
    if secs.len() == 0 {
        Seq::empty()
    } else if section_kept(secs.last()) {
        achievement_names(secs.drop_last()).push(secs.last()->Some_0)
    } else {
        achievement_names(secs.drop_last())
    }
}

/// Every reported achievement name is nonempty and differs from the reserved
/// section name.
pub proof fn lemma_achievement_names_kept(secs: Seq<Option<Seq<char>>>)
    ensures
        forall|i: int|
            0 <= i < achievement_names(secs).len() ==> achievement_names(secs)[i].len() > 0
                && achievement_names(secs)[i] != reserved_section(),
    decreases secs.len(),
{
    if secs.len() > 0 {
        lemma_achievement_names_kept(secs.drop_last());
        let rest = achievement_names(secs.drop_last());
        assert forall|i: int|
            0 <= i < achievement_names(secs).len() implies achievement_names(secs)[i].len() > 0
            && achievement_names(secs)[i] != reserved_section() by {
            if section_kept(secs.last()) {
                assert(achievement_names(secs) == rest.push(secs.last()->Some_0));
                if i < rest.len() {
                    assert(achievement_names(secs)[i] == rest[i]);
                } else {
                    assert(achievement_names(secs)[i] == secs.last()->Some_0);
                }
            } else {
                assert(achievement_names(secs)[i] == rest[i]);
            }
        }
    }
}

/// Filters a document's section list down to its achievement names,
/// preserving order.
pub fn collect_achievements(sections: &Vec<Option<String>>) -> (r: Vec<String>)
    ensures
        r.deep_view() == achievement_names(sections.deep_view()),
{
    let reserved: String = String::from_str(reserved_section_str());
    let mut out: Vec<String> = Vec::new();
    let ghost dv = sections.deep_view();
    let mut i: usize = 0;
    while i < sections.len()
        invariant
            0 <= i <= sections.len(),
            dv == sections.deep_view(),
            dv.len() == sections@.len(),
            reserved@ == reserved_section(),
            out.deep_view() == achievement_names(dv.take(i as int)),
        decreases sections.len() - i,
    {
        proof {
            assert(dv.take(i + 1).drop_last() =~= dv.take(i as int));
            assert(dv.take(i + 1).last() == dv[i as int]);
        }
        match &sections[i] {
            Some(name) => {
                if !name.as_str().is_empty() && *name != reserved {
                    let ghost prev = out.deep_view();
                    out.push(name.clone());
                    proof {
                        assert(out.deep_view() =~= prev.push(name@));
                    }
                }
            },
            None => {},
        }
        i = i + 1;
    }
    proof {
        assert(dv.take(sections@.len() as int) =~= dv);
    }
    out
}

/// The load-failure message starts with this prefix; the underlying
/// diagnostic follows it.
pub open spec fn load_failure_prefix() -> Seq<char> {
    "Failed to load INI file: "@
}

/// What a call of `parse_ini` may return: on success the achievement names
/// of some section list, so a list in which every name is nonempty and
/// differs from the reserved section name; on failure a message made of the
/// load-failure prefix and the underlying diagnostic.
pub open spec fn ini_parse_post(r: Result<Vec<String>, String>) -> bool {
    match r {
        Ok(names) => {
            &&& exists|secs: Seq<Option<Seq<char>>>|
                names.deep_view() == achievement_names(secs)
            &&& forall|i: int|
                0 <= i < names.deep_view().len() ==> names.deep_view()[i].len() > 0
                    && names.deep_view()[i] != reserved_section()
        },
        Err(msg) => exists|diag: Seq<char>| msg@ == load_failure_prefix() + diag,
    }
}

/// Loads the file at `filename` as INI text and returns its achievement
/// names in file order; a file that cannot be loaded or parsed yields the
/// prefixed diagnostic message. Which outcome occurs depends on what is on
/// disk, so the contract holds of every outcome.
pub fn parse_ini(filename: &str) -> (r: Result<Vec<String>, String>)
    ensures
        ini_parse_post(r),
{
    match crate::ini_load::load_ini_sections(filename) {
        Ok(sections) => {
            let names = collect_achievements(&sections);
            proof {
                assert(ini_parse_post(Ok(names))) by {
                    let secs = sections.deep_view();
                    assert(names.deep_view() == achievement_names(secs));
                    lemma_achievement_names_kept(secs);
                }
            }
            Ok(names)
        },
        Err(diag) => {
            let mut msg: String = String::from_str("Failed to load INI file: ");
            msg.append(diag.as_str());
            proof {
                assert(ini_parse_post(Err(msg))) by {
                    assert(msg@ == load_failure_prefix() + diag@);
                }
            }
            Err(msg)
        },
    }
}

/// What a call of `parse_file` must return, for a path with the given
/// characters: the INI extension defers to the INI parser's contract, the
/// JSON extension and every other extension fail with their fixed messages,
/// and no other outcome is allowed.
pub open spec fn parse_file_post(path: Seq<char>, r: Result<Vec<String>, String>) -> bool {
    if extension_of(path) == "ini"@ {
        ini_parse_post(r)
    } else if extension_of(path) == "json"@ {
        r matches Err(msg) && msg@ == "JSON parsing not implemented yet"@
    } else {
        r matches Err(msg) && msg@ == "Unsupported file format"@
    }
}

/// Determines the file's format from its extension token and extracts its
/// achievement section names: INI files are parsed, the JSON format is
/// recognized but unimplemented, and any other token is unsupported.
pub fn parse_file(filename: &str) -> (r: Result<Vec<String>, String>)
    ensures
        parse_file_post(filename@, r),
{
    let ext = extension_token(filename);
    if ext == String::from_str("ini") {
        parse_ini(filename)
    } else if ext == String::from_str("json") {
        Err(String::from_str("JSON parsing not implemented yet"))
    } else {
        Err(String::from_str("Unsupported file format"))
    }
}

/// Dispatch is deterministic away from the filesystem: for a path whose
/// extension token is not the INI format, any two results the contract
/// allows are failures carrying the same message. For the INI extension the
/// result depends on what is on disk, so equality of two calls' results is a
/// property of the unchanged file, not of this code.
pub proof fn lemma_dispatch_deterministic(
    path: Seq<char>,
    r1: Result<Vec<String>, String>,
    r2: Result<Vec<String>, String>,
)
    requires
        extension_of(path) != "ini"@,
        parse_file_post(path, r1),
        parse_file_post(path, r2),
    ensures
        r1 is Err,
        r2 is Err,
        r1->Err_0@ == r2->Err_0@,
{
}

} // verus!
