//! File-system paths as text, joined the way `PathBuf::join` joins them on
//! Unix, and the paths the bar resolves from its environment.

use vstd::prelude::*;
use crate::text::{chars_of, str_concat, push_char};

verus! {

broadcast use vstd::string::group_string_axioms;

/// `base` joined with `rel` (`Path::join` on Unix): an absolute `rel`
/// replaces `base`; otherwise a `'/'` separates them unless `base` is empty
/// or already ends with one.
pub open spec fn join_path(base: Seq<char>, rel: Seq<char>) -> Seq<char> {
    if rel.len() > 0 && rel[0] == '/' {
        rel
    } else if base.len() > 0 && base.last() != '/' {
        base.push('/') + rel
    } else {
        base + rel
    }
}

/// Joins `rel` onto `base` (`Path::join` on Unix).
pub fn join(base: &str, rel: &str) -> (r: String)
    ensures
        r@ == join_path(base@, rel@),
{
    let rv = chars_of(rel);
    if rv.len() > 0 && rv[0] == '/' {
        return rel.to_string();
    }
    let bv = chars_of(base);
    if bv.len() > 0 && bv[bv.len() - 1] != '/' {
        let mut b = base.to_string();
        push_char(&mut b, '/');
        str_concat(b.as_str(), rel)
    } else {
        str_concat(base, rel)
    }
}

/// The path of Hyprland's event socket for a runtime directory and an
/// instance signature: `<runtime>/hypr/<signature>/.socket2.sock`.
pub open spec fn spec_event_socket_path(runtime_dir: Seq<char>, signature: Seq<char>) -> Seq<char> {
    join_path(join_path(join_path(runtime_dir, "hypr"@), signature), ".socket2.sock"@)
}

/// The path of Hyprland's event socket (from `XDG_RUNTIME_DIR` and
/// `HYPRLAND_INSTANCE_SIGNATURE`).
pub fn event_socket_path(runtime_dir: &str, signature: &str) -> (r: String)
    ensures
        r@ == spec_event_socket_path(runtime_dir@, signature@),
{
    let a = join(runtime_dir, "hypr");
    let b = join(a.as_str(), signature);
    join(b.as_str(), ".socket2.sock")
}

/// Where a file of the bar's configuration lives: the path named by its
/// environment variable if that is set, else `rel` under the user's
/// configuration directory, else under `"."`.
pub open spec fn spec_config_file(
    env_override: Option<Seq<char>>,
    config_dir: Option<Seq<char>>,
    rel: Seq<char>,
) -> Seq<char> {
    match env_override {
        Some(p) => p,
        None => match config_dir {
            Some(d) => join_path(d, rel),
            None => join_path("."@, rel),
        },
    }
}

/// Resolves a configuration file path (`SGS_CONFIG` / `SGS_CSS`, else the
/// configuration directory, else the working directory).
pub fn config_file(env_override: Option<String>, config_dir: Option<String>, rel: &str) -> (r: String)
    ensures
        r@ == spec_config_file(
            match env_override { Some(p) => Some(p@), None => None },
            match config_dir { Some(d) => Some(d@), None => None },
            rel@,
        ),
{
    match env_override {
        Some(p) => p,
        None => match config_dir {
            Some(d) => join(d.as_str(), rel),
            None => join(".", rel),
        },
    }
}

/// The Lua configuration script: `SGS_CONFIG`, else `sgs/init.lua` under the
/// configuration directory.
pub fn config_path(env_override: Option<String>, config_dir: Option<String>) -> (r: String)
    ensures
        r@ == spec_config_file(
            match env_override { Some(p) => Some(p@), None => None },
            match config_dir { Some(d) => Some(d@), None => None },
            "sgs/init.lua"@,
        ),
{
    config_file(env_override, config_dir, "sgs/init.lua")
}

/// The style sheet: `SGS_CSS`, else `sgs/style.css` under the configuration
/// directory.
pub fn css_path(env_override: Option<String>, config_dir: Option<String>) -> (r: String)
    ensures
        r@ == spec_config_file(
            match env_override { Some(p) => Some(p@), None => None },
            match config_dir { Some(d) => Some(d@), None => None },
            "sgs/style.css"@,
        ),
{
    config_file(env_override, config_dir, "sgs/style.css")
}

/// Joining a relative path that does not start with `'/'` onto a base that
/// ends with `'/'` concatenates them, and an absolute path replaces the base.
pub proof fn law_join_path(base: Seq<char>, rel: Seq<char>)
    ensures
        rel.len() > 0 && rel[0] == '/' ==> join_path(base, rel) == rel,
        !(rel.len() > 0 && rel[0] == '/') && base.len() > 0 && base.last() == '/'
            ==> join_path(base, rel) == base + rel,
        !(rel.len() > 0 && rel[0] == '/') ==> has_suffix(join_path(base, rel), rel),
{
    if !(rel.len() > 0 && rel[0] == '/') {
        let j = join_path(base, rel);
        let pre = if base.len() > 0 && base.last() != '/' { base.push('/') } else { base };
        assert(j == pre + rel);
        assert(j.skip(j.len() - rel.len()) =~= rel);
    }
}

/// Whether `s` ends with `t`.
pub open spec fn has_suffix(s: Seq<char>, t: Seq<char>) -> bool {
    t.len() <= s.len() && s.skip(s.len() - t.len()) == t
}

/// The event socket of a Hyprland instance lies at
/// `<runtime>/hypr/<signature>/.socket2.sock` for a runtime directory given
/// without a trailing `'/'` and a relative signature without one.
pub proof fn law_event_socket_path(runtime_dir: Seq<char>, signature: Seq<char>)
    requires
        runtime_dir.len() > 0,
        runtime_dir.last() != '/',
        signature.len() > 0,
        signature[0] != '/',
        signature.last() != '/',
    ensures
        spec_event_socket_path(runtime_dir, signature) == runtime_dir + "/hypr/"@ + signature
            + "/.socket2.sock"@,
{
    reveal_strlit("hypr");
    reveal_strlit("/hypr");
    reveal_strlit("/hypr/");
    reveal_strlit(".socket2.sock");
    reveal_strlit("/.socket2.sock");
    let a = join_path(runtime_dir, "hypr"@);
    assert(a =~= runtime_dir + "/hypr"@);
    let b = join_path(a, signature);
    assert(a.last() == 'r');
    assert(b =~= runtime_dir + "/hypr/"@ + signature);
    assert(b.last() == signature.last());
    let c = join_path(b, ".socket2.sock"@);
    assert(c =~= runtime_dir + "/hypr/"@ + signature + "/.socket2.sock"@);
}

/// A configuration file named in the environment is taken as it is; else a
/// relative file lies under the configuration directory, else under the
/// working directory `"."`.
pub proof fn law_config_file(path: Seq<char>, dir: Seq<char>, rel: Seq<char>, any_dir: Option<
    Seq<char>,
>)
    requires
        dir.len() > 0,
        dir.last() != '/',
        rel.len() == 0 || rel[0] != '/',
    ensures
        spec_config_file(Some(path), any_dir, rel) == path,
        spec_config_file(None, Some(dir), rel) == dir + seq!['/'] + rel,
        spec_config_file(None, None, rel) == "./"@ + rel,
{
    reveal_strlit(".");
    reveal_strlit("./");
    assert(dir.push('/') + rel =~= dir + seq!['/'] + rel);
    assert("."@.push('/') + rel =~= "./"@ + rel);
}

} // verus!

