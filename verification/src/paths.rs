//! File names under the configuration and data directories. The
//! directories themselves are resolved by the host platform.

use vstd::prelude::*;

use crate::config::ServiceId;
use crate::text::join2;

verus! {

/// The configuration file's name.
pub const CONFIG_FILE_NAME: &'static str = "config.toml";

/// The persisted state's file name.
pub const STATE_FILE_NAME: &'static str = "state.json";

/// The directory (under the data directory) holding cached icons and
/// installed icon overrides.
pub const ICONS_DIR_NAME: &'static str = "icons";

/// A single relative path component: not empty, not `.` or `..`, no
/// separator, no drive or root marker.
pub open spec fn plain_component(s: Seq<char>) -> bool {
    &&& s.len() > 0
    &&& s != "."@
    &&& s != ".."@
    &&& forall|i: int| 0 <= i < s.len() ==> #[trigger] s[i] != '/' && s[i] != '\\' && s[i] != ':'
}

/// A Windows verbatim path (`\\?\...`), which `PathBuf::push`
/// normalizes when it joins onto it.
pub open spec fn verbatim(base: Seq<char>) -> bool {
    "\\\\?\\"@.is_prefix_of(base)
}

/// A verbatim path, or a start of the verbatim marker that a join could
/// complete into one.
pub open spec fn near_verbatim(base: Seq<char>) -> bool {
    verbatim(base) || base.is_prefix_of("\\\\?\\"@)
}

/// Joining onto a base that is not near a verbatim path cannot produce a
/// verbatim path.
proof fn lemma_not_verbatim_after(base: Seq<char>, joined: Seq<char>)
    requires
        !near_verbatim(base),
        base.is_prefix_of(joined),
    ensures
        !verbatim(joined),
{
    let v = "\\\\?\\"@;
    if verbatim(joined) {
        if base.len() <= v.len() {
            assert(base =~= v.subrange(0, base.len() as int)) by {
                assert forall|i: int| 0 <= i < base.len() implies base[i] == v[i] by {
                    assert(base[i] == joined[i]);
                    assert(v[i] == joined[i]);
                }
            }
        } else {
            assert(v =~= base.subrange(0, v.len() as int)) by {
                assert forall|i: int| 0 <= i < v.len() implies v[i] == base[i] by {
                    assert(base[i] == joined[i]);
                    assert(v[i] == joined[i]);
                }
            }
        }
    }
}

/// `std::path::Path::new(base).join(part)`, as text. Joining a plain
/// component (never `.` or `..`) ends with `part`; onto a base that is not
/// a verbatim path (which `push` would normalize) it also keeps all of
/// `base` in front. The separator put between them is the platform's, so
/// nothing more is stated.
#[verifier::external_body]
fn path_join(base: &str, part: &str) -> (r: String)
    requires
        plain_component(part@),
    ensures
        r@.len() >= part@.len(),
        r@.subrange(r@.len() - part@.len(), r@.len() as int) == part@,
        !verbatim(base@) ==> base@.is_prefix_of(r@) && r@.len() >= base@.len() + part@.len(),
{
    std::path::Path::new(base).join(part).to_string_lossy().into_owned()
}

proof fn lemma_name_is_plain(s: Seq<char>)
    requires
        s == CONFIG_FILE_NAME@ || s == STATE_FILE_NAME@ || s == ICONS_DIR_NAME@,
    ensures
        plain_component(s),
{
    reveal_strlit("config.toml");
    reveal_strlit("state.json");
    reveal_strlit("icons");
    reveal_strlit(".");
    reveal_strlit("..");
}

/// `<id><ext>` for a valid service id and a `.png`/`.src` extension is a
/// plain component.
fn id_file_name(id: &ServiceId, ext: &str) -> (s: String)
    requires
        ext@ == ".png"@ || ext@ == ".src"@,
    ensures
        s@ == id@ + ext@,
        plain_component(s@),
{
    let text = id.as_str();
    let s = join2(text, ext);
    proof {
        reveal_strlit(".png");
        reveal_strlit(".src");
        reveal_strlit(".");
        reveal_strlit("..");
        assert(s@.len() >= 4);
        assert forall|i: int| 0 <= i < s@.len() implies #[trigger] s@[i] != '/' && s@[i] != '\\' && s@[i] != ':' by {
            if i < text@.len() {
                assert(s@[i] == text@[i]);
                assert(crate::config::is_id_char(text@[i]));
            } else {
                assert(s@[i] == ext@[i - text@.len()]);
            }
        }
    }
    s
}

/// The configuration file inside configuration directory `dir`.
pub fn config_file(dir: &str) -> (p: String)
    ensures
        !verbatim(dir@) ==> dir@.is_prefix_of(p@),
        p@.subrange(p@.len() - CONFIG_FILE_NAME@.len(), p@.len() as int) == CONFIG_FILE_NAME@,
{
    proof {
        lemma_name_is_plain(CONFIG_FILE_NAME@);
    }
    path_join(dir, CONFIG_FILE_NAME)
}

/// The state file inside data directory `dir`.
pub fn state_file(dir: &str) -> (p: String)
    ensures
        !verbatim(dir@) ==> dir@.is_prefix_of(p@),
        p@.subrange(p@.len() - STATE_FILE_NAME@.len(), p@.len() as int) == STATE_FILE_NAME@,
{
    proof {
        lemma_name_is_plain(STATE_FILE_NAME@);
    }
    path_join(dir, STATE_FILE_NAME)
}

/// `<data_dir>/icons`.
pub fn icons_dir(data_dir: &str) -> (p: String)
    ensures
        !verbatim(data_dir@) ==> data_dir@.is_prefix_of(p@),
        p@.subrange(p@.len() - ICONS_DIR_NAME@.len(), p@.len() as int) == ICONS_DIR_NAME@,
{
    proof {
        lemma_name_is_plain(ICONS_DIR_NAME@);
    }
    path_join(data_dir, ICONS_DIR_NAME)
}

/// `<data_dir>/icons/<id>.png`: the service's cached icon.
pub fn icon_cache_file(data_dir: &str, id: &ServiceId) -> (p: String)
    ensures
        !near_verbatim(data_dir@) ==> data_dir@.is_prefix_of(p@),
        p@.subrange(p@.len() - (id@.len() + 4), p@.len() as int) == id@ + ".png"@,
{
    let dir = icons_dir(data_dir);
    let name = id_file_name(id, ".png");
    let p = path_join(dir.as_str(), name.as_str());
    proof {
        reveal_strlit(".png");
        if !near_verbatim(data_dir@) {
            lemma_not_verbatim_after(data_dir@, dir@);
            assert(data_dir@.is_prefix_of(p@)) by {
                assert(p@.take(data_dir@.len() as int) =~= dir@.take(data_dir@.len() as int));
            }
        }
    }
    p
}

/// `icons/<id>.src`, relative to the data directory: where a user's icon
/// file is installed, and the value recorded for it in the configuration.
pub fn icon_override_relative_path(id: &ServiceId) -> (p: String)
    ensures
        ICONS_DIR_NAME@.is_prefix_of(p@),
        p@.subrange(p@.len() - (id@.len() + 4), p@.len() as int) == id@ + ".src"@,
{
    let name = id_file_name(id, ".src");
    proof {
        reveal_strlit(".src");
        reveal_strlit("icons");
        reveal_strlit("\\\\?\\");
        assert(ICONS_DIR_NAME@[0] != "\\\\?\\"@[0]);
        assert(!verbatim(ICONS_DIR_NAME@));
    }
    path_join(ICONS_DIR_NAME, name.as_str())
}

/// `<data_dir>/icons/<id>.src`: the installed icon override file.
pub fn icon_override_file(data_dir: &str, id: &ServiceId) -> (p: String)
    ensures
        !near_verbatim(data_dir@) ==> data_dir@.is_prefix_of(p@),
        p@.subrange(p@.len() - (id@.len() + 4), p@.len() as int) == id@ + ".src"@,
{
    let dir = icons_dir(data_dir);
    let name = id_file_name(id, ".src");
    let p = path_join(dir.as_str(), name.as_str());
    proof {
        reveal_strlit(".src");
        if !near_verbatim(data_dir@) {
            lemma_not_verbatim_after(data_dir@, dir@);
            assert(data_dir@.is_prefix_of(p@)) by {
                assert(p@.take(data_dir@.len() as int) =~= dir@.take(data_dir@.len() as int));
            }
        }
    }
    p
}

} // verus!
