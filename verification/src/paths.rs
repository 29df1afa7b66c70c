//! File paths as text: joining, the home directory, and the files under it.

use crate::error::{RolloutError, RolloutErrorView};
use crate::text::{
    ends_with, law_affixes, opt_text, same, starts_with, strip_prefix, without_prefix,
};
use vstd::prelude::*;

verus! {

/// The path `rel`, taken from the directory `base`.
///
/// An absolute `rel` stands for itself; otherwise the two are put together with one `/`.
pub open spec fn path_under(base: Seq<char>, rel: Seq<char>) -> Seq<char> {
    if "/"@.is_prefix_of(rel) {
        rel
    } else if base.len() == 0 || "/"@.is_suffix_of(base) {
        base + rel
    } else {
        base + "/"@ + rel
    }
}

/// The path `rel`, taken from the directory `base`.
pub fn join_path(base: &str, rel: &str) -> (r: String)
    ensures
        r@ == path_under(base@, rel@),
{
    if starts_with(rel, "/") {
        rel.to_owned()
    } else if base.unicode_len() == 0 || ends_with(base, "/") {
        base.to_owned().concat(rel)
    } else {
        base.to_owned().concat("/").concat(rel)
    }
}

/// The home directory, or why there is none.
pub open spec fn home_or_error(home: Option<Seq<char>>) -> Result<Seq<char>, RolloutErrorView> {
    match home {
        Some(h) => Ok(h),
        None => Err(RolloutErrorView::FleetConfig("$HOME not set"@)),
    }
}

/// A text or an error, as models.
pub open spec fn text_result(r: Result<String, RolloutError>) -> Result<Seq<char>, RolloutErrorView> {
    match r {
        Ok(s) => Ok(s@),
        Err(e) => Err(e@),
    }
}

/// The home directory, from the value of `HOME` where it is set.
pub fn home_dir(home: Option<&str>) -> (r: Result<String, RolloutError>)
    ensures
        text_result(r) == home_or_error(opt_text(home)),
{
    match home {
        Some(h) => Ok(h.to_owned()),
        None => Err(RolloutError::FleetConfig("$HOME not set".to_owned())),
    }
}

/// The file `rel` under the home directory, or why there is none.
pub open spec fn under_home(home: Option<Seq<char>>, rel: Seq<char>) -> Result<
    Seq<char>,
    RolloutErrorView,
> {
    match home_or_error(home) {
        Ok(h) => Ok(path_under(h, rel)),
        Err(e) => Err(e),
    }
}

/// The file `rel` under the home directory.
pub fn home_file(home: Option<&str>, rel: &str) -> (r: Result<String, RolloutError>)
    ensures
        text_result(r) == under_home(opt_text(home), rel@),
{
    match home_dir(home) {
        Ok(h) => Ok(join_path(h.as_str(), rel)),
        Err(e) => Err(e),
    }
}

/// The directory of the user's systemd units, `~/.config/systemd/user`.
pub fn systemd_user_dir(home: Option<&str>) -> (r: Result<String, RolloutError>)
    ensures
        text_result(r) == under_home(opt_text(home), ".config/systemd/user"@),
{
    home_file(home, ".config/systemd/user")
}

/// The path `p` with a leading `~` resolved to the home directory.
///
/// Only `~` alone and `~/` at the start stand for the home directory.
pub open spec fn tilde_expanded(p: Seq<char>, home: Option<Seq<char>>) -> Result<
    Seq<char>,
    RolloutErrorView,
> {
    match without_prefix(p, "~/"@) {
        Some(rest) => under_home(home, rest),
        None => if p == "~"@ {
            home_or_error(home)
        } else {
            Ok(p)
        },
    }
}

/// The path `p` with a leading `~` resolved to the home directory.
pub fn expand_tilde(p: &str, home: Option<&str>) -> (r: Result<String, RolloutError>)
    ensures
        text_result(r) == tilde_expanded(p@, opt_text(home)),
{
    match strip_prefix(p, "~/") {
        Some(rest) => home_file(home, rest),
        None => {
            if same(p, "~") {
                home_dir(home)
            } else {
                Ok(p.to_owned())
            }
        },
    }
}

/// Where a relative path is joined to a directory, the directory is a prefix of the result;
/// an absolute path is never moved.
pub proof fn law_path_under(base: Seq<char>, rel: Seq<char>)
    ensures
        "/"@.is_prefix_of(rel) ==> path_under(base, rel) == rel,
        !"/"@.is_prefix_of(rel) ==> base.is_prefix_of(path_under(base, rel)) && rel.is_suffix_of(
            path_under(base, rel),
        ),
{
}

/// Exactly one `/` stands between a directory and a relative path that is joined to it: one is put
/// there only where the directory does not end with it already.
pub proof fn law_one_slash_between(base: Seq<char>, rel: Seq<char>)
    requires
        !"/"@.is_prefix_of(rel),
    ensures
        base.len() > 0 && base.last() != '/' ==> path_under(base, rel) == base + seq!['/'] + rel,
        base.len() > 0 && base.last() == '/' ==> path_under(base, rel) == base + rel,
        base.len() == 0 ==> path_under(base, rel) == rel,
{
    reveal_strlit("/");
    assert("/"@ =~= seq!['/']);
    if base.len() > 0 {
        assert(base.subrange(base.len() - 1, base.len() as int) =~= seq![base.last()]);
        if base.last() != '/' {
            assert(seq![base.last()][0] != "/"@[0]);
        }
    } else {
        assert(base + rel =~= rel);
    }
}

/// `~` alone is the home directory and `~/` leads into it, where the home directory is known;
/// where it is not, both fail. Any other path, also another user's `~name`, is its own resolution.
pub proof fn law_tilde(rest: Seq<char>, p: Seq<char>, home: Option<Seq<char>>)
    ensures
        home matches Some(h) ==> tilde_expanded("~"@, home) == Ok::<Seq<char>, RolloutErrorView>(h),
        home matches Some(h) ==> tilde_expanded("~/"@ + rest, home) == Ok::<
            Seq<char>,
            RolloutErrorView,
        >(path_under(h, rest)),
        home is None ==> tilde_expanded("~"@, home) is Err && tilde_expanded(
            "~/"@ + rest,
            home,
        ) is Err,
        p != "~"@ && !"~/"@.is_prefix_of(p) ==> tilde_expanded(p, home) == Ok::<
            Seq<char>,
            RolloutErrorView,
        >(p),
{
    reveal_strlit("~");
    reveal_strlit("~/");
    assert("~"@.len() < "~/"@.len());
    law_affixes(p, "~/"@, rest);
}

/// A file under the home directory begins with that directory and ends with its own path; without
/// a home directory there is none.
pub proof fn law_under_home(home: Option<Seq<char>>, rel: Seq<char>)
    requires
        !"/"@.is_prefix_of(rel),
    ensures
        match (home, under_home(home, rel)) {
            (Some(h), Ok(p)) => h.is_prefix_of(p) && rel.is_suffix_of(p) && p.len() <= h.len() + 1
                + rel.len(),
            (None, Err(e)) => e is FleetConfig,
            _ => false,
        },
{
    if let Some(h) = home {
        law_path_under(h, rel);
        law_one_slash_between(h, rel);
    }
}

/// Resolving `~` needs the home directory only for paths that begin with it: any other path
/// is its own resolution, whatever `HOME` holds.
pub proof fn law_tilde_only_at_start(p: Seq<char>, home: Option<Seq<char>>)
    requires
        !"~"@.is_prefix_of(p),
    ensures
        tilde_expanded(p, home) == Ok::<Seq<char>, RolloutErrorView>(p),
{
    reveal_strlit("~");
    reveal_strlit("~/");
    if "~/"@.is_prefix_of(p) {
        assert("~/"@[0] == '~');
        assert("~"@[0] == '~');
        assert("~"@.is_prefix_of(p)) by {
            assert(p.take(1) =~= "~"@);
        }
    }
    if p == "~"@ {
        assert("~"@.is_prefix_of(p));
    }
}

/// The model of a result keeps whether it is a text, and the text or the error.
pub proof fn law_text_result_model(r: Result<String, RolloutError>)
    ensures
        r matches Ok(s) ==> text_result(r) == Ok::<Seq<char>, RolloutErrorView>(s@),
        r matches Err(e) ==> text_result(r) == Err::<Seq<char>, RolloutErrorView>(e@),
{
}

} // verus!
