//! Provisioning: where the executable of a candidate is expected, and under
//! which path it is handed out.

use crate::names::UNITY_DAP_BINARY_NAME;
use crate::text::{glue, to_chars};
use vstd::prelude::*;

verus! {

/// Where the executable lies inside the install directory `dir_name`,
/// relative to the working directory.
pub open spec fn binary_path_of(dir_name: Seq<char>) -> Seq<char> {
    dir_name + "/Release/"@ + UNITY_DAP_BINARY_NAME@
}

/// `relative` as seen from the directory `cwd`: the two are joined by one
/// `/`, unless `cwd` is empty or ends in one already.
pub open spec fn absolute_path_of(cwd: Seq<char>, relative: Seq<char>) -> Seq<char> {
    if cwd.len() == 0 || cwd.last() == '/' {
        cwd + relative
    } else {
        cwd + seq!['/'] + relative
    }
}

/// The path that is handed out begins with the working directory, so it is
/// absolute whenever the working directory is.
pub proof fn lemma_absolute_path_is_under_cwd(cwd: Seq<char>, relative: Seq<char>)
    ensures
        cwd.is_prefix_of(absolute_path_of(cwd, relative)),
{
}

/// The path at which the executable of the install `dir_name` is expected.
pub fn binary_path(dir_name: &str) -> (r: String)
    ensures
        r@ == binary_path_of(dir_name@),
{
    let head = glue(dir_name, "/Release/");
    glue(head.as_str(), UNITY_DAP_BINARY_NAME)
}

/// The path `relative` as seen from the directory `cwd`.
pub fn absolute_path(cwd: &str, relative: &str) -> (r: String)
    ensures
        r@ == absolute_path_of(cwd@, relative@),
        cwd@.is_prefix_of(r@),
{
    let chars = to_chars(cwd);
    if chars.len() == 0 || chars[chars.len() - 1] == '/' {
        glue(cwd, relative)
    } else {
        proof {
            reveal_strlit("/");
            assert("/"@ =~= seq!['/']);
        }
        let head = glue(cwd, "/");
        glue(head.as_str(), relative)
    }
}

} // verus!
