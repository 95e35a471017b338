//! Where a source file can be found in its repository.

use vstd::prelude::*;

verus! {

/// The address at which a line of a file can be read on GitHub.
///
/// `local_repo` is the root of the local repository and `github_repo` the
/// remote that it is pushed to, where there is one. No remote is recognised
/// as a GitHub repository, so no file has such an address.
pub fn get_github_url(
    filepath: &str,
    line: usize,
    local_repo: Option<&str>,
    github_repo: Option<&str>,
) -> (r: Option<String>)
    ensures
        r is None,
{
    None
}

} // verus!
