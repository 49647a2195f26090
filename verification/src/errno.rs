//! Texts of kernel error numbers.

use vstd::prelude::*;

verus! {

/// What `nix` displays for a kernel error number.
pub uninterp spec fn errno_text(errno: i32) -> Seq<char>;

/// Calls `nix::errno::Errno::from_raw` and displays the result: the symbolic
/// name of the error, a colon, and its description. The contract names that
/// text and says that it depends on the number alone. Which text belongs to
/// which number is left unsaid: it is a table of some hundred entries that
/// `nix` has for the target.
#[verifier::external_body]
pub(crate) fn describe_errno(errno: i32) -> (r: String)
    ensures
        r@ == errno_text(errno),
{
    nix::errno::Errno::from_raw(errno).to_string()
}

} // verus!
