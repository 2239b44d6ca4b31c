//! Where KeePassXC's browser socket lives.

use vstd::prelude::*;

verus! {

/// The socket's file name in the temporary directory.
pub open spec fn socket_name() -> Seq<char> {
    "org.keepassxc.KeePassXC.BrowserServer"@
}

/// The socket's path in the temporary directory `tmp_dir`, which is taken
/// to end with its separator (as macOS's `TMPDIR` does).
pub fn socket_path_in(tmp_dir: String) -> (r: String)
    ensures
        r@ == tmp_dir@ + socket_name(),
{
    tmp_dir.concat("org.keepassxc.KeePassXC.BrowserServer")
}

} // verus!
