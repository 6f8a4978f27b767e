//! Host detection on builds made for MIPS64 release 6.

use vstd::prelude::*;
use crate::arch::{all_tags, is_supported_tag};

verus! {

/// The host's tag. Such a build runs on one architecture only, so there is
/// nothing to ask the platform.
pub fn get_arch_name() -> (host: Option<&'static str>)
    ensures
        host matches Some(tag) && tag@ == "mips64r6el"@ && is_supported_tag(tag@),
{
    assert(all_tags()[3] == "mips64r6el"@);
    Some("mips64r6el")
}

} // verus!
