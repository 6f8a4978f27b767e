//! Host detection on 64-bit PowerPC, where the CPU's name does not tell the
//! byte order and the operating system has to be asked.
//!
//! Only the little-endian byte order is a supported target. A big-endian
//! host has no tag, and neither has a host whose byte order is not known.

use vstd::prelude::*;
use crate::arch::{all_tags, is_supported_tag};

verus! {

/// The byte order is big-endian.
pub const PR_ENDIAN_BIG: i32 = 0;

/// The byte order is little-endian.
pub const PR_ENDIAN_LITTLE: i32 = 1;

/// The byte order is PowerPC's own little-endian mode.
pub const PR_ENDIAN_PPC_LITTLE: i32 = 2;

/// The tag for an answer of the byte-order query.
///
/// `status` is what the query returned, negative when it failed, and `endian`
/// is the mode that it stored.
pub open spec fn endian_tag(status: int, endian: int) -> Option<Seq<char>> {
    if status >= 0 && (endian == PR_ENDIAN_LITTLE || endian == PR_ENDIAN_PPC_LITTLE) {
        Some("ppc64el"@)
    } else {
        None
    }
}

/// The host's tag, from the answer of the byte-order query.
///
/// A little-endian host is `ppc64el`. A failed query, a big-endian host and a
/// mode that is not known give no tag: no byte order is taken for granted,
/// and no tag is handed out that is not a supported one.
pub fn get_arch_name(status: i32, endian: i32) -> (host: Option<&'static str>)
    ensures
        match host {
            Some(tag) => {
                &&& endian_tag(status as int, endian as int) == Some(tag@)
                &&& is_supported_tag(tag@)
            },
            None => endian_tag(status as int, endian as int) is None,
        },
{
    if status < 0 {
        None
    } else if endian == PR_ENDIAN_LITTLE || endian == PR_ENDIAN_PPC_LITTLE {
        proof {
            lemma_endian_tags(status as int, endian as int);
        }
        Some("ppc64el")
    } else {
        None
    }
}

/// Every tag that an answer of the query can give is a supported one.
pub proof fn lemma_endian_tags(status: int, endian: int)
    ensures
        endian_tag(status, endian) matches Some(tag) ==> is_supported_tag(tag),
{
    assert(all_tags()[2] == "ppc64el"@);
}

/// The two byte orders never share a tag: the little-endian one has a tag,
/// the big-endian one has none.
pub proof fn lemma_byte_orders_differ(status: int)
    requires
        status >= 0,
    ensures
        endian_tag(status, PR_ENDIAN_LITTLE as int) is Some,
        endian_tag(status, PR_ENDIAN_PPC_LITTLE as int) is Some,
        endian_tag(status, PR_ENDIAN_BIG as int) is None,
{
}

} // verus!
