//! Architecture tags: the two supported tiers, the host's own tag, and the
//! data that an interactive selector needs.
//!
//! Nothing here talks to a terminal or to the operating system. The caller
//! names the CPU it runs on, says whether somebody is at the terminal, and
//! reports what the selector returned; the functions below decide the rest.

use vstd::prelude::*;
use vstd::string::StringExecFns;
use crate::text::str_eq;

pub mod mips64r6;
pub mod powerpc64;

verus! {

/// The actively maintained targets, in the order in which they are offered.
pub open spec fn mainline_tags() -> Seq<Seq<char>> {
    seq!["amd64"@, "arm64"@, "ppc64el"@, "mips64r6el"@, "riscv64"@]
}

/// The legacy and niche targets, in the order in which they are offered.
pub open spec fn retro_tags() -> Seq<Seq<char>> {
    seq!["armv4"@, "armv6hf"@, "armv7hf"@, "i486"@, "m68k"@, "powerpc"@]
}

/// Every supported tag: the mainline tier followed by the retro tier.
pub open spec fn all_tags() -> Seq<Seq<char>> {
    mainline_tags() + retro_tags()
}

/// A tag is supported when it is, letter for letter, one of `all_tags()`.
pub open spec fn is_supported_tag(tag: Seq<char>) -> bool {
    all_tags().contains(tag)
}

/// `names` spells out `tags`, entry by entry.
pub open spec fn spells(names: Seq<&'static str>, tags: Seq<Seq<char>>) -> bool {
    &&& names.len() == tags.len()
    &&& forall|i: int| 0 <= i < names.len() ==> (#[trigger] names[i])@ == tags[i]
}

/// The words put before a tag in the selector: the name of its tier.
pub open spec fn tier_prefix(index: int) -> Seq<char> {
    if index < mainline_tags().len() {
        "mainline: "@
    } else {
        "retro: "@
    }
}

/// The selector's lines, one for each entry of `all_tags()` and in its order.
pub open spec fn arch_labels() -> Seq<Seq<char>> {
    Seq::new(all_tags().len(), |i: int| tier_prefix(i) + all_tags()[i])
}

/// The tag that the host table gives for a CPU name, if it has an entry.
///
/// A CPU family has an entry only if its tag is a supported one. Any other
/// family, `mips64` among them, has none.
pub open spec fn host_table(cpu: Seq<char>) -> Option<Seq<char>> {
    if cpu == "x86_64"@ {
        Some("amd64"@)
    } else if cpu == "x86"@ {
        Some("i486"@)
    } else if cpu == "powerpc"@ {
        Some("powerpc"@)
    } else if cpu == "aarch64"@ {
        Some("arm64"@)
    } else if cpu == "riscv64"@ {
        Some("riscv64"@)
    } else {
        None
    }
}

/// Why an architecture was turned down.
#[derive(Debug, PartialEq, Eq)]
pub enum ArchError {
    /// The host table has no entry for this CPU.
    UnsupportedHost { cpu: String },
    /// The tag belongs to neither tier.
    UnsupportedTag { tag: String },
    /// The selector answered with an index beyond its list.
    NoSuchChoice { index: usize },
}

/// What the caller does next to learn the target architecture.
#[derive(Debug, PartialEq, Eq)]
pub enum ArchPrompt {
    /// Nobody is at the terminal: the target is the host's own tag.
    UseHost { tag: &'static str },
    /// Show `labels` and preselect the line at `default_index`.
    Ask { labels: Vec<String>, default_index: usize },
}

/// The mainline tier.
pub fn mainline_archs() -> (tags: Vec<&'static str>)
    ensures
        spells(tags@, mainline_tags()),
{
    vec!["amd64", "arm64", "ppc64el", "mips64r6el", "riscv64"]
}

/// The retro tier.
pub fn retro_archs() -> (tags: Vec<&'static str>)
    ensures
        spells(tags@, retro_tags()),
{
    vec!["armv4", "armv6hf", "armv7hf", "i486", "m68k", "powerpc"]
}

/// Both tiers in one list, mainline first.
pub fn all_archs() -> (tags: Vec<&'static str>)
    ensures
        spells(tags@, all_tags()),
{
    let mut tags = mainline_archs();
    let mut retro = retro_archs();
    tags.append(&mut retro);
    tags
}

/// Where `arch` stands in `all_archs()`: the first index that holds it.
pub fn arch_index(arch: &str) -> (found: Option<usize>)
    ensures
        match found {
            Some(i) => {
                &&& i < all_tags().len()
                &&& all_tags()[i as int] == arch@
                &&& forall|k: int| 0 <= k < i ==> all_tags()[k] != arch@
            },
            None => !is_supported_tag(arch@),
        },
{
    let tags = all_archs();
    let mut i: usize = 0;
    while i < tags.len()
        invariant
            i <= tags@.len(),
            spells(tags@, all_tags()),
            forall|k: int| 0 <= k < i ==> all_tags()[k] != arch@,
        decreases tags@.len() - i,
    {
        if str_eq(tags[i], arch) {
            return Some(i);
        }
        i += 1;
    }
    None
}

/// Whether `arch` is a supported tag. The match is exact: case matters and
/// nothing is trimmed.
pub fn check_arch_name(arch: &str) -> (supported: bool)
    ensures
        supported == is_supported_tag(arch@),
{
    arch_index(arch).is_some()
}

/// The lines that the selector shows: each tag behind the name of its tier.
pub fn prefixed_archs() -> (labels: Vec<String>)
    ensures
        labels@.len() == arch_labels().len(),
        forall|i: int| 0 <= i < labels@.len() ==> (#[trigger] labels@[i])@ == arch_labels()[i],
{
    let tags = all_archs();
    let mainline_len = mainline_archs().len();
    let mut labels: Vec<String> = Vec::new();
    let mut i: usize = 0;
    while i < tags.len()
        invariant
            i <= tags@.len(),
            spells(tags@, all_tags()),
            mainline_len == mainline_tags().len(),
            labels@.len() == i,
            forall|k: int| 0 <= k < i ==> (#[trigger] labels@[k])@ == arch_labels()[k],
        decreases tags@.len() - i,
    {
        let prefix = if i < mainline_len {
            "mainline: "
        } else {
            "retro: "
        };
        let label = String::from_str(prefix).concat(tags[i]);
        labels.push(label);
        i += 1;
    }
    labels
}

/// Looks the running CPU up in the host table.
///
/// `cpu` is the platform's own name for the CPU family. The table is fixed,
/// and every tag in it is a supported one; a CPU without an entry is an error
/// that carries the name.
pub fn get_host_arch_name(cpu: &str) -> (host: Result<&'static str, ArchError>)
    ensures
        match host {
            Ok(tag) => {
                &&& host_table(cpu@) == Some(tag@)
                &&& is_supported_tag(tag@)
            },
            Err(e) => {
                &&& host_table(cpu@) is None
                &&& e matches ArchError::UnsupportedHost { cpu: named }
                &&& named@ == cpu@
            },
        },
{
    proof {
        lemma_host_table_tags(cpu@);
    }
    if str_eq(cpu, "x86_64") {
        Ok("amd64")
    } else if str_eq(cpu, "x86") {
        Ok("i486")
    } else if str_eq(cpu, "powerpc") {
        Ok("powerpc")
    } else if str_eq(cpu, "aarch64") {
        Ok("arm64")
    } else if str_eq(cpu, "riscv64") {
        Ok("riscv64")
    } else {
        Err(ArchError::UnsupportedHost { cpu: String::from_str(cpu) })
    }
}

/// Decides how the target architecture is obtained.
///
/// `host_arch` is the host's tag and `attended` says whether somebody is at
/// the terminal. A host outside both tiers is refused. Otherwise, with nobody
/// there, the host's tag is the answer and nothing is shown; with somebody
/// there, the caller gets the lines to show and the index of the host's line.
pub fn ask_for_target_arch(host_arch: &str, attended: bool) -> (next: Result<ArchPrompt, ArchError>)
    ensures
        match next {
            Ok(ArchPrompt::UseHost { tag }) => {
                &&& !attended
                &&& is_supported_tag(host_arch@)
                &&& tag@ == host_arch@
            },
            Ok(ArchPrompt::Ask { labels, default_index }) => {
                &&& attended
                &&& labels@.len() == arch_labels().len()
                &&& forall|i: int| 0 <= i < labels@.len() ==> (#[trigger] labels@[i])@ == arch_labels()[i]
                &&& default_index < all_tags().len()
                &&& all_tags()[default_index as int] == host_arch@
                &&& forall|k: int| 0 <= k < default_index ==> all_tags()[k] != host_arch@
            },
            Err(e) => {
                &&& !is_supported_tag(host_arch@)
                &&& e matches ArchError::UnsupportedTag { tag }
                &&& tag@ == host_arch@
            },
        },
{
    match arch_index(host_arch) {
        None => Err(ArchError::UnsupportedTag { tag: String::from_str(host_arch) }),
        Some(default_index) => {
            if !attended {
                let tags = all_archs();
                Ok(ArchPrompt::UseHost { tag: tags[default_index] })
            } else {
                Ok(ArchPrompt::Ask { labels: prefixed_archs(), default_index })
            }
        },
    }
}

/// Turns the selector's answer into a tag.
///
/// `choice` is the index that was picked, or `None` when the selector gave up
/// without an answer; the line at `default_index` then stands. An index
/// beyond the list names no tag and is an error.
pub fn chosen_arch(default_index: usize, choice: Option<usize>) -> (chosen: Result<
    &'static str,
    ArchError,
>)
    ensures
        match chosen {
            Ok(tag) => {
                &&& picked_index(default_index, choice) < all_tags().len()
                &&& tag@ == all_tags()[picked_index(default_index, choice) as int]
                &&& is_supported_tag(tag@)
            },
            Err(e) => {
                &&& picked_index(default_index, choice) >= all_tags().len()
                &&& e == ArchError::NoSuchChoice { index: picked_index(default_index, choice) }
            },
        },
{
    let index = match choice {
        Some(i) => i,
        None => default_index,
    };
    let tags = all_archs();
    if index < tags.len() {
        Ok(tags[index])
    } else {
        Err(ArchError::NoSuchChoice { index })
    }
}

/// The index that counts: the one picked, or the default when none was.
pub open spec fn picked_index(default_index: usize, choice: Option<usize>) -> usize {
    match choice {
        Some(i) => i,
        None => default_index,
    }
}

/// Makes the spelling of every tag known to the verifier.
proof fn reveal_tags()
    ensures
        all_tags().len() == 11,
        all_tags()[0] == seq!['a', 'm', 'd', '6', '4'],
        all_tags()[1] == seq!['a', 'r', 'm', '6', '4'],
        all_tags()[2] == seq!['p', 'p', 'c', '6', '4', 'e', 'l'],
        all_tags()[3] == seq!['m', 'i', 'p', 's', '6', '4', 'r', '6', 'e', 'l'],
        all_tags()[4] == seq!['r', 'i', 's', 'c', 'v', '6', '4'],
        all_tags()[5] == seq!['a', 'r', 'm', 'v', '4'],
        all_tags()[6] == seq!['a', 'r', 'm', 'v', '6', 'h', 'f'],
        all_tags()[7] == seq!['a', 'r', 'm', 'v', '7', 'h', 'f'],
        all_tags()[8] == seq!['i', '4', '8', '6'],
        all_tags()[9] == seq!['m', '6', '8', 'k'],
        all_tags()[10] == seq!['p', 'o', 'w', 'e', 'r', 'p', 'c'],
{
    reveal_strlit("amd64");
    reveal_strlit("arm64");
    reveal_strlit("ppc64el");
    reveal_strlit("mips64r6el");
    reveal_strlit("riscv64");
    reveal_strlit("armv4");
    reveal_strlit("armv6hf");
    reveal_strlit("armv7hf");
    reveal_strlit("i486");
    reveal_strlit("m68k");
    reveal_strlit("powerpc");
    assert(all_tags()[0] =~= seq!['a', 'm', 'd', '6', '4']);
    assert(all_tags()[1] =~= seq!['a', 'r', 'm', '6', '4']);
    assert(all_tags()[2] =~= seq!['p', 'p', 'c', '6', '4', 'e', 'l']);
    assert(all_tags()[3] =~= seq!['m', 'i', 'p', 's', '6', '4', 'r', '6', 'e', 'l']);
    assert(all_tags()[4] =~= seq!['r', 'i', 's', 'c', 'v', '6', '4']);
    assert(all_tags()[5] =~= seq!['a', 'r', 'm', 'v', '4']);
    assert(all_tags()[6] =~= seq!['a', 'r', 'm', 'v', '6', 'h', 'f']);
    assert(all_tags()[7] =~= seq!['a', 'r', 'm', 'v', '7', 'h', 'f']);
    assert(all_tags()[8] =~= seq!['i', '4', '8', '6']);
    assert(all_tags()[9] =~= seq!['m', '6', '8', 'k']);
    assert(all_tags()[10] =~= seq!['p', 'o', 'w', 'e', 'r', 'p', 'c']);
}

/// No tag is listed twice: each supported tag has one index in `all_tags()`.
pub proof fn lemma_tags_distinct()
    ensures
        forall|i: int, j: int|
            0 <= i < j < all_tags().len() ==> all_tags()[i] != all_tags()[j],
{
    reveal_tags();
    assert forall|i: int, j: int| 0 <= i < j < all_tags().len() implies all_tags()[i]
        != all_tags()[j] by {
        let a = all_tags()[i];
        let b = all_tags()[j];
        if a.len() == b.len() {
            assert(a[0] != b[0] || a[1] != b[1] || a[3] != b[3] || (a.len() > 4 && a[4] != b[4]));
        }
    }
}

/// The two tiers share no tag.
pub proof fn lemma_tiers_disjoint()
    ensures
        forall|tag: Seq<char>| !(mainline_tags().contains(tag) && retro_tags().contains(tag)),
{
    lemma_tags_distinct();
    assert forall|tag: Seq<char>| !(mainline_tags().contains(tag) && retro_tags().contains(
        tag,
    )) by {
        if mainline_tags().contains(tag) && retro_tags().contains(tag) {
            let i = choose|i: int| 0 <= i < mainline_tags().len() && mainline_tags()[i] == tag;
            let j = choose|j: int| 0 <= j < retro_tags().len() && retro_tags()[j] == tag;
            assert(all_tags()[i] == tag);
            assert(all_tags()[mainline_tags().len() + j] == tag);
        }
    }
}

/// Every tag that the host table hands out is a supported one.
pub proof fn lemma_host_table_tags(cpu: Seq<char>)
    ensures
        host_table(cpu) matches Some(tag) ==> is_supported_tag(tag),
{
    assert(all_tags()[0] == "amd64"@);
    assert(all_tags()[1] == "arm64"@);
    assert(all_tags()[4] == "riscv64"@);
    assert(all_tags()[8] == "i486"@);
    assert(all_tags()[10] == "powerpc"@);
}

/// A supported tag is in the mainline tier or in the retro tier, and a tag of
/// either tier is supported.
pub proof fn lemma_supported_is_union(tag: Seq<char>)
    ensures
        is_supported_tag(tag) <==> mainline_tags().contains(tag) || retro_tags().contains(tag),
{
    if is_supported_tag(tag) {
        let i = choose|i: int| 0 <= i < all_tags().len() && all_tags()[i] == tag;
        if i < mainline_tags().len() {
            assert(mainline_tags()[i] == tag);
        } else {
            assert(retro_tags()[i - mainline_tags().len()] == tag);
        }
    }
    if mainline_tags().contains(tag) {
        let i = choose|i: int| 0 <= i < mainline_tags().len() && mainline_tags()[i] == tag;
        assert(all_tags()[i] == tag);
    }
    if retro_tags().contains(tag) {
        let j = choose|j: int| 0 <= j < retro_tags().len() && retro_tags()[j] == tag;
        assert(all_tags()[mainline_tags().len() + j] == tag);
    }
}

} // verus!
