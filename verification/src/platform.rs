//! What differs from platform to platform.

use vstd::prelude::*;

use crate::text::{decimal, decimal_text, same_text};

verus! {

/// The platforms that are told apart.
#[derive(Clone, Copy, PartialEq, Eq, Structural, Debug)]
pub enum Platform {
    Mac,
    Win,
    Linux,
    Other,
}

/// The name that a platform goes by in a core's configuration.
pub open spec fn tag_of_os(os: Seq<char>) -> Seq<char> {
    if os == "macos"@ {
        "darwin"@
    } else if os == "windows"@ {
        "win32"@
    } else {
        os
    }
}

/// The name that the platform `os` goes by in a core's configuration.
pub fn platform_tag(os: &str) -> (r: String)
    ensures
        r@ == tag_of_os(os@),
{
    if same_text(os, "macos") {
        "darwin".to_owned()
    } else if same_text(os, "windows") {
        "win32".to_owned()
    } else {
        os.to_owned()
    }
}

/// Where the core of a platform is looked for, the first place first.
pub open spec fn core_dirs(os: Seq<char>, arch: Seq<char>) -> Seq<Seq<char>> {
    if os == "macos"@ {
        if arch == "aarch64"@ {
            seq!["mac-arm64"@, "mac-x64"@]
        } else {
            seq!["mac-x64"@, "mac-arm64"@]
        }
    } else if os == "windows"@ {
        seq!["win"@]
    } else {
        seq!["linux"@]
    }
}

/// Where the core of a platform is looked for, the first place first.
pub fn core_platform_dirs(os: &str, arch: &str) -> (r: Vec<&'static str>)
    ensures
        r@.map_values(|s: &'static str| s@) == core_dirs(os@, arch@),
{
    let mut out: Vec<&'static str> = Vec::new();
    if same_text(os, "macos") {
        if same_text(arch, "aarch64") {
            out.push("mac-arm64");
            out.push("mac-x64");
        } else {
            out.push("mac-x64");
            out.push("mac-arm64");
        }
    } else if same_text(os, "windows") {
        out.push("win");
    } else {
        out.push("linux");
    }
    assert(out@.map_values(|s: &'static str| s@) =~= core_dirs(os@, arch@));
    out
}

/// The program that tells of changes of the network: the first of the usual places where it is
/// found, and its bare name otherwise. `found` says it of each place.
pub fn linux_ip_monitor_binary(found: (bool, bool, bool)) -> (r: &'static str)
    ensures
        r@ == (if found.0 {
            "/usr/sbin/ip"@
        } else if found.1 {
            "/sbin/ip"@
        } else if found.2 {
            "/usr/bin/ip"@
        } else {
            "ip"@
        }),
{
    if found.0 {
        "/usr/sbin/ip"
    } else if found.1 {
        "/sbin/ip"
    } else if found.2 {
        "/usr/bin/ip"
    } else {
        "ip"
    }
}

/// An address of four bytes, as it is written.
pub open spec fn dotted(addr: u32) -> Seq<char> {
    decimal((addr / 0x100_0000) as nat) + "."@ + decimal(((addr / 0x1_0000) % 256) as nat) + "."@
        + decimal(((addr / 0x100) % 256) as nat) + "."@ + decimal((addr % 256) as nat)
}

/// An address and the length of its network's prefix, where the mask has one.
pub fn own_lan_v4_addr_prefix(addr: u32, prefix: Option<u8>) -> (r: Option<(String, u8)>)
    ensures
        match prefix {
            Some(p) => r matches Some(x) && x.0@ == dotted(addr) && x.1 == p,
            None => r is None,
        },
{
    match prefix {
        Some(p) => {
            let text = decimal_text((addr / 0x100_0000) as u64).concat(".").concat(
                decimal_text(((addr / 0x1_0000) % 256) as u64).as_str(),
            ).concat(".").concat(decimal_text(((addr / 0x100) % 256) as u64).as_str()).concat(
                ".",
            ).concat(decimal_text((addr % 256) as u64).as_str());
            Some((text, p))
        },
        None => None,
    }
}

/// The sidecar library of the core can be had: it is there, or the platform needs none.
pub fn cronet_available(lib_exists: bool, platform: &str) -> (r: bool)
    ensures
        r == (lib_exists || platform@ == "darwin"@),
{
    lib_exists || same_text(platform, "darwin")
}

/// The file begins like a rule set. `head` are the first three bytes of it, where it has as many.
pub fn is_valid_srs_file(head: Option<[u8; 3]>) -> (r: bool)
    ensures
        r == (head matches Some(h) && h@ == seq![83u8, 82, 83]),
{
    match head {
        Some(h) => {
            let ok = h[0] == 83 && h[1] == 82 && h[2] == 83;
            proof {
                if ok {
                    assert(h@ =~= seq![83u8, 82, 83]);
                }
            }
            ok
        },
        None => false,
    }
}

/// Two systems go by another name in the core's configuration and all others by their own; the
/// names differ where the systems do, unless a system is called by another's new name.
pub proof fn law_each_platform_keeps_its_name_or_has_one(os: &str, r: String)
    requires
        call_ensures(platform_tag, (os,), r),
    ensures
        os@ == "macos"@ ==> r@ == "darwin"@,
        os@ == "windows"@ ==> r@ == "win32"@,
        os@ != "macos"@ && os@ != "windows"@ ==> r@ == os@,
{
    reveal_strlit("macos");
    reveal_strlit("windows");
    assert("macos"@.len() == 5 && "windows"@.len() == 7);
}

/// A core is looked for first where its own machine's cores are; only where a machine can run
/// another's is there a second place, and both are tried.
pub proof fn law_a_core_is_looked_for_at_home_first(os: &str, arch: &str, r: Vec<&'static str>)
    requires
        call_ensures(core_platform_dirs, (os, arch), r),
    ensures
        r@.len() == (if os@ == "macos"@ {
            2int
        } else {
            1int
        }),
        os@ == "macos"@ && arch@ == "aarch64"@ ==> r@[0]@ == "mac-arm64"@ && r@[1]@ == "mac-x64"@,
        os@ == "macos"@ && arch@ != "aarch64"@ ==> r@[0]@ == "mac-x64"@ && r@[1]@ == "mac-arm64"@,
        os@ == "windows"@ ==> r@[0]@ == "win"@,
        os@ != "macos"@ && os@ != "windows"@ ==> r@[0]@ == "linux"@,
{
    let v = r@.map_values(|s: &'static str| s@);
    assert(v.len() == r@.len());
    assert(v[0] == r@[0]@);
    if os@ == "macos"@ {
        assert(v[1] == r@[1]@);
    }
    reveal_strlit("macos");
    reveal_strlit("windows");
    assert("macos"@.len() == 5 && "windows"@.len() == 7);
}

/// The program is the first of the places where it was found, and its bare name where it was found
/// at none.
pub proof fn law_the_first_place_counts(found: (bool, bool, bool), r: &'static str)
    requires
        call_ensures(linux_ip_monitor_binary, (found,), r),
    ensures
        found.0 ==> r@ == "/usr/sbin/ip"@,
        !found.0 && found.1 ==> r@ == "/sbin/ip"@,
        !found.0 && !found.1 && found.2 ==> r@ == "/usr/bin/ip"@,
        !found.0 && !found.1 && !found.2 ==> r@ == "ip"@,
{
}

/// An address is written as its four bytes, the highest first, with dots between them, and comes
/// with the prefix that it was given; without a prefix there is none.
pub proof fn law_an_address_is_written_byte_by_byte(
    a: u8,
    b: u8,
    c: u8,
    d: u8,
    addr: u32,
    prefix: Option<u8>,
    r: Option<(String, u8)>,
)
    requires
        addr == ((a * 256 + b) * 256 + c) * 256 + d,
        call_ensures(own_lan_v4_addr_prefix, (addr, prefix), r),
    ensures
        r is Some <==> prefix is Some,
        r matches Some(x) ==> {
            &&& Some(x.1) == prefix
            &&& x.0@ == decimal(a as nat) + "."@ + decimal(b as nat) + "."@ + decimal(c as nat)
                + "."@ + decimal(d as nat)
        },
{
    assert(addr / 0x100_0000 == a);
    assert((addr / 0x1_0000) % 256 == b);
    assert((addr / 0x100) % 256 == c);
    assert(addr % 256 == d);
}

/// The sidecar library can be had where it is there and on the platform that needs none; and a file
/// is a rule set by its first three bytes, all of which count.
pub proof fn law_libraries_and_rule_sets_are_recognised(
    exists_: bool,
    platform: &str,
    r: bool,
    head: Option<[u8; 3]>,
    valid: bool,
)
    requires
        call_ensures(cronet_available, (exists_, platform), r),
        call_ensures(is_valid_srs_file, (head,), valid),
    ensures
        exists_ ==> r,
        platform@ == "darwin"@ ==> r,
        r ==> exists_ || platform@ == "darwin"@,
        valid ==> head is Some && head->0@[0] == 83 && head->0@[1] == 82 && head->0@[2] == 83,
        head is Some && head->0@[0] == 83 && head->0@[1] == 82 && head->0@[2] == 83 ==> valid,
{
    if head is Some {
        assert(head->0@.len() == 3);
        if head->0@[0] == 83 && head->0@[1] == 82 && head->0@[2] == 83 {
            assert(head->0@ =~= seq![83u8, 82, 83]);
        }
    }
}

} // verus!
