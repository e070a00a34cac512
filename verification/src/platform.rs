//! Platform defaults and system-requirement rules.
//!
//! The host hands in plain values read from the environment (operating-system
//! kind, environment variables, gathered resource figures); this module
//! computes the default directory layout, parses resource figures, and
//! decides whether a machine meets a node type's requirements.

use vstd::prelude::*;
use vstd::string::StringExecFns;

verus! {

/// The operating-system families with distinct directory conventions.
#[derive(Debug, Clone, Copy, PartialEq, Eq)]
pub enum Os {
    Windows,
    MacOs,
    Other,
}

/// Resource figures gathered from the host machine.
#[derive(Debug, Clone)]
pub struct SystemInfo {
    pub os: String,
    pub arch: String,
    pub cpu_count: usize,
    pub available_memory: u64,
    pub available_disk_space: u64,
}

#[derive(Debug, Clone, Copy, PartialEq, Eq)]
pub enum NodeType {
    Validator,
    Full,
    Light,
    Other,
}

#[derive(Debug, Clone, Copy, PartialEq, Eq)]
pub enum RequirementError {
    InsufficientCpuCores,
    InsufficientMemory,
    InsufficientDiskSpace,
}

/// The default data directory, given the environment values the platform
/// offers: `APPDATA` or `USERPROFILE` on Windows, `HOME` elsewhere, with `.`
/// as the last resort.
pub open spec fn data_dir_chars(
    os: Os,
    appdata: Option<String>,
    userprofile: Option<String>,
    home: Option<String>,
) -> Seq<char> {
    match os {
        Os::Windows => (match appdata {
            Some(s) => s@,
            None => match userprofile {
                Some(s) => s@,
                None => "."@,
            },
        }) + "/AlphaNode"@,
        Os::MacOs => (match home {
            Some(s) => s@,
            None => "."@,
        }) + "/Library/Application Support/AlphaNode"@,
        Os::Other => (match home {
            Some(s) => s@,
            None => "."@,
        }) + "/.local/share/alpha-node"@,
    }
}

pub fn get_default_data_dir(
    os: Os,
    appdata: Option<String>,
    userprofile: Option<String>,
    home: Option<String>,
) -> (r: String)
    ensures
        r@ == data_dir_chars(os, appdata, userprofile, home),
{
    match os {
        Os::Windows => {
            let mut base = match appdata {
                Some(s) => s,
                None => match userprofile {
                    Some(s) => s,
                    None => String::from_str("."),
                },
            };
            base.append("/AlphaNode");
            base
        },
        Os::MacOs => {
            let mut base = match home {
                Some(s) => s,
                None => String::from_str("."),
            };
            base.append("/Library/Application Support/AlphaNode");
            base
        },
        Os::Other => {
            let mut base = match home {
                Some(s) => s,
                None => String::from_str("."),
            };
            base.append("/.local/share/alpha-node");
            base
        },
    }
}

pub fn get_default_config_path(data_dir: &str) -> (r: String)
    ensures
        r@ == data_dir@ + "/config.toml"@,
{
    let mut p = data_dir.to_owned();
    p.append("/config.toml");
    p
}

pub fn get_default_log_dir(data_dir: &str) -> (r: String)
    ensures
        r@ == data_dir@ + "/logs"@,
{
    let mut p = data_dir.to_owned();
    p.append("/logs");
    p
}

pub fn get_default_db_dir(data_dir: &str) -> (r: String)
    ensures
        r@ == data_dir@ + "/db"@,
{
    let mut p = data_dir.to_owned();
    p.append("/db");
    p
}

pub fn get_default_keystore_dir(data_dir: &str) -> (r: String)
    ensures
        r@ == data_dir@ + "/keystore"@,
{
    let mut p = data_dir.to_owned();
    p.append("/keystore");
    p
}

/// The outcome of holding gathered resource figures against a node type's
/// requirements; the first shortfall, in the order cores, memory, disk, is
/// reported.
pub open spec fn requirements_check(node_type: NodeType, info: SystemInfo) -> Result<
    (),
    RequirementError,
> {
    match node_type {
        NodeType::Validator => if info.cpu_count < 4 {
            Err(RequirementError::InsufficientCpuCores)
        } else if info.available_memory < 8192 {
            Err(RequirementError::InsufficientMemory)
        } else if info.available_disk_space < 100000 {
            Err(RequirementError::InsufficientDiskSpace)
        } else {
            Ok(())
        },
        NodeType::Full => if info.cpu_count < 2 {
            Err(RequirementError::InsufficientCpuCores)
        } else if info.available_memory < 4096 {
            Err(RequirementError::InsufficientMemory)
        } else if info.available_disk_space < 50000 {
            Err(RequirementError::InsufficientDiskSpace)
        } else {
            Ok(())
        },
        NodeType::Light => if info.available_memory < 1024 {
            Err(RequirementError::InsufficientMemory)
        } else if info.available_disk_space < 1000 {
            Err(RequirementError::InsufficientDiskSpace)
        } else {
            Ok(())
        },
        NodeType::Other => Ok(()),
    }
}

pub fn check_system_requirements(node_type: NodeType, info: &SystemInfo) -> (r: Result<
    (),
    RequirementError,
>)
    ensures
        r == requirements_check(node_type, *info),
{
    match node_type {
        NodeType::Validator => {
            if info.cpu_count < 4 {
                Err(RequirementError::InsufficientCpuCores)
            } else if info.available_memory < 8192 {
                Err(RequirementError::InsufficientMemory)
            } else if info.available_disk_space < 100000 {
                Err(RequirementError::InsufficientDiskSpace)
            } else {
                Ok(())
            }
        },
        NodeType::Full => {
            if info.cpu_count < 2 {
                Err(RequirementError::InsufficientCpuCores)
            } else if info.available_memory < 4096 {
                Err(RequirementError::InsufficientMemory)
            } else if info.available_disk_space < 50000 {
                Err(RequirementError::InsufficientDiskSpace)
            } else {
                Ok(())
            }
        },
        NodeType::Light => {
            if info.available_memory < 1024 {
                Err(RequirementError::InsufficientMemory)
            } else if info.available_disk_space < 1000 {
                Err(RequirementError::InsufficientDiskSpace)
            } else {
                Ok(())
            }
        },
        NodeType::Other => Ok(()),
    }
}

/// A decimal digit byte.
pub open spec fn is_digit(b: u8) -> bool {
    48 <= b <= 57
}

/// A space or tab byte.
pub open spec fn is_space(b: u8) -> bool {
    b == 32 || b == 9
}

/// The value of a run of decimal digit bytes, most significant first.
pub open spec fn decimal_value(s: Seq<u8>) -> nat
    decreases s.len(),
{
    if s.len() == 0 {
        0
    } else {
        (decimal_value(s.drop_last()) * 10 + (s.last() - 48)) as nat
    }
}

/// The first index at or after `i` holding neither a space nor a tab.
pub open spec fn skip_spaces(s: Seq<u8>, i: int) -> int
    decreases s.len() - i,
{
    if i < 0 || i >= s.len() {
        i
    } else if is_space(s[i]) {
        skip_spaces(s, i + 1)
    } else {
        i
    }
}

/// The first index at or after `i` holding no decimal digit.
pub open spec fn digits_end(s: Seq<u8>, i: int) -> int
    decreases s.len() - i,
{
    if i < 0 || i >= s.len() {
        i
    } else if is_digit(s[i]) {
        digits_end(s, i + 1)
    } else {
        i
    }
}

proof fn lemma_decimal_prefix_le(s: Seq<u8>, k: int)
    requires
        0 <= k <= s.len(),
        forall|j: int| 0 <= j < s.len() ==> is_digit(s[j]),
    ensures
        decimal_value(s.subrange(0, k)) <= decimal_value(s),
    decreases s.len() - k,
{
    if k == s.len() {
        assert(s.subrange(0, k) =~= s);
    } else {
        lemma_decimal_prefix_le(s, k + 1);
        assert(s.subrange(0, k + 1).drop_last() =~= s.subrange(0, k));
        assert(is_digit(s[k]));
        assert(s.subrange(0, k + 1).last() == s[k]);
    }
}

/// Parses the decimal number that leads `bytes` after any spaces or tabs;
/// absent digits, or a value beyond what a machine word holds, yield nothing.
pub fn parse_leading_u64(bytes: &[u8]) -> (r: Option<u64>)
    ensures
        ({
            let start = skip_spaces(bytes@, 0);
            let end = digits_end(bytes@, start);
            &&& (r is Some) <==> (start < end && decimal_value(bytes@.subrange(start, end))
                <= u64::MAX)
            &&& (r matches Some(v) ==> v == decimal_value(bytes@.subrange(start, end)))
        }),
{
    let n = bytes.len();
    let mut i: usize = 0;
    while i < n && (bytes[i] == 32 || bytes[i] == 9)
        invariant
            n == bytes@.len(),
            i <= n,
            skip_spaces(bytes@, 0) == skip_spaces(bytes@, i as int),
        decreases n - i,
    {
        i = i + 1;
    }
    let ghost start = i as int;
    proof {
        assert(skip_spaces(bytes@, start) == start);
        assert(skip_spaces(bytes@, 0) == start);
    }
    let start_exec = i;
    let mut val: u64 = 0;
    while i < n && 48 <= bytes[i] && bytes[i] <= 57
        invariant
            n == bytes@.len(),
            start == start_exec as int,
            skip_spaces(bytes@, 0) == start,
            start_exec <= i <= n,
            digits_end(bytes@, start) == digits_end(bytes@, i as int),
            forall|j: int| start <= j < i ==> is_digit(bytes@[j]),
            val == decimal_value(bytes@.subrange(start, i as int)),
        decreases n - i,
    {
        let d: u8 = bytes[i] - 48;
        let v10 = match val.checked_mul(10) {
            Some(v) => v,
            None => {
                proof {
                    overflow_means_none(bytes@, start, i as int, val, d);
                }
                return None;
            },
        };
        let v = match v10.checked_add(d as u64) {
            Some(v) => v,
            None => {
                proof {
                    overflow_means_none(bytes@, start, i as int, val, d);
                }
                return None;
            },
        };
        proof {
            assert(bytes@.subrange(start, i + 1).drop_last() =~= bytes@.subrange(
                start,
                i as int,
            ));
            assert(bytes@.subrange(start, i + 1).last() == bytes@[i as int]);
        }
        val = v;
        i = i + 1;
    }
    proof {
        assert(digits_end(bytes@, i as int) == i as int);
    }
    if i == start_exec {
        return None;
    }
    Some(val)
}

/// The full digit run's value exceeds a machine word whenever one of its
/// prefixes already does at the next step.
proof fn overflow_means_none(s: Seq<u8>, start: int, i: int, val: u64, d: u8)
    requires
        0 <= start <= i < s.len(),
        is_digit(s[i]),
        forall|j: int| start <= j < i ==> is_digit(s[j]),
        digits_end(s, start) == digits_end(s, i),
        val == decimal_value(s.subrange(start, i)),
        d == s[i] - 48,
        val * 10 + d > u64::MAX,
    ensures
        decimal_value(s.subrange(start, digits_end(s, start))) > u64::MAX,
{
    let end = digits_end(s, start);
    lemma_digits_end_bounds(s, i);
    assert(digits_end(s, i) == digits_end(s, i + 1));
    lemma_digits_end_bounds(s, i + 1);
    assert(i + 1 <= end <= s.len());
    let digits = s.subrange(start, end);
    assert forall|j: int| 0 <= j < digits.len() implies is_digit(digits[j]) by {
        if start + j < i {
        } else if start + j == i {
        }
    }
    lemma_decimal_prefix_le(digits, i + 1 - start);
    assert(digits.subrange(0, i + 1 - start) =~= s.subrange(start, i + 1));
    assert(s.subrange(start, i + 1).drop_last() =~= s.subrange(start, i));
    assert(s.subrange(start, i + 1).last() == s[i]);
    assert(decimal_value(s.subrange(start, i + 1)) == val * 10 + d);
}

proof fn lemma_digits_end_bounds(s: Seq<u8>, i: int)
    requires
        0 <= i <= s.len(),
    ensures
        i <= digits_end(s, i) <= s.len(),
        forall|j: int| i <= j < digits_end(s, i) ==> is_digit(s[j]),
    decreases s.len() - i,
{
    if i < s.len() && is_digit(s[i]) {
        lemma_digits_end_bounds(s, i + 1);
    }
}

/// Kibibytes to mebibytes, as the meminfo figures are reported.
pub fn kb_to_mb(kb: u64) -> (r: u64)
    ensures
        r == kb / 1024,
{
    kb / 1024
}

} // verus!
