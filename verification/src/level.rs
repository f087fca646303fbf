//! RAID levels and the rules that each of them sets.

use vstd::arithmetic::power2::is_pow2;
use vstd::prelude::*;

use crate::text::{decimal, decimal_text};

verus! {

/// A RAID level.
#[derive(Debug, Clone, Copy)]
pub struct RaidLevel {
    /// the name that people read
    pub name: &'static str,
    /// the number by which SPDK knows the level
    pub spdk_raid_level: i32,
    /// how many child devices the level needs at least
    pub min_devices: usize,
    /// the strip size, in KB, where none is given
    pub default_strip_size_kb: u32,
    /// whether the level stripes, so that the strip size matters
    pub strip_size_required: bool,
}

/// The level that a URI scheme selects.
pub open spec fn scheme_level(scheme: Seq<char>) -> Option<RaidLevel> {
    if scheme == "raid0"@ {
        Some(*RaidLevel::raid0())
    } else if scheme == "raid1"@ {
        Some(*RaidLevel::raid1())
    } else if scheme == "raid5f"@ {
        Some(*RaidLevel::raid5f())
    } else if scheme == "concat"@ {
        Some(*RaidLevel::concat())
    } else {
        None
    }
}

/// `u32::is_power_of_two`, trusted to tell whether a number is a power of two.
pub assume_specification[ u32::is_power_of_two ](n: u32) -> (answer: bool)
    ensures
        answer == is_pow2(n as int),
;

/// A strip size, in KB, that a striping level can have: a power of two from
/// 4 KB to 64 MB.
pub open spec fn strip_size_ok(strip_size_kb: u32) -> bool {
    4 <= strip_size_kb <= 65536 && is_pow2(strip_size_kb as int)
}

impl RaidLevel {
    /// Striping.
    #[verifier::allow_in_spec]
    pub fn raid0() -> &'static RaidLevel
        returns
            (&RaidLevel {
                name: "RAID0",
                spdk_raid_level: 0,
                min_devices: 2,
                default_strip_size_kb: 64,
                strip_size_required: true,
            }),
    {
        &RaidLevel {
            name: "RAID0",
            spdk_raid_level: 0,
            min_devices: 2,
            default_strip_size_kb: 64,
            strip_size_required: true,
        }
    }

    /// Mirroring.
    #[verifier::allow_in_spec]
    pub fn raid1() -> &'static RaidLevel
        returns
            (&RaidLevel {
                name: "RAID1",
                spdk_raid_level: 1,
                min_devices: 2,
                default_strip_size_kb: 0,
                strip_size_required: false,
            }),
    {
        &RaidLevel {
            name: "RAID1",
            spdk_raid_level: 1,
            min_devices: 2,
            default_strip_size_kb: 0,
            strip_size_required: false,
        }
    }

    /// Striping with distributed parity, full stripe writes only.
    #[verifier::allow_in_spec]
    pub fn raid5f() -> &'static RaidLevel
        returns
            (&RaidLevel {
                name: "RAID5F",
                spdk_raid_level: 95,
                min_devices: 3,
                default_strip_size_kb: 64,
                strip_size_required: true,
            }),
    {
        &RaidLevel {
            name: "RAID5F",
            spdk_raid_level: 95,
            min_devices: 3,
            default_strip_size_kb: 64,
            strip_size_required: true,
        }
    }

    /// Concatenation.
    #[verifier::allow_in_spec]
    pub fn concat() -> &'static RaidLevel
        returns
            (&RaidLevel {
                name: "CONCAT",
                spdk_raid_level: 99,
                min_devices: 1,
                default_strip_size_kb: 0,
                strip_size_required: false,
            }),
    {
        &RaidLevel {
            name: "CONCAT",
            spdk_raid_level: 99,
            min_devices: 1,
            default_strip_size_kb: 0,
            strip_size_required: false,
        }
    }

    /// What the level has against so many children and such a strip size:
    /// nothing (`None`), or the first objection.
    pub open spec fn objection(self, children_count: nat, strip_size_kb: u32) -> Option<Seq<char>> {
        if children_count < self.min_devices {
            Some("Needs at least "@ + decimal(self.min_devices as nat) + " devices"@)
        } else if self.strip_size_required && !(4 <= strip_size_kb <= 65536) {
            Some("Strip size "@ + decimal(strip_size_kb as nat) + "KB out of range [4, 65536]"@)
        } else if self.strip_size_required && !is_pow2(strip_size_kb as int) {
            Some("Strip size "@ + decimal(strip_size_kb as nat) + "KiB must be power of 2"@)
        } else {
            None
        }
    }

    /// The level that a URI scheme selects, if there is one.
    pub fn from_scheme(scheme: &str) -> (level: Option<&'static RaidLevel>)
        ensures
            match level {
                Some(l) => scheme_level(scheme@) == Some(*l),
                None => scheme_level(scheme@) is None,
            },
            scheme@ == "raid0"@ ==> level == Some(RaidLevel::raid0()),
            scheme@ == "raid1"@ ==> level == Some(RaidLevel::raid1()),
            scheme@ == "raid5f"@ ==> level == Some(RaidLevel::raid5f()),
            scheme@ == "concat"@ ==> level == Some(RaidLevel::concat()),
            level is Some ==> scheme@ == "raid0"@ || scheme@ == "raid1"@ || scheme@ == "raid5f"@
                || scheme@ == "concat"@,
    {
        proof {
            lemma_schemes_differ();
        }
        let scheme = scheme.to_string();
        if scheme == "raid0".to_string() {
            Some(RaidLevel::raid0())
        } else if scheme == "raid1".to_string() {
            Some(RaidLevel::raid1())
        } else if scheme == "raid5f".to_string() {
            Some(RaidLevel::raid5f())
        } else if scheme == "concat".to_string() {
            Some(RaidLevel::concat())
        } else {
            None
        }
    }

    /// Checks the number of children and the strip size against the level's
    /// rules. The error says which rule is broken.
    pub fn validate(&self, children_count: usize, strip_size_kb: u32) -> (verdict: Result<(), String>)
        ensures
            match verdict {
                Ok(_) => self.objection(children_count as nat, strip_size_kb) is None,
                Err(message) => self.objection(children_count as nat, strip_size_kb) == Some(message@),
            },
            verdict is Ok <==> {
                &&& children_count >= self.min_devices
                &&& self.strip_size_required ==> 4 <= strip_size_kb <= 65536 && is_pow2(
                    strip_size_kb as int,
                )
            },
            verdict matches Err(message) ==> message@ == if children_count < self.min_devices {
                "Needs at least "@ + decimal(self.min_devices as nat) + " devices"@
            } else if strip_size_kb < 4 || strip_size_kb > 65536 {
                "Strip size "@ + decimal(strip_size_kb as nat) + "KB out of range [4, 65536]"@
            } else {
                "Strip size "@ + decimal(strip_size_kb as nat) + "KiB must be power of 2"@
            },
    {
        if children_count < self.min_devices {
            let message = "Needs at least ".to_string()
                .concat(decimal_text(self.min_devices as u64).as_str())
                .concat(" devices");
            return Err(message);
        }
        if self.strip_size_required {
            if !(4 <= strip_size_kb && strip_size_kb <= 65536) {
                let message = "Strip size ".to_string()
                    .concat(decimal_text(strip_size_kb as u64).as_str())
                    .concat("KB out of range [4, 65536]");
                return Err(message);
            }
            if !strip_size_kb.is_power_of_two() {
                let message = "Strip size ".to_string()
                    .concat(decimal_text(strip_size_kb as u64).as_str())
                    .concat("KiB must be power of 2");
                return Err(message);
            }
        }
        Ok(())
    }
}

/// No two of the four schemes are the same text.
pub(crate) proof fn lemma_schemes_differ()
    ensures
        "raid0"@ != "raid1"@,
        "raid0"@ != "raid5f"@,
        "raid0"@ != "concat"@,
        "raid1"@ != "raid5f"@,
        "raid1"@ != "concat"@,
        "raid5f"@ != "concat"@,
{
    reveal_strlit("raid0");
    reveal_strlit("raid1");
    reveal_strlit("raid5f");
    reveal_strlit("concat");
    assert("raid0"@[4] != "raid1"@[4]);
    assert("raid0"@.len() != "raid5f"@.len());
    assert("raid0"@.len() != "concat"@.len());
    assert("raid1"@.len() != "raid5f"@.len());
    assert("raid1"@.len() != "concat"@.len());
    assert("raid5f"@[0] != "concat"@[0]);
}

/// Each scheme selects the level of its name, and no other scheme selects any.
pub proof fn law_schemes_select_levels(scheme: Seq<char>)
    ensures
        scheme == "raid0"@ <==> (scheme_level(scheme) is Some && scheme_level(scheme)->0.name@ == "RAID0"@),
        scheme == "raid1"@ <==> (scheme_level(scheme) is Some && scheme_level(scheme)->0.name@ == "RAID1"@),
        scheme == "raid5f"@ <==> (scheme_level(scheme) is Some && scheme_level(scheme)->0.name@ == "RAID5F"@),
        scheme == "concat"@ <==> (scheme_level(scheme) is Some && scheme_level(scheme)->0.name@ == "CONCAT"@),
        scheme_level(scheme) is Some <==> scheme == "raid0"@ || scheme == "raid1"@ || scheme
            == "raid5f"@ || scheme == "concat"@,
{
    lemma_schemes_differ();
    reveal_strlit("RAID0");
    reveal_strlit("RAID1");
    reveal_strlit("RAID5F");
    reveal_strlit("CONCAT");
    assert("RAID0"@[4] != "RAID1"@[4]);
    assert("RAID0"@.len() != "RAID5F"@.len());
    assert("RAID0"@.len() != "CONCAT"@.len());
    assert("RAID1"@.len() != "RAID5F"@.len());
    assert("RAID1"@.len() != "CONCAT"@.len());
    assert("RAID5F"@[0] != "CONCAT"@[0]);
}

/// What a level demands goes with its name: RAID0 and RAID5F stripe, in strips
/// of 64 KB by default, RAID1 and CONCAT do not; RAID5F needs three children,
/// CONCAT one, the others two; and each has its number.
pub proof fn law_level_demands(scheme: Seq<char>)
    ensures
        scheme_level(scheme) matches Some(level) ==> {
            &&& level.strip_size_required <==> scheme == "raid0"@ || scheme == "raid5f"@
            &&& level.default_strip_size_kb == if scheme == "raid0"@ || scheme == "raid5f"@ {
                64
            } else {
                0int
            }
            &&& level.min_devices == if scheme == "raid5f"@ {
                3
            } else if scheme == "concat"@ {
                1
            } else {
                2int
            }
            &&& level.spdk_raid_level == if scheme == "raid0"@ {
                0
            } else if scheme == "raid1"@ {
                1
            } else if scheme == "raid5f"@ {
                95
            } else {
                99int
            }
        },
{
    lemma_schemes_differ();
}

/// The objection to a set-up is the first rule that it breaks: the number of
/// children, then the range of the strip size, then that it is a power of two.
pub proof fn law_objection_names_first_broken_rule(
    level: RaidLevel,
    children_count: nat,
    strip_size_kb: u32,
)
    ensures
        children_count < level.min_devices ==> level.objection(children_count, strip_size_kb)
            == Some("Needs at least "@ + decimal(level.min_devices as nat) + " devices"@),
        children_count >= level.min_devices && !level.strip_size_required ==> level.objection(
            children_count,
            strip_size_kb,
        ) is None,
        children_count >= level.min_devices && level.strip_size_required && (strip_size_kb < 4
            || strip_size_kb > 65536) ==> level.objection(children_count, strip_size_kb) == Some(
            "Strip size "@ + decimal(strip_size_kb as nat) + "KB out of range [4, 65536]"@,
        ),
        children_count >= level.min_devices && level.strip_size_required && 4 <= strip_size_kb
            <= 65536 && !is_pow2(strip_size_kb as int) ==> level.objection(
            children_count,
            strip_size_kb,
        ) == Some("Strip size "@ + decimal(strip_size_kb as nat) + "KiB must be power of 2"@),
        children_count >= level.min_devices && 4 <= strip_size_kb <= 65536 && is_pow2(
            strip_size_kb as int,
        ) ==> level.objection(children_count, strip_size_kb) is None,
{
}

/// A level accepts exactly the children and strip sizes that obey its rules:
/// enough children, and for a striping level a strip size that is a power of
/// two from 4 KB to 64 MB.
pub proof fn law_level_accepts_iff(level: RaidLevel, children_count: nat, strip_size_kb: u32)
    ensures
        level.objection(children_count, strip_size_kb) is None <==> {
            &&& children_count >= level.min_devices
            &&& level.strip_size_required ==> 4 <= strip_size_kb <= 65536 && is_pow2(
                strip_size_kb as int,
            )
        },
{
}

/// A level that does not stripe takes any strip size.
pub proof fn law_strip_size_ignored_without_striping(
    level: RaidLevel,
    children_count: nat,
    one: u32,
    other: u32,
)
    requires
        !level.strip_size_required,
    ensures
        level.objection(children_count, one) == level.objection(children_count, other),
{
}

/// More children never turn an accepted set-up into a refused one.
pub proof fn law_more_children_stay_accepted(
    level: RaidLevel,
    fewer: nat,
    more: nat,
    strip_size_kb: u32,
)
    requires
        fewer <= more,
        level.objection(fewer, strip_size_kb) is None,
    ensures
        level.objection(more, strip_size_kb) is None,
{
}

/// The default strip size of every level that a scheme selects is one that the
/// level accepts.
pub proof fn law_default_strip_size_accepted(scheme: Seq<char>, children_count: nat)
    requires
        scheme_level(scheme) is Some,
        children_count >= scheme_level(scheme)->0.min_devices,
    ensures
        scheme_level(scheme)->0.objection(
            children_count,
            scheme_level(scheme)->0.default_strip_size_kb,
        ) is None,
{
    assert(is_pow2(64)) by {
        reveal_with_fuel(is_pow2, 8);
    }
}

} // verus!
