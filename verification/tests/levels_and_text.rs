//! Levels, and the text helpers.

use raid_bdev::level::RaidLevel;
use raid_bdev::text::{decimal_text, join, split};

#[test]
fn schemes_select_levels() {
    let name = |scheme: &str| RaidLevel::from_scheme(scheme).map(|level| level.name);
    assert_eq!(name("raid0"), Some("RAID0"));
    assert_eq!(name("raid1"), Some("RAID1"));
    assert_eq!(name("raid5f"), Some("RAID5F"));
    assert_eq!(name("concat"), Some("CONCAT"));
    assert_eq!(name("raid5"), None);
    assert_eq!(name("RAID0"), None);
    assert_eq!(name(""), None);
}

#[test]
fn levels_have_their_numbers() {
    let numbers = |level: &RaidLevel| {
        (
            level.spdk_raid_level,
            level.min_devices,
            level.default_strip_size_kb,
            level.strip_size_required,
        )
    };
    assert_eq!(numbers(RaidLevel::raid0()), (0, 2, 64, true));
    assert_eq!(numbers(RaidLevel::raid1()), (1, 2, 0, false));
    assert_eq!(numbers(RaidLevel::raid5f()), (95, 3, 64, true));
    assert_eq!(numbers(RaidLevel::concat()), (99, 1, 0, false));
}

#[test]
fn strip_sizes_of_striping_levels() {
    for level in [RaidLevel::raid0(), RaidLevel::raid5f()] {
        for exponent in 0..32 {
            let accepted = level.validate(3, 1 << exponent).is_ok();
            assert_eq!(accepted, (2..=16).contains(&exponent), "{}", exponent);
        }
        assert!(level.validate(3, 0).is_err());
        assert!(level.validate(3, 65535).is_err());
        assert_eq!(
            level.validate(3, 6),
            Err("Strip size 6KiB must be power of 2".to_string())
        );
        assert!(level.validate(3, level.default_strip_size_kb).is_ok());
    }
    for level in [RaidLevel::raid1(), RaidLevel::concat()] {
        assert!(level.validate(2, 7).is_ok());
    }
}

#[test]
fn too_few_children_come_before_the_strip_size() {
    assert_eq!(RaidLevel::raid0().validate(1, 3), Err("Needs at least 2 devices".to_string()));
    assert_eq!(RaidLevel::raid0().validate(2, 3), Err("Strip size 3KB out of range [4, 65536]".to_string()));
    assert_eq!(RaidLevel::concat().validate(0, 0), Err("Needs at least 1 devices".to_string()));
    assert!(RaidLevel::concat().validate(1, 0).is_ok());
    assert!(RaidLevel::raid5f().validate(300, 64).is_ok());
}

#[test]
fn split_and_join_undo_each_other() {
    for text in ["", ",", "a", "a,b", ",a,,b,", "grün,weiß"] {
        let list = split(text, ',');
        assert_eq!(list, text.split(',').map(String::from).collect::<Vec<_>>());
        assert_eq!(join(&list, ","), text);
    }
    assert_eq!(join(&Vec::new(), ","), "");
    let list = vec!["x".to_string(), "y".to_string()];
    assert_eq!(join(&list, ", "), "x, y");
}

#[test]
fn numbers_in_decimal() {
    for n in [0, 7, 9, 10, 64, 100, 65536, u32::MAX as u64, u64::MAX] {
        assert_eq!(decimal_text(n), n.to_string());
    }
}
