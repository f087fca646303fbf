//! Devices described by URIs.

use raid_bdev::error::BdevError;
use raid_bdev::level::RaidLevel;
use raid_bdev::raid::Raid;
use raid_bdev::uri::Uri;

fn made(text: &str) -> Result<Raid, BdevError> {
    Raid::try_from(&Uri::parse(text).unwrap())
}

fn refusal(text: &str) -> (String, String) {
    match made(text) {
        Err(BdevError::InvalidUri { uri, message }) => (uri, message),
        Err(error) => panic!("another error: {:?}", error),
        Ok(_) => panic!("accepted: {}", text),
    }
}

#[test]
fn test_uri_parsing_success() {
    // RAID0 with custom strip size
    let uri =
        Uri::parse("raid0:///my_raid?strip_size=128&children=aio:///dev/sda,malloc:///mem1")
            .unwrap();
    let raid = Raid::try_from(&uri).unwrap();
    assert_eq!(raid.name, "my_raid");
    assert_eq!(raid.strip_size_kb, 128);
    assert_eq!(raid.disks, vec!["aio:///dev/sda", "malloc:///mem1"]);
    assert_eq!(raid.level.name, "RAID0");

    // RAID1 (strip size ignored)
    let uri = Uri::parse("raid1:///mirror?children=dev1,dev2").unwrap();
    let raid = Raid::try_from(&uri).unwrap();
    assert_eq!(raid.name, "mirror");
    assert_eq!(raid.strip_size_kb, 0);
    assert_eq!(raid.level.name, "RAID1");

    // RAID5F with default strip size
    let uri = Uri::parse("raid5f:///parity?children=dev1,dev2,dev3").unwrap();
    let raid = Raid::try_from(&uri).unwrap();
    assert_eq!(raid.strip_size_kb, 64);
    assert_eq!(raid.level.name, "RAID5F");

    // CONCAT
    let uri = Uri::parse("concat:///linear?children=dev1").unwrap();
    let raid = Raid::try_from(&uri).unwrap();
    assert_eq!(raid.level.name, "CONCAT");
}

#[test]
fn test_uri_parsing_failures() {
    // Invalid scheme
    let uri = Uri::parse("invalid:///test?children=dev1,dev2").unwrap();
    assert!(Raid::try_from(&uri).is_err());

    // Empty path
    let uri = Uri::parse("raid0:///?children=dev1,dev2").unwrap();
    assert!(Raid::try_from(&uri).is_err());

    // Missing children parameter
    let uri = Uri::parse("raid0:///test").unwrap();
    assert!(Raid::try_from(&uri).is_err());
}

#[test]
fn test_validation_failures() {
    // RAID0: insufficient children
    let uri = Uri::parse("raid0:///test?children=dev1").unwrap();
    assert!(Raid::try_from(&uri).is_err());

    // RAID0: invalid strip size (not power of 2)
    let uri = Uri::parse("raid0:///test?strip_size=63&children=dev1,dev2").unwrap();
    assert!(Raid::try_from(&uri).is_err());

    // RAID0: strip size out of range
    let uri = Uri::parse("raid0:///test?strip_size=131072&children=dev1,dev2").unwrap();
    assert!(Raid::try_from(&uri).is_err());

    // RAID5F: insufficient children (needs at least 3)
    let uri = Uri::parse("raid5f:///test?children=dev1,dev2").unwrap();
    assert!(Raid::try_from(&uri).is_err());

    // RAID1: insufficient children (needs at least 2)
    let uri = Uri::parse("raid1:///test?children=dev1").unwrap();
    assert!(Raid::try_from(&uri).is_err());
}

#[test]
fn refusals_say_what_is_wrong() {
    let text = "invalid:///test?children=dev1,dev2";
    assert_eq!(refusal(text), (text.to_string(), "invalid scheme".to_string()));
    assert_eq!(refusal("raid0:///?children=a,b").1, "empty path");
    assert_eq!(refusal("raid0:?children=a,b").1, "empty path");
    assert_eq!(refusal("raid0:name?children=a,b").1, "empty path");
    assert_eq!(refusal("raid0://host?children=a,b").1, "empty path");
    assert_eq!(refusal("raid0:///test").1, "'children' must be specified");
    assert_eq!(refusal("raid0:///test?children=dev1").1, "Needs at least 2 devices");
    assert_eq!(refusal("raid5f:///test?children=a,b").1, "Needs at least 3 devices");
    assert_eq!(
        refusal("raid0:///test?strip_size=63&children=a,b").1,
        "Strip size 63KiB must be power of 2"
    );
    assert_eq!(
        refusal("raid0:///test?strip_size=131072&children=a,b").1,
        "Strip size 131072KB out of range [4, 65536]"
    );
    assert_eq!(
        refusal("raid0:///test?strip_size=2&children=a,b").1,
        "Strip size 2KB out of range [4, 65536]"
    );
    assert_eq!(
        refusal("raid0:///test?x=1&children=a,b&y=2").1,
        "unrecognized parameters: x, y"
    );
    assert_eq!(
        refusal("raid0:///test?y=1&children=a,b&x=2&y=3").1,
        "unrecognized parameters: y, x"
    );
}

#[test]
fn earlier_faults_are_reported_first() {
    assert_eq!(refusal("nope:///?x=1").1, "invalid scheme");
    assert_eq!(refusal("raid0:///?x=1").1, "empty path");
    assert_eq!(refusal("raid0:///t?x=1&strip_size=3").1, "'children' must be specified");
    assert_eq!(
        refusal("raid0:///t?x=1&strip_size=3&children=a,b").1,
        "Strip size 3KB out of range [4, 65536]"
    );
    assert!(matches!(
        made("raid0:///t?strip_size=&uuid=no"),
        Err(BdevError::IntParamParseFailed { .. })
    ));
    assert!(matches!(
        made("raid0:///t?uuid=no"),
        Err(BdevError::UuidParamParseFailed { .. })
    ));
}

#[test]
fn strip_size_that_is_no_number() {
    let text = "raid0:///test?strip_size=12x&children=dev1,dev2";
    match made(text) {
        Err(BdevError::IntParamParseFailed { source, uri, parameter, value }) => {
            assert_eq!(source, "12x".parse::<u32>().unwrap_err());
            assert_eq!(uri, text);
            assert_eq!(parameter, "strip_size");
            assert_eq!(value, "12x");
        }
        _ => panic!("no such error"),
    }
    for value in ["", "%2B", "-64", "64KB", "4294967296", "99999999999", "0x40", "6_4"] {
        let text = format!("raid0:///t?strip_size={}&children=a,b", value);
        assert!(matches!(made(&text), Err(BdevError::IntParamParseFailed { .. })), "{}", value);
    }
    for value in ["64", "%2B64", "00064"] {
        let text = format!("raid0:///t?strip_size={}&children=a,b", value);
        assert_eq!(made(&text).unwrap().strip_size_kb, 64, "{}", value);
    }
}

#[test]
fn reading_errors_are_kept() {
    let uri = Uri::parse("raid0:///r?children=a,b").unwrap();
    assert_eq!(Raid::strip_size(&uri, "8".to_string(), Ok(8)).unwrap(), 8);
    let reason = "".parse::<u32>().unwrap_err();
    match Raid::strip_size(&uri, "x".to_string(), Err(reason.clone())) {
        Err(BdevError::IntParamParseFailed { source, uri: text, parameter, value }) => {
            assert_eq!(source, reason);
            assert_eq!(text, uri.text);
            assert_eq!(parameter, "strip_size");
            assert_eq!(value, "x");
        }
        _ => panic!("no such error"),
    }
    match Uri::from_parts("text", Err(url::ParseError::EmptyHost)) {
        Err(BdevError::UriParseFailed { source, uri }) => {
            assert_eq!(source, url::ParseError::EmptyHost);
            assert_eq!(uri, "text");
        }
        _ => panic!("no such error"),
    }
    assert_eq!(Uri::from_parts("text", Ok(uri)).unwrap().path, "/r");
}

#[test]
fn strip_size_makes_a_difference_in_the_alias_only() {
    let id = "uuid=a1a2a3a4-b1b2-c1c2-d1d2-d3d4d5d6d7d8";
    let one = made(&format!("raid1:///m?{}&children=a,b", id)).unwrap();
    let other = made(&format!("raid1:///m?strip_size=63&children=a,b&{}", id)).unwrap();
    assert_ne!(one.alias, other.alias);
    assert_eq!(one.debug_text(), other.debug_text());
    assert_eq!(one.uuid, other.uuid);
}

#[test]
fn strip_size_is_ignored_without_striping() {
    let raid = made("raid1:///m?strip_size=what&children=a,b").unwrap();
    assert_eq!(raid.strip_size_kb, 0);
    let raid = made("concat:///c?strip_size=7&children=a").unwrap();
    assert_eq!(raid.strip_size_kb, 0);
}

#[test]
fn given_uuid_is_kept() {
    let raid =
        made("raid0:///r?uuid=a1a2a3a4-b1b2-c1c2-d1d2-d3d4d5d6d7d8&children=a,b").unwrap();
    assert_eq!(raid.uuid, 0xa1a2a3a4b1b2c1c2d1d2d3d4d5d6d7d8);
}

#[test]
fn uuid_that_is_none() {
    let text = "raid0:///r?uuid=a1a2&children=a,b";
    match made(text) {
        Err(BdevError::UuidParamParseFailed { source, uri }) => {
            assert_eq!(source, uuid::Uuid::parse_str("a1a2").unwrap_err());
            assert_eq!(uri, text);
        }
        _ => panic!("no such error"),
    }
}

#[test]
fn missing_uuid_is_made_up() {
    let one = made("raid0:///r?children=a,b").unwrap();
    let other = made("raid0:///r?children=a,b").unwrap();
    for raid in [&one, &other] {
        let id = uuid::Uuid::from_u128(raid.uuid);
        assert_eq!(id.get_version(), Some(uuid::Version::Random));
        assert_eq!(id.get_variant(), uuid::Variant::RFC4122);
    }
    assert_ne!(one.uuid, other.uuid);
}

#[test]
fn device_mirrors_its_uri() {
    let text = "raid0:///group/r?children=a,,b";
    let raid = made(text).unwrap();
    assert_eq!(raid.name, "group/r");
    assert_eq!(raid.get_name(), "group/r");
    assert_eq!(raid.alias, text);
    assert_eq!(raid.disks, vec!["a", "", "b"]);
    assert_eq!(raid.level.spdk_raid_level, 0);
}

#[test]
fn last_value_of_a_parameter_counts() {
    let raid = made("raid0:///r?strip_size=no&children=x&strip_size=32&children=a,b").unwrap();
    assert_eq!(raid.strip_size_kb, 32);
    assert_eq!(raid.disks, vec!["a", "b"]);
}

#[test]
fn parameters_are_decoded_and_in_any_order() {
    let one = made("raid5f:///r?children=a%2Cb+c,%2Fdev&strip_size=8").unwrap();
    let other = made("raid5f:///r?strip_size=8&children=a%2Cb+c,%2Fdev").unwrap();
    assert_eq!(one.disks, vec!["a", "b c", "/dev"]);
    assert_eq!(other.disks, one.disks);
    assert_eq!(other.strip_size_kb, one.strip_size_kb);
}

#[test]
fn text_that_is_no_uri() {
    match Uri::parse("no uri") {
        Err(BdevError::UriParseFailed { source, uri }) => {
            assert_eq!(source, url::ParseError::RelativeUrlWithoutBase);
            assert_eq!(uri, "no uri");
        }
        _ => panic!("no such error"),
    }
}

#[test]
fn uri_is_taken_apart() {
    let uri = Uri::parse("RAID0://host/a/b%20c?x=1%202&y&x=3#top").unwrap();
    assert_eq!(uri.scheme, "raid0");
    assert_eq!(uri.path, "/a/b%20c");
    assert_eq!(
        uri.query,
        vec![
            ("x".to_string(), "1 2".to_string()),
            ("y".to_string(), String::new()),
            ("x".to_string(), "3".to_string()),
        ]
    );
    assert_eq!(uri.text, "raid0://host/a/b%20c?x=1%202&y&x=3#top");
    assert_eq!(uri.segments(), vec!["a", "b%20c"]);
    assert_eq!(uri.parameter("x"), Some("3".to_string()));
    assert_eq!(uri.parameter("y"), Some(String::new()));
    assert_eq!(uri.parameter("z"), None);
}

#[test]
fn segments_of_short_paths() {
    let with_path = |path: &str| Uri {
        scheme: String::new(),
        path: path.to_string(),
        query: Vec::new(),
        text: String::new(),
    };
    assert!(with_path("").segments().is_empty());
    assert!(with_path("/").segments().is_empty());
    assert!(with_path("ab").segments().is_empty());
    assert_eq!(with_path("//").segments(), vec!["", ""]);
    assert_eq!(with_path("/a/").segments(), vec!["a", ""]);
}

#[test]
fn device_with_given_parts() {
    let uri = Uri::parse("raid5f:///r?children=a,b,c").unwrap();
    let (level, strip_size_kb) = Raid::geometry(&uri).unwrap();
    assert_eq!(level.name, RaidLevel::raid5f().name);
    assert_eq!(strip_size_kb, 64);
    let raid = Raid::with_uuid(&uri, level, strip_size_kb, Ok(7)).unwrap();
    assert_eq!(raid.uuid, 7);
    assert_eq!(raid.disks.len(), 3);
}

#[test]
fn debug_text_shows_the_device() {
    let raid = Raid::new(
        "my_raid".to_string(),
        "alias".to_string(),
        vec!["dev1".to_string(), "d\"2".to_string()],
        RaidLevel::raid0(),
        1,
        128,
    );
    assert_eq!(
        raid.debug_text(),
        "RaidRAID0 'my_raid' (strip_size: 128KB) <= [\"dev1\", \"d\\\"2\"]"
    );
    assert!(raid.debug_text().ends_with(&format!("{:?}", raid.disks)));
}
