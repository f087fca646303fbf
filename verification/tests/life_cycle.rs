//! Creating and destroying devices, against a device layer made of answers.

use raid_bdev::create::{CreateAction, CreateEvent, CreateState};
use raid_bdev::destroy::{DestroyAction, DestroyEvent, DestroyState};
use raid_bdev::error::{BdevError, RaidError};
use raid_bdev::level::RaidLevel;
use raid_bdev::raid::Raid;

/// A device layer that knows some devices and fails at some actions.
struct Layer {
    devices: Vec<String>,
    create_fails: bool,
    add_fails: Option<String>,
    online_fails: bool,
    delete_fails: bool,
    alias_fails: bool,
    log: Vec<String>,
}

fn layer(devices: &[&str]) -> Layer {
    Layer {
        devices: devices.iter().map(|name| name.to_string()).collect(),
        create_fails: false,
        add_fails: None,
        online_fails: false,
        delete_fails: false,
        alias_fails: false,
        log: Vec::new(),
    }
}

fn answer(fails: bool, error: &'static str) -> CreateEvent<&'static str> {
    if fails {
        CreateEvent::Failed(error)
    } else {
        CreateEvent::Succeeded
    }
}

impl Layer {
    fn perform(&mut self, action: CreateAction) -> CreateEvent<&'static str> {
        match action {
            CreateAction::LookUp { name } => {
                self.log.push(format!("look {}", name));
                CreateEvent::Found(self.devices.contains(&name))
            }
            CreateAction::CreateRaid { name, uuid, strip_size_kb, device_count, spdk_raid_level } => {
                self.log.push(format!(
                    "create {} {} {} {} {}",
                    name, uuid, strip_size_kb, device_count, spdk_raid_level
                ));
                if !self.create_fails {
                    self.devices.push(name);
                }
                answer(self.create_fails, "no create")
            }
            CreateAction::AddBaseBdev { name } => {
                self.log.push(format!("add {}", name));
                answer(self.add_fails == Some(name), "no add")
            }
            CreateAction::WaitForOnline => {
                self.log.push("wait".to_string());
                answer(self.online_fails, "no online")
            }
            CreateAction::DeleteRaid => {
                self.log.push("delete".to_string());
                if !self.delete_fails {
                    self.devices.pop();
                }
                answer(self.delete_fails, "no delete")
            }
            CreateAction::AddAlias { alias } => {
                self.log.push(format!("alias {}", alias));
                CreateEvent::AliasAdded(!self.alias_fails)
            }
        }
    }
}

fn create(raid: &Raid, layer: &mut Layer) -> Result<String, RaidError<&'static str>> {
    let mut state = raid.create_start();
    while let Some(action) = raid.create_action(&state) {
        let event = layer.perform(action);
        state = raid.create_step(state, event);
    }
    match state {
        CreateState::Finished { result } => result,
        _ => panic!("not finished"),
    }
}

fn destroy(raid: &Raid, found: bool, fails: bool) -> (Vec<String>, Result<(), RaidError<&'static str>>) {
    let mut log = Vec::new();
    let mut state = raid.destroy_start();
    while let Some(action) = raid.destroy_action(&state) {
        let event = match action {
            DestroyAction::FindRaid { name } => {
                log.push(format!("find {}", name));
                DestroyEvent::Found(found)
            }
            DestroyAction::DeleteRaid => {
                log.push("delete".to_string());
                if fails {
                    DestroyEvent::Failed("no delete")
                } else {
                    DestroyEvent::Succeeded
                }
            }
        };
        state = raid.destroy_step(state, event);
    }
    match state {
        DestroyState::Finished { result } => (log, result),
        _ => panic!("not finished"),
    }
}

fn sample() -> Raid {
    Raid::new(
        "r".to_string(),
        "raid0:///r".to_string(),
        vec!["a".to_string(), "b".to_string()],
        RaidLevel::raid0(),
        5,
        64,
    )
}

#[test]
fn creation_asks_in_order() {
    let mut layer = layer(&["a", "b"]);
    assert_eq!(create(&sample(), &mut layer).unwrap(), "r");
    assert_eq!(
        layer.log,
        vec![
            "look r", "look a", "look b", "create r 5 64 2 0", "add a", "add b", "wait", "look r",
            "alias raid0:///r",
        ]
    );
}

#[test]
fn taken_name_is_refused() {
    let mut layer = layer(&["a", "b"]);
    create(&sample(), &mut layer).unwrap();
    layer.log.clear();
    match create(&sample(), &mut layer) {
        Err(RaidError::Bdev(BdevError::BdevExists { name })) => assert_eq!(name, "r"),
        _ => panic!("no such error"),
    }
    assert_eq!(layer.log, vec!["look r"]);
}

#[test]
fn missing_child_is_refused() {
    let mut layer = layer(&["a"]);
    match create(&sample(), &mut layer) {
        Err(RaidError::Bdev(BdevError::CreateBdevFailedStr { error, name })) => {
            assert_eq!(error, "Child device 'b' not found");
            assert_eq!(name, "r");
        }
        _ => panic!("no such error"),
    }
    assert_eq!(layer.log, vec!["look r", "look a", "look b"]);
}

#[test]
fn refused_creation_deletes_nothing() {
    let mut layer = layer(&["a", "b"]);
    layer.create_fails = true;
    assert!(matches!(create(&sample(), &mut layer), Err(RaidError::Device("no create"))));
    assert_eq!(layer.log.last().unwrap(), "create r 5 64 2 0");
}

#[test]
fn failed_addition_is_rolled_back() {
    for delete_fails in [false, true] {
        let mut layer = layer(&["a", "b"]);
        layer.add_fails = Some("b".to_string());
        layer.delete_fails = delete_fails;
        assert!(matches!(create(&sample(), &mut layer), Err(RaidError::Device("no add"))));
        assert_eq!(layer.log[4..], ["add a", "add b", "delete"]);
    }
}

#[test]
fn offline_device_is_rolled_back() {
    let mut layer = layer(&["a", "b"]);
    layer.online_fails = true;
    assert!(matches!(create(&sample(), &mut layer), Err(RaidError::Device("no online"))));
    assert_eq!(layer.log[6..], ["wait", "delete"]);
    assert_eq!(layer.devices, vec!["a", "b"]);
}

#[test]
fn alias_does_not_matter_for_success() {
    let mut failing = layer(&["a", "b"]);
    failing.alias_fails = true;
    assert_eq!(create(&sample(), &mut failing).unwrap(), "r");

    let mut raid = sample();
    raid.alias = raid.name.clone();
    let mut same = layer(&["a", "b"]);
    assert_eq!(create(&raid, &mut same).unwrap(), "r");
    assert_eq!(same.log.last().unwrap(), "look r");
}

#[test]
fn number_of_children_goes_into_a_byte() {
    let names: Vec<String> = (0..258).map(|i| format!("d{}", i)).collect();
    let mut layer = layer(&[]);
    layer.devices = names.clone();
    let raid = Raid::new("c".to_string(), "c".to_string(), names, RaidLevel::concat(), 0, 0);
    assert_eq!(create(&raid, &mut layer).unwrap(), "c");
    assert_eq!(layer.log[259], "create c 0 0 2 99");
    assert_eq!(layer.log.len(), 1 + 258 + 1 + 258 + 1 + 1);
}

#[test]
fn device_without_children_is_created() {
    let raid = Raid::new("e".to_string(), "x".to_string(), Vec::new(), RaidLevel::concat(), 0, 0);
    let mut layer = layer(&[]);
    assert_eq!(create(&raid, &mut layer).unwrap(), "e");
    assert_eq!(layer.log, vec!["look e", "create e 0 0 0 99", "wait", "look e", "alias x"]);
}

#[test]
fn destruction_finds_and_deletes() {
    let (log, result) = destroy(&sample(), true, false);
    assert_eq!(log, vec!["find r", "delete"]);
    assert!(result.is_ok());

    let (log, result) = destroy(&sample(), true, true);
    assert_eq!(log, vec!["find r", "delete"]);
    assert!(matches!(result, Err(RaidError::Device("no delete"))));

    let (log, result) = destroy(&sample(), false, false);
    assert_eq!(log, vec!["find r"]);
    match result {
        Err(RaidError::Bdev(BdevError::BdevNotFound { name })) => assert_eq!(name, "r"),
        _ => panic!("no such error"),
    }
}
