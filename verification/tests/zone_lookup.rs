use hues::bridge::Bridge;
use hues::device::{Device, DeviceData};
use hues::group::{Group, GroupData};
use hues::resource::{ResourceIdentifier, ResourceType};
use hues::scene::{Scene, SceneData};
use hues::zone::{Home, HomeData, Room, Zone, ZoneArchetype, ZoneBuilder, ZoneData, ZoneMetadata};

fn rid(id: &str, rtype: ResourceType) -> ResourceIdentifier {
    ResourceIdentifier::new(id.to_string(), rtype)
}

fn device(id: &str) -> Device {
    Device::new(DeviceData { id: id.to_string() })
}

fn scene(id: &str, group: ResourceIdentifier) -> Scene {
    Scene::new(SceneData { id: id.to_string(), group })
}

fn group(id: &str) -> Group {
    Group::new(GroupData { id: id.to_string() })
}

fn sample_bridge() -> Bridge {
    Bridge::new(
        vec![device("d1"), device("d2"), device("d3"), device("d4")],
        vec![
            scene("s1", rid("z1", ResourceType::Zone)),
            scene("s2", rid("z1", ResourceType::Room)),
            scene("s3", rid("z2", ResourceType::Zone)),
            scene("s4", rid("z1", ResourceType::Zone)),
        ],
        vec![group("g1"), group("g2"), group("g3")],
    )
}

fn zone_data(children: Vec<ResourceIdentifier>, services: Vec<ResourceIdentifier>) -> ZoneData {
    ZoneData {
        id: "z1".to_string(),
        id_v1: Some("/groups/1".to_string()),
        children,
        services,
        metadata: ZoneMetadata { name: "Upstairs".to_string(), archetype: ZoneArchetype::Upstairs },
    }
}

fn ids_of_devices(v: &[Device]) -> Vec<String> {
    v.iter().map(|d| d.data.id.clone()).collect()
}

fn ids_of_scenes(v: &[Scene]) -> Vec<String> {
    v.iter().map(|s| s.data.id.clone()).collect()
}

#[test]
fn zone_getters() {
    let bridge = sample_bridge();
    let zone = Zone::new(&bridge, zone_data(vec![], vec![]));
    assert_eq!(zone.id(), "z1");
    assert_eq!(zone.name(), "Upstairs");
    assert_eq!(zone.archetype(), ZoneArchetype::Upstairs);
    assert_eq!(zone.data().id_v1.as_deref(), Some("/groups/1"));
    assert_eq!(zone.rid(), rid("z1", ResourceType::Zone));
    assert_eq!(zone.data().rid(), rid("z1", ResourceType::Zone));
}

#[test]
fn room_rid_has_room_type() {
    let bridge = sample_bridge();
    let room = Room::new(&bridge, zone_data(vec![], vec![]));
    assert_eq!(room.rid(), rid("z1", ResourceType::Room));
    assert_eq!(room.id(), "z1");
    assert_eq!(room.name(), "Upstairs");
    assert_eq!(room.archetype(), ZoneArchetype::Upstairs);
}

#[test]
fn devices_are_the_children_in_bridge_order() {
    let bridge = sample_bridge();
    let children = vec![
        rid("d3", ResourceType::Device),
        rid("d1", ResourceType::Device),
        rid("d2", ResourceType::Light),
        rid("missing", ResourceType::Device),
    ];
    let zone = Zone::new(&bridge, zone_data(children.clone(), vec![]));
    assert_eq!(ids_of_devices(&zone.devices()), vec!["d1", "d3"]);
    let room = Room::new(&bridge, zone_data(children, vec![]));
    assert_eq!(ids_of_devices(&room.devices()), vec!["d1", "d3"]);
}

#[test]
fn no_children_no_devices() {
    let bridge = sample_bridge();
    let zone = Zone::new(&bridge, zone_data(vec![], vec![]));
    assert!(zone.devices().is_empty());
}

#[test]
fn scenes_belong_to_the_zone_or_room() {
    let bridge = sample_bridge();
    let zone = Zone::new(&bridge, zone_data(vec![], vec![]));
    assert_eq!(ids_of_scenes(&zone.scenes()), vec!["s1", "s4"]);
    let room = Room::new(&bridge, zone_data(vec![], vec![]));
    assert_eq!(ids_of_scenes(&room.scenes()), vec!["s2"]);
}

#[test]
fn group_is_named_by_first_group_service() {
    let bridge = sample_bridge();
    let services = vec![
        rid("g1", ResourceType::Light),
        rid("g2", ResourceType::Group),
        rid("g3", ResourceType::Group),
    ];
    let zone = Zone::new(&bridge, zone_data(vec![], services.clone()));
    assert_eq!(zone.group().map(|g| g.data.id), Some("g2".to_string()));
    let room = Room::new(&bridge, zone_data(vec![], services));
    assert_eq!(room.group().map(|g| g.data.id), Some("g2".to_string()));
}

#[test]
fn no_group_service_no_group() {
    let bridge = sample_bridge();
    let zone = Zone::new(&bridge, zone_data(vec![], vec![rid("g1", ResourceType::Light)]));
    assert!(zone.group().is_none());
}

#[test]
fn builder_sets_name_archetype_and_children() {
    let b = Zone::builder("Garden".to_string(), ZoneArchetype::Garden);
    assert_eq!(b.metadata.name, "Garden");
    assert_eq!(b.metadata.archetype, ZoneArchetype::Garden);
    assert!(b.children.is_empty());
    let b = b.children(vec![rid("d1", ResourceType::Device)]);
    assert_eq!(b.children, vec![rid("d1", ResourceType::Device)]);
    assert_eq!(b.metadata.name, "Garden");
    let r = Room::builder("Attic".to_string(), ZoneArchetype::Attic);
    assert_eq!(r.metadata.name, "Attic");
    let n = ZoneBuilder::new("Pool".to_string(), ZoneArchetype::Pool);
    assert_eq!(n.metadata.archetype, ZoneArchetype::Pool);
}

#[test]
fn home_rid_is_bridge_home() {
    let home = Home::new(HomeData {
        id: "h1".to_string(),
        id_v1: None,
        children: vec![rid("z1", ResourceType::Room)],
        services: vec![],
    });
    assert_eq!(home.id(), "h1");
    assert_eq!(home.rid(), rid("h1", ResourceType::BridgeHome));
    assert_eq!(home.data().rid(), rid("h1", ResourceType::BridgeHome));
    assert_eq!(home.data().children.len(), 1);
}

#[test]
fn bridge_lists_copy_everything() {
    let bridge = sample_bridge();
    assert_eq!(ids_of_devices(&bridge.devices()), vec!["d1", "d2", "d3", "d4"]);
    assert_eq!(bridge.scenes().len(), 4);
    assert_eq!(bridge.groups().len(), 3);
}

#[test]
fn resource_identifier_equality_needs_both_fields() {
    assert_eq!(rid("a", ResourceType::Device), rid("a", ResourceType::Device));
    assert_ne!(rid("a", ResourceType::Device), rid("a", ResourceType::Light));
    assert_ne!(rid("a", ResourceType::Device), rid("b", ResourceType::Device));
    let v = vec![rid("a", ResourceType::Device)];
    assert!(hues::resource::contains_rid(&v, &rid("a", ResourceType::Device)));
    assert!(!hues::resource::contains_rid(&v, &rid("a", ResourceType::Zone)));
}

#[test]
fn scene_and_device_accessors() {
    let s = scene("s9", rid("z1", ResourceType::Zone));
    assert_eq!(s.group(), rid("z1", ResourceType::Zone));
    assert_eq!(s.rid(), rid("s9", ResourceType::Scene));
    assert_eq!(s.id(), "s9");
    let d = device("d9");
    assert_eq!(d.rid(), rid("d9", ResourceType::Device));
    let g = group("g9");
    assert_eq!(g.rid(), rid("g9", ResourceType::Group));
}

#[test]
fn lights_are_those_owned_by_children() {
    let bridge = sample_bridge();
    let children = vec![rid("d1", ResourceType::Device), rid("d3", ResourceType::Device)];
    let owners = vec![
        rid("d3", ResourceType::Device),
        rid("d2", ResourceType::Device),
        rid("d1", ResourceType::Device),
        rid("d1", ResourceType::Light),
        rid("d3", ResourceType::Device),
    ];
    let zone = Zone::new(&bridge, zone_data(children.clone(), vec![]));
    assert_eq!(zone.lights(&owners), vec![0, 2, 4]);
    let room = Room::new(&bridge, zone_data(children, vec![]));
    assert_eq!(room.lights(&owners), vec![0, 2, 4]);
    assert!(zone.lights(&vec![]).is_empty());
}
