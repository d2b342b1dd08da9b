use ptwar::resource::{
    ProcessedResource, RawResource, Resource, ResourceCount, ResourceStorage, ResourceUpdate,
    StorageUpdateStats,
};
use ptwar::tile::{Biome, Hex, MultiLayerNoiseValue, Tile};

fn update(id: u64, resource: Resource, amount: u32) -> ResourceUpdate {
    ResourceUpdate::new(id, String::from("standing update"), "a standing update", resource, amount)
}

const IRON: Resource = Resource::Raw(RawResource::Iron);
const STEEL: Resource = Resource::Processed(ProcessedResource::Steel);

#[test]
fn fresh_storage_holds_nothing() {
    let storage = ResourceStorage::default();
    assert_eq!(storage.resource_count(IRON), None);
}

#[test]
fn add_update_creates_empty_stock_and_clamps_to_capacity() {
    let mut storage = ResourceStorage::default();
    storage.add_update_storage(1, StorageUpdateStats::Add(update(1, IRON, 5)));
    // A stock created by an update starts with no capacity, so the addition
    // clamps to zero.
    assert_eq!(
        storage.resource_count(IRON),
        Some(ResourceCount { resource: IRON, max: 0, amount: 0 })
    );
    assert_eq!(storage.resource_count(STEEL), None);
}

#[test]
fn subtraction_stops_at_zero() {
    let mut storage = ResourceStorage::default();
    storage.add_update_storage(1, StorageUpdateStats::Sub(update(1, IRON, 3)));
    assert_eq!(
        storage.resource_count(IRON),
        Some(ResourceCount { resource: IRON, max: 0, amount: 0 })
    );
    // Another tick subtracts again; the stock stays at zero.
    storage.tick();
    assert_eq!(
        storage.resource_count(IRON),
        Some(ResourceCount { resource: IRON, max: 0, amount: 0 })
    );
}

#[test]
fn percent_update_creates_stock_and_changes_nothing() {
    let mut storage = ResourceStorage::default();
    storage.add_update_storage(4, StorageUpdateStats::Percent(update(4, STEEL, 50)));
    // Whole-number division makes a sub-hundred percentage a no-op beyond
    // creating the stock.
    assert_eq!(
        storage.resource_count(STEEL),
        Some(ResourceCount { resource: STEEL, max: 0, amount: 0 })
    );
    // A percentage of one hundred or more is ignored outright.
    storage.add_update_storage(5, StorageUpdateStats::Percent(update(5, STEEL, 150)));
    assert_eq!(
        storage.resource_count(STEEL),
        Some(ResourceCount { resource: STEEL, max: 0, amount: 0 })
    );
}

#[test]
fn registering_same_id_replaces_the_update() {
    let mut storage = ResourceStorage::default();
    storage.add_update_storage(9, StorageUpdateStats::Add(update(9, IRON, 5)));
    // The same identity now names a different resource's update; ticks keep
    // touching both stocks that ever existed, but only the steel update
    // remains registered.
    storage.add_update_storage(9, StorageUpdateStats::Add(update(9, STEEL, 5)));
    assert_eq!(
        storage.resource_count(STEEL),
        Some(ResourceCount { resource: STEEL, max: 0, amount: 0 })
    );
}

#[test]
fn removed_update_no_longer_applies() {
    let mut storage = ResourceStorage::default();
    storage.add_update_storage(2, StorageUpdateStats::Add(update(2, IRON, 1)));
    storage.remove(2);
    // The stock it created remains; removing an absent id is harmless.
    storage.remove(2);
    assert_eq!(
        storage.resource_count(IRON),
        Some(ResourceCount { resource: IRON, max: 0, amount: 0 })
    );
    // A tick with an empty registry creates nothing new.
    storage.tick();
    assert_eq!(storage.resource_count(STEEL), None);
}

#[test]
fn biome_move_costs() {
    assert_eq!(Biome::Water.move_cost(), Some(20));
    assert_eq!(Biome::Desert.move_cost(), Some(7));
    assert_eq!(Biome::Plains.move_cost(), Some(5));
    assert_eq!(Biome::Forest.move_cost(), Some(10));
    assert_eq!(Biome::DenseForest.move_cost(), Some(14));
    assert_eq!(Biome::Hill.move_cost(), Some(10));
    assert_eq!(Biome::Mountain.move_cost(), Some(17));
    assert_eq!(Biome::City.move_cost(), Some(10));
    assert_eq!(Biome::CityCenter.move_cost(), Some(10));
    assert_eq!(Biome::Road.move_cost(), Some(2));
}

#[test]
fn all_biomes_listed_once() {
    let all = Biome::all();
    assert_eq!(all.len(), 10);
    assert_eq!(all[0], Biome::Water);
    assert_eq!(all[8], Biome::Road);
    assert_eq!(all[9], Biome::CityCenter);
    for (i, a) in all.iter().enumerate() {
        for b in &all[i + 1..] {
            assert_ne!(a, b);
        }
    }
}

fn noise(height: i64, temperature: i64, humidity: i64, special: i64) -> MultiLayerNoiseValue {
    MultiLayerNoiseValue { height, temperature, humidity, special }
}

#[test]
fn biome_selection_thresholds() {
    // Deep water wins over everything.
    assert_eq!(noise(-201, 900, 900, 900).gen_biome(), Biome::Water);
    // A city seed wins over height bands.
    assert_eq!(noise(700, 0, 0, 751).gen_biome(), Biome::City);
    assert_eq!(noise(601, 0, 0, 750).gen_biome(), Biome::Mountain);
    assert_eq!(noise(401, 0, 0, 0).gen_biome(), Biome::Hill);
    // Warm and wet to warm and dry.
    assert_eq!(noise(0, 1, 601, 0).gen_biome(), Biome::DenseForest);
    assert_eq!(noise(0, 1, 301, 0).gen_biome(), Biome::Forest);
    assert_eq!(noise(0, 1, 300, 0).gen_biome(), Biome::Desert);
    // Cold land is plains.
    assert_eq!(noise(0, 0, 900, 0).gen_biome(), Biome::Plains);
    // Boundary: -200 exactly is land, not water.
    assert_eq!(noise(-200, 0, 900, 0).gen_biome(), Biome::Plains);
}

#[test]
fn tile_from_noise_sets_defaults() {
    let n = noise(0, 1, 700, 0);
    let tile = Tile::from_noise(Hex::new(3, -2), n);
    assert_eq!(tile.hex, Hex::new(3, -2));
    assert_eq!(tile.biome, Biome::DenseForest);
    assert_eq!(tile.infrastructure_level, 0);
    assert_eq!(tile.height, 0);
    assert_eq!(tile.wight, 100);
    assert_eq!(tile.slots, 3);
    assert_eq!(tile.noise, n);
}
