use bevy_ggrs::snapshot::checksum::{Checksum, ChecksumPart};
use bevy_ggrs::snapshot::entity_checksum::EntityChecksumPlugin;
use bevy_ggrs::snapshot::resource_checksum_hash::GgrsResourceChecksumHashPlugin;

#[test]
fn the_checksum_is_the_exclusive_or_of_its_parts() {
    assert_eq!(Checksum::update(&vec![]), Checksum(0));
    assert_eq!(Checksum::update(&vec![ChecksumPart(0xf0)]), Checksum(0xf0));
    let parts = vec![ChecksumPart(0b1100), ChecksumPart(0b1010), ChecksumPart(1 << 100)];
    assert_eq!(Checksum::update(&parts), Checksum((1 << 100) | 0b0110));
}

#[test]
fn the_checksum_does_not_depend_on_the_order_of_the_parts() {
    let a = vec![ChecksumPart(11), ChecksumPart(22), ChecksumPart(33)];
    let b = vec![ChecksumPart(33), ChecksumPart(11), ChecksumPart(22)];
    assert_eq!(Checksum::update(&a), Checksum::update(&b));
}

#[test]
fn a_changed_part_changes_the_checksum() {
    let before = vec![ChecksumPart(11), ChecksumPart(22), ChecksumPart(33)];
    let after = vec![ChecksumPart(11), ChecksumPart(23), ChecksumPart(33)];
    assert_ne!(Checksum::update(&before), Checksum::update(&after));
}

#[test]
fn hashing_the_same_state_twice_gives_the_same_part() {
    assert_eq!(ChecksumPart::from_bytes(&[1, 2, 3]), ChecksumPart::from_bytes(&[1, 2, 3]));
    assert_ne!(ChecksumPart::from_bytes(&[1, 2, 3]), ChecksumPart::from_bytes(&[1, 2, 4]));
    assert_eq!(ChecksumPart::from_value(&(7u32, "seven")), ChecksumPart::from_value(&(7u32, "seven")));
    assert_ne!(ChecksumPart::from_value(&(7u32, "seven")), ChecksumPart::from_value(&(8u32, "seven")));
    assert_eq!(
        GgrsResourceChecksumHashPlugin::<u64>::update(&99),
        GgrsResourceChecksumHashPlugin::<u64>::update(&99)
    );
    assert_eq!(GgrsResourceChecksumHashPlugin::<u64>::update(&99), ChecksumPart::from_value(&99u64));
}

#[test]
fn a_digest_is_widened_unchanged() {
    assert_eq!(ChecksumPart::from_digest(0), ChecksumPart(0));
    assert_eq!(ChecksumPart::from_digest(u64::MAX), ChecksumPart(u64::MAX as u128));
}

#[test]
fn the_entity_part_follows_the_two_counts() {
    let part = EntityChecksumPlugin::update(3, 5);
    assert_eq!(part, EntityChecksumPlugin::update(3, 5));
    assert!(part.0 <= u64::MAX as u128);
    assert_ne!(part, EntityChecksumPlugin::update(4, 5));
    assert_ne!(part, EntityChecksumPlugin::update(3, 6));
    assert_ne!(part, EntityChecksumPlugin::update(5, 3));
    assert_ne!(part, ChecksumPart(3));
}
