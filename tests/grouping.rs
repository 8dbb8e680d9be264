use photo_grouper::grouping::{group_photos_by_item, PhotoGroup};

fn names(n: usize) -> Vec<String> {
    (0..n).map(|i| format!("p{}.jpg", i)).collect()
}

fn min_agree_for(threshold: f64) -> u32 {
    (threshold * 64.0).ceil() as u32
}

fn members(g: &PhotoGroup) -> Vec<&str> {
    g.photos.iter().map(|s| s.as_str()).collect()
}

#[test]
fn empty_input_gives_no_groups() {
    for t in [0u32, 32, 64, 65] {
        assert!(group_photos_by_item(&vec![], &vec![], t).is_empty());
    }
}

#[test]
fn single_photo_gives_one_singleton_group() {
    let groups = group_photos_by_item(&names(1), &vec![77], 60);
    assert_eq!(groups.len(), 1);
    assert_eq!(groups[0].id, "item-1");
    assert_eq!(members(&groups[0]), vec!["p0.jpg"]);
    assert_eq!(groups[0].primary_photo, "p0.jpg");
    assert_eq!(groups[0].confidence_percent, 50);
}

#[test]
fn two_identical_photos_at_high_threshold_form_one_group() {
    let groups = group_photos_by_item(&names(2), &vec![0xABCD, 0xABCD], min_agree_for(0.99));
    assert_eq!(groups.len(), 1);
    assert_eq!(members(&groups[0]), vec!["p0.jpg", "p1.jpg"]);
    assert_eq!(groups[0].confidence_percent, 85);
    assert_eq!(groups[0].primary_photo, "p0.jpg");
}

#[test]
fn full_threshold_groups_only_identical_fingerprints() {
    let hashes = vec![5, 4, 5, 7, 4];
    let groups = group_photos_by_item(&names(5), &hashes, 64);
    assert_eq!(groups.len(), 3);
    assert_eq!(members(&groups[0]), vec!["p0.jpg", "p2.jpg"]);
    assert_eq!(members(&groups[1]), vec!["p1.jpg", "p4.jpg"]);
    assert_eq!(members(&groups[2]), vec!["p3.jpg"]);
    assert_eq!(groups[2].confidence_percent, 50);
}

#[test]
fn zero_threshold_puts_everything_in_the_first_group() {
    let hashes = vec![0, u64::MAX, 12345, 1 << 40];
    let groups = group_photos_by_item(&names(4), &hashes, 0);
    assert_eq!(groups.len(), 1);
    assert_eq!(groups[0].primary_photo, "p0.jpg");
    assert_eq!(members(&groups[0]), vec!["p0.jpg", "p1.jpg", "p2.jpg", "p3.jpg"]);
    assert_eq!(groups[0].confidence_percent, 85);
}

#[test]
fn members_are_compared_with_the_seed_only() {
    // p1 is 2 bits from p0, p2 is 2 bits from p1 but 4 bits from p0.
    let hashes = vec![0b0000, 0b0011, 0b1111];
    let groups = group_photos_by_item(&names(3), &hashes, 62);
    assert_eq!(groups.len(), 2);
    assert_eq!(members(&groups[0]), vec!["p0.jpg", "p1.jpg"]);
    assert_eq!(members(&groups[1]), vec!["p2.jpg"]);
}

#[test]
fn groups_partition_the_input_in_order() {
    let hashes = vec![0, u64::MAX, 1, u64::MAX - 1, 3, 0xFF00, 0xFF01];
    let photos = names(7);
    let groups = group_photos_by_item(&photos, &hashes, 60);
    let mut seen: Vec<&str> = Vec::new();
    for (n, g) in groups.iter().enumerate() {
        assert_eq!(g.id, format!("item-{}", n + 1));
        assert!(!g.photos.is_empty());
        assert_eq!(g.primary_photo, g.photos[0]);
        for p in &g.photos {
            assert!(!seen.contains(&p.as_str()));
            seen.push(p.as_str());
        }
        let idx: Vec<usize> = g.photos.iter().map(|p| photos.iter().position(|q| q == p).unwrap()).collect();
        assert!(idx.windows(2).all(|w| w[0] < w[1]));
    }
    assert_eq!(seen.len(), photos.len());
    let firsts: Vec<usize> = groups
        .iter()
        .map(|g| photos.iter().position(|q| *q == g.primary_photo).unwrap())
        .collect();
    assert!(firsts.windows(2).all(|w| w[0] < w[1]));
    assert_eq!(members(&groups[0]), vec!["p0.jpg", "p2.jpg", "p4.jpg"]);
    assert_eq!(members(&groups[1]), vec!["p1.jpg", "p3.jpg"]);
    assert_eq!(members(&groups[2]), vec!["p5.jpg", "p6.jpg"]);
}

#[test]
fn group_ids_count_past_nine() {
    let hashes: Vec<u64> = (0..12u32).map(|i| u64::MAX >> (i * 5)).collect();
    let groups = group_photos_by_item(&names(12), &hashes, 64);
    assert_eq!(groups.len(), 12);
    assert_eq!(groups[9].id, "item-10");
    assert_eq!(groups[11].id, "item-12");
}
