use noise_gen::lattice::CornerHashes;
use noise_gen::table::{create_permutation_table, PermutationTable};
use noise_gen::SIZE;

fn identity_table() -> PermutationTable {
    let values: Vec<u32> = (0..256).collect();
    PermutationTable::from_permutation(&values).unwrap()
}

fn reversed_table() -> PermutationTable {
    let values: Vec<u32> = (0..256).rev().collect();
    PermutationTable::from_permutation(&values).unwrap()
}

#[test]
fn identity_table_hashes_the_first_cell() {
    let h = identity_table().corner_hashes(0, 0);
    assert_eq!(h, CornerHashes { bot_left: 0, bot_right: 1, top_left: 1, top_right: 2 });
}

#[test]
fn point_inside_the_first_cell_uses_its_corners() {
    let x = 0.5f32;
    let y = 0.5f32;
    let h = identity_table().corner_hashes(x.floor() as usize, y.floor() as usize);
    assert_eq!(h, CornerHashes { bot_left: 0, bot_right: 1, top_left: 1, top_right: 2 });
}

#[test]
fn identity_table_hashes_add_the_coordinates() {
    let h = identity_table().corner_hashes(3, 250);
    assert_eq!(h, CornerHashes { bot_left: 253, bot_right: 254, top_left: 254, top_right: 255 });
    let h = identity_table().corner_hashes(100, 200);
    assert_eq!(h, CornerHashes { bot_left: 44, bot_right: 45, top_left: 45, top_right: 46 });
}

#[test]
fn identity_table_hashes_the_last_cell() {
    let h = identity_table().corner_hashes(255, 255);
    assert_eq!(h, CornerHashes { bot_left: 254, bot_right: 255, top_left: 255, top_right: 0 });
}

#[test]
fn reversed_table_hashes_by_double_lookup() {
    let h = reversed_table().corner_hashes(10, 20);
    assert_eq!(h, CornerHashes { bot_left: 246, bot_right: 247, top_left: 245, top_right: 246 });
}

#[test]
fn cell_coordinates_wrap_at_size() {
    let table = reversed_table();
    assert_eq!(table.corner_hashes(256, 0), table.corner_hashes(0, 0));
    assert_eq!(table.corner_hashes(0, 256), table.corner_hashes(0, 0));
    assert_eq!(table.corner_hashes(266, 532), table.corner_hashes(10, 20));
    assert_eq!(table.corner_hashes(usize::MAX, usize::MAX), table.corner_hashes(255, 255));
}

#[test]
fn hashes_repeat_every_size_cells() {
    let table = create_permutation_table();
    for x in 0..300 {
        for y in [0usize, 1, 77, 255, 256, 1000] {
            let h = table.corner_hashes(x, y);
            assert_eq!(table.corner_hashes(x + SIZE, y), h);
            assert_eq!(table.corner_hashes(x, y + SIZE), h);
        }
    }
}

#[test]
fn neighbouring_cells_share_corners() {
    let table = create_permutation_table();
    for x in 0..260 {
        for y in 0..260 {
            let here = table.corner_hashes(x, y);
            let right = table.corner_hashes(x + 1, y);
            let above = table.corner_hashes(x, y + 1);
            assert_eq!(here.bot_right, right.bot_left);
            assert_eq!(here.top_right, right.top_left);
            assert_eq!(here.top_left, above.bot_left);
            assert_eq!(here.top_right, above.bot_right);
        }
    }
}

#[test]
fn hashes_index_a_table_of_size_entries() {
    let table = create_permutation_table();
    for x in 0..SIZE {
        for y in 0..SIZE {
            let h = table.corner_hashes(x, y);
            assert!((h.bot_left as usize) < SIZE);
            assert!((h.bot_right as usize) < SIZE);
            assert!((h.top_left as usize) < SIZE);
            assert!((h.top_right as usize) < SIZE);
        }
    }
}

#[test]
fn hashes_follow_the_entries() {
    let table = create_permutation_table();
    let t = table.entries();
    for (x, y) in [(0usize, 0usize), (5, 9), (255, 0), (0, 255), (255, 255), (300, 700)] {
        let xp = x % 256;
        let yp = y % 256;
        let h = table.corner_hashes(x, y);
        assert_eq!(h.bot_left, t[t[xp] as usize + yp]);
        assert_eq!(h.bot_right, t[t[xp + 1] as usize + yp]);
        assert_eq!(h.top_left, t[t[xp] as usize + yp + 1]);
        assert_eq!(h.top_right, t[t[xp + 1] as usize + yp + 1]);
    }
}

#[test]
fn same_cell_gives_the_same_hashes() {
    let table = create_permutation_table();
    assert_eq!(table.corner_hashes(12, 34), table.corner_hashes(12, 34));
}
