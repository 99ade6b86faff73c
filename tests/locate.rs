use aeabi_unwind::table::{locate, table_len};

const BASE: u32 = 0x1000;

/// Builds a table stored at `BASE` whose functions start at `starts`.
fn table_with_starts(starts: &[u32]) -> Vec<[u32; 2]> {
    starts
        .iter()
        .enumerate()
        .map(|(i, s)| {
            let off = s.wrapping_sub(BASE + 8 * i as u32).wrapping_sub(0x8000_0000);
            assert!(off < 0x8000_0000);
            [off, 1]
        })
        .collect()
}

#[test]
fn locate_picks_closest_start_below() {
    let t = table_with_starts(&[100, 200, 350]);
    assert_eq!(locate(BASE, &t, 260), Some(1));
}

#[test]
fn locate_before_first_function_is_none() {
    let t = table_with_starts(&[100, 200, 350]);
    assert_eq!(locate(BASE, &t, 50), None);
}

#[test]
fn locate_is_strictly_below() {
    let t = table_with_starts(&[100, 200, 350]);
    assert_eq!(locate(BASE, &t, 200), Some(0));
    assert_eq!(locate(BASE, &t, 100), None);
    assert_eq!(locate(BASE, &t, 351), Some(2));
}

#[test]
fn locate_empty_table_is_none() {
    let t: Vec<[u32; 2]> = Vec::new();
    assert_eq!(locate(BASE, &t, 0x1234), None);
}

#[test]
fn locate_twice_gives_same_entry() {
    let t = table_with_starts(&[100, 200, 350]);
    let a = locate(BASE, &t, 300);
    let b = locate(BASE, &t, 300);
    assert_eq!(a, b);
    assert_eq!(a, Some(1));
}

#[test]
fn locate_unsorted_table_takes_greatest_start() {
    let t = table_with_starts(&[350, 100, 200]);
    assert_eq!(locate(BASE, &t, 300), Some(2));
}

#[test]
fn locate_equal_starts_takes_earliest() {
    let t = table_with_starts(&[100, 200, 200]);
    assert_eq!(locate(BASE, &t, 250), Some(1));
}

#[test]
fn table_len_counts_entries() {
    assert_eq!(table_len(0x1000, 0x1018), Some(3));
    assert_eq!(table_len(0x1000, 0x1000), Some(0));
}

#[test]
fn table_len_rejects_bad_bounds() {
    assert_eq!(table_len(0x1018, 0x1000), None);
    assert_eq!(table_len(0x1000, 0x1007), None);
}
