use material_icon_browser::layout::{arrange_rows, get_items_per_row};

#[test]
fn items_per_row_follows_the_width_steps() {
    assert_eq!(get_items_per_row(1300, false), 8);
    assert_eq!(get_items_per_row(1300, true), 4);
    assert_eq!(get_items_per_row(950, true), 2);
    assert_eq!(get_items_per_row(500, true), 2);
}

#[test]
fn items_per_row_at_each_boundary() {
    let expected: Vec<(u32, usize, usize)> = vec![
        (0, 3, 2),
        (899, 3, 2),
        (900, 4, 2),
        (999, 4, 2),
        (1000, 5, 2),
        (1099, 5, 2),
        (1100, 6, 3),
        (1199, 6, 3),
        (1200, 7, 3),
        (1299, 7, 3),
        (1300, 8, 4),
        (u32::MAX, 8, 4),
    ];
    for (width, closed, open) in expected {
        assert_eq!(get_items_per_row(width, false), closed, "width {}", width);
        assert_eq!(get_items_per_row(width, true), open, "width {}", width);
    }
}

#[test]
fn arrange_rows_pads_the_last_row() {
    let rows = arrange_rows(&[1u32, 2, 3, 4, 5], 3);
    assert_eq!(rows, vec![vec![Some(1), Some(2), Some(3)], vec![Some(4), Some(5), None]]);
}

#[test]
fn arrange_rows_gives_one_row_of_placeholders_for_no_items() {
    let none: Vec<u32> = Vec::new();
    assert_eq!(arrange_rows(&none, 4), vec![vec![None, None, None, None]]);
    assert_eq!(arrange_rows(&none, 1), vec![vec![None]]);
}

#[test]
fn arrange_rows_adds_no_row_behind_a_full_one() {
    let rows = arrange_rows(&[1u32, 2, 3, 4], 2);
    assert_eq!(rows, vec![vec![Some(1), Some(2)], vec![Some(3), Some(4)]]);
    let rows = arrange_rows(&[1u32, 2], 2);
    assert_eq!(rows, vec![vec![Some(1), Some(2)]]);
}

#[test]
fn arrange_rows_with_one_slot_in_a_row() {
    let rows = arrange_rows(&['a', 'b', 'c'], 1);
    assert_eq!(rows, vec![vec![Some('a')], vec![Some('b')], vec![Some('c')]]);
}

#[test]
fn arrange_rows_with_more_slots_than_items() {
    let rows = arrange_rows(&[7u8], 3);
    assert_eq!(rows, vec![vec![Some(7), None, None]]);
}

#[test]
fn every_row_has_the_same_number_of_slots() {
    for per_row in 1usize..9 {
        for count in 0usize..40 {
            let items: Vec<usize> = (0..count).collect();
            let rows = arrange_rows(&items, per_row);
            let expected_rows = if count == 0 { 1 } else { (count + per_row - 1) / per_row };
            assert_eq!(rows.len(), expected_rows);
            let mut seen: Vec<usize> = Vec::new();
            for (r, row) in rows.iter().enumerate() {
                assert_eq!(row.len(), per_row);
                for (c, slot) in row.iter().enumerate() {
                    let index = r * per_row + c;
                    if index < count {
                        assert_eq!(*slot, Some(index));
                        seen.push(index);
                    } else {
                        assert_eq!(*slot, None);
                    }
                }
            }
            assert_eq!(seen, items);
        }
    }
}

#[test]
fn arrange_rows_works_on_references() {
    let names = vec!["a".to_string(), "b".to_string(), "c".to_string()];
    let refs: Vec<&String> = names.iter().collect();
    let rows = arrange_rows(&refs, 2);
    assert_eq!(rows.len(), 2);
    assert_eq!(rows[0], vec![Some(&names[0]), Some(&names[1])]);
    assert_eq!(rows[1], vec![Some(&names[2]), None]);
}
