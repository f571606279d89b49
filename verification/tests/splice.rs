use asset_registry::splice::{plan_splice, Step};

#[test]
fn hook_is_spliced_behind_the_point() {
    let offsets = vec![Some(0), Some(10), Some(20), Some(30)];
    let hook = vec![Some(100), Some(110), Some(120)];
    let plan = plan_splice(&offsets, 1, 100, Some(120), &hook).unwrap();
    assert_eq!(
        plan,
        vec![
            Step::Keep(0),
            Step::Keep(1),
            Step::Enter { code_offset: 100 },
            Step::Copy(0),
            Step::Copy(1),
            Step::Leave { hook_statement: 2, code_offset: 20 },
            Step::Keep(2),
            Step::Keep(3),
        ]
    );
}

#[test]
fn hook_behind_the_last_statement_does_not_jump_back() {
    let offsets = vec![Some(0), Some(10)];
    let hook = vec![Some(100), Some(110)];
    let plan = plan_splice(&offsets, 1, 100, Some(110), &hook).unwrap();
    assert_eq!(
        plan,
        vec![Step::Keep(0), Step::Keep(1), Step::Enter { code_offset: 100 }, Step::Copy(0)]
    );
}

#[test]
fn hook_behind_the_first_statement() {
    let offsets = vec![Some(5), Some(7)];
    let hook = vec![None, Some(3)];
    let plan = plan_splice(&offsets, 0, 9, Some(3), &hook).unwrap();
    assert_eq!(
        plan,
        vec![
            Step::Keep(0),
            Step::Enter { code_offset: 9 },
            Step::Copy(0),
            Step::Leave { hook_statement: 1, code_offset: 7 },
            Step::Keep(1),
        ]
    );
}

#[test]
fn statements_without_an_offset_end_a_hook_without_an_end_offset() {
    let offsets = vec![Some(5), Some(7)];
    let hook = vec![None, Some(3), None];
    let plan = plan_splice(&offsets, 0, 9, None, &hook).unwrap();
    assert_eq!(
        plan,
        vec![
            Step::Keep(0),
            Step::Enter { code_offset: 9 },
            Step::Leave { hook_statement: 0, code_offset: 7 },
            Step::Copy(1),
            Step::Leave { hook_statement: 2, code_offset: 7 },
            Step::Keep(1),
        ]
    );
}

#[test]
fn hook_that_never_ends_is_copied_whole() {
    let offsets = vec![Some(5), None];
    let hook = vec![Some(1), Some(2)];
    let plan = plan_splice(&offsets, 0, 1, Some(99), &hook).unwrap();
    assert_eq!(
        plan,
        vec![
            Step::Keep(0),
            Step::Enter { code_offset: 1 },
            Step::Copy(0),
            Step::Copy(1),
            Step::Keep(1),
        ]
    );
}

#[test]
fn no_plan_without_a_point_or_a_hook() {
    let offsets = vec![Some(0), Some(10)];
    let hook = vec![Some(100)];
    assert_eq!(plan_splice(&offsets, 2, 100, Some(100), &hook), None);
    assert_eq!(plan_splice(&Vec::new(), 0, 100, Some(100), &hook), None);
    assert_eq!(plan_splice(&offsets, 0, 100, Some(100), &Vec::new()), None);
}

#[test]
fn no_plan_where_the_jump_back_has_no_target() {
    let offsets = vec![Some(0), None];
    let hook = vec![Some(100), Some(110)];
    assert_eq!(plan_splice(&offsets, 0, 100, Some(110), &hook), None);
    assert!(plan_splice(&offsets, 1, 100, Some(110), &hook).is_some());
}

#[test]
fn offsets_are_cut_to_32_bits() {
    let offsets = vec![Some(0), Some(0x1_0000_0007)];
    let hook = vec![Some(1)];
    let plan = plan_splice(&offsets, 0, 0x2_0000_0003, Some(1), &hook).unwrap();
    assert_eq!(
        plan,
        vec![
            Step::Keep(0),
            Step::Enter { code_offset: 3 },
            Step::Leave { hook_statement: 0, code_offset: 7 },
            Step::Keep(1),
        ]
    );
}
