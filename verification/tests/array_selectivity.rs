use planner::arraysel::{
    arraycontjoinsel, arraycontsel, calc_arraycontsel, find_next_mcelem, floor_log2,
    mcelem_array_contain_overlap_selec, mcelem_array_contained_selec, mcelem_array_selec,
    scalararraysel_containment, too_many_elements, ArrayElements, ArrayEstimate,
    ColumnStatistics, ContainmentEstimate, ElementStatistics, OtherSide, ARRAY_CONTAINED_OP, ARRAY_CONTAINS_OP,
    ARRAY_OVERLAP_OP,
};
use planner::error::PlannerError;
use planner::list::List;

fn list<T>(v: Vec<T>) -> List<T> {
    List::from_vec(v)
}

fn show<T: std::fmt::Debug>(x: &T) -> String {
    format!("{:?}", x)
}

#[test]
fn floor_log2_matches_c() {
    assert_eq!(floor_log2(0), -1);
    assert_eq!(floor_log2(1), 0);
    assert_eq!(floor_log2(2), 1);
    assert_eq!(floor_log2(3), 1);
    assert_eq!(floor_log2(4), 2);
    assert_eq!(floor_log2(1 << 16), 16);
    assert_eq!(floor_log2(u32::MAX), 31);
}

#[test]
fn floor_log2_around_every_power() {
    for k in 1..32 {
        let p: u32 = 1 << k;
        assert_eq!(floor_log2(p), k);
        assert_eq!(floor_log2(p - 1), k - 1);
    }
}

#[test]
fn array_operators_without_statistics() {
    assert_eq!(arraycontjoinsel(ARRAY_OVERLAP_OP), ArrayEstimate::DefaultOverlap);
    assert_eq!(arraycontjoinsel(ARRAY_CONTAINS_OP), ArrayEstimate::DefaultContain);
    assert_eq!(
        arraycontsel(ARRAY_OVERLAP_OP, OtherSide::Unknown, true),
        ArrayEstimate::DefaultOverlap
    );
    assert_eq!(
        arraycontsel(ARRAY_CONTAINS_OP, OtherSide::Array(false), true),
        ArrayEstimate::DefaultContain
    );
}

#[test]
fn array_operators_are_strict() {
    assert_eq!(arraycontsel(ARRAY_CONTAINS_OP, OtherSide::Null, false), ArrayEstimate::Zero);
}

#[test]
fn array_operator_is_exchanged_for_a_column_on_the_right() {
    let other = OtherSide::Array(true);
    assert_eq!(
        arraycontsel(ARRAY_CONTAINS_OP, other, false),
        ArrayEstimate::Elements(ARRAY_CONTAINED_OP)
    );
    assert_eq!(
        arraycontsel(ARRAY_CONTAINED_OP, other, false),
        ArrayEstimate::Elements(ARRAY_CONTAINS_OP)
    );
    assert_eq!(
        arraycontsel(ARRAY_OVERLAP_OP, other, false),
        ArrayEstimate::Elements(ARRAY_OVERLAP_OP)
    );
    assert_eq!(
        arraycontsel(ARRAY_CONTAINS_OP, other, true),
        ArrayEstimate::Elements(ARRAY_CONTAINS_OP)
    );
}

fn known(usable: bool, has_common: bool, has_counts: bool) -> ColumnStatistics {
    ColumnStatistics { usable, has_common, has_counts }
}

#[test]
fn element_statistics_that_are_used() {
    let op = ARRAY_CONTAINED_OP;
    let all = known(true, true, true);
    assert_eq!(calc_arraycontsel(false, all, op), ElementStatistics::NoOrder);
    assert_eq!(calc_arraycontsel(true, known(false, true, true), op), ElementStatistics::Nothing);
    assert_eq!(calc_arraycontsel(true, known(true, false, true), op), ElementStatistics::NullsOnly);
    assert_eq!(calc_arraycontsel(true, all, op), ElementStatistics::CommonElements { counts: true });
    assert_eq!(
        calc_arraycontsel(true, known(true, true, false), op),
        ElementStatistics::CommonElements { counts: false }
    );
    assert_eq!(
        calc_arraycontsel(true, all, ARRAY_CONTAINS_OP),
        ElementStatistics::CommonElements { counts: false }
    );
}

#[test]
fn comparison_with_elements_as_containment() {
    let all = known(true, true, true);
    let way = |eq, or| scalararraysel_containment(true, Some(false), true, eq, or, all);
    let some = ElementStatistics::CommonElements { counts: false };
    let counts = ElementStatistics::CommonElements { counts: true };
    assert_eq!(way(true, true), ContainmentEstimate::Contains { complement: false, by: some });
    assert_eq!(way(true, false), ContainmentEstimate::Contained { complement: false, by: counts });
    assert_eq!(way(false, false), ContainmentEstimate::Contains { complement: true, by: some });
    assert_eq!(way(false, true), ContainmentEstimate::Contained { complement: true, by: counts });
    assert_eq!(
        scalararraysel_containment(true, Some(true), true, true, true, all),
        ContainmentEstimate::Zero
    );
    assert_eq!(
        scalararraysel_containment(false, Some(false), true, true, true, all),
        ContainmentEstimate::CannotSay
    );
    assert_eq!(
        scalararraysel_containment(true, None, true, true, true, all),
        ContainmentEstimate::CannotSay
    );
    assert_eq!(
        scalararraysel_containment(true, Some(false), false, true, true, all),
        ContainmentEstimate::CannotSay
    );
}

#[test]
fn statistics_of_a_comparison_with_elements() {
    let by = |stats, or| match scalararraysel_containment(true, Some(false), true, true, or, stats) {
        ContainmentEstimate::Contains { by, .. } => by,
        ContainmentEstimate::Contained { by, .. } => by,
        other => panic!("{:?}", other),
    };
    assert_eq!(by(known(false, true, true), true), ElementStatistics::Nothing);
    assert_eq!(by(known(false, true, true), false), ElementStatistics::Nothing);
    assert_eq!(by(known(true, false, true), false), ElementStatistics::NullsOnly);
    assert_eq!(
        by(known(true, true, false), false),
        ElementStatistics::CommonElements { counts: false }
    );
}

#[test]
fn null_elements_and_order() {
    let elements = list(vec![Some(5), None, Some(2), Some(5)]);
    assert!(matches!(
        mcelem_array_selec(&elements, ARRAY_CONTAINS_OP),
        Ok(ArrayElements::Nothing)
    ));
    match mcelem_array_selec(&elements, ARRAY_OVERLAP_OP) {
        Ok(ArrayElements::Contain(l)) => assert_eq!(l.to_vec(), vec![2, 5, 5]),
        other => panic!("{:?}", other),
    }
    match mcelem_array_selec(&elements, ARRAY_CONTAINED_OP) {
        Ok(ArrayElements::Contained(l)) => assert_eq!(l.to_vec(), vec![2, 5, 5]),
        other => panic!("{:?}", other),
    }
}

#[test]
fn unknown_array_operator() {
    let r = mcelem_array_selec(&list(vec![Some(1)]), 96);
    assert!(matches!(r, Err(PlannerError::UnknownArrayOperator)));
}

#[test]
fn halving_finds_the_next_common_element() {
    let common = vec![10, 20, 30, 40];
    assert_eq!(find_next_mcelem(&common, 30, 0), (true, 2));
    assert_eq!(find_next_mcelem(&common, 25, 0), (false, 2));
    assert_eq!(find_next_mcelem(&common, 5, 0), (false, 0));
    assert_eq!(find_next_mcelem(&common, 50, 0), (false, 4));
    assert_eq!(find_next_mcelem(&common, 20, 3), (false, 3));
    assert_eq!(find_next_mcelem(&vec![], 1, 0), (false, 0));
}

#[test]
fn elements_are_found_once_each() {
    let common = vec![10, 20, 30, 40];
    let elements = list(vec![5, 20, 20, 40, 41]);
    let places = mcelem_array_contain_overlap_selec(&common, &elements);
    assert_eq!(places.to_vec(), vec![None, Some(1), Some(3), None]);
}

#[test]
fn elements_are_found_by_halving_in_many_common_ones() {
    let common: Vec<u64> = (0..1000).map(|x| 3 * x).collect();
    let places = mcelem_array_contain_overlap_selec(&common, &list(vec![300, 301, 2997]));
    assert_eq!(places.to_vec(), vec![Some(100), None, Some(999)]);
}

#[test]
fn common_elements_of_an_array() {
    let (places, used) = mcelem_array_contained_selec(&vec![1, 2, 3], &list(vec![0, 2, 3, 3]));
    assert_eq!(show(&places.to_vec()), "[None, Some(1), Some(2)]");
    assert_eq!(used, vec![false, true, true]);
}

#[test]
fn effort_is_limited() {
    assert!(!too_many_elements(0, 0));
    assert!(too_many_elements(0, 1));
    assert!(!too_many_elements(100, 50));
    assert!(too_many_elements(100, 63));
}
