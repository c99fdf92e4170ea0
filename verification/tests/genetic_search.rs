use planner::error::PlannerError;
use planner::geqo::{
    advance_search, geqo, gimme_number_generations, gimme_pool_size, gimme_tree, grow_tree,
    install_gucs, merge_clump, next_join, next_request, pick_relations, place_clump, Clump,
    GeqoReply, GeqoRequest, GeqoRun, GeqoSettings, GeqoState, MergeOutcome, MergeState, TreeSearch,
};
use planner::list::List;

fn list<T>(v: Vec<T>) -> List<T> {
    List::from_vec(v)
}

#[test]
fn gimme_pool_size_matches_c_formula() {
    let mut s = install_gucs();
    s.set_geqo_pool_size(0);
    s.set_geqo_effort(5);
    // 2^(n+1) clamped to [10*effort, 50*effort] = [50, 250].
    assert_eq!(gimme_pool_size(&s, 3), 50);
    assert_eq!(gimme_pool_size(&s, 7), 250);
    assert_eq!(gimme_pool_size(&s, 6), 128);
    s.set_geqo_pool_size(37);
    assert_eq!(gimme_pool_size(&s, 6), 37);
    s.set_geqo_pool_size(1);
    assert_eq!(gimme_pool_size(&s, 6), 128);
    s.set_geqo_pool_size(0);
}

#[test]
fn pool_size_for_extreme_numbers_of_relations() {
    let s = install_gucs();
    assert_eq!(gimme_pool_size(&s, 2000), 250);
    assert_eq!(gimme_pool_size(&s, i32::MAX), 250);
    assert_eq!(gimme_pool_size(&s, -1), 50);
    assert_eq!(gimme_pool_size(&s, -7), 50);
}

#[test]
fn gimme_number_generations_default_is_pool_size() {
    let mut s = install_gucs();
    s.set_geqo_generations(0);
    assert_eq!(gimme_number_generations(&s, 128), 128);
    s.set_geqo_generations(42);
    assert_eq!(gimme_number_generations(&s, 128), 42);
    s.set_geqo_generations(0);
}

#[test]
fn geqo_gucs_are_backed_and_live() {
    let mut s = install_gucs();
    s.set_enable_geqo(true);
    s.set_geqo_threshold(12);
    assert!(s.enable_geqo());
    assert_eq!(s.geqo_threshold(), 12);
    s.set_geqo_threshold(2);
    assert_eq!(s.geqo_threshold(), 2);
    s.set_geqo_threshold(12);
    s.set_geqo_seed(0.75f64.to_bits());
    assert_eq!(f64::from_bits(s.geqo_seed()), 0.75);
    s.set_geqo_seed(0.0f64.to_bits());
}

#[test]
fn effort_does_not_matter_where_the_pool_is_given() {
    let mut s = install_gucs();
    s.set_geqo_pool_size(40);
    s.set_geqo_effort(i32::MAX);
    assert_eq!(gimme_pool_size(&s, 6), 40);
    assert_eq!(geqo(&s, 6).pool_size, 40);
}

#[test]
fn settings_to_begin_with() {
    let s = install_gucs();
    assert!(s.enable_geqo());
    assert_eq!(s.geqo_threshold(), 12);
    assert_eq!(s.effort, 5);
    assert_eq!((s.pool_size, s.generations), (0, 0));
    assert_eq!(f64::from_bits(s.selection_bias), 2.0);
    assert_eq!(f64::from_bits(s.geqo_seed()), 0.0);
}

#[test]
fn layout_of_a_search() {
    let mut s = install_gucs();
    s.set_geqo_seed(0.5f64.to_bits());
    assert_eq!(
        geqo(&s, 6),
        GeqoRun {
            pool_size: 128,
            generations: 128,
            string_length: 6,
            seed: 0.5f64.to_bits(),
            selection_bias: 2.0f64.to_bits(),
        }
    );
}

fn clump(joinrel: u32, size: u32) -> Clump {
    Clump { joinrel, size }
}

#[test]
fn merged_clump_is_tried_with_all_others() {
    let s = MergeState {
        new: clump(9, 1),
        tried: list(vec![]),
        left: list(vec![clump(1, 3), clump(2, 2), clump(3, 1)]),
    };
    let s = merge_clump(s, MergeOutcome::Failed);
    assert_eq!(s.tried.to_vec(), vec![clump(1, 3)]);
    let s = merge_clump(s, MergeOutcome::Joined(7));
    assert_eq!(s.new, clump(7, 3));
    assert_eq!(s.tried.to_vec(), vec![]);
    assert_eq!(s.left.to_vec(), vec![clump(1, 3), clump(3, 1)]);
    let s = merge_clump(s, MergeOutcome::Failed);
    let s = merge_clump(s, MergeOutcome::Failed);
    assert!(s.left.is_nil());
    assert_eq!(
        place_clump(s.tried, s.new).to_vec(),
        vec![clump(1, 3), clump(7, 3), clump(3, 1)]
    );
}

#[test]
fn single_relations_are_placed_last() {
    let l = list(vec![clump(1, 2), clump(2, 1)]);
    assert_eq!(
        place_clump(l, clump(3, 1)).to_vec(),
        vec![clump(1, 2), clump(2, 1), clump(3, 1)]
    );
    let l = list(vec![clump(1, 4), clump(2, 1)]);
    assert_eq!(
        place_clump(l, clump(3, 2)).to_vec(),
        vec![clump(1, 4), clump(3, 2), clump(2, 1)]
    );
}

/// Joins the relations, where only the given pairs are legal, and the first
/// `desirable` of them are desirable. A join has the number of its relations
/// added up.
fn join_all(rels: Vec<u32>, legal: &[(u32, u32)], desirable: usize) -> (Option<Clump>, usize) {
    let mut search = gimme_tree(&list(rels));
    let mut steps = 0;
    while let Some((old, new, forced)) = next_join(&search) {
        steps += 1;
        let place = legal.iter().position(|&(a, b)| (a, b) == (old, new) || (b, a) == (old, new));
        let outcome = match place {
            Some(i) if forced || i < desirable => MergeOutcome::Joined(old + new),
            _ => MergeOutcome::Failed,
        };
        search = grow_tree(search, outcome);
    }
    match search {
        TreeSearch::Done(c) => (c, steps),
        TreeSearch::Merging { .. } => panic!("the search goes on"),
    }
}

#[test]
fn a_tree_follows_the_tour() {
    let (found, steps) = join_all(vec![1, 2, 4], &[(1, 2), (3, 4)], 2);
    assert_eq!(found, Some(clump(7, 3)));
    assert_eq!(steps, 2);
}

#[test]
fn the_same_tour_leads_to_the_same_tree() {
    let tour = || vec![1, 4, 2, 8];
    let legal = [(1, 2), (3, 4), (7, 8)];
    assert_eq!(join_all(tour(), &legal, 3), join_all(tour(), &legal, 3));
    assert_eq!(join_all(tour(), &legal, 3).0, Some(clump(15, 4)));
}

#[test]
fn a_join_is_put_off() {
    // 1 and 4 can only be joined once 2 is there.
    let (found, _) = join_all(vec![1, 4, 2], &[(1, 2), (3, 4)], 2);
    assert_eq!(found, Some(clump(7, 3)));
}

#[test]
fn undesirable_joins_are_tried_last() {
    let (found, _) = join_all(vec![1, 2, 4], &[(1, 2), (3, 4)], 1);
    assert_eq!(found, Some(clump(7, 3)));
    let (found, _) = join_all(vec![1, 2, 4], &[(1, 2)], 1);
    assert_eq!(found, None);
}

#[test]
fn trees_of_few_relations() {
    assert_eq!(join_all(vec![], &[], 0).0, None);
    assert_eq!(join_all(vec![6], &[], 0).0, Some(clump(6, 1)));
}

/// Searches with replies that depend on nothing but the requests, and notes
/// these.
fn search(s: &GeqoSettings, found: Option<u32>) -> (Vec<String>, GeqoState) {
    let mut state = GeqoState::Seeding(geqo(s, 3));
    let mut asked = Vec::new();
    while let Some(request) = next_request(&state) {
        asked.push(format!("{:?}", request));
        let n = asked.len() as i32;
        let reply = match request {
            GeqoRequest::Seed(_) | GeqoRequest::FillPool { .. } | GeqoRequest::Spread(_, _) => {
                GeqoReply::Done
            }
            GeqoRequest::Breed { .. } => GeqoReply::Tour(list(vec![1 + n % 3, 2, 3])),
            GeqoRequest::Evaluate(_) => GeqoReply::Worth(n as u64),
            GeqoRequest::Best => GeqoReply::Tour(list(vec![3, 1, 2])),
            GeqoRequest::Join(_) => GeqoReply::Joined(found),
        };
        state = advance_search(state, reply);
    }
    (asked, state)
}

#[test]
fn a_search_step_by_step() {
    let mut s = install_gucs();
    s.set_geqo_pool_size(4);
    s.set_geqo_generations(2);
    s.set_geqo_seed(0.25f64.to_bits());
    let (asked, state) = search(&s, Some(9));
    assert!(matches!(state, GeqoState::Ended(Ok(9))));
    let brief: Vec<&str> = asked.iter().map(|r| r.split([' ', '(']).next().unwrap()).collect();
    assert_eq!(
        brief,
        vec![
            "Seed", "FillPool", "Breed", "Evaluate", "Spread", "Breed", "Evaluate", "Spread",
            "Best", "Join"
        ]
    );
    assert_eq!(asked[0], format!("{:?}", GeqoRequest::Seed(0.25f64.to_bits())));
    assert_eq!(asked[1], format!("{:?}", GeqoRequest::FillPool { size: 4, length: 3 }));
    let (_, state) = search(&s, None);
    assert!(matches!(state, GeqoState::Ended(Err(PlannerError::NoValidPlan))));
}

#[test]
fn the_same_seed_leads_to_the_same_search() {
    let mut s = install_gucs();
    s.set_geqo_seed(0.75f64.to_bits());
    let mut t = s;
    t.set_enable_geqo(false);
    t.set_geqo_threshold(99);
    assert_eq!(search(&s, Some(4)).0, search(&t, Some(4)).0);
    t.set_geqo_seed(0.5f64.to_bits());
    assert_ne!(search(&s, Some(4)).0, search(&t, Some(4)).0);
}

#[test]
fn a_reply_to_another_request_changes_nothing() {
    let s = GeqoState::Seeding(geqo(&install_gucs(), 3));
    let before = format!("{:?}", s);
    let s = advance_search(s, GeqoReply::Worth(1));
    assert_eq!(format!("{:?}", s), before);
}

#[test]
fn relations_along_a_tour() {
    let rels = vec![10, 20, 30];
    assert_eq!(pick_relations(&rels, &list(vec![2, 3, 1])).to_vec(), vec![20, 30, 10]);
}
