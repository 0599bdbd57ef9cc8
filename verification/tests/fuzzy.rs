use trasher::fuzzy::{
    compute_fuzzy_find_score, fuzzy_find_match, on_key, settle_selection, FinderKey, FinderStep,
    FuzzyFinderItem,
};

fn entries(texts: &[&str]) -> Vec<FuzzyFinderItem<usize>> {
    let mut list = Vec::new();
    for (i, text) in texts.iter().enumerate() {
        list.push(FuzzyFinderItem { value: i, display: text.to_string() });
    }
    list
}

fn values(list: &Vec<FuzzyFinderItem<usize>>) -> Vec<usize> {
    list.iter().map(|item| item.value).collect()
}

#[test]
fn the_score_sums_the_lengths_of_the_words_found() {
    assert_eq!(compute_fuzzy_find_score("notes", "my notes.txt"), 5);
    assert_eq!(compute_fuzzy_find_score("my txt", "my notes.txt"), 5);
    assert_eq!(compute_fuzzy_find_score("my zip", "my notes.txt"), 2);
    assert_eq!(compute_fuzzy_find_score("zip", "my notes.txt"), 0);
    assert_eq!(compute_fuzzy_find_score("", "my notes.txt"), 0);
    assert_eq!(compute_fuzzy_find_score("   ", "my notes.txt"), 0);
    assert_eq!(compute_fuzzy_find_score("  my \t notes\n", "my notes.txt"), 7);
    assert_eq!(compute_fuzzy_find_score("a a", "abc"), 2);
    assert_eq!(compute_fuzzy_find_score("h\u{e9}", "caf\u{e9} h\u{e9}"), 2);
    assert_eq!(compute_fuzzy_find_score("Notes", "my notes.txt"), 0);
}

#[test]
fn the_empty_query_shows_everything_in_order() {
    let list = entries(&["b", "a", "c"]);
    assert_eq!(values(&fuzzy_find_match("", &list)), vec![0, 1, 2]);
    assert_eq!(fuzzy_find_match("", &list), list);
}

#[test]
fn a_query_of_white_space_shows_nothing() {
    let list = entries(&["b", "a", "c"]);
    assert_eq!(values(&fuzzy_find_match(" ", &list)), Vec::<usize>::new());
}

#[test]
fn the_highest_score_comes_first_and_ties_are_reversed() {
    let list = entries(&["alpha", "alpha beta", "gamma", "beta", "beta alpha"]);
    let shown = fuzzy_find_match("alpha beta", &list);
    assert_eq!(values(&shown), vec![4, 1, 0, 3]);
    assert_eq!(shown[0].display, "beta alpha");
    let shown = fuzzy_find_match("gamma", &list);
    assert_eq!(values(&shown), vec![2]);
    let shown = fuzzy_find_match("delta", &list);
    assert!(shown.is_empty());
}

#[test]
fn the_selection_settles_inside_the_list() {
    assert_eq!(settle_selection(None, 0), None);
    assert_eq!(settle_selection(None, 3), Some(0));
    assert_eq!(settle_selection(Some(1), 3), Some(1));
    assert_eq!(settle_selection(Some(3), 3), Some(2));
    assert_eq!(settle_selection(Some(7), 3), Some(2));
    assert_eq!(settle_selection(Some(2), 0), Some(0));
}

#[test]
fn the_keys_move_choose_and_cancel() {
    assert_eq!(on_key(Some(1), 3, FinderKey::Enter), FinderStep::Chosen(1));
    assert_eq!(on_key(Some(0), 0, FinderKey::Enter), FinderStep::Select(Some(0)));
    assert_eq!(on_key(None, 3, FinderKey::Enter), FinderStep::Select(None));
    assert_eq!(on_key(Some(1), 3, FinderKey::Esc), FinderStep::Cancelled);
    assert_eq!(on_key(Some(1), 3, FinderKey::Up), FinderStep::Select(Some(0)));
    assert_eq!(on_key(Some(0), 3, FinderKey::Up), FinderStep::Select(Some(0)));
    assert_eq!(on_key(None, 3, FinderKey::Up), FinderStep::Select(Some(2)));
    assert_eq!(on_key(None, 0, FinderKey::Up), FinderStep::Select(None));
    assert_eq!(on_key(Some(1), 3, FinderKey::Down), FinderStep::Select(Some(2)));
    assert_eq!(on_key(Some(2), 3, FinderKey::Down), FinderStep::Select(Some(2)));
    assert_eq!(on_key(None, 3, FinderKey::Down), FinderStep::Select(Some(0)));
    assert_eq!(on_key(None, 0, FinderKey::Down), FinderStep::Select(None));
    assert_eq!(on_key(Some(usize::MAX), 3, FinderKey::Down), FinderStep::Select(Some(usize::MAX)));
    assert_eq!(on_key(Some(1), 3, FinderKey::Other), FinderStep::Edit(Some(1)));
}
