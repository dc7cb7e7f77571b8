use typing_test::source::{get_text, join_picked};

fn list(ws: &[&str]) -> Vec<String> {
    ws.iter().map(|w| w.to_string()).collect()
}

#[test]
fn join_picked_follows_each_word_with_a_space() {
    let l = list(&["alpha", "beta", "gamma"]);
    assert_eq!(join_picked(&l, &vec![2, 0, 0]), "gamma alpha alpha ");
    assert_eq!(join_picked(&l, &vec![]), "");
}

#[test]
fn get_text_draws_the_asked_number_of_words() {
    let l = list(&["one", "two", "three"]);
    let t = get_text(50, &l);
    let ws: Vec<&str> = t.split(' ').collect();
    assert_eq!(ws.len(), 51);
    assert_eq!(ws[50], "");
    for w in &ws[..50] {
        assert!(l.iter().any(|x| x == w));
    }
}

#[test]
fn get_text_from_single_word_list() {
    assert_eq!(get_text(3, &list(&["a"])), "a a a ");
    assert_eq!(get_text(0, &list(&["a"])), "");
}
