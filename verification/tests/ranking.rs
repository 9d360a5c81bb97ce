use storage_stat::ranking::insert_ranked_into;
use storage_stat::record::InfoCollection;
use storage_stat::report::InfoDatabase;

fn collection(name: &str, total: i128) -> InfoCollection {
    InfoCollection {
        name: String::from(name),
        total_storage_size: total,
        data_storage_size: 0,
        index_storage_size: 0,
        data_size: 0,
        count: 0,
        avg_object_size: 0,
    }
}

fn ranked(items: Vec<InfoCollection>) -> Vec<String> {
    let mut ranking = Vec::new();
    for item in items {
        insert_ranked_into(&mut ranking, item);
    }
    ranking.into_iter().map(|c| c.name).collect()
}

#[test]
fn largest_comes_first() {
    let order = ranked(vec![collection("a", 1), collection("b", 3), collection("c", 2)]);
    assert_eq!(order, vec!["b", "c", "a"]);
}

#[test]
fn items_of_one_size_keep_their_order() {
    let order = ranked(vec![
        collection("first", 5),
        collection("second", 5),
        collection("third", 5),
        collection("fourth", 5),
    ]);
    assert_eq!(order, vec!["first", "second", "third", "fourth"]);
}

#[test]
fn ties_keep_their_order_among_other_sizes() {
    let order = ranked(vec![
        collection("m1", 20),
        collection("s1", 10),
        collection("m2", 20),
        collection("l1", 30),
        collection("s2", 10),
        collection("m3", 20),
        collection("l2", 30),
    ]);
    assert_eq!(order, vec!["l1", "l2", "m1", "m2", "m3", "s1", "s2"]);
}

#[test]
fn ranking_that_descends_already_is_left_as_it_is() {
    let order = ranked(vec![collection("a", 9), collection("b", 8), collection("c", 8)]);
    assert_eq!(order, vec!["a", "b", "c"]);
}

#[test]
fn ranking_that_ascends_is_turned_round() {
    let order = ranked(vec![collection("a", -3), collection("b", 0), collection("c", 4)]);
    assert_eq!(order, vec!["c", "b", "a"]);
}

#[test]
fn single_item_and_no_item() {
    assert_eq!(ranked(vec![collection("only", 1)]), vec!["only"]);
    assert!(ranked(Vec::new()).is_empty());
}

#[test]
fn extreme_sizes_are_ranked() {
    let order = ranked(vec![
        collection("least", i128::MIN),
        collection("most", i128::MAX),
        collection("zero", 0),
    ]);
    assert_eq!(order, vec!["most", "zero", "least"]);
}

#[test]
fn databases_are_ranked_alike() {
    let mut ranking: Vec<InfoDatabase> = Vec::new();
    for (name, total) in [("a", 5), ("b", 9), ("c", 5), ("d", 9)] {
        insert_ranked_into(
            &mut ranking,
            InfoDatabase {
                name: String::from(name),
                total_storage_size: total,
                collections: Vec::new(),
                data_storage_size: 0,
                index_storage_size: 0,
            },
        );
    }
    let order: Vec<&str> = ranking.iter().map(|d| d.name.as_str()).collect();
    assert_eq!(order, vec!["b", "d", "a", "c"]);
}
