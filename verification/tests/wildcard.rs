use tfs_rust::util::wildcard::{ReturnValue, WildcardTreeNode};

#[test]
fn find_one_should_complete_a_unique_prefix() {
    let mut tree = WildcardTreeNode::default();
    tree.insert("alice");

    let (result, value) = tree.find_one("ali");

    assert_eq!(result, ReturnValue::NoError);
    assert_eq!(value, "alice");
}

#[test]
fn find_one_should_report_ambiguity_when_multiple_names_match() {
    let mut tree = WildcardTreeNode::default();
    tree.insert("alice");
    tree.insert("alina");

    let (result, value) = tree.find_one("ali");

    assert_eq!(result, ReturnValue::NameIsTooAmbiguous);
    assert_eq!(value, "ali");
}

#[test]
fn remove_should_prune_unused_nodes() {
    let mut tree = WildcardTreeNode::default();
    tree.insert("alice");
    tree.remove("alice");

    let (result, _) = tree.find_one("ali");

    assert_eq!(result, ReturnValue::PlayerWithThisNameIsNotOnline);
}

#[test]
fn a_name_that_prefixes_another_is_ambiguous() {
    let mut tree = WildcardTreeNode::new(false);
    tree.insert("bob");
    tree.insert("bobby");
    let (result, value) = tree.find_one("b");
    assert_eq!(result, ReturnValue::NameIsTooAmbiguous);
    assert_eq!(value, "bob");
    tree.remove("bob");
    let (result, value) = tree.find_one("b");
    assert_eq!(result, ReturnValue::NoError);
    assert_eq!(value, "bobby");
}

#[test]
fn empty_query_on_empty_tree_is_no_error() {
    let tree = WildcardTreeNode::default();
    let (result, value) = tree.find_one("");
    assert_eq!(result, ReturnValue::NoError);
    assert_eq!(value, "");
}

#[test]
fn inserting_the_empty_name_changes_nothing() {
    let mut tree = WildcardTreeNode::default();
    tree.insert("");
    let (result, _) = tree.find_one("x");
    assert_eq!(result, ReturnValue::PlayerWithThisNameIsNotOnline);
}

#[test]
fn unicode_names_complete() {
    let mut tree = WildcardTreeNode::default();
    tree.insert("Émile");
    let (result, value) = tree.find_one("É");
    assert_eq!(result, ReturnValue::NoError);
    assert_eq!(value, "Émile");
}

#[test]
fn removing_a_freshly_inserted_name_restores_every_lookup() {
    let mut before = WildcardTreeNode::default();
    before.insert("alice");
    before.insert("alfred");
    let mut after = WildcardTreeNode::default();
    after.insert("alice");
    after.insert("alfred");
    after.insert("albert");
    assert_eq!(after.find_one("alb"), (ReturnValue::NoError, "albert".to_string()));
    after.remove("albert");
    for query in ["", "a", "al", "ali", "alf", "alb", "alice", "bob"] {
        assert_eq!(after.find_one(query), before.find_one(query), "query {query:?}");
    }
    assert_eq!(after.find_one("alb"), (ReturnValue::PlayerWithThisNameIsNotOnline, String::new()));
}
