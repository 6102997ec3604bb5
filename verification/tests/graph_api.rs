use glorfindel::graph_api::{edge_id_or_fresh, edge_relationship, listing_order, node_request, NodeError};
use glorfindel::text::order_by_key;

fn meta(pairs: &[(&str, &str)]) -> Vec<(String, String)> {
    pairs.iter().map(|(k, v)| (k.to_string(), v.to_string())).collect()
}

#[test]
fn stable_key_order() {
    let keys: Vec<String> = ["b", "a", "b", "", "a"].iter().map(|s| s.to_string()).collect();
    assert_eq!(order_by_key(&keys), vec![3, 1, 4, 0, 2]);
    assert!(order_by_key(&Vec::new()).is_empty());
}

#[test]
fn graph_listing_by_id() {
    let metas = vec![meta(&[("id", "n2")]), meta(&[("name", "no id")]), meta(&[("type", "x"), ("id", "n1")])];
    assert_eq!(listing_order(&metas), vec![1, 2, 0]);
}

#[test]
fn new_nodes() {
    assert_eq!(node_request("   ", None, None, &Vec::new(), None, "t").err(), Some(NodeError::MissingId));
    let f = node_request(" n1 ", Some("threat"), None, &meta(&[("region", "north"), ("type", "mission")]), Some("Body."), "2024-01-01T00:00:00").unwrap();
    assert_eq!(f.meta, meta(&[("id", "n1"), ("type", "mission"), ("created", "2024-01-01T00:00:00"), ("region", "north")]));
    assert_eq!(f.body, "# n1\n\nBody.");
    assert_eq!(f.content, "---\nid: n1\ntype: mission\ncreated: 2024-01-01T00:00:00\nregion: north\n---\n\n# n1\n\nBody.\n");
    let g = node_request("n2", None, Some("Deny Airspace"), &Vec::new(), None, "t").unwrap();
    assert_eq!(g.body, "# Deny Airspace\n");
}

#[test]
fn new_edges() {
    assert_eq!(edge_id_or_fresh(Some("e1")), "e1");
    let id = edge_id_or_fresh(None);
    assert_eq!(id.len(), 37);
    assert!(id.starts_with("edge-"));
    assert!(id[5..].chars().all(|c| c.is_ascii_hexdigit() && !c.is_ascii_uppercase()));
    assert_ne!(edge_id_or_fresh(None), id);
    assert_eq!(edge_relationship(None), "related");
    assert_eq!(edge_relationship(Some("requires")), "requires");
}
