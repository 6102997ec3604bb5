use glorfindel::graph::{
    edge_created_text, edge_document, edge_endpoints, format_frontmatter, neighbors_within, node_created_text,
    node_document, parse_frontmatter,
};

fn kv(v: &[(&str, &str)]) -> Vec<(String, String)> {
    v.iter().map(|(k, v)| (k.to_string(), v.to_string())).collect()
}

#[test]
fn frontmatter_parse() {
    let (m, b) = parse_frontmatter("---\nid: n1\ntype: mission\nname:  Deny Airspace \nnot a pair\n---\n\n\n# Body\n");
    assert_eq!(m, kv(&[("id", "n1"), ("type", "mission"), ("name", "Deny Airspace")]));
    assert_eq!(b, "# Body\n");
    let (m, b) = parse_frontmatter("plain text");
    assert!(m.is_empty());
    assert_eq!(b, "plain text");
    let (m, b) = parse_frontmatter("---\nid: x\nno end");
    assert!(m.is_empty());
    assert_eq!(b, "---\nid: x\nno end");
    let (m, _) = parse_frontmatter("---\nk: a\nk: b\n---\n");
    assert_eq!(m, kv(&[("k", "b")]));
}

#[test]
fn frontmatter_format_orders_keys() {
    let meta = kv(&[("zeta", "1"), ("name", "N"), ("id", "n1"), ("alpha", "2")]);
    assert_eq!(format_frontmatter(&meta, "  body  "), "---\nid: n1\nname: N\nzeta: 1\nalpha: 2\n---\n\nbody\n");
    assert_eq!(format_frontmatter(&kv(&[("id", "e")]), "   "), "---\nid: e\n---\n");
}

#[test]
fn frontmatter_round_trip() {
    let meta = kv(&[("id", "n1"), ("extra", "v: w"), ("type", "threat")]);
    let text = format_frontmatter(&meta, "\n Body text \n");
    let (m, b) = parse_frontmatter(&text);
    let mut got = m.clone();
    got.sort();
    let mut want = meta.clone();
    want.sort();
    assert_eq!(got, want);
    assert_eq!(b, "Body text\n");
}

#[test]
fn node_and_edge_documents() {
    assert_eq!(
        node_document("n1", "mission", "Deny", "", "2024-01-01T00:00:00"),
        "---\nid: n1\ntype: mission\nname: Deny\ncreated: 2024-01-01T00:00:00\n---\n\n# Deny\n"
    );
    assert_eq!(
        node_document("n1", "mission", "Deny", "More.", "T"),
        "---\nid: n1\ntype: mission\nname: Deny\ncreated: T\n---\n\n# Deny\n\nMore.\n"
    );
    let e = edge_document("e1", "a", "b", "requires", "T", "");
    assert_eq!(e, "---\nid: e1\ncreated: T\nfrom: a\nto: b\nrelationship: requires\n---\n");
    let (meta, _) = parse_frontmatter(&e);
    assert_eq!(edge_endpoints(&meta), Some(("a".to_string(), "b".to_string())));
    assert_eq!(edge_endpoints(&kv(&[("from", "a")])), None);
    assert_eq!(node_created_text("n1", "mission", "Deny"), "Created graph node n1 (mission: Deny)");
    assert_eq!(edge_created_text("a", "requires", "b"), "Created edge a --[requires]--> b");
}

#[test]
fn neighbours_by_distance() {
    let edges = kv(&[("a", "b"), ("c", "b"), ("c", "d"), ("e", "f"), ("d", "a")]);
    let mut one = neighbors_within(&edges, "a", 1);
    one.sort();
    assert_eq!(one, vec![("b".to_string(), 1), ("d".to_string(), 1)]);
    let mut two = neighbors_within(&edges, "a", 2);
    two.sort();
    assert_eq!(two, vec![("b".to_string(), 1), ("c".to_string(), 2), ("d".to_string(), 1)]);
    assert!(neighbors_within(&edges, "a", 0).is_empty());
    assert!(neighbors_within(&edges, "zzz", 3).is_empty());
    let mut far = neighbors_within(&edges, "e", 100);
    far.sort();
    assert_eq!(far, vec![("f".to_string(), 1)]);
}
