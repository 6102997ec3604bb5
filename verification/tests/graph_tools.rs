use glorfindel::graph_tools::{
    keyword_hits, node_search_text, rank_matches, GraphAddEdgeTool, GraphAddNodeTool, GraphNeighborsTool,
    GraphNodeTool, GraphQueryTool,
};
use glorfindel::schemas::Permission;

#[test]
fn keyword_hits_fold_case() {
    assert_eq!(keyword_hits("  Red  dragon ", "The RED DRAGON sleeps"), (2, 2));
    assert_eq!(keyword_hits("dragon cave", "the dragon"), (1, 2));
    assert_eq!(keyword_hits("Dragon", "the dragon"), (1, 1));
    assert_eq!(keyword_hits("", "anything"), (0, 0));
    assert_eq!(keyword_hits("\tfoo\nbar ", "nothing here"), (0, 2));
}

#[test]
fn ranking_is_stable_and_bounded() {
    let hits = vec![0, 2, 1, 2, 3];
    assert_eq!(rank_matches(&hits, 3), vec![4, 1, 3]);
    assert_eq!(rank_matches(&hits, 10), vec![4, 1, 3, 2]);
    assert_eq!(rank_matches(&hits, 0), Vec::<usize>::new());
    assert_eq!(rank_matches(&vec![0, 0], 5), Vec::<usize>::new());
}

#[test]
fn node_text_is_values_then_body() {
    let meta = vec![("id".to_string(), "n1".to_string()), ("type".to_string(), "threat".to_string())];
    assert_eq!(node_search_text(&meta, "Body"), "n1 threat Body");
    assert_eq!(node_search_text(&Vec::new(), "b"), " b");
}

#[test]
fn graph_tool_descriptors() {
    let q = GraphQueryTool::new("data");
    assert_eq!(q.data_dir, "data");
    assert_eq!(q.name(), "graph.query");
    assert!(q.required_permissions().is_empty());
    assert_eq!(
        q.description(),
        "Search graph nodes by keyword. Parameters: query (string), top_k (int, default 5)."
    );
    assert_eq!(GraphNodeTool::new("d").name(), "graph.node");
    assert!(GraphNodeTool::new("d").required_permissions().is_empty());
    assert_eq!(GraphNeighborsTool::new("d").name(), "graph.neighbors");
    assert!(GraphNeighborsTool::new("d").required_permissions().is_empty());
    assert_eq!(GraphAddNodeTool::new("d").name(), "graph.add_node");
    assert!(matches!(&GraphAddNodeTool::new("d").required_permissions()[..], [Permission::Custom(p)] if p == "graph.write"));
    assert_eq!(GraphAddEdgeTool::new("d").name(), "graph.add_edge");
    assert!(matches!(&GraphAddEdgeTool::new("d").required_permissions()[..], [Permission::Custom(p)] if p == "graph.write"));
}
