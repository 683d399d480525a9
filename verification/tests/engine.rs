use kmedoids::assign_identities;
use kmedoids::cost;
use kmedoids::parse::parse_cell;
use kmedoids::KMedoids;
use kmedoids::KmError;

fn two_node_table() -> Vec<Vec<String>> {
    let mut table: Vec<Vec<String>> = Vec::new();
    table.push(vec!["na".to_string(), "a".to_string(), "b".to_string()]);
    table.push(vec!["a".to_string(), "0".to_string(), "1".to_string()]);
    table.push(vec!["b".to_string(), "1".to_string(), "0".to_string()]);
    table
}

fn line_metric() -> (Vec<String>, Vec<Vec<u64>>) {
    let nodes = vec![
        "a".to_string(),
        "b".to_string(),
        "c".to_string(),
        "d".to_string(),
        "e".to_string(),
    ];
    let mut dist: Vec<Vec<u64>> = Vec::new();
    for i in 0..5u64 {
        let mut row: Vec<u64> = Vec::new();
        for j in 0..5u64 {
            row.push(if i > j { i - j } else { j - i });
        }
        dist.push(row);
    }
    (nodes, dist)
}

fn line_metric_table() -> Vec<Vec<String>> {
    let (nodes, dist) = line_metric();
    let mut table: Vec<Vec<String>> = Vec::new();
    let mut header = vec!["na".to_string()];
    for name in &nodes {
        header.push(name.clone());
    }
    table.push(header);
    for i in 0..5 {
        let mut row = vec![nodes[i].clone()];
        for j in 0..5 {
            row.push(format!("{}", dist[i][j]));
        }
        table.push(row);
    }
    table
}

#[test]
fn single_medoid_pair() {
    // Two entities at distance 1 with one cluster: one of them becomes the
    // sole medoid, both get label 0, and the total cost is 1.
    let mut model = KMedoids::new();
    assert!(model.init(&two_node_table()).is_ok());
    assert_eq!(model.num_entities(), 2);
    assert!(model.fit(1).is_ok());
    let medoids = model.medoids();
    assert_eq!(medoids.len(), 1);
    assert!(medoids[0] < 2);
    assert_eq!(model.label_of("a"), Some(0));
    assert_eq!(model.label_of("b"), Some(0));
    assert_eq!(model.total_cost(), 1);
    let members = model.cluster_members(0);
    assert_eq!(members, vec!["a".to_string(), "b".to_string()]);
}

#[test]
fn tie_breaks_prefer_earlier_medoid() {
    // Along the line a,b,c,d,e with medoids {c,e}, entity d is equidistant
    // from both (distance 1 each): the earlier medoid in the sequence wins
    // the tie, so d joins c. The cost is 2+1+0+1+0 = 4 either way.
    let medoids = vec!["c".to_string(), "e".to_string()];
    let (nodes, dist) = line_metric();
    let labels = assign_identities(&medoids, &nodes, &dist).unwrap();
    assert_eq!(labels, vec![0, 0, 0, 0, 1]);
    let c = cost(&medoids, &labels, &nodes, &dist).unwrap();
    assert_eq!(c, 4);
}

#[test]
fn invalid_k_rejected() {
    // k above the entity count, and k of zero, are both rejected.
    let mut model = KMedoids::new();
    assert!(model.init(&two_node_table()).is_ok());
    assert_eq!(model.fit(3), Err(KmError::InvalidK));
    assert_eq!(model.fit(0), Err(KmError::InvalidK));
    assert!(model.fit(2).is_ok());
}

#[test]
fn parse_error_names_cell() {
    // A non-numeric cell fails ingestion with a ParseError carrying the
    // cell's raw text.
    let mut table = two_node_table();
    table[2][1] = "abc".to_string();
    let mut model = KMedoids::new();
    assert_eq!(
        model.init(&table),
        Err(KmError::ParseError("abc".to_string()))
    );
}

#[test]
fn parse_error_reports_first_bad_cell() {
    let mut table = two_node_table();
    table[1][2] = "x1".to_string();
    table[2][1] = "y2".to_string();
    let mut model = KMedoids::new();
    assert_eq!(
        model.init(&table),
        Err(KmError::ParseError("x1".to_string()))
    );
}

#[test]
fn parse_cell_grammar() {
    assert_eq!(parse_cell("0"), Ok(0));
    assert_eq!(parse_cell("007"), Ok(7));
    assert_eq!(parse_cell("18446744073709551615"), Ok(u64::MAX));
    assert_eq!(
        parse_cell("18446744073709551616"),
        Err(KmError::ParseError("18446744073709551616".to_string()))
    );
    assert_eq!(parse_cell(""), Err(KmError::ParseError("".to_string())));
    assert_eq!(
        parse_cell("1.5"),
        Err(KmError::ParseError("1.5".to_string()))
    );
    assert_eq!(
        parse_cell("-1"),
        Err(KmError::ParseError("-1".to_string()))
    );
}

#[test]
fn unknown_medoid_name() {
    let (nodes, dist) = line_metric();
    let medoids = vec!["z".to_string()];
    assert_eq!(
        assign_identities(&medoids, &nodes, &dist),
        Err(KmError::UnknownEntity("z".to_string()))
    );
}

#[test]
fn assignment_is_deterministic() {
    // Same medoid set, matrix and entity list: same mapping on every call.
    let medoids = vec!["b".to_string(), "d".to_string()];
    let (nodes, dist) = line_metric();
    let first = assign_identities(&medoids, &nodes, &dist).unwrap();
    let second = assign_identities(&medoids, &nodes, &dist).unwrap();
    assert_eq!(first, second);
}

#[test]
fn medoids_keep_their_own_label() {
    // Each medoid's label is its own position in the medoid sequence.
    let medoids = vec!["d".to_string(), "a".to_string(), "c".to_string()];
    let (nodes, dist) = line_metric();
    let labels = assign_identities(&medoids, &nodes, &dist).unwrap();
    assert_eq!(labels[3], 0); // d
    assert_eq!(labels[0], 1); // a
    assert_eq!(labels[2], 2); // c
}

#[test]
fn fit_from_never_raises_cost() {
    // The optimization loop's final cost is at most the initial cost, and
    // the final medoid set is stable under one more sweep.
    let initial_names = vec!["a".to_string(), "e".to_string()];
    let (nodes, dist) = line_metric();
    let initial_labels = assign_identities(&initial_names, &nodes, &dist).unwrap();
    let initial_cost = cost(&initial_names, &initial_labels, &nodes, &dist).unwrap();

    let mut model = KMedoids::new();
    assert!(model.init(&line_metric_table()).is_ok());
    model.fit_from(vec![0, 4]);
    assert!(model.total_cost() <= initial_cost);
    assert_eq!(model.medoids().len(), 2);
}

#[test]
fn fit_from_improves_bad_start() {
    // Along the line a..e with k = 1, the best single medoid is c (cost 6);
    // starting from the worst one (a, cost 10) the search must reach cost 6.
    let mut model = KMedoids::new();
    assert!(model.init(&line_metric_table()).is_ok());
    model.fit_from(vec![0]);
    assert_eq!(model.total_cost(), 6);
    assert_eq!(model.medoids(), &vec![2usize]);
    for name in ["a", "b", "c", "d", "e"] {
        assert_eq!(model.label_of(name), Some(0));
    }
}

#[test]
fn swap_cost_recomputes_from_scratch() {
    // Swapping c out for a in the medoid list {c,e} yields the cost of the
    // from-scratch assignment of {a,e}: 0+1+2+1+0 = 4.
    let mut model = KMedoids::new();
    assert!(model.init(&line_metric_table()).is_ok());
    let medoids = vec!["c".to_string(), "e".to_string()];
    let c = model
        .swap_cost(&medoids, &"c".to_string(), &"a".to_string())
        .unwrap();
    assert_eq!(c, 4);
    // An unknown swap candidate is reported, not guessed at.
    assert_eq!(
        model.swap_cost(&medoids, &"c".to_string(), &"z".to_string()),
        Err(KmError::UnknownEntity("z".to_string()))
    );
}

#[test]
fn full_k_clusters() {
    let mut model = KMedoids::new();
    assert!(model.init(&two_node_table()).is_ok());
    assert!(model.fit(2).is_ok());
    // With two entities and two clusters each entity is its own medoid.
    let zero = model.cluster_members(0);
    let one = model.cluster_members(1);
    assert_eq!(zero.len(), 1);
    assert_eq!(one.len(), 1);
    assert_ne!(zero[0], one[0]);
    assert_eq!(model.total_cost(), 0);
}
