use kmedoids::assign_identities;
use kmedoids::cost;
use kmedoids::KMedoids;

fn line_metric_five() -> (Vec<String>, Vec<Vec<u64>>) {
    let nodes = vec![
        "a".to_string(),
        "b".to_string(),
        "c".to_string(),
        "d".to_string(),
        "e".to_string(),
    ];
    let mut dist_matrix: Vec<Vec<u64>> = Vec::new();
    dist_matrix.push(vec![0, 1, 2, 3, 4]);
    dist_matrix.push(vec![1, 0, 1, 2, 3]);
    dist_matrix.push(vec![2, 1, 0, 4, 2]);
    dist_matrix.push(vec![3, 2, 4, 0, 1]);
    dist_matrix.push(vec![4, 3, 2, 1, 0]);
    (nodes, dist_matrix)
}

#[test]
fn it_works() {
    assert_eq!(2 + 2, 4);
}

#[test]
fn test_init() {
    let mut model = KMedoids::new();
    let mut labeled_matrix: Vec<Vec<String>> = Vec::new();
    labeled_matrix.push(vec!["na".to_string(), "a".to_string(), "b".to_string()]);
    labeled_matrix.push(vec!["a".to_string(), "0".to_string(), "1".to_string()]);
    labeled_matrix.push(vec!["b".to_string(), "1".to_string(), "0".to_string()]);
    assert!(model.init(&labeled_matrix).is_ok());
    // test label indices correctly recorded
    assert_eq!(model.index_of("a"), Some(0));
    assert_eq!(model.index_of("b"), Some(1));
    // test unlabeled matrix vals
    assert_eq!(model.distance(0, 0), 0);
    assert_eq!(model.distance(0, 1), 1);
    assert_eq!(model.distance(1, 0), 1);
    assert_eq!(model.distance(1, 1), 0);
}

#[test]
fn test_assign_identities() {
    let medoids = vec!["c".to_string(), "e".to_string()];
    let (nodes, dist_matrix) = line_metric_five();
    let new_labels = assign_identities(&medoids, &nodes, &dist_matrix).unwrap();

    assert_eq!(new_labels[0], 0);
    assert_eq!(new_labels[1], 0);
    assert_eq!(new_labels[2], 0);
    assert_eq!(new_labels[3], 1);
    assert_eq!(new_labels[4], 1);
}

#[test]
fn test_cost() {
    let medoids = vec!["c".to_string(), "e".to_string()];
    let (nodes, dist_matrix) = line_metric_five();
    let new_labels = assign_identities(&medoids, &nodes, &dist_matrix).unwrap();

    let cost0 = cost(&medoids, &new_labels, &nodes, &dist_matrix).unwrap();
    assert_eq!(cost0, 4);

    let medoids = vec!["e".to_string(), "c".to_string()];
    let (nodes, dist_matrix) = line_metric_five();
    let new_labels = assign_identities(&medoids, &nodes, &dist_matrix).unwrap();

    let cost1 = cost(&medoids, &new_labels, &nodes, &dist_matrix).unwrap();
    assert_eq!(cost1, 4);
}

fn five_node_table() -> Vec<Vec<String>> {
    let mut lab_matrix: Vec<Vec<String>> = Vec::new();
    lab_matrix.push(vec![
        "na".to_string(),
        "a".to_string(),
        "b".to_string(),
        "c".to_string(),
        "d".to_string(),
        "e".to_string(),
    ]);
    lab_matrix.push(vec![
        "a".to_string(),
        "0".to_string(),
        "1".to_string(),
        "2".to_string(),
        "3".to_string(),
        "4".to_string(),
    ]);
    lab_matrix.push(vec![
        "b".to_string(),
        "1".to_string(),
        "0".to_string(),
        "1".to_string(),
        "2".to_string(),
        "3".to_string(),
    ]);
    lab_matrix.push(vec![
        "c".to_string(),
        "2".to_string(),
        "1".to_string(),
        "0".to_string(),
        "4".to_string(),
        "2".to_string(),
    ]);
    lab_matrix.push(vec![
        "d".to_string(),
        "3".to_string(),
        "2".to_string(),
        "4".to_string(),
        "0".to_string(),
        "1".to_string(),
    ]);
    lab_matrix.push(vec![
        "e".to_string(),
        "4".to_string(),
        "3".to_string(),
        "2".to_string(),
        "1".to_string(),
        "0".to_string(),
    ]);
    lab_matrix
}

fn print_labels(model: &KMedoids, k: u64) {
    for label in 0..k {
        let members = model.cluster_members(label as usize);
        let mut line = format!("Cluster {}: ", label);
        for node in members {
            line = format!("{}{} ", line, node);
        }
        println!("{}", line);
    }
}

#[test]
fn test_fit_0() {
    let lab_matrix = five_node_table();

    let mut model = KMedoids::new();
    assert!(model.init(&lab_matrix).is_ok());
    assert!(model.fit(2).is_ok());
    print_labels(&model, 2);
}

#[test]
fn test_fit_1() {
    let lab_matrix = five_node_table();

    let mut model = KMedoids::new();
    assert!(model.init(&lab_matrix).is_ok());
    assert!(model.fit(3).is_ok());
    print_labels(&model, 3);
}

#[test]
fn test_fit_2() {
    let mut lab_matrix: Vec<Vec<String>> = Vec::new();
    lab_matrix.push(vec![
        "na".to_string(),
        "a".to_string(),
        "b".to_string(),
        "c".to_string(),
        "d".to_string(),
        "e".to_string(),
        "f".to_string(),
    ]);
    lab_matrix.push(vec![
        "a".to_string(),
        "0".to_string(),
        "1".to_string(),
        "2".to_string(),
        "3".to_string(),
        "4".to_string(),
        "5".to_string(),
    ]);
    lab_matrix.push(vec![
        "b".to_string(),
        "1".to_string(),
        "0".to_string(),
        "1".to_string(),
        "2".to_string(),
        "3".to_string(),
        "4".to_string(),
    ]);
    lab_matrix.push(vec![
        "c".to_string(),
        "2".to_string(),
        "1".to_string(),
        "0".to_string(),
        "4".to_string(),
        "2".to_string(),
        "3".to_string(),
    ]);
    lab_matrix.push(vec![
        "d".to_string(),
        "3".to_string(),
        "2".to_string(),
        "4".to_string(),
        "0".to_string(),
        "1".to_string(),
        "2".to_string(),
    ]);
    lab_matrix.push(vec![
        "e".to_string(),
        "4".to_string(),
        "3".to_string(),
        "2".to_string(),
        "1".to_string(),
        "0".to_string(),
        "1".to_string(),
    ]);
    lab_matrix.push(vec![
        "f".to_string(),
        "5".to_string(),
        "4".to_string(),
        "3".to_string(),
        "2".to_string(),
        "1".to_string(),
        "0".to_string(),
    ]);

    let mut model = KMedoids::new();
    assert!(model.init(&lab_matrix).is_ok());
    assert!(model.fit(2).is_ok());
    print_labels(&model, 2);
}
