use lance_linalg::batch::map_batch;
use lance_linalg::distance::{DistanceType, UnsupportedMetric};

#[test]
fn parse_canonical_names() {
    assert_eq!(DistanceType::parse("l2").unwrap(), DistanceType::L2);
    assert_eq!(DistanceType::parse("euclidean").unwrap(), DistanceType::L2);
    assert_eq!(DistanceType::parse("cosine").unwrap(), DistanceType::Cosine);
    assert_eq!(DistanceType::parse("dot").unwrap(), DistanceType::Dot);
}

#[test]
fn parse_is_case_insensitive() {
    assert_eq!(
        DistanceType::parse("COSINE").unwrap(),
        DistanceType::parse("cosine").unwrap()
    );
    assert_eq!(DistanceType::parse("L2").unwrap(), DistanceType::L2);
    assert_eq!(DistanceType::parse("EuClIdEaN").unwrap(), DistanceType::L2);
    assert_eq!(DistanceType::parse("DOT").unwrap(), DistanceType::Dot);
    assert_eq!(DistanceType::parse("Cosine").unwrap(), DistanceType::Cosine);
}

#[test]
fn parse_bogus_is_unsupported() {
    let err = DistanceType::parse("bogus").unwrap_err();
    assert_eq!(
        err,
        UnsupportedMetric {
            name: "bogus".to_string()
        }
    );
}

#[test]
fn parse_rejects_near_misses() {
    assert!(DistanceType::parse("").is_err());
    assert!(DistanceType::parse("l2 ").is_err());
    assert!(DistanceType::parse("cosin").is_err());
    assert!(DistanceType::parse("euclidian").is_err());
}

#[test]
fn display_canonical_names() {
    assert_eq!(DistanceType::L2.display(), "l2");
    assert_eq!(DistanceType::Cosine.display(), "cosine");
    assert_eq!(DistanceType::Dot.display(), "dot");
}

#[test]
fn display_normalizes_the_euclidean_alias() {
    assert_eq!(DistanceType::parse("euclidean").unwrap().display(), "l2");
    assert_eq!(DistanceType::parse("L2").unwrap().display(), "l2");
}

fn l2(a: &[f32], b: &[f32]) -> f32 {
    a.iter().zip(b.iter()).map(|(x, y)| (x - y) * (x - y)).sum()
}

fn dot(a: &[f32], b: &[f32]) -> f32 {
    -a.iter().zip(b.iter()).map(|(x, y)| x * y).sum::<f32>()
}

#[test]
fn batch_keeps_row_order() {
    let q = vec![1.0f32, 0.0, 0.0];
    let batch = vec![0.0f32, 1.0, 0.0, 1.0, 0.0, 0.0];
    let r = map_batch(l2, &q, &batch, 3);
    assert_eq!(r, vec![2.0f32, 0.0]);
}

#[test]
fn batch_of_no_rows_is_empty() {
    let q = vec![1.0f32, 2.0];
    let batch: Vec<f32> = Vec::new();
    let r = map_batch(l2, &q, &batch, 2);
    assert!(r.is_empty());
}

#[test]
fn batch_matches_pairwise_kernel() {
    let q = vec![1.0f32, 2.0, 3.0];
    let batch = vec![1.0f32, 2.0, 3.0, 0.0, 1.0, 0.0, -1.0, -2.0, -3.0];
    let r = map_batch(dot, &q, &batch, 3);
    assert_eq!(r.len(), 3);
    assert_eq!(r[0], -14.0);
    assert_eq!(r[1], -2.0);
    assert_eq!(r[2], 14.0);
    for (i, row) in batch.chunks(3).enumerate() {
        assert_eq!(r[i], dot(&q, row));
    }
}
