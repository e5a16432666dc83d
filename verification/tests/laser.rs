use hovercraft::laser::get_indices;

#[test]
fn indices_cover_six_faces() {
    let idx = get_indices();
    assert_eq!(idx.len(), 36);
    assert_eq!(
        idx,
        vec![
            0, 1, 2, 0, 2, 3, 4, 7, 6, 4, 6, 5, 3, 2, 6, 3, 6, 7, 0, 4, 5, 0, 5, 1, 1, 5, 6, 1, 5,
            2, 4, 0, 3, 4, 3, 7
        ]
    );
    for v in idx.iter() {
        assert!(*v < 8);
    }
}
