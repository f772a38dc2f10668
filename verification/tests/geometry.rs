use burn_pc::PcGradientNormScope;
use burn_pc::optimizer::PcParameterOptimizerKind;

#[test]
fn norm_shapes_follow_the_clipping_geometry() {
    let dims = [2usize, 3, 4];
    assert_eq!(PcGradientNormScope::Global.norm_shape(&dims), vec![1, 1, 1]);
    assert_eq!(PcGradientNormScope::PerSample.norm_shape(&dims), vec![2, 1, 1]);
    assert_eq!(PcGradientNormScope::PerRow.norm_shape(&dims), vec![2, 3, 1]);
}

#[test]
fn group_matrices_tile_the_input() {
    let dims = [2usize, 3, 4];
    assert_eq!(PcGradientNormScope::Global.group_matrix(&dims), (1, 24));
    assert_eq!(PcGradientNormScope::PerSample.group_matrix(&dims), (2, 12));
    assert_eq!(PcGradientNormScope::PerRow.group_matrix(&dims), (6, 4));
    assert_eq!(PcGradientNormScope::PerRow.group_matrix(&[5]), (1, 5));
    assert_eq!(PcGradientNormScope::PerSample.group_matrix(&[5]), (5, 1));
    assert_eq!(PcGradientNormScope::PerSample.norm_shape(&[5]), vec![5]);
    assert_eq!(PcGradientNormScope::PerRow.norm_shape(&[5]), vec![1]);
}

#[test]
fn defaults_match_the_documented_choices() {
    assert_eq!(PcGradientNormScope::default(), PcGradientNormScope::PerSample);
    assert_eq!(
        PcParameterOptimizerKind::default(),
        PcParameterOptimizerKind::Adamw
    );
}
