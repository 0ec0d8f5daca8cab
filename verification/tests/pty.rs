//! Terminal dimensions.

use clhorde::pty::PtyDimensions;

#[test]
fn dimensions_basic() {
    let dims = PtyDimensions {
        cols: 80,
        lines: 24,
    };
    assert_eq!(dims.total_lines(), 24);
    assert_eq!(dims.screen_lines(), 24);
    assert_eq!(dims.columns(), 80);
}

#[test]
fn dimensions_non_standard() {
    let dims = PtyDimensions {
        cols: 200,
        lines: 50,
    };
    assert_eq!(dims.total_lines(), 50);
    assert_eq!(dims.screen_lines(), 50);
    assert_eq!(dims.columns(), 200);
}
