use chroma_stream::filter::FilterType;
use chroma_stream::pixel::Color;

#[test]
fn test_filter() {
    let target1 = Color {
        r: 235,
        g: 20,
        b: 10,
        a: 5,
    };

    let target2 = Color {
        r: 100,
        g: 50,
        b: 10,
        a: 5,
    };

    let filter = FilterType::Red;
    assert_eq!(filter.should_cut_off(&target1), true);
    assert_eq!(filter.should_cut_off(&target2), false);
}

#[test]
fn test_key_range_boundaries() {
    let filter = FilterType::Red;
    // Lower bound is inclusive, upper bound exclusive.
    assert!(filter.should_cut_off(&Color { r: 150, g: 20, b: 20, a: 0 }));
    assert!(!filter.should_cut_off(&Color { r: 149, g: 20, b: 20, a: 0 }));
    assert!(!filter.should_cut_off(&Color { r: 255, g: 20, b: 20, a: 0 }));
    assert!(filter.should_cut_off(&Color { r: 254, g: 20, b: 20, a: 0 }));
}

#[test]
fn test_variance_boundary() {
    let filter = FilterType::Red;
    // |80 - 20| + |79 - 20| = 119 < 120 fires; one more misses.
    assert!(filter.should_cut_off(&Color { r: 200, g: 80, b: 79, a: 0 }));
    assert!(!filter.should_cut_off(&Color { r: 200, g: 80, b: 80, a: 0 }));
}

#[test]
fn test_blue_and_green_keys() {
    let blue = FilterType::Blue;
    assert!(blue.should_cut_off(&Color { r: 20, g: 20, b: 200, a: 0 }));
    assert!(!blue.should_cut_off(&Color { r: 20, g: 20, b: 100, a: 0 }));

    let green = FilterType::Green;
    assert!(green.should_cut_off(&Color { r: 20, g: 200, b: 20, a: 0 }));
    assert!(!green.should_cut_off(&Color { r: 200, g: 200, b: 20, a: 0 }));
}

#[test]
fn test_apply_substitutes_only_classified() {
    let filter = FilterType::Red;
    let background = vec![
        Color { r: 1, g: 2, b: 3, a: 4 },
        Color { r: 5, g: 6, b: 7, a: 8 },
        Color { r: 9, g: 10, b: 11, a: 12 },
    ];
    let current = vec![
        Color { r: 235, g: 20, b: 10, a: 5 },  // classified: substituted
        Color { r: 100, g: 50, b: 10, a: 5 },  // not classified: unchanged
        Color { r: 200, g: 15, b: 25, a: 255 },  // classified: substituted
    ];
    let out = filter.apply_to(&background, current.clone());

    assert_eq!(out.len(), current.len());
    assert_eq!(out[0], background[0]);
    assert_eq!(out[1], current[1]);
    assert_eq!(out[2], background[2]);
}

#[test]
fn test_end_to_end_substitution() {
    // Background of identical black pixels; a key-coloured pixel is
    // substituted, an out-of-range one passes through.
    let filter = FilterType::Red;
    let background = vec![Color { r: 0, g: 0, b: 0, a: 255 }; 4];
    let current = vec![
        Color { r: 200, g: 15, b: 25, a: 255 },
        Color { r: 10, g: 15, b: 25, a: 255 },
        Color { r: 200, g: 15, b: 25, a: 255 },
        Color { r: 10, g: 140, b: 25, a: 255 },
    ];
    let out = filter.apply_to(&background, current.clone());

    assert_eq!(out[0], Color { r: 0, g: 0, b: 0, a: 255 });
    assert_eq!(out[1], current[1]);
    assert_eq!(out[2], Color { r: 0, g: 0, b: 0, a: 255 });
    assert_eq!(out[3], current[3]);
}
