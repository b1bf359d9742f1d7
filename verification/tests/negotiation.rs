use rgb2gray::CapsAlternative;
use rgb2gray::CapsSet;
use rgb2gray::Direction;
use rgb2gray::Fraction;
use rgb2gray::FractionRange;
use rgb2gray::IntRange;
use rgb2gray::PixelFormat;
use rgb2gray::Rgb2Gray;
use rgb2gray::TransformElement;
use rgb2gray::input_capabilities;
use rgb2gray::negotiate;
use rgb2gray::output_capabilities;

fn alt(formats: Vec<PixelFormat>, w: (i32, i32), h: (i32, i32), fr: (i32, i32)) -> CapsAlternative {
    CapsAlternative {
        formats,
        width: IntRange { lo: w.0, hi: w.1 },
        height: IntRange { lo: h.0, hi: h.1 },
        framerate: FractionRange {
            lo: Fraction { num: fr.0, den: 1 },
            hi: Fraction { num: fr.1, den: 1 },
        },
    }
}

#[test]
fn catalog_output_side_offers_both_formats() {
    let caps = output_capabilities();
    assert_eq!(caps.alternatives.len(), 1);
    assert_eq!(
        caps.alternatives[0].formats,
        vec![PixelFormat::Bgrx, PixelFormat::Gray8]
    );
    assert_eq!(caps.alternatives[0].width, IntRange { lo: 0, hi: i32::MAX });
    assert_eq!(caps.alternatives[0].height, IntRange { lo: 0, hi: i32::MAX });
}

#[test]
fn catalog_input_side_accepts_only_packed_color() {
    let caps = input_capabilities();
    assert_eq!(caps.alternatives.len(), 1);
    assert_eq!(caps.alternatives[0].formats, vec![PixelFormat::Bgrx]);
}

#[test]
fn negotiate_from_output_forces_packed_color() {
    let requested = CapsSet {
        alternatives: vec![
            alt(vec![PixelFormat::Gray8], (100, 200), (50, 60), (25, 30)),
            alt(vec![PixelFormat::Bgrx, PixelFormat::Gray8], (7, 7), (9, 9), (30, 30)),
        ],
    };
    let r = negotiate(Direction::Output, &requested, None);
    assert_eq!(r.alternatives.len(), 2);
    for (orig, got) in requested.alternatives.iter().zip(r.alternatives.iter()) {
        assert_eq!(got.formats, vec![PixelFormat::Bgrx]);
        assert_eq!(got.width, orig.width);
        assert_eq!(got.height, orig.height);
        assert_eq!(got.framerate, orig.framerate);
    }
}

#[test]
fn negotiate_from_input_advertises_gray_then_color() {
    let requested = CapsSet {
        alternatives: vec![
            alt(vec![PixelFormat::Bgrx], (100, 200), (50, 60), (25, 30)),
            alt(vec![PixelFormat::Bgrx], (7, 7), (9, 9), (30, 30)),
        ],
    };
    let r = negotiate(Direction::Input, &requested, None);
    assert_eq!(r.alternatives.len(), 4);
    for (k, orig) in requested.alternatives.iter().enumerate() {
        let gray = &r.alternatives[k];
        let color = &r.alternatives[requested.alternatives.len() + k];
        assert_eq!(gray.formats, vec![PixelFormat::Gray8]);
        assert_eq!(color.formats, vec![PixelFormat::Bgrx]);
        for forced in [gray, color] {
            assert_eq!(forced.width, orig.width);
            assert_eq!(forced.height, orig.height);
            assert_eq!(forced.framerate, orig.framerate);
        }
    }
}

#[test]
fn negotiate_with_disjoint_filter_is_empty() {
    let requested = CapsSet {
        alternatives: vec![alt(vec![PixelFormat::Gray8], (1, 100), (1, 100), (0, 60))],
    };
    // From the output side every candidate is packed color; a gray-only
    // filter shares no format token with them.
    let filter = CapsSet {
        alternatives: vec![alt(vec![PixelFormat::Gray8], (1, 100), (1, 100), (0, 60))],
    };
    let r = negotiate(Direction::Output, &requested, Some(&filter));
    assert_eq!(r.alternatives.len(), 0);
}

#[test]
fn negotiate_filter_intersects_ranges_first_match() {
    let requested = CapsSet {
        alternatives: vec![alt(vec![PixelFormat::Bgrx], (10, 100), (20, 80), (10, 50))],
    };
    let filter = CapsSet {
        alternatives: vec![
            alt(vec![PixelFormat::Gray8, PixelFormat::Bgrx], (50, 200), (1, 40), (30, 60)),
        ],
    };
    // Input-side candidates: gray copy then color copy. The filter is the
    // first operand, so its alternative is intersected with each candidate
    // in candidate order: gray first, then color.
    let r = negotiate(Direction::Input, &requested, Some(&filter));
    assert_eq!(r.alternatives.len(), 2);
    assert_eq!(r.alternatives[0].formats, vec![PixelFormat::Gray8]);
    assert_eq!(r.alternatives[1].formats, vec![PixelFormat::Bgrx]);
    for got in &r.alternatives {
        assert_eq!(got.width, IntRange { lo: 50, hi: 100 });
        assert_eq!(got.height, IntRange { lo: 20, hi: 40 });
        assert_eq!(
            got.framerate,
            FractionRange {
                lo: Fraction { num: 30, den: 1 },
                hi: Fraction { num: 50, den: 1 },
            }
        );
    }
}

#[test]
fn negotiate_empty_range_overlap_drops_alternative() {
    let requested = CapsSet {
        alternatives: vec![alt(vec![PixelFormat::Bgrx], (10, 20), (1, 10), (0, 60))],
    };
    let filter = CapsSet {
        alternatives: vec![alt(vec![PixelFormat::Bgrx], (30, 40), (1, 10), (0, 60))],
    };
    let r = negotiate(Direction::Output, &requested, Some(&filter));
    assert_eq!(r.alternatives.len(), 0);
}

#[test]
fn transform_caps_method_matches_free_negotiation() {
    let filter = Rgb2Gray::new();
    let requested = CapsSet {
        alternatives: vec![alt(vec![PixelFormat::Bgrx], (2, 2), (2, 2), (30, 30))],
    };
    let via_method = filter.transform_caps(Direction::Input, &requested, None);
    let via_free = negotiate(Direction::Input, &requested, None);
    assert_eq!(via_method.alternatives.len(), via_free.alternatives.len());
    for (a, b) in via_method.alternatives.iter().zip(via_free.alternatives.iter()) {
        assert_eq!(a.formats, b.formats);
        assert_eq!(a.width, b.width);
        assert_eq!(a.height, b.height);
        assert_eq!(a.framerate, b.framerate);
    }
}
