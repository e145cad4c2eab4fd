use mtas::img::GrayImage;
use mtas::recognizer::{
    best_match, detect_any, verify_page, ButtonTemplate, PageTemplate,
    BUTTON_CONFIDENCE_THRESHOLD_PPM,
};
use mtas::errors::ControllerError;

fn gray(width: usize, height: usize, pixels: Vec<u8>) -> GrayImage {
    GrayImage::new(width, height, pixels).expect("valid image")
}

/// A small frame with enough curvature that windows differ: an affine
/// pattern would make every window correlate perfectly with every other.
fn gradient_frame() -> GrayImage {
    let mut pixels: Vec<u8> = Vec::new();
    for y in 0..8u32 {
        for x in 0..8u32 {
            pixels.push(((x * x * 3 + y * y * 7 + x * y * 5) % 251) as u8);
        }
    }
    gray(8, 8, pixels)
}

#[test]
fn image_with_wrong_buffer_length_is_rejected() {
    let r = GrayImage::new(3, 3, vec![0u8; 8]);
    assert_eq!(r.err(), Some(ControllerError::ImageLoadFailed));
}

#[test]
fn self_match_scores_full_confidence() {
    let f = gradient_frame();
    let t = gradient_frame();
    let (x, y, score) = best_match(&f, &t);
    assert_eq!((x, y), (0, 0));
    assert_eq!(score, 1_000_000);
    assert!(score > 900_000);
}

#[test]
fn template_is_found_at_its_true_offset() {
    let f = gradient_frame();
    // The 3x3 window of the frame at (2, 4).
    let mut tp: Vec<u8> = Vec::new();
    for y in 4..7u32 {
        for x in 2..5u32 {
            tp.push(((x * x * 3 + y * y * 7 + x * y * 5) % 251) as u8);
        }
    }
    let t = gray(3, 3, tp);
    let (x, y, score) = best_match(&f, &t);
    assert_eq!(score, 1_000_000);
    assert_eq!((x, y), (2, 4));
}

#[test]
fn linearly_related_windows_correlate_fully() {
    // Perfect linear dependence is full normalized cross-correlation.
    let a = gray(2, 1, vec![0, 255]);
    let b = gray(2, 1, vec![0, 128]);
    let (_, _, score) = best_match(&b, &a);
    assert_eq!(score, 1_000_000);
}

#[test]
fn anti_correlated_windows_score_zero() {
    let f = gray(2, 1, vec![255, 0]);
    let t = gray(2, 1, vec![0, 255]);
    let (_, _, score) = best_match(&f, &t);
    assert_eq!(score, 0);
}

#[test]
fn flat_template_scores_zero_even_on_itself() {
    let t = gray(2, 2, vec![80u8; 4]);
    let f = gray(2, 2, vec![80u8; 4]);
    let (_, _, score) = best_match(&f, &t);
    assert_eq!(score, 0);
}

#[test]
fn verify_self_match_page_succeeds_with_full_confidence() {
    let f = gradient_frame();
    let page = PageTemplate {
        page: 3,
        buttons: vec![
            ButtonTemplate { button: 1, image: gradient_frame() },
            ButtonTemplate { button: 2, image: gradient_frame() },
        ],
    };
    let m = verify_page(&f, &page).expect("self match must succeed");
    assert_eq!(m.page, 3);
    assert_eq!(m.confidence, 1_000_000);
    assert!(m.confidence > 900_000);
    assert_eq!(m.buttons.len(), 2);
    assert_eq!(m.buttons[0].button, 1);
    assert_eq!(m.buttons[1].button, 2);
    // Both matched at the origin: center of an 8-wide template in an
    // 8-wide frame sits at (0 + 4) / 8 of the width.
    assert_eq!(m.buttons[0].x_ppm, 500_000);
    assert_eq!(m.buttons[0].y_ppm, 500_000);
}

#[test]
fn verify_against_black_frame_finds_nothing() {
    let f = gray(8, 8, vec![0u8; 64]);
    let page = PageTemplate {
        page: 1,
        buttons: vec![ButtonTemplate {
            button: 1,
            image: gray(3, 3, vec![1, 2, 3, 4, 5, 6, 7, 8, 9]),
        }],
    };
    let r = verify_page(&f, &page);
    assert_eq!(r.err(), Some(ControllerError::NoMatch));
}

#[test]
fn rejected_buttons_are_left_out_of_the_match() {
    let f = gradient_frame();
    let page = PageTemplate {
        page: 9,
        buttons: vec![
            ButtonTemplate { button: 1, image: gradient_frame() },
            // Anti-correlated to every window: never accepted.
            ButtonTemplate {
                button: 2,
                image: gray(8, 8, {
                    let mut p: Vec<u8> = Vec::new();
                    for y in 0..8u32 {
                        for x in 0..8u32 {
                            p.push(255 - (((x * x * 3 + y * y * 7 + x * y * 5) % 251) as u8));
                        }
                    }
                    p
                }),
            },
        ],
    };
    let m = verify_page(&f, &page).expect("one button is enough");
    assert_eq!(m.buttons.len(), 1);
    assert_eq!(m.buttons[0].button, 1);
}

#[test]
fn detect_any_returns_highest_confidence_success() {
    let f = gradient_frame();
    let pages = vec![
        PageTemplate {
            page: 1,
            buttons: vec![ButtonTemplate { button: 1, image: gray(8, 8, vec![0u8; 64]) }],
        },
        PageTemplate {
            page: 2,
            buttons: vec![ButtonTemplate { button: 1, image: gradient_frame() }],
        },
    ];
    let m = detect_any(&f, &pages).expect("the matching page wins");
    assert_eq!(m.page, 2);
    assert_eq!(m.confidence, 1_000_000);
}

#[test]
fn detect_any_fails_with_no_match_when_no_page_succeeds() {
    let f = gray(8, 8, vec![0u8; 64]);
    let pages = vec![
        PageTemplate {
            page: 1,
            buttons: vec![ButtonTemplate { button: 1, image: gradient_frame() }],
        },
        PageTemplate {
            page: 2,
            buttons: vec![ButtonTemplate {
                button: 1,
                image: gray(2, 2, vec![9, 200, 3, 17]),
            }],
        },
    ];
    let r = detect_any(&f, &pages);
    assert_eq!(r.err(), Some(ControllerError::NoMatch));
}

#[test]
fn button_threshold_is_sixty_percent() {
    assert_eq!(BUTTON_CONFIDENCE_THRESHOLD_PPM, 600_000);
}
