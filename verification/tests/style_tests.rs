use bongo_display::pose::Pose;
use bongo_display::style::{hidden_layers, style_for, LayerId};

#[test]
fn variant_exclusivity_per_pose() {
    for (pose, left_up, right_up) in [
        (Pose::Default, false, false),
        (Pose::LeftUp, true, false),
        (Pose::RightUp, false, true),
        (Pose::BothUp, true, true),
    ] {
        let s = style_for(160, 160, pose);
        // Exactly one of each paw's layer pair is visible.
        assert_ne!(s.left_up_visible, s.left_down_visible);
        assert_ne!(s.right_up_visible, s.right_down_visible);
        assert_eq!(s.left_up_visible, left_up);
        assert_eq!(s.right_up_visible, right_up);
    }
}

#[test]
fn decor_visibility_thresholds() {
    assert!(!style_for(64, 64, Pose::Default).decor_visible);
    assert!(style_for(160, 160, Pose::Default).decor_visible);
    // Either dimension below the threshold hides the decoration.
    assert!(!style_for(160, 64, Pose::Default).decor_visible);
    assert!(!style_for(64, 160, Pose::Default).decor_visible);
    // The boundary itself is legible.
    assert!(style_for(128, 128, Pose::Default).decor_visible);
    assert!(!style_for(127, 128, Pose::Default).decor_visible);
}

#[test]
fn hidden_layers_small_default() {
    let hidden = hidden_layers(60, 60, Pose::Default);
    assert_eq!(hidden, vec![LayerId::Decor, LayerId::LeftPawUp, LayerId::RightPawUp]);
}

#[test]
fn hidden_layers_large_both_up() {
    let hidden = hidden_layers(160, 160, Pose::BothUp);
    assert_eq!(hidden, vec![LayerId::LeftPawDown, LayerId::RightPawDown]);
}

#[test]
fn hidden_layers_mixed_poses() {
    let hidden = hidden_layers(160, 160, Pose::LeftUp);
    assert_eq!(hidden, vec![LayerId::LeftPawDown, LayerId::RightPawUp]);
    let hidden = hidden_layers(60, 60, Pose::RightUp);
    assert_eq!(hidden, vec![LayerId::Decor, LayerId::LeftPawUp, LayerId::RightPawDown]);
}
