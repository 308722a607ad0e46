use pitu::editors::{CropEditor, EditorKey, EditorOutcome, HealingEditor};
use pitu::menus::{session_choice, wizard_action, PipelineRecipe, SessionChoice, WizardAction};

#[test]
fn crop_editor_moves_and_clamps() {
    let mut e = CropEditor::new(100, 80);
    assert_eq!((e.x1, e.y1, e.x2, e.y2, e.active_corner), (0, 0, 99, 79, 0));
    assert_eq!(e.press(EditorKey::Right), EditorOutcome::Continue);
    assert_eq!(e.x1, 15);
    e.press(EditorKey::Left);
    e.press(EditorKey::Left);
    assert_eq!(e.x1, 0);
    e.press(EditorKey::Tab);
    assert_eq!(e.active_corner, 1);
    e.press(EditorKey::Right);
    assert_eq!(e.x2, 99);
    for _ in 0..10 {
        e.press(EditorKey::Left);
    }
    assert_eq!(e.x2, 10);
    e.press(EditorKey::Tab);
    e.press(EditorKey::Tab);
    assert_eq!(e.active_corner, 1);
    assert_eq!(e.press(EditorKey::Commit), EditorOutcome::Commit);
    assert_eq!(e.selection(), (0, 0, 10, 79));
    assert_eq!(e.press(EditorKey::Cancel), EditorOutcome::Cancel);
}

#[test]
fn crop_editor_clicks_move_the_nearer_handle() {
    let mut e = CropEditor::new(200, 100);
    e.click(150, 90, true);
    assert_eq!((e.x1, e.y1, e.active_corner), (150, 89, 0));
    e.click(5, 5, false);
    assert_eq!((e.x2, e.y2, e.active_corner), (160, 99, 1));
    assert_eq!(e.selection(), (150, 89, 10, 10));
}

#[test]
fn healing_editor_moves_and_resizes() {
    let mut e = HealingEditor::new(50, 30, 20);
    assert_eq!((e.cx, e.cy, e.r), (25, 15, 20));
    e.press(EditorKey::Right);
    e.press(EditorKey::Right);
    e.press(EditorKey::Right);
    assert_eq!(e.cx, 49);
    e.press(EditorKey::Up);
    e.press(EditorKey::Up);
    assert_eq!(e.cy, 0);
    for _ in 0..100 {
        e.press(EditorKey::Grow);
    }
    assert_eq!(e.r, 200);
    for _ in 0..150 {
        e.press(EditorKey::Shrink);
    }
    assert_eq!(e.r, 1);
    e.click(3, 4);
    assert_eq!((e.cx, e.cy), (3, 4));
    assert_eq!(e.press(EditorKey::Other), EditorOutcome::Continue);
}

#[test]
fn dashboard_entries() {
    assert_eq!(wizard_action("🚪  Exit Pitu"), WizardAction::Exit);
    assert_eq!(wizard_action("📖  View User Manual & Documentation"), WizardAction::Manual);
    assert_eq!(
        wizard_action("🛠️  Interactive Rebase (Selectively toggle/remove intermediate effects)"),
        WizardAction::Rebase
    );
    assert_eq!(
        wizard_action("🎨  Continuous Edit Session (Chain Operations with Auto-Save & Rebase)"),
        WizardAction::EditSession
    );
    assert_eq!(
        wizard_action("📱  Quick 1:1 Square Social Thumbnail"),
        WizardAction::Process(PipelineRecipe::Square)
    );
    assert_eq!(
        wizard_action("🌐  Quick Convert to WebP (Web optimized)"),
        WizardAction::Process(PipelineRecipe::Plain)
    );
}

#[test]
fn session_entries() {
    assert_eq!(session_choice("↩️  Undo Last Active Edit"), SessionChoice::Undo);
    assert_eq!(session_choice("🛠️  Interactive Rebase (Selective Layer Edit)"), SessionChoice::Rebase);
    assert_eq!(session_choice("🎭 Vignette Halo Border"), SessionChoice::Vignette);
    assert_eq!(session_choice("🖼️ Add Border Frame"), SessionChoice::BorderFrame);
    assert_eq!(session_choice("📐 Details / Structure Clarity"), SessionChoice::Structure);
    // "Exposure" is checked before "Double Exposure", so that entry tunes exposure.
    assert_eq!(session_choice("🎭 Double Exposure Blending"), SessionChoice::Exposure);
    assert_eq!(session_choice("something else"), SessionChoice::Nothing);
}
