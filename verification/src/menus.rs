//! What the interactive wizard does with a menu entry: the main dashboard's
//! actions and the edit session's adjustments, each picked by a phrase that
//! the entry's label contains.
use vstd::prelude::*;
use crate::text::{contains_seq, text_contains};

verus! {

/// The pipeline recipes that the dashboard's processing entries run.
#[derive(Debug, Clone, Copy, PartialEq, Eq, Structural)]
pub enum PipelineRecipe {
    /// A preset workflow chosen from the configuration.
    Preset,
    /// A 16:9 smart entropy crop.
    Widescreen,
    /// A 1:1 smart entropy crop.
    Square,
    /// A text watermark.
    TextWatermark,
    /// Grayscale with a contrast boost.
    GrayscaleContrast,
    /// Smart crop, resize and watermark, each asked for.
    Custom,
    /// The input converted as it is.
    Plain,
}

/// What a dashboard entry does.
#[derive(Debug, Clone, Copy, PartialEq, Eq, Structural)]
pub enum WizardAction {
    Exit,
    Manual,
    About,
    InitConfig,
    SnapshotSync,
    Rebase,
    Revert,
    EditSession,
    Enhance,
    Compress,
    Inspect,
    Heatmap,
    Diff,
    Process(PipelineRecipe),
}

/// The recipe of a processing entry, by the first phrase its label holds.
pub open spec fn recipe_of(label: Seq<char>) -> PipelineRecipe {
    if contains_seq(label, "Execute Preset Workflow"@) {
        PipelineRecipe::Preset
    } else if contains_seq(label, "Quick 16:9 Smart Entropy Crop"@) {
        PipelineRecipe::Widescreen
    } else if contains_seq(label, "Quick 1:1 Square Social Thumbnail"@) {
        PipelineRecipe::Square
    } else if contains_seq(label, "Quick Text Watermark"@) {
        PipelineRecipe::TextWatermark
    } else if contains_seq(label, "Quick Grayscale & Contrast Boost"@) {
        PipelineRecipe::GrayscaleContrast
    } else if contains_seq(label, "Full Custom Pipeline"@) {
        PipelineRecipe::Custom
    } else {
        PipelineRecipe::Plain
    }
}

/// The action of a dashboard entry, by the first phrase (in the order the
/// wizard checks them) that its label holds; any other entry processes images.
pub open spec fn wizard_action_of(label: Seq<char>) -> WizardAction {
    if contains_seq(label, "Exit Pitu"@) {
        WizardAction::Exit
    } else if contains_seq(label, "User Manual"@) {
        WizardAction::Manual
    } else if contains_seq(label, "About pitu"@) {
        WizardAction::About
    } else if contains_seq(label, "Generate Starter pitu.toml"@) {
        WizardAction::InitConfig
    } else if contains_seq(label, "Create Snapshot Commit Sync"@) {
        WizardAction::SnapshotSync
    } else if contains_seq(label, "Interactive Rebase"@) {
        WizardAction::Rebase
    } else if contains_seq(label, "Revert Image to Any Snapshot Commit"@) {
        WizardAction::Revert
    } else if contains_seq(label, "Continuous Edit Session"@) {
        WizardAction::EditSession
    } else if contains_seq(label, "Enhance Quality"@) {
        WizardAction::Enhance
    } else if contains_seq(label, "Compress File to Target Max Size"@) {
        WizardAction::Compress
    } else if contains_seq(label, "Inspect Image Metadata"@) {
        WizardAction::Inspect
    } else if contains_seq(label, "View Terminal Entropy Heatmap"@) {
        WizardAction::Heatmap
    } else if contains_seq(label, "Side-by-Side Visual Diff"@) {
        WizardAction::Diff
    } else {
        WizardAction::Process(recipe_of(label))
    }
}

fn recipe_for(label: &str) -> (r: PipelineRecipe)
    ensures
        r == recipe_of(label@),
{
    if text_contains(label, "Execute Preset Workflow") {
        PipelineRecipe::Preset
    } else if text_contains(label, "Quick 16:9 Smart Entropy Crop") {
        PipelineRecipe::Widescreen
    } else if text_contains(label, "Quick 1:1 Square Social Thumbnail") {
        PipelineRecipe::Square
    } else if text_contains(label, "Quick Text Watermark") {
        PipelineRecipe::TextWatermark
    } else if text_contains(label, "Quick Grayscale & Contrast Boost") {
        PipelineRecipe::GrayscaleContrast
    } else if text_contains(label, "Full Custom Pipeline") {
        PipelineRecipe::Custom
    } else {
        PipelineRecipe::Plain
    }
}

/// The action of the dashboard entry labelled `label`.
pub fn wizard_action(label: &str) -> (a: WizardAction)
    ensures
        a == wizard_action_of(label@),
{
    if text_contains(label, "Exit Pitu") {
        WizardAction::Exit
    } else if text_contains(label, "User Manual") {
        WizardAction::Manual
    } else if text_contains(label, "About pitu") {
        WizardAction::About
    } else if text_contains(label, "Generate Starter pitu.toml") {
        WizardAction::InitConfig
    } else if text_contains(label, "Create Snapshot Commit Sync") {
        WizardAction::SnapshotSync
    } else if text_contains(label, "Interactive Rebase") {
        WizardAction::Rebase
    } else if text_contains(label, "Revert Image to Any Snapshot Commit") {
        WizardAction::Revert
    } else if text_contains(label, "Continuous Edit Session") {
        WizardAction::EditSession
    } else if text_contains(label, "Enhance Quality") {
        WizardAction::Enhance
    } else if text_contains(label, "Compress File to Target Max Size") {
        WizardAction::Compress
    } else if text_contains(label, "Inspect Image Metadata") {
        WizardAction::Inspect
    } else if text_contains(label, "View Terminal Entropy Heatmap") {
        WizardAction::Heatmap
    } else if text_contains(label, "Side-by-Side Visual Diff") {
        WizardAction::Diff
    } else {
        WizardAction::Process(recipe_for(label))
    }
}

/// What an edit-session entry does.
#[derive(Debug, Clone, Copy, PartialEq, Eq, Structural)]
pub enum SessionChoice {
    Undo,
    Redo,
    Rebase,
    Finish,
    Export,
    Exposure,
    Saturation,
    Warmth,
    Structure,
    Vignette,
    HdrScape,
    GlamourGlow,
    HazeRemoval,
    Shadows,
    Highlights,
    Noir,
    Vintage,
    Grunge,
    LensBlur,
    SpotHealing,
    SelectiveAdjustment,
    DoubleExposure,
    FreeformCrop,
    ToneCurves,
    Watermark,
    WidescreenCrop,
    SquareCrop,
    BorderFrame,
    Nothing,
}

/// The choice an edit-session entry makes, by the first phrase (in the order
/// the session checks them) that its label holds.
pub open spec fn session_choice_of(label: Seq<char>) -> SessionChoice {
    if contains_seq(label, "Undo Last Active Edit"@) {
        SessionChoice::Undo
    } else if contains_seq(label, "Redo Last Disabled Edit"@) {
        SessionChoice::Redo
    } else if contains_seq(label, "Interactive Rebase"@) {
        SessionChoice::Rebase
    } else if contains_seq(label, "Finish"@) {
        SessionChoice::Finish
    } else if contains_seq(label, "Export"@) {
        SessionChoice::Export
    } else if contains_seq(label, "Exposure"@) {
        SessionChoice::Exposure
    } else if contains_seq(label, "Saturation"@) {
        SessionChoice::Saturation
    } else if contains_seq(label, "Warmth"@) {
        SessionChoice::Warmth
    } else if contains_seq(label, "Structure"@) {
        SessionChoice::Structure
    } else if contains_seq(label, "Vignette"@) {
        SessionChoice::Vignette
    } else if contains_seq(label, "HDR Scape"@) {
        SessionChoice::HdrScape
    } else if contains_seq(label, "Glamour"@) {
        SessionChoice::GlamourGlow
    } else if contains_seq(label, "Haze Removal"@) {
        SessionChoice::HazeRemoval
    } else if contains_seq(label, "Shadows"@) {
        SessionChoice::Shadows
    } else if contains_seq(label, "Highlights"@) {
        SessionChoice::Highlights
    } else if contains_seq(label, "Noir"@) {
        SessionChoice::Noir
    } else if contains_seq(label, "Vintage"@) {
        SessionChoice::Vintage
    } else if contains_seq(label, "Grunge"@) {
        SessionChoice::Grunge
    } else if contains_seq(label, "Lens Blur"@) {
        SessionChoice::LensBlur
    } else if contains_seq(label, "Spot Healing"@) {
        SessionChoice::SpotHealing
    } else if contains_seq(label, "Selective Adjustment"@) {
        SessionChoice::SelectiveAdjustment
    } else if contains_seq(label, "Double Exposure"@) {
        SessionChoice::DoubleExposure
    } else if contains_seq(label, "Freeform Bounding Box Crop"@) {
        SessionChoice::FreeformCrop
    } else if contains_seq(label, "Custom Spline Tone Curves"@) {
        SessionChoice::ToneCurves
    } else if contains_seq(label, "Rotated & Scaled Watermark"@) {
        SessionChoice::Watermark
    } else if contains_seq(label, "16:9 Smart Entropy Crop"@) {
        SessionChoice::WidescreenCrop
    } else if contains_seq(label, "1:1 Square Smart Crop"@) {
        SessionChoice::SquareCrop
    } else if contains_seq(label, "Border Frame"@) {
        SessionChoice::BorderFrame
    } else {
        SessionChoice::Nothing
    }
}

/// The choice of the edit-session entry labelled `label`.
pub fn session_choice(label: &str) -> (c: SessionChoice)
    ensures
        c == session_choice_of(label@),
{
    if text_contains(label, "Undo Last Active Edit") {
        SessionChoice::Undo
    } else if text_contains(label, "Redo Last Disabled Edit") {
        SessionChoice::Redo
    } else if text_contains(label, "Interactive Rebase") {
        SessionChoice::Rebase
    } else if text_contains(label, "Finish") {
        SessionChoice::Finish
    } else if text_contains(label, "Export") {
        SessionChoice::Export
    } else if text_contains(label, "Exposure") {
        SessionChoice::Exposure
    } else if text_contains(label, "Saturation") {
        SessionChoice::Saturation
    } else if text_contains(label, "Warmth") {
        SessionChoice::Warmth
    } else if text_contains(label, "Structure") {
        SessionChoice::Structure
    } else if text_contains(label, "Vignette") {
        SessionChoice::Vignette
    } else if text_contains(label, "HDR Scape") {
        SessionChoice::HdrScape
    } else if text_contains(label, "Glamour") {
        SessionChoice::GlamourGlow
    } else if text_contains(label, "Haze Removal") {
        SessionChoice::HazeRemoval
    } else if text_contains(label, "Shadows") {
        SessionChoice::Shadows
    } else if text_contains(label, "Highlights") {
        SessionChoice::Highlights
    } else if text_contains(label, "Noir") {
        SessionChoice::Noir
    } else if text_contains(label, "Vintage") {
        SessionChoice::Vintage
    } else if text_contains(label, "Grunge") {
        SessionChoice::Grunge
    } else if text_contains(label, "Lens Blur") {
        SessionChoice::LensBlur
    } else if text_contains(label, "Spot Healing") {
        SessionChoice::SpotHealing
    } else if text_contains(label, "Selective Adjustment") {
        SessionChoice::SelectiveAdjustment
    } else if text_contains(label, "Double Exposure") {
        SessionChoice::DoubleExposure
    } else if text_contains(label, "Freeform Bounding Box Crop") {
        SessionChoice::FreeformCrop
    } else if text_contains(label, "Custom Spline Tone Curves") {
        SessionChoice::ToneCurves
    } else if text_contains(label, "Rotated & Scaled Watermark") {
        SessionChoice::Watermark
    } else if text_contains(label, "16:9 Smart Entropy Crop") {
        SessionChoice::WidescreenCrop
    } else if text_contains(label, "1:1 Square Smart Crop") {
        SessionChoice::SquareCrop
    } else if text_contains(label, "Border Frame") {
        SessionChoice::BorderFrame
    } else {
        SessionChoice::Nothing
    }
}

} // verus!
