use vstd::prelude::*;

verus! {

// Data the client side works with: device selection, the feedback widget's
// steps and forms, and the loading indicator. These types carry plain
// values only; the browser-facing machinery that displays and fills them
// lives outside the library.

/// A selectable media device as the browser reports it.
#[derive(Debug, Clone)]
pub struct DeviceInfo {
    pub device_id: String,
    pub kind: String,
    pub label: String,
    pub group_id: String,
}

/// A constraint naming the exact device to open.
#[derive(Debug)]
pub struct ConstraintOptions {
    pub device_id: ConstraintDeviceId,
}

#[derive(Debug)]
pub struct ConstraintDeviceId {
    pub exact: String,
}

/// The devices the user has picked, by kind.
#[derive(Debug, Clone)]
pub struct ActiveDevices {
    pub camera: Option<String>,
    pub microphone: Option<String>,
    pub speaker: Option<String>,
}

#[derive(Debug, Clone, PartialEq, Eq, Structural)]
pub enum DeviceType {
    Camera,
    Microphone,
    Speaker,
}

/// A device that could not be opened, and why.
#[derive(Debug, Clone)]
pub struct DeviceError {
    pub device_type: DeviceType,
    pub message: String,
    pub valid: bool,
}

/// What the camera pane currently shows.
#[derive(Clone, PartialEq, Eq, Structural)]
pub enum CameraView {
    Editor,
    Preview,
    Settings,
}

/// Where the user stands in the feedback flow.
#[derive(Clone, PartialEq, Eq, Structural)]
pub enum FeedbackStep {
    TypeSelection,
    Message,
    Video,
    DeviceSettings,
    VideoEditor,
    ThankYou,
    NoStep,
    GoBack,
}

/// What the camera service broadcast to its subscribers.
#[derive(Debug, Clone)]
pub enum CameraContextAction {
    SendBlobChunk,
    AddedClip,
    SendDeviceList,
    SendUserMedia,
    SendClipDetails,
    SendMicFrequency,
    SendDeviceError,
    MergedClip,
}

/// One field of a rendered form.
#[derive(Debug, Clone)]
pub struct FormField {
    pub label: &'static str,
    pub value: &'static str,
    pub required: &'static str,
    pub icon: &'static str,
    pub field_type: &'static str,
    pub validator: &'static str,
    pub sort_order: &'static str,
    pub options: Vec<FormSelectOption>,
}

impl Default for FormField {
    /// An empty field: every text attribute blank and no options.
    fn default() -> (r: FormField)
        ensures
            r.label@ == ""@,
            r.value@ == ""@,
            r.required@ == ""@,
            r.icon@ == ""@,
            r.field_type@ == ""@,
            r.validator@ == ""@,
            r.sort_order@ == ""@,
            r.options@ == Seq::<FormSelectOption>::empty(),
    {
        FormField {
            label: "",
            value: "",
            required: "",
            icon: "",
            field_type: "",
            validator: "",
            sort_order: "",
            options: Vec::new(),
        }
    }
}

/// One choice of a select field.
#[derive(Debug, Clone, PartialEq, PartialOrd)]
pub struct FormSelectOption {
    value: &'static str,
    label: &'static str,
    selected: &'static str,
}

pub enum FormFieldType {
    Text,
    TextArea,
    Email,
    Hidden,
}

/// A value the user entered, keyed by the field it belongs to.
pub struct FieldValue {
    pub id: String,
    pub value: String,
}

/// The device-settings form: one field per device kind.
#[derive(Debug, Clone)]
pub struct DeviceSettingForm {
    pub video: FormField,
    pub audio_input: FormField,
    pub audio_output: FormField,
}

/// The written-feedback form.
#[derive(Debug, Clone)]
pub struct FeedbackMsg {
    pub name: FormField,
    pub email: FormField,
    pub your_message: FormField,
}

/// The video-feedback form.
#[derive(Debug, Clone)]
pub struct FeedbackVideo {
    pub name: FormField,
    pub email: FormField,
}

/// Whether the loading indicator is shown.
#[derive(PartialEq, Eq, Structural)]
pub struct LoadingProp {
    pub load: bool,
}

/// The loading indicator itself; it carries no state.
pub struct Loading;

} // verus!
