//! Input and row models with their validation rules.

pub mod exercise;
pub mod friction;
pub mod intensity;
pub mod note;
pub mod quality;
pub mod sleep;

pub use exercise::{DateIntensity, ExerciseInput};
pub use friction::{
    FrictionErrorKindAggregate, FrictionTelemetryEvent, FrictionTelemetryInput,
    FrictionWindowAggregate,
};
pub use intensity::Intensity;
pub use note::NoteInput;
pub use quality::Quality;
pub use sleep::{SleepInput, SleepListItem, SleepSession};
