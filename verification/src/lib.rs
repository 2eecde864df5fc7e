//! Named registers of a text editor: storage slots that hold ordered sequences
//! of text fragments, some kept in memory, some computed from the editor's
//! state when they are read, and some mirrored to a clipboard.

pub mod clipboard;
pub mod editor;
pub mod laws;
pub mod model;
pub mod register;
pub mod registry;
pub mod text;

pub use editor::{Clipboard, ClipboardError, ClipboardType, Editor, SCRATCH_BUFFER_NAME};
pub use model::RegisterError;
pub use register::{
    AnyRegister, BlackholeRegister, DocumentPathRegister, PrimaryClipboardRegister, Register,
    SelectionContentsRegister, SelectionIndexRegister, SimpleRegister, SystemClipboardRegister,
};
pub use registry::{Registers, SPECIAL_REGISTERS};
