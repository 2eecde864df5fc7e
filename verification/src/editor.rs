//! The editor state that registers read from and write to: the active
//! document's selections, path and line ending, and the two clipboard
//! channels.

use vstd::prelude::*;

verus! {

/// The name that stands for a document without a path.
pub const SCRATCH_BUFFER_NAME: &'static str = "[scratch]";

/// One of the two clipboard channels.
#[derive(Clone, Copy, Debug, PartialEq, Eq, Structural)]
pub enum ClipboardType {
    /// The system clipboard.
    Clipboard,
    /// The primary selection.
    Selection,
}

/// A clipboard channel that could not be reached.
#[derive(Clone, Copy, Debug, PartialEq, Eq, Structural)]
pub struct ClipboardError {
    pub clipboard_type: ClipboardType,
}

/// What is known of one clipboard channel.
#[verifier::ext_equal]
pub struct ChannelView {
    /// The text on the channel, or `None` where the channel cannot be reached.
    pub contents: Option<Seq<char>>,
    /// Whether `contents` was set through `set_contents` since the channel
    /// was last loaded.
    pub written: bool,
}

/// What is known of both clipboard channels.
#[verifier::ext_equal]
pub struct ClipboardView {
    pub clipboard: ChannelView,
    pub selection: ChannelView,
}

impl ClipboardView {
    /// The named channel.
    pub open spec fn channel(self, clipboard_type: ClipboardType) -> ChannelView {
        match clipboard_type {
            ClipboardType::Clipboard => self.clipboard,
            ClipboardType::Selection => self.selection,
        }
    }

    /// This clipboard with the named channel replaced.
    pub open spec fn with_channel(self, clipboard_type: ClipboardType, channel: ChannelView) -> Self {
        match clipboard_type {
            ClipboardType::Clipboard => ClipboardView { clipboard: channel, ..self },
            ClipboardType::Selection => ClipboardView { selection: channel, ..self },
        }
    }

    /// The clipboard after `text` was handed to the named channel: a channel
    /// that can be reached holds `text` and is marked as written, one that
    /// cannot is left as it was.
    pub open spec fn set(self, clipboard_type: ClipboardType, text: Seq<char>) -> Self {
        if self.channel(clipboard_type).contents is Some {
            self.with_channel(clipboard_type, ChannelView { contents: Some(text), written: true })
        } else {
            self
        }
    }
}

#[derive(Debug)]
struct Channel {
    contents: Option<String>,
    written: bool,
}

impl Channel {
    spec fn view(&self) -> ChannelView {
        ChannelView {
            contents: match self.contents {
                Some(text) => Some(text@),
                None => None,
            },
            written: self.written,
        }
    }
}

/// The two clipboard channels as this process sees them. Whoever owns the
/// transport loads what it reports into a channel before registers are read,
/// and carries what registers have written out to it afterwards.
#[derive(Debug)]
pub struct Clipboard {
    clipboard: Channel,
    selection: Channel,
}

impl View for Clipboard {
    type V = ClipboardView;

    closed spec fn view(&self) -> ClipboardView {
        ClipboardView { clipboard: self.clipboard.view(), selection: self.selection.view() }
    }
}

impl Clipboard {
    /// Two channels that can be reached, hold no text and were not written.
    pub fn new() -> (clipboard: Self)
        ensures
            clipboard@.clipboard == (ChannelView { contents: Some(Seq::empty()), written: false }),
            clipboard@.selection == (ChannelView { contents: Some(Seq::empty()), written: false }),
    {
        Clipboard {
            clipboard: Channel { contents: Some(String::new()), written: false },
            selection: Channel { contents: Some(String::new()), written: false },
        }
    }

    /// Records what the transport reports of a channel: its text, or `None`
    /// where it cannot be reached.
    pub fn load(&mut self, clipboard_type: ClipboardType, contents: Option<String>)
        ensures
            final(self)@ == old(self)@.with_channel(
                clipboard_type,
                ChannelView {
                    contents: match contents {
                        Some(text) => Some(text@),
                        None => None,
                    },
                    written: false,
                },
            ),
    {
        let channel = Channel { contents, written: false };
        match clipboard_type {
            ClipboardType::Clipboard => {
                self.clipboard = channel;
            },
            ClipboardType::Selection => {
                self.selection = channel;
            },
        }
    }

    /// The text on a channel, or the error where the channel cannot be reached.
    pub fn get_contents(&self, clipboard_type: ClipboardType) -> (contents: Result<
        String,
        ClipboardError,
    >)
        ensures
            match self@.channel(clipboard_type).contents {
                Some(text) => contents matches Ok(got) && got@ == text,
                None => contents == Err::<String, ClipboardError>(ClipboardError { clipboard_type }),
            },
    {
        let channel = match clipboard_type {
            ClipboardType::Clipboard => &self.clipboard,
            ClipboardType::Selection => &self.selection,
        };
        match &channel.contents {
            Some(text) => Ok(text.clone()),
            None => Err(ClipboardError { clipboard_type }),
        }
    }

    /// Hands `contents` to a channel. A channel that cannot be reached gives
    /// the error and stays as it was.
    pub fn set_contents(&mut self, contents: String, clipboard_type: ClipboardType) -> (done:
        Result<(), ClipboardError>)
        ensures
            final(self)@ == old(self)@.set(clipboard_type, contents@),
            done == if old(self)@.channel(clipboard_type).contents is Some {
                Ok::<(), ClipboardError>(())
            } else {
                Err::<(), ClipboardError>(ClipboardError { clipboard_type })
            },
    {
        match clipboard_type {
            ClipboardType::Clipboard => {
                if self.clipboard.contents.is_none() {
                    return Err(ClipboardError { clipboard_type });
                }
                self.clipboard = Channel { contents: Some(contents), written: true };
            },
            ClipboardType::Selection => {
                if self.selection.contents.is_none() {
                    return Err(ClipboardError { clipboard_type });
                }
                self.selection = Channel { contents: Some(contents), written: true };
            },
        }
        Ok(())
    }

    /// Whether a channel was written since it was last loaded.
    pub fn written(&self, clipboard_type: ClipboardType) -> (written: bool)
        ensures
            written == self@.channel(clipboard_type).written,
    {
        match clipboard_type {
            ClipboardType::Clipboard => self.clipboard.written,
            ClipboardType::Selection => self.selection.written,
        }
    }
}

/// What registers see of the editor.
#[derive(Debug)]
pub struct Editor {
    /// The text of each selection of the active view, in order.
    pub selections: Vec<String>,
    /// The path of the active document, if it has one.
    pub path: Option<String>,
    /// The line ending of the active document.
    pub line_ending: String,
    /// The clipboard channels.
    pub clipboard: Clipboard,
}

/// The editor state as mathematical values.
#[verifier::ext_equal]
pub struct EditorView {
    pub selections: Seq<Seq<char>>,
    pub path: Option<Seq<char>>,
    pub line_ending: Seq<char>,
    pub clipboard: ClipboardView,
}

impl View for Editor {
    type V = EditorView;

    open spec fn view(&self) -> EditorView {
        EditorView {
            selections: self.selections.deep_view(),
            path: match self.path {
                Some(path) => Some(path@),
                None => None,
            },
            line_ending: self.line_ending@,
            clipboard: self.clipboard@,
        }
    }
}

} // verus!
