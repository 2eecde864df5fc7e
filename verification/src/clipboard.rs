//! How a clipboard register talks to its channel: what it hands to the
//! channel, and what it makes of the text it finds there.

use crate::editor::{ClipboardError, ClipboardType, Editor, EditorView};
use crate::model::{clipboard_values, RegisterError};
use crate::text::{
    copied, join, joined, lemma_joined_step, lemma_joined_take, lemma_match_step,
    lemma_prefix_encoded, saved_matches, starts_with_at,
};
use vstd::prelude::*;
use vstd::string::*;
use vstd::utf8::*;

verus! {

/// Hands `values`, joined by the document's line ending, to a clipboard
/// channel.
pub fn save_to_clipboard(values: &[String], editor: &mut Editor, clipboard_type: ClipboardType) -> (res:
    Result<(), RegisterError>)
    ensures
        final(editor)@ == (EditorView {
            clipboard: old(editor)@.clipboard.set(
                clipboard_type,
                joined(values.deep_view(), old(editor)@.line_ending),
            ),
            ..old(editor)@
        }),
        res == if old(editor)@.clipboard.channel(clipboard_type).contents is Some {
            Ok::<(), RegisterError>(())
        } else {
            Err::<(), RegisterError>(RegisterError::Clipboard(ClipboardError { clipboard_type }))
        },
{
    let text = join(values, editor.line_ending.as_str());
    match editor.clipboard.set_contents(text, clipboard_type) {
        Ok(()) => Ok(()),
        Err(err) => Err(RegisterError::Clipboard(err)),
    }
}

/// The values that a read of a clipboard register yields, given the values it
/// last handed to its channel.
pub fn read_from_clipboard(
    saved_values: &[String],
    editor: &Editor,
    clipboard_type: ClipboardType,
) -> (values: Vec<String>)
    ensures
        values.deep_view() == clipboard_values(
            saved_values.deep_view(),
            editor@.line_ending,
            editor@.clipboard.channel(clipboard_type).contents,
        ),
{
    match editor.clipboard.get_contents(clipboard_type) {
        Ok(contents) => {
            if contents_are_saved(saved_values, editor, contents.as_str()) {
                copied(saved_values)
            } else {
                let mut values: Vec<String> = Vec::new();
                values.push(contents);
                proof {
                    assert(values.deep_view() == seq![contents@]);
                }
                values
            }
        },
        Err(_) => {
            let values: Vec<String> = Vec::new();
            proof {
                assert(values.deep_view() == Seq::<Seq<char>>::empty());
            }
            values
        },
    }
}

/// Whether `contents` is still what `saved_values` were joined to.
pub fn contents_are_saved(saved_values: &[String], editor: &Editor, contents: &str) -> (saved: bool)
    ensures
        saved == saved_matches(saved_values.deep_view(), editor@.line_ending, contents@),
{
    let text = contents.as_bytes();
    let line_ending = editor.line_ending.as_str().as_bytes();
    let ghost values = saved_values.deep_view();
    let ghost sep = editor@.line_ending;
    if saved_values.len() == 0 {
        return false;
    }
    let first = saved_values[0].as_str().as_bytes();
    proof {
        assert(values.take(1) == seq![values[0]]);
        assert(joined(values.take(1), sep) == values[0]);
        assert(text@.subrange(0, 0) == encode_utf8(Seq::<char>::empty()));
    }
    if !starts_with_at(text, 0, first) {
        proof {
            lemma_unmatched(values, sep, contents@, 1);
        }
        return false;
    }
    let mut at: usize = first.len();
    let mut i: usize = 1;
    while i < saved_values.len()
        invariant
            1 <= i <= saved_values.len(),
            at <= text.len(),
            text@ == encode_utf8(contents@),
            line_ending@ == encode_utf8(sep),
            values == saved_values.deep_view(),
            sep == editor@.line_ending,
            text@.subrange(0, at as int) == encode_utf8(joined(values.take(i as int), sep)),
        decreases saved_values.len() - i,
    {
        let value = saved_values[i].as_str().as_bytes();
        proof {
            assert(value@ == encode_utf8(values[i as int]));
            lemma_joined_step(values, sep, i as int);
            lemma_match_step(text@, at as int, joined(values.take(i as int), sep), sep, values[i as int]);
        }
        if !starts_with_at(text, at, line_ending) {
            proof {
                lemma_unmatched(values, sep, contents@, i + 1);
            }
            return false;
        }
        if !starts_with_at(text, at + line_ending.len(), value) {
            proof {
                lemma_unmatched(values, sep, contents@, i + 1);
            }
            return false;
        }
        at = at + line_ending.len() + value.len();
        i += 1;
    }
    proof {
        assert(values.take(i as int) == values);
        lemma_prefix_encoded(joined(values, sep), contents@);
    }
    true
}

/// A text whose encoding does not start with that of the first `k` values
/// joined does not match the values.
proof fn lemma_unmatched(values: Seq<Seq<char>>, sep: Seq<char>, text: Seq<char>, k: int)
    requires
        1 <= k <= values.len(),
        !encode_utf8(joined(values.take(k), sep)).is_prefix_of(encode_utf8(text)),
    ensures
        !saved_matches(values, sep, text),
{
    lemma_joined_take(values, sep, k);
    lemma_prefix_encoded(joined(values.take(k), sep), text);
}

} // verus!
