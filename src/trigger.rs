//! Deciding whether what the user just typed should start a completion
//! request, and the events and triggers that describe such a request.
use vstd::prelude::*;
use crate::diagnostic::LanguageServerId;
use crate::text::{ends_in_word, ends_with, is_suffix, last_chars_are_word};

verus! {

/// Identifies an editor view.
#[derive(Debug, Clone, Copy, PartialEq, Eq, Structural, Hash)]
pub struct ViewId(pub u64);

/// Identifies an open document.
#[derive(Debug, Clone, Copy, PartialEq, Eq, Structural, Hash)]
pub struct DocumentId(pub u64);

/// The settings that govern automatic completion.
#[derive(Debug, Clone, Copy, PartialEq, Eq, Structural)]
pub struct CompletionConfig {
    /// Master switch for every trigger but the manual one.
    pub auto_completion: bool,
    /// How long an automatic trigger waits for further typing, in milliseconds.
    pub completion_timeout_ms: u64,
    /// How many word characters must precede the cursor for an automatic trigger.
    pub completion_trigger_len: u8,
}

/// A language server that offers completions, with the trigger strings it
/// declared (empty when it declared none).
#[derive(Debug, Clone)]
pub struct Provider {
    pub id: LanguageServerId,
    pub trigger_characters: Vec<String>,
}

/// What caused a completion request.
#[derive(Debug, Clone, Copy, PartialEq, Eq, Structural)]
pub enum TriggerKind {
    Auto,
    TriggerChar,
    Manual,
}

/// A pending completion request: where and why it was triggered.
#[derive(Debug, Clone, Copy, PartialEq, Eq, Structural)]
pub struct Trigger {
    pub pos: usize,
    pub view: ViewId,
    pub doc: DocumentId,
    pub kind: TriggerKind,
}

/// The events the editor's hooks send to the completion debouncer.
#[derive(Debug, Clone, Copy, PartialEq, Eq, Structural)]
pub enum CompletionEvent {
    /// The user typed a word character.
    AutoTrigger { cursor: usize, doc: DocumentId, view: ViewId },
    /// The user typed a string that a provider declared as a trigger.
    TriggerChar { cursor: usize, doc: DocumentId, view: ViewId },
    /// The user asked for completions explicitly.
    ManualTrigger { cursor: usize, doc: DocumentId, view: ViewId },
    /// Text was deleted; the cursor is where it now stands.
    DeleteText { cursor: usize },
    /// Insert mode was left, or a command that ends completion ran.
    Cancel,
}

/// `triggers[j]` is the first trigger string of `triggers` that ends `text`.
pub open spec fn is_first_trigger(triggers: Seq<String>, text: Seq<char>, j: int) -> bool {
    &&& 0 <= j < triggers.len()
    &&& is_suffix(text, triggers[j]@)
    &&& forall|k: int| 0 <= k < j ==> !is_suffix(text, (#[trigger] triggers[k])@)
}

/// No trigger string of `triggers` ends `text`.
pub open spec fn no_trigger(triggers: Seq<String>, text: Seq<char>) -> bool {
    forall|k: int| 0 <= k < triggers.len() ==> !is_suffix(text, (#[trigger] triggers[k])@)
}

/// Whether some provider declared a trigger string that ends `text`.
pub open spec fn any_trigger_matches(providers: Seq<Provider>, text: Seq<char>) -> bool {
    exists|i: int, j: int|
        0 <= i < providers.len() && 0 <= j < providers[i].trigger_characters@.len()
            && is_suffix(text, (#[trigger] providers[i].trigger_characters@[j])@)
}

/// How the text before the cursor is classified: a trigger string wins over
/// a run of word characters.
pub open spec fn classify(
    config: CompletionConfig,
    text: Seq<char>,
    providers: Seq<Provider>,
    trigger_char_only: bool,
) -> Option<TriggerKind> {
    if !config.auto_completion {
        None
    } else if any_trigger_matches(providers, text) {
        Some(TriggerKind::TriggerChar)
    } else if !trigger_char_only && ends_in_word(text, config.completion_trigger_len as nat) {
        Some(TriggerKind::Auto)
    } else {
        None
    }
}

/// The event sent for a classification at `cursor`.
pub open spec fn event_for(
    kind: Option<TriggerKind>,
    cursor: usize,
    doc: DocumentId,
    view: ViewId,
) -> Option<CompletionEvent> {
    match kind {
        Some(TriggerKind::TriggerChar) => Some(CompletionEvent::TriggerChar { cursor, doc, view }),
        Some(TriggerKind::Auto) => Some(CompletionEvent::AutoTrigger { cursor, doc, view }),
        _ => None,
    }
}

/// The first trigger string in `triggers` that ends `text`.
pub fn find_trigger(triggers: &Vec<String>, text: &[char]) -> (r: Option<usize>)
    ensures
        match r {
            Some(j) => is_first_trigger(triggers@, text@, j as int),
            None => no_trigger(triggers@, text@),
        },
{
    let mut j: usize = 0;
    while j < triggers.len()
        invariant
            j <= triggers@.len(),
            forall|k: int| 0 <= k < j ==> !is_suffix(text@, (#[trigger] triggers@[k])@),
        decreases triggers@.len() - j,
    {
        if ends_with(text, triggers[j].as_str()) {
            return Some(j);
        }
        j = j + 1;
    }
    None
}

/// Whether any provider declared a trigger string that ends `text`.
pub fn is_trigger_char(providers: &[Provider], text: &[char]) -> (r: bool)
    ensures
        r == any_trigger_matches(providers@, text@),
{
    let mut i: usize = 0;
    while i < providers.len()
        invariant
            i <= providers@.len(),
            forall|p: int, j: int|
                0 <= p < i && 0 <= j < providers@[p].trigger_characters@.len() ==> !is_suffix(
                    text@,
                    (#[trigger] providers@[p].trigger_characters@[j])@,
                ),
        decreases providers@.len() - i,
    {
        if let Some(j) = find_trigger(&providers[i].trigger_characters, text) {
            assert(is_suffix(text@, providers@[i as int].trigger_characters@[j as int]@));
            return true;
        }
        i = i + 1;
    }
    false
}

/// Classifies the text before the cursor (`text`, whose length is the cursor
/// offset) and returns the event to send, if any.
pub fn trigger_auto_completion(
    config: &CompletionConfig,
    doc: DocumentId,
    view: ViewId,
    text: &[char],
    providers: &[Provider],
    trigger_char_only: bool,
) -> (r: Option<CompletionEvent>)
    ensures
        r == event_for(classify(*config, text@, providers@, trigger_char_only), text@.len() as usize, doc, view),
{
    if !config.auto_completion {
        return None;
    }
    let cursor = text.len();
    if is_trigger_char(providers, text) {
        return Some(CompletionEvent::TriggerChar { cursor, doc, view });
    }
    if !trigger_char_only && last_chars_are_word(text, config.completion_trigger_len as usize) {
        return Some(CompletionEvent::AutoTrigger { cursor, doc, view });
    }
    None
}

/// When the text ends both in a trigger string and in a long enough run of
/// word characters, the event is a trigger-character event.
pub proof fn lemma_trigger_dominance(
    config: CompletionConfig,
    text: Seq<char>,
    providers: Seq<Provider>,
    trigger_char_only: bool,
    doc: DocumentId,
    view: ViewId,
)
    requires
        config.auto_completion,
        any_trigger_matches(providers, text),
        ends_in_word(text, config.completion_trigger_len as nat),
        text.len() <= usize::MAX,
    ensures
        event_for(classify(config, text, providers, trigger_char_only), text.len() as usize, doc, view)
            == Some(CompletionEvent::TriggerChar { cursor: text.len() as usize, doc, view }),
{
}

} // verus!
