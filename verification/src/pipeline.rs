//! The whole way from the text of a model to a command that is safe to
//! render: normalize, extract, validate, sanitize.

use crate::command::{
    element_views, text_view, update_views, DynamicElementData, DynamicElementView,
    SendMessageResponse, SendMessageResponseView, StyleUpdate, StyleUpdateView,
};
use crate::css_laws::{is_sanitized, lemma_sanitized};
use crate::css_sanitizer::{sanitize_spec, CssSanitizer};
use crate::extractor::{extract_first_json_object, extract_spec};
use crate::json::{json_document, parse_json, JsonValue};
use crate::normalizer::{normalize_ai_output, normalize_spec};
use crate::text::{to_chars, to_string, trim, trim_chars};
use crate::validator::{
    document_view, non_empty, outcome_view, validate_document, validate_spec, CommandError,
};
use vstd::prelude::*;

verus! {

/// A text as a command holds it: `None` where it is empty.
pub open spec fn kept_text(s: Seq<char>) -> Option<Seq<char>> {
    if s.len() == 0 {
        None
    } else {
        Some(s)
    }
}

/// The safe part of the styles of the chat container: of the trimmed text.
pub open spec fn sanitize_container(styles: Option<Seq<char>>) -> Option<Seq<char>> {
    match styles {
        Some(s) => kept_text(sanitize_spec(trim(s))),
        None => None,
    }
}

/// A style update with the safe part of its styles; `None` where nothing of
/// them is safe.
pub open spec fn sanitize_update(update: StyleUpdateView) -> Option<StyleUpdateView> {
    let safe = sanitize_spec(update.styles);
    if safe.len() == 0 {
        None
    } else {
        Some(StyleUpdateView { id: update.id, styles: safe })
    }
}

/// The style updates of which something is safe, in their order.
pub open spec fn sanitize_updates(updates: Seq<StyleUpdateView>) -> Seq<StyleUpdateView>
    decreases updates.len(),
{
    if updates.len() == 0 {
        Seq::empty()
    } else {
        match sanitize_update(updates.last()) {
            Some(update) => sanitize_updates(updates.drop_last()).push(update),
            None => sanitize_updates(updates.drop_last()),
        }
    }
}

/// An element with the safe part of its styles, and without styles where
/// nothing of them is safe.
pub open spec fn sanitize_element(element: DynamicElementView) -> DynamicElementView {
    DynamicElementView {
        styles: match element.styles {
            Some(s) => kept_text(sanitize_spec(s)),
            None => None,
        },
        ..element
    }
}

/// The elements, each with the safe part of its styles.
pub open spec fn sanitize_elements(elements: Seq<DynamicElementView>) -> Seq<DynamicElementView> {
    Seq::new(elements.len(), |i: int| sanitize_element(elements[i]))
}

/// A command with every style reduced to its safe part. A style update of
/// which nothing is safe is left out; a list left without an entry is `None`.
pub open spec fn sanitize_command_spec(command: SendMessageResponseView) -> SendMessageResponseView {
    SendMessageResponseView {
        success: command.success,
        message: command.message,
        chat_container_styles: sanitize_container(command.chat_container_styles),
        change_style_elements: match command.change_style_elements {
            Some(updates) => non_empty(sanitize_updates(updates)),
            None => None,
        },
        new_elements: match command.new_elements {
            Some(elements) => non_empty(sanitize_elements(elements)),
            None => None,
        },
    }
}

/// A command whose styles are all as the sanitizer gives them, and none of
/// them empty; a list that is there has an entry.
pub open spec fn is_sanitized_command(command: SendMessageResponseView) -> bool {
    &&& command.chat_container_styles matches Some(t) ==> t.len() > 0 && is_sanitized(t)
    &&& command.change_style_elements matches Some(updates) ==> updates.len() > 0 && forall|
        i: int,
    |
        0 <= i < updates.len() ==> (#[trigger] updates[i]).styles.len() > 0 && is_sanitized(
            updates[i].styles,
        )
    &&& command.new_elements matches Some(elements) ==> elements.len() > 0 && forall|i: int|
        0 <= i < elements.len() ==> ((#[trigger] elements[i]).styles matches Some(t) ==> t.len()
            > 0 && is_sanitized(t))
}

/// Every style update that stays has sanitized styles.
proof fn lemma_sanitize_updates_sanitized(updates: Seq<StyleUpdateView>)
    ensures
        forall|i: int|
            0 <= i < sanitize_updates(updates).len() ==> (#[trigger] sanitize_updates(
                updates,
            )[i]).styles.len() > 0 && is_sanitized(sanitize_updates(updates)[i].styles),
    decreases updates.len(),
{
    if updates.len() > 0 {
        lemma_sanitize_updates_sanitized(updates.drop_last());
        lemma_sanitized(updates.last().styles);
        let init = sanitize_updates(updates.drop_last());
        let all = sanitize_updates(updates);
        assert forall|i: int| 0 <= i < all.len() implies (#[trigger] all[i]).styles.len() > 0
            && is_sanitized(all[i].styles) by {
            if i < init.len() {
                assert(all[i] == init[i]);
            }
        }
    }
}

/// Whatever command is sanitized, the result is a sanitized command.
pub proof fn lemma_sanitize_command_sanitized(command: SendMessageResponseView)
    ensures
        is_sanitized_command(sanitize_command_spec(command)),
{
    let safe = sanitize_command_spec(command);
    match command.chat_container_styles {
        Some(s) => {
            lemma_sanitized(trim(s));
        },
        None => {},
    }
    match command.change_style_elements {
        Some(updates) => {
            lemma_sanitize_updates_sanitized(updates);
        },
        None => {},
    }
    match command.new_elements {
        Some(elements) => {
            let cleaned = sanitize_elements(elements);
            assert forall|i: int| 0 <= i < cleaned.len() implies ((#[trigger] cleaned[i]).styles
                matches Some(t) ==> t.len() > 0 && is_sanitized(t)) by {
                match elements[i].styles {
                    Some(s) => {
                        lemma_sanitized(s);
                    },
                    None => {},
                }
            }
        },
        None => {},
    }
}

/// Whatever the parser found, the pipeline gives a sanitized command or an
/// error.
pub proof fn lemma_respond_sanitized(document: Option<crate::json::JsonModel>)
    ensures
        respond_spec(document) matches Ok(command) ==> is_sanitized_command(command),
{
    match validate_spec(document) {
        Ok(command) => {
            lemma_sanitize_command_sanitized(command);
        },
        Err(_) => {},
    }
}

/// The text that is handed to the parser: the first balanced object of the
/// normal form of the trimmed text, or the whole normal form where it holds
/// no object.
pub open spec fn candidate_spec(raw: Seq<char>) -> Seq<char> {
    let normal = normalize_spec(trim(raw));
    match extract_spec(normal) {
        Some(object) => object,
        None => normal,
    }
}

/// What the pipeline gives for the outcome of parsing the candidate.
pub open spec fn respond_spec(document: Option<crate::json::JsonModel>) -> Result<
    SendMessageResponseView,
    CommandError,
> {
    match validate_spec(document) {
        Ok(command) => Ok(sanitize_command_spec(command)),
        Err(e) => Err(e),
    }
}

/// Keeps a sanitized text unless it is empty.
fn keep_text(s: String) -> (r: Option<String>)
    ensures
        text_view(r) == kept_text(s@),
{
    if s.as_str().is_empty() {
        None
    } else {
        Some(s)
    }
}

/// Reduces every style of a command to its safe part.
pub fn sanitize_command(sanitizer: &CssSanitizer, command: SendMessageResponse) -> (r:
    SendMessageResponse)
    ensures
        r@ == sanitize_command_spec(command@),
        is_sanitized_command(r@),
{
    proof {
        lemma_sanitize_command_sanitized(command@);
    }
    let SendMessageResponse {
        success,
        message,
        chat_container_styles,
        change_style_elements,
        new_elements,
    } = command;
    let container = match chat_container_styles {
        Some(s) => {
            let trimmed = to_string(&trim_chars(&to_chars(s.as_str())));
            keep_text(sanitizer.sanitize_css_string(trimmed.as_str()))
        },
        None => None,
    };
    let updates = match change_style_elements {
        Some(updates) => {
            let ghost given = update_views(updates@);
            let mut kept: Vec<StyleUpdate> = Vec::new();
            proof {
                assert(update_views(kept@) =~= sanitize_updates(given.subrange(0, 0)));
            }
            for update in it: updates
                invariant
                    it.seq() == updates@,
                    given == update_views(updates@),
                    update_views(kept@) == sanitize_updates(given.subrange(0, it.index() as int)),
            {
                proof {
                    assert(given.subrange(0, it.index() + 1).drop_last() =~= given.subrange(
                        0,
                        it.index() as int,
                    ));
                    assert(given[it.index() as int] == update@);
                }
                let safe = sanitizer.sanitize_css_string(update.styles.as_str());
                if !safe.as_str().is_empty() {
                    let ghost old_kept = update_views(kept@);
                    kept.push(StyleUpdate { id: update.id, styles: safe });
                    proof {
                        assert(update_views(kept@) =~= old_kept.push(
                            StyleUpdateView { id: update.id, styles: safe@ },
                        ));
                    }
                }
            }
            proof {
                assert(given.subrange(0, given.len() as int) =~= given);
            }
            if kept.len() == 0 {
                None
            } else {
                Some(kept)
            }
        },
        None => None,
    };
    let elements = match new_elements {
        Some(elements) => {
            let ghost given = element_views(elements@);
            let mut done: Vec<DynamicElementData> = Vec::new();
            for element in it: elements
                invariant
                    it.seq() == elements@,
                    given == element_views(elements@),
                    element_views(done@) == sanitize_elements(given).subrange(
                        0,
                        it.index() as int,
                    ),
            {
                proof {
                    assert(given[it.index() as int] == element@);
                }
                let ghost old_done = element_views(done@);
                let DynamicElementData { id, tag, text, styles, attributes } = element;
                let styles = match styles {
                    Some(s) => keep_text(sanitizer.sanitize_css_string(s.as_str())),
                    None => None,
                };
                let cleaned = DynamicElementData { id, tag, text, styles, attributes };
                proof {
                    assert(cleaned@ == sanitize_element(element@));
                }
                done.push(cleaned);
                proof {
                    assert(element_views(done@) =~= old_done.push(cleaned@));
                    assert(element_views(done@) =~= sanitize_elements(given).subrange(
                        0,
                        it.index() + 1,
                    ));
                }
            }
            proof {
                assert(sanitize_elements(given).subrange(0, given.len() as int)
                    =~= sanitize_elements(given));
            }
            if done.len() == 0 {
                None
            } else {
                Some(done)
            }
        },
        None => None,
    };
    SendMessageResponse {
        success,
        message,
        chat_container_styles: container,
        change_style_elements: updates,
        new_elements: elements,
    }
}

/// Picks from the text of a model the text to parse: the first balanced
/// object of its normal form, or the whole normal form where it holds none,
/// so that a malformed answer still reaches validation.
pub fn candidate_json(raw: &str) -> (r: String)
    ensures
        r@ == candidate_spec(raw@),
{
    let trimmed = to_string(&trim_chars(&to_chars(raw)));
    let normal = normalize_ai_output(trimmed.as_str());
    match extract_first_json_object(normal.as_str()) {
        Some(object) => object,
        None => normal,
    }
}

/// Validates the outcome of parsing and sanitizes the command it gives.
pub fn respond(sanitizer: &CssSanitizer, document: &Option<JsonValue>) -> (r: Result<
    SendMessageResponse,
    CommandError,
>)
    ensures
        outcome_view(r) == respond_spec(document_view(*document)),
        r matches Ok(command) ==> is_sanitized_command(command@),
{
    match validate_document(document) {
        Ok(command) => Ok(sanitize_command(sanitizer, command)),
        Err(e) => Err(e),
    }
}

/// Turns the text of a model into a command whose styles are safe.
///
/// The text is trimmed and normalized, its first balanced object (or, where
/// it holds none, the whole of it) is parsed, the document is validated and
/// every style of the command is sanitized. A text that is no JSON gives
/// the fallback command; a document of the wrong shape gives an error.
/// Whatever the model wrote, every style of a command that comes out is as
/// the sanitizer gives it.
pub fn process_model_output(sanitizer: &CssSanitizer, raw: &str) -> (r: Result<
    SendMessageResponse,
    CommandError,
>)
    ensures
        outcome_view(r) == respond_spec(json_document(candidate_spec(raw@))),
        r matches Ok(command) ==> is_sanitized_command(command@),
{
    let candidate = candidate_json(raw);
    let document = parse_json(candidate.as_str());
    respond(sanitizer, &document)
}

} // verus!
