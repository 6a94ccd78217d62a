//! Checks a JSON document against the loose shape of a command.
//!
//! A text that is no JSON at all is expected noise and gives the fallback
//! command. A document without a boolean `success` or a text `message`, or
//! with a `chat_container_styles` that is neither text nor null, is refused
//! with an error. An entry of `change_style_elements` or `new_elements` that
//! has the wrong shape is left out, and the other entries stay.

use crate::command::{
    element_views, pair_views, text_view, update_views, DynamicElementData, DynamicElementView,
    SendMessageResponse, SendMessageResponseView, StyleUpdate, StyleUpdateView,
};
use crate::json::{
    json_document, lemma_array_view, lemma_object_view, parse_json, JsonModel, JsonValue,
};
use crate::text::{first_true, lemma_first_true_unique};
use vstd::prelude::*;

verus! {

/// Why a document is refused as a command.
#[derive(Clone, Copy, Debug, PartialEq, Eq, Structural)]
pub enum CommandError {
    /// `success` is missing or not a boolean.
    SuccessNotBool,
    /// `message` is missing or not a text.
    MessageNotString,
    /// `chat_container_styles` is there and is neither a text nor null.
    ContainerStylesNotString,
}

impl CommandError {
    /// The description of the error.
    pub fn message(&self) -> (r: String)
        ensures
            r@ == match *self {
                CommandError::SuccessNotBool => "JSONフィールド 'success' が bool ではありません"@,
                CommandError::MessageNotString => "JSONフィールド 'message' が string ではありません"@,
                CommandError::ContainerStylesNotString =>
                    "JSONフィールド 'chat_container_styles' が string ではありません"@,
            },
    {
        match self {
            CommandError::SuccessNotBool => "JSONフィールド 'success' が bool ではありません".to_owned(),
            CommandError::MessageNotString => "JSONフィールド 'message' が string ではありません".to_owned(),
            CommandError::ContainerStylesNotString =>
                "JSONフィールド 'chat_container_styles' が string ではありません".to_owned(),
        }
    }
}

/// For each member of an object, whether it has the name.
pub open spec fn member_hits(members: Seq<(Seq<char>, JsonModel)>, name: Seq<char>) -> Seq<bool> {
    Seq::new(members.len(), |i: int| members[i].0 == name)
}

/// The member of an object with the given name, the first where several have
/// it; `None` where the object has none, or the value is no object.
pub open spec fn member(m: JsonModel, name: Seq<char>) -> Option<JsonModel> {
    match m {
        JsonModel::Object(members) => {
            let i = first_true(member_hits(members, name));
            if i < members.len() {
                Some(members[i].1)
            } else {
                None
            }
        },
        _ => None,
    }
}

/// An identifier: a number that is a non-negative integer and fits `usize`.
pub open spec fn as_id(m: Option<JsonModel>) -> Option<usize> {
    match m {
        Some(JsonModel::Number(Some(n))) => if n <= usize::MAX {
            Some(n as usize)
        } else {
            None
        },
        _ => None,
    }
}

/// A text that must be there.
pub open spec fn as_text(m: Option<JsonModel>) -> Option<Seq<char>> {
    match m {
        Some(JsonModel::String(s)) => Some(s),
        _ => None,
    }
}

/// A text that may be missing or null: `Ok(None)` where it is, `Err` where the
/// member is of another type.
pub open spec fn as_optional_text(m: Option<JsonModel>) -> Result<Option<Seq<char>>, ()> {
    match m {
        None => Ok(None),
        Some(JsonModel::Null) => Ok(None),
        Some(JsonModel::String(s)) => Ok(Some(s)),
        Some(_) => Err(()),
    }
}

/// Every member of the object is a text.
pub open spec fn all_texts(members: Seq<(Seq<char>, JsonModel)>) -> bool {
    forall|i: int| 0 <= i < members.len() ==> (#[trigger] members[i]).1 is String
}

/// The members of an object of texts, name and value.
pub open spec fn text_pairs(members: Seq<(Seq<char>, JsonModel)>) -> Seq<(Seq<char>, Seq<char>)> {
    Seq::new(members.len(), |i: int| (members[i].0, members[i].1->String_0))
}

/// The attributes of an element, which may be missing or null: an object whose
/// members are all texts; `Err` for anything else.
pub open spec fn as_attributes(m: Option<JsonModel>) -> Result<
    Option<Seq<(Seq<char>, Seq<char>)>>,
    (),
> {
    match m {
        None => Ok(None),
        Some(JsonModel::Null) => Ok(None),
        Some(JsonModel::Object(members)) => if all_texts(members) {
            Ok(Some(text_pairs(members)))
        } else {
            Err(())
        },
        Some(_) => Err(()),
    }
}

/// A style update, where the value has the shape of one: an object with an
/// identifier `id` and a text `styles`.
pub open spec fn update_of(m: JsonModel) -> Option<StyleUpdateView> {
    match (as_id(member(m, "id"@)), as_text(member(m, "styles"@))) {
        (Some(id), Some(styles)) => Some(StyleUpdateView { id, styles }),
        _ => None,
    }
}

/// An element, where the value has the shape of one: an object with an
/// identifier `id` and a text `tag`, whose `text` and `styles` are texts,
/// null or missing, and whose `attributes` are an object of texts, null or
/// missing.
pub open spec fn element_of(m: JsonModel) -> Option<DynamicElementView> {
    match (
        as_id(member(m, "id"@)),
        as_text(member(m, "tag"@)),
        as_optional_text(member(m, "text"@)),
        as_optional_text(member(m, "styles"@)),
        as_attributes(member(m, "attributes"@)),
    ) {
        (Some(id), Some(tag), Ok(text), Ok(styles), Ok(attributes)) => Some(
            DynamicElementView { id, tag, text, styles, attributes },
        ),
        _ => None,
    }
}

/// The style updates among the values, in their order.
pub open spec fn updates_of(items: Seq<JsonModel>) -> Seq<StyleUpdateView>
    decreases items.len(),
{
    if items.len() == 0 {
        Seq::empty()
    } else {
        match update_of(items.last()) {
            Some(update) => updates_of(items.drop_last()).push(update),
            None => updates_of(items.drop_last()),
        }
    }
}

/// The elements among the values, in their order.
pub open spec fn elements_of(items: Seq<JsonModel>) -> Seq<DynamicElementView>
    decreases items.len(),
{
    if items.len() == 0 {
        Seq::empty()
    } else {
        match element_of(items.last()) {
            Some(element) => elements_of(items.drop_last()).push(element),
            None => elements_of(items.drop_last()),
        }
    }
}

/// The entries of a list member: those of an array; none where the member is
/// missing, null or no array.
pub open spec fn list_items(m: Option<JsonModel>) -> Seq<JsonModel> {
    match m {
        Some(JsonModel::Array(items)) => items,
        _ => Seq::empty(),
    }
}

/// A list as a command holds it: `None` where it is empty.
pub open spec fn non_empty<T>(items: Seq<T>) -> Option<Seq<T>> {
    if items.len() == 0 {
        None
    } else {
        Some(items)
    }
}

/// The command that a document holds, or why it is refused.
pub open spec fn command_of(m: JsonModel) -> Result<SendMessageResponseView, CommandError> {
    match member(m, "success"@) {
        Some(JsonModel::Bool(success)) => match member(m, "message"@) {
            Some(JsonModel::String(message)) => match as_optional_text(
                member(m, "chat_container_styles"@),
            ) {
                Ok(chat_container_styles) => Ok(
                    SendMessageResponseView {
                        success,
                        message,
                        chat_container_styles,
                        change_style_elements: non_empty(
                            updates_of(list_items(member(m, "change_style_elements"@))),
                        ),
                        new_elements: non_empty(
                            elements_of(list_items(member(m, "new_elements"@))),
                        ),
                    },
                ),
                Err(_) => Err(CommandError::ContainerStylesNotString),
            },
            _ => Err(CommandError::MessageNotString),
        },
        _ => Err(CommandError::SuccessNotBool),
    }
}

/// The reply of the fallback command.
pub open spec fn fallback_message() -> Seq<char> {
    "AIの出力がJSONとして不正だったため、UIは変更していません。もう一度具体的に指示してください。"@
}

/// The fallback command: no success, the fixed reply, no change to the page.
pub open spec fn fallback_view() -> SendMessageResponseView {
    SendMessageResponseView {
        success: false,
        message: fallback_message(),
        chat_container_styles: None,
        change_style_elements: None,
        new_elements: None,
    }
}

/// What validation gives for the outcome of parsing: the fallback command
/// where there is no document, else what the document holds.
pub open spec fn validate_spec(document: Option<JsonModel>) -> Result<
    SendMessageResponseView,
    CommandError,
> {
    match document {
        None => Ok(fallback_view()),
        Some(m) => command_of(m),
    }
}

/// The model of the outcome of validation.
pub open spec fn outcome_view(r: Result<SendMessageResponse, CommandError>) -> Result<
    SendMessageResponseView,
    CommandError,
> {
    match r {
        Ok(command) => Ok(command@),
        Err(e) => Err(e),
    }
}

/// The model of an optional document.
pub open spec fn document_view(document: Option<JsonValue>) -> Option<JsonModel> {
    match document {
        Some(value) => Some(value@),
        None => None,
    }
}

/// The style updates of two lists in a row are those of the first followed
/// by those of the second: what an entry gives does not depend on the others.
pub proof fn lemma_updates_of_concat(a: Seq<JsonModel>, b: Seq<JsonModel>)
    ensures
        updates_of(a + b) == updates_of(a) + updates_of(b),
    decreases b.len(),
{
    if b.len() == 0 {
        assert(a + b =~= a);
        assert(updates_of(a) + updates_of(b) =~= updates_of(a));
    } else {
        lemma_updates_of_concat(a, b.drop_last());
        assert((a + b).drop_last() =~= a + b.drop_last());
        assert((a + b).last() == b.last());
        match update_of(b.last()) {
            Some(update) => {
                assert(updates_of(a + b) =~= updates_of(a) + updates_of(b));
            },
            None => {},
        }
    }
}

/// The elements of two lists in a row are those of the first followed by
/// those of the second.
pub proof fn lemma_elements_of_concat(a: Seq<JsonModel>, b: Seq<JsonModel>)
    ensures
        elements_of(a + b) == elements_of(a) + elements_of(b),
    decreases b.len(),
{
    if b.len() == 0 {
        assert(a + b =~= a);
        assert(elements_of(a) + elements_of(b) =~= elements_of(a));
    } else {
        lemma_elements_of_concat(a, b.drop_last());
        assert((a + b).drop_last() =~= a + b.drop_last());
        assert((a + b).last() == b.last());
        match element_of(b.last()) {
            Some(element) => {
                assert(elements_of(a + b) =~= elements_of(a) + elements_of(b));
            },
            None => {},
        }
    }
}

/// An entry that has not the shape of a style update is left out wherever it
/// stands in the list, and the entries around it stay.
pub proof fn lemma_malformed_update_dropped(
    before: Seq<JsonModel>,
    entry: JsonModel,
    after: Seq<JsonModel>,
)
    requires
        update_of(entry) is None,
    ensures
        updates_of(before + seq![entry] + after) == updates_of(before + after),
{
    lemma_updates_of_concat(before + seq![entry], after);
    lemma_updates_of_concat(before, seq![entry]);
    lemma_updates_of_concat(before, after);
    assert(seq![entry].drop_last() =~= Seq::<JsonModel>::empty());
    assert(updates_of(Seq::<JsonModel>::empty()) =~= Seq::<StyleUpdateView>::empty());
    assert(seq![entry].last() == entry);
    assert(updates_of(seq![entry]) =~= Seq::<StyleUpdateView>::empty());
    assert(updates_of(before) + Seq::<StyleUpdateView>::empty() =~= updates_of(before));
}

/// A text that is no JSON is no error: it gives the fallback command, which
/// reports no success and changes nothing.
pub proof fn lemma_unparsable_gives_fallback()
    ensures
        validate_spec(None) == Ok::<SendMessageResponseView, CommandError>(fallback_view()),
        !fallback_view().success,
        fallback_view().chat_container_styles is None,
        fallback_view().change_style_elements is None,
        fallback_view().new_elements is None,
{
}

/// A document with a boolean `success` and no text `message` is refused for
/// its message, whatever else it holds.
pub proof fn lemma_message_is_mandatory(m: JsonModel)
    requires
        member(m, "success"@) is Some,
        member(m, "success"@)->0 is Bool,
        !(member(m, "message"@) is Some && member(m, "message"@)->0 is String),
    ensures
        command_of(m) == Err::<SendMessageResponseView, CommandError>(
            CommandError::MessageNotString,
        ),
{
}

/// Looks a member of an object up by its name.
pub fn get_member<'a>(value: &'a JsonValue, name: &str) -> (r: Option<&'a JsonValue>)
    ensures
        match r {
            Some(found) => member(value@, name@) == Some(found@),
            None => member(value@, name@) is None,
        },
{
    match value {
        JsonValue::Object(members) => {
            let key = name.to_owned();
            let ghost hits = member_hits(value@->Object_0, name@);
            let mut i: usize = 0;
            proof {
                lemma_object_view(*value);
            }
            while i < members.len()
                invariant
                    i <= members.len(),
                    value@ is Object,
                    value@->Object_0.len() == members@.len(),
                    forall|j: int|
                        0 <= j < members@.len() ==> (#[trigger] value@->Object_0[j]) == (
                            members@[j].0@,
                            members@[j].1@,
                        ),
                    key@ == name@,
                    hits == member_hits(value@->Object_0, name@),
                    forall|j: int| 0 <= j < i ==> !hits[j],
                decreases members.len() - i,
            {
                if members[i].0 == key {
                    proof {
                        assert(value@->Object_0[i as int].0 == name@);
                        assert(hits[i as int]);
                        lemma_first_true_unique(hits, i as int);
                    }
                    return Some(&members[i].1);
                }
                proof {
                    assert(value@->Object_0[i as int].0 != name@);
                }
                i += 1;
            }
            proof {
                lemma_first_true_unique(hits, hits.len() as int);
            }
            None
        },
        _ => None,
    }
}

/// Reads the member `id` of a value as an identifier.
fn get_id(value: &JsonValue) -> (r: Option<usize>)
    ensures
        r == as_id(member(value@, "id"@)),
{
    match get_member(value, "id") {
        Some(found) => match found {
            JsonValue::Number(number) => match number {
                Some(n) => if *n <= usize::MAX as u64 {
                    Some(*n as usize)
                } else {
                    None
                },
                None => None,
            },
            _ => None,
        },
        None => None,
    }
}

/// Reads a member that must be a text.
fn get_text(value: &JsonValue, name: &str) -> (r: Option<String>)
    ensures
        text_view(r) == as_text(member(value@, name@)),
{
    match get_member(value, name) {
        Some(found) => match found {
            JsonValue::String(s) => Some(s.clone()),
            _ => None,
        },
        None => None,
    }
}

/// Reads a member that is a text, null or missing.
fn get_optional_text(value: &JsonValue, name: &str) -> (r: Result<Option<String>, ()>)
    ensures
        match r {
            Ok(t) => as_optional_text(member(value@, name@)) == Ok::<Option<Seq<char>>, ()>(
                text_view(t),
            ),
            Err(_) => as_optional_text(member(value@, name@)) is Err,
        },
{
    match get_member(value, name) {
        Some(found) => match found {
            JsonValue::Null => Ok(None),
            JsonValue::String(s) => Ok(Some(s.clone())),
            _ => Err(()),
        },
        None => Ok(None),
    }
}

/// Reads the member `attributes` of a value.
fn get_attributes(value: &JsonValue) -> (r: Result<Option<Vec<(String, String)>>, ()>)
    ensures
        match r {
            Ok(Some(pairs)) => as_attributes(member(value@, "attributes"@)) == Ok::<
                Option<Seq<(Seq<char>, Seq<char>)>>,
                (),
            >(Some(pair_views(pairs@))),
            Ok(None) => as_attributes(member(value@, "attributes"@)) == Ok::<
                Option<Seq<(Seq<char>, Seq<char>)>>,
                (),
            >(None),
            Err(_) => as_attributes(member(value@, "attributes"@)) is Err,
        },
{
    match get_member(value, "attributes") {
        Some(found) => match found {
            JsonValue::Null => Ok(None),
            JsonValue::Object(members) => {
                let ghost model = found@->Object_0;
                proof {
                    lemma_object_view(*found);
                }
                let mut pairs: Vec<(String, String)> = Vec::new();
                let mut i: usize = 0;
                while i < members.len()
                    invariant
                        i <= members.len(),
                        model.len() == members@.len(),
                        forall|j: int|
                            0 <= j < members@.len() ==> (#[trigger] model[j]) == (
                                members@[j].0@,
                                members@[j].1@,
                            ),
                        forall|j: int| 0 <= j < i ==> (#[trigger] model[j]).1 is String,
                        pair_views(pairs@) == text_pairs(model).subrange(0, i as int),
                        member(value@, "attributes"@) == Some(JsonModel::Object(model)),
                    decreases members.len() - i,
                {
                    match &members[i].1 {
                        JsonValue::String(s) => {
                            let ghost before = pair_views(pairs@);
                            pairs.push((members[i].0.clone(), s.clone()));
                            proof {
                                assert(model[i as int].1 == JsonModel::String(s@));
                                assert(pair_views(pairs@) =~= before.push((members@[i as int].0@, s@)));
                                assert(pair_views(pairs@) =~= text_pairs(model).subrange(
                                    0,
                                    i + 1,
                                ));
                            }
                        },
                        _ => {
                            proof {
                                assert(!(model[i as int].1 is String));
                            }
                            return Err(());
                        },
                    }
                    i += 1;
                }
                proof {
                    assert(text_pairs(model).subrange(0, i as int) =~= text_pairs(model));
                }
                Ok(Some(pairs))
            },
            _ => Err(()),
        },
        None => Ok(None),
    }
}

/// Reads a value as a style update; `None` where it has not the shape of one.
pub fn decode_update(value: &JsonValue) -> (r: Option<StyleUpdate>)
    ensures
        match r {
            Some(update) => update_of(value@) == Some(update@),
            None => update_of(value@) is None,
        },
{
    let id = get_id(value);
    let styles = get_text(value, "styles");
    match (id, styles) {
        (Some(id), Some(styles)) => Some(StyleUpdate { id, styles }),
        _ => None,
    }
}

/// Reads a value as an element; `None` where it has not the shape of one.
pub fn decode_element(value: &JsonValue) -> (r: Option<DynamicElementData>)
    ensures
        match r {
            Some(element) => element_of(value@) == Some(element@),
            None => element_of(value@) is None,
        },
{
    let id = get_id(value);
    let tag = get_text(value, "tag");
    let text = get_optional_text(value, "text");
    let styles = get_optional_text(value, "styles");
    let attributes = get_attributes(value);
    match (id, tag, text, styles, attributes) {
        (Some(id), Some(tag), Ok(text), Ok(styles), Ok(attributes)) => Some(
            DynamicElementData { id, tag, text, styles, attributes },
        ),
        _ => None,
    }
}

/// Reads the style updates of a list member, leaving out the entries that
/// have not the shape of one.
fn decode_updates(value: &JsonValue, name: &str) -> (r: Vec<StyleUpdate>)
    ensures
        update_views(r@) == updates_of(list_items(member(value@, name@))),
{
    let mut updates: Vec<StyleUpdate> = Vec::new();
    match get_member(value, name) {
        Some(found) => match found {
            JsonValue::Array(items) => {
                let ghost model = found@->Array_0;
                proof {
                    lemma_array_view(*found);
                    assert(update_views(updates@) =~= updates_of(model.subrange(0, 0)));
                }
                let mut i: usize = 0;
                while i < items.len()
                    invariant
                        i <= items.len(),
                        model.len() == items@.len(),
                        forall|j: int|
                            0 <= j < items@.len() ==> (#[trigger] model[j]) == items@[j]@,
                        update_views(updates@) == updates_of(model.subrange(0, i as int)),
                    decreases items.len() - i,
                {
                    proof {
                        assert(model.subrange(0, i + 1).drop_last() =~= model.subrange(
                            0,
                            i as int,
                        ));
                    }
                    match decode_update(&items[i]) {
                        Some(update) => {
                            let ghost before = update_views(updates@);
                            updates.push(update);
                            proof {
                                assert(update_views(updates@) =~= before.push(update@));
                            }
                        },
                        None => {},
                    }
                    i += 1;
                }
                proof {
                    assert(model.subrange(0, i as int) =~= model);
                }
            },
            _ => {
                proof {
                    assert(update_views(updates@) =~= Seq::empty());
                }
            },
        },
        None => {
            proof {
                assert(update_views(updates@) =~= Seq::empty());
            }
        },
    }
    updates
}

/// Reads the elements of a list member, leaving out the entries that have not
/// the shape of one.
fn decode_elements(value: &JsonValue, name: &str) -> (r: Vec<DynamicElementData>)
    ensures
        element_views(r@) == elements_of(list_items(member(value@, name@))),
{
    let mut elements: Vec<DynamicElementData> = Vec::new();
    match get_member(value, name) {
        Some(found) => match found {
            JsonValue::Array(items) => {
                let ghost model = found@->Array_0;
                proof {
                    lemma_array_view(*found);
                    assert(element_views(elements@) =~= elements_of(model.subrange(0, 0)));
                }
                let mut i: usize = 0;
                while i < items.len()
                    invariant
                        i <= items.len(),
                        model.len() == items@.len(),
                        forall|j: int|
                            0 <= j < items@.len() ==> (#[trigger] model[j]) == items@[j]@,
                        element_views(elements@) == elements_of(model.subrange(0, i as int)),
                    decreases items.len() - i,
                {
                    proof {
                        assert(model.subrange(0, i + 1).drop_last() =~= model.subrange(
                            0,
                            i as int,
                        ));
                    }
                    match decode_element(&items[i]) {
                        Some(element) => {
                            let ghost before = element_views(elements@);
                            elements.push(element);
                            proof {
                                assert(element_views(elements@) =~= before.push(element@));
                            }
                        },
                        None => {},
                    }
                    i += 1;
                }
                proof {
                    assert(model.subrange(0, i as int) =~= model);
                }
            },
            _ => {
                proof {
                    assert(element_views(elements@) =~= Seq::empty());
                }
            },
        },
        None => {
            proof {
                assert(element_views(elements@) =~= Seq::empty());
            }
        },
    }
    elements
}

/// The fallback command: no success, the fixed reply, no change to the page.
pub fn fallback_command() -> (r: SendMessageResponse)
    ensures
        r@ == fallback_view(),
{
    SendMessageResponse {
        success: false,
        message: "AIの出力がJSONとして不正だったため、UIは変更していません。もう一度具体的に指示してください。".to_owned(),
        chat_container_styles: None,
        change_style_elements: None,
        new_elements: None,
    }
}

/// Reads a document as a command.
///
/// `success` must be a boolean and `message` a text, else the document is
/// refused; so it is where `chat_container_styles` is there and is neither a
/// text nor null. Of `change_style_elements` and `new_elements` the entries
/// that have the right shape are kept, in their order; a list that is
/// missing, null, no array, or left without an entry is `None`.
pub fn decode_command(value: &JsonValue) -> (r: Result<SendMessageResponse, CommandError>)
    ensures
        outcome_view(r) == command_of(value@),
{
    let success = match get_member(value, "success") {
        Some(found) => match found {
            JsonValue::Bool(b) => *b,
            _ => {
                return Err(CommandError::SuccessNotBool);
            },
        },
        None => {
            return Err(CommandError::SuccessNotBool);
        },
    };
    let message = match get_text(value, "message") {
        Some(message) => message,
        None => {
            return Err(CommandError::MessageNotString);
        },
    };
    let chat_container_styles = match get_optional_text(value, "chat_container_styles") {
        Ok(styles) => styles,
        Err(_) => {
            return Err(CommandError::ContainerStylesNotString);
        },
    };
    let updates = decode_updates(value, "change_style_elements");
    let elements = decode_elements(value, "new_elements");
    let change_style_elements = if updates.len() == 0 {
        None
    } else {
        Some(updates)
    };
    let new_elements = if elements.len() == 0 {
        None
    } else {
        Some(elements)
    };
    Ok(
        SendMessageResponse {
            success,
            message,
            chat_container_styles,
            change_style_elements,
            new_elements,
        },
    )
}

/// Turns the outcome of parsing into a command: the fallback command where
/// the text was no JSON, else what [`decode_command`] gives for the document.
pub fn validate_document(document: &Option<JsonValue>) -> (r: Result<
    SendMessageResponse,
    CommandError,
>)
    ensures
        outcome_view(r) == validate_spec(document_view(*document)),
{
    match document {
        Some(value) => decode_command(value),
        None => Ok(fallback_command()),
    }
}

/// Parses a candidate text and validates it as a command. A text that is no
/// JSON gives the fallback command, never an error.
pub fn validate_command(candidate: &str) -> (r: Result<SendMessageResponse, CommandError>)
    ensures
        outcome_view(r) == validate_spec(json_document(candidate@)),
{
    let document = parse_json(candidate);
    validate_document(&document)
}

} // verus!
