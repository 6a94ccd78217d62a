//! The data that passes between the chat page, the model and the renderer:
//! the request, and the command that one model response yields.

use vstd::prelude::*;

verus! {

/// One message of the chat, as the model is told of it.
#[derive(Clone, Debug, PartialEq)]
pub struct MessageInfo {
    pub id: usize,
    pub is_user: bool,
    pub text: String,
}

/// What the user asked for, with the messages shown so far.
#[derive(Clone, Debug, PartialEq)]
pub struct SendMessageRequest {
    pub text: String,
    pub messages: Vec<MessageInfo>,
}

/// New declarations for the element `id`, an existing message.
#[derive(Clone, Debug, PartialEq)]
pub struct StyleUpdate {
    pub id: usize,
    pub styles: String,
}

/// A new element to show after a message.
#[derive(Clone, Debug, PartialEq)]
pub struct DynamicElementData {
    pub id: usize,
    pub tag: String,
    pub text: Option<String>,
    pub styles: Option<String>,
    /// The attributes of the element, name and value, no name twice.
    pub attributes: Option<Vec<(String, String)>>,
}

/// The command that one model response yields: whether the model could
/// serve the request, its reply, and the changes to make to the page.
#[derive(Clone, Debug, PartialEq)]
pub struct SendMessageResponse {
    pub success: bool,
    pub message: String,
    pub chat_container_styles: Option<String>,
    pub change_style_elements: Option<Vec<StyleUpdate>>,
    pub new_elements: Option<Vec<DynamicElementData>>,
}

/// The model of a [`MessageInfo`].
pub struct MessageInfoView {
    pub id: usize,
    pub is_user: bool,
    pub text: Seq<char>,
}

/// The model of a [`SendMessageRequest`].
pub struct SendMessageRequestView {
    pub text: Seq<char>,
    pub messages: Seq<MessageInfoView>,
}

/// The model of a [`StyleUpdate`].
pub struct StyleUpdateView {
    pub id: usize,
    pub styles: Seq<char>,
}

/// The model of a [`DynamicElementData`].
pub struct DynamicElementView {
    pub id: usize,
    pub tag: Seq<char>,
    pub text: Option<Seq<char>>,
    pub styles: Option<Seq<char>>,
    pub attributes: Option<Seq<(Seq<char>, Seq<char>)>>,
}

/// The model of a [`SendMessageResponse`].
pub struct SendMessageResponseView {
    pub success: bool,
    pub message: Seq<char>,
    pub chat_container_styles: Option<Seq<char>>,
    pub change_style_elements: Option<Seq<StyleUpdateView>>,
    pub new_elements: Option<Seq<DynamicElementView>>,
}

/// The model of an optional text.
pub open spec fn text_view(t: Option<String>) -> Option<Seq<char>> {
    match t {
        Some(s) => Some(s@),
        None => None,
    }
}

/// The models of a list of pairs of texts.
pub open spec fn pair_views(pairs: Seq<(String, String)>) -> Seq<(Seq<char>, Seq<char>)> {
    Seq::new(pairs.len(), |i: int| (pairs[i].0@, pairs[i].1@))
}

/// The models of a list of style updates.
pub open spec fn update_views(updates: Seq<StyleUpdate>) -> Seq<StyleUpdateView> {
    Seq::new(updates.len(), |i: int| updates[i]@)
}

/// The models of a list of elements.
pub open spec fn element_views(elements: Seq<DynamicElementData>) -> Seq<DynamicElementView> {
    Seq::new(elements.len(), |i: int| elements[i]@)
}

/// The models of a list of messages.
pub open spec fn message_views(messages: Seq<MessageInfo>) -> Seq<MessageInfoView> {
    Seq::new(messages.len(), |i: int| messages[i]@)
}

impl View for MessageInfo {
    type V = MessageInfoView;

    open spec fn view(&self) -> MessageInfoView {
        MessageInfoView { id: self.id, is_user: self.is_user, text: self.text@ }
    }
}

impl View for SendMessageRequest {
    type V = SendMessageRequestView;

    open spec fn view(&self) -> SendMessageRequestView {
        SendMessageRequestView { text: self.text@, messages: message_views(self.messages@) }
    }
}

impl View for StyleUpdate {
    type V = StyleUpdateView;

    open spec fn view(&self) -> StyleUpdateView {
        StyleUpdateView { id: self.id, styles: self.styles@ }
    }
}

impl View for DynamicElementData {
    type V = DynamicElementView;

    open spec fn view(&self) -> DynamicElementView {
        DynamicElementView {
            id: self.id,
            tag: self.tag@,
            text: text_view(self.text),
            styles: text_view(self.styles),
            attributes: match self.attributes {
                Some(pairs) => Some(pair_views(pairs@)),
                None => None,
            },
        }
    }
}

impl View for SendMessageResponse {
    type V = SendMessageResponseView;

    open spec fn view(&self) -> SendMessageResponseView {
        SendMessageResponseView {
            success: self.success,
            message: self.message@,
            chat_container_styles: text_view(self.chat_container_styles),
            change_style_elements: match self.change_style_elements {
                Some(updates) => Some(update_views(updates@)),
                None => None,
            },
            new_elements: match self.new_elements {
                Some(elements) => Some(element_views(elements@)),
                None => None,
            },
        }
    }
}

} // verus!
