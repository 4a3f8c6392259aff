//! What a chat request says that its conversion passes over, so that it can be
//! told.

use crate::content::{convert_data_url_to_image_block, data_url_block, lemma_present_push, present};
use crate::json::{array_view, as_str, opt_view, Json, JsonView};
use crate::request::{
    conversation_of, lemma_refused, openai_messages_view, token_limit, OpenAIChatRequest,
    OpenAIChatRequestView, OpenAIMessage, OpenAIMessageView,
};
use vstd::prelude::*;

verus! {

/// Something in a chat request that is passed over.
#[derive(Debug, PartialEq, Eq)]
pub enum Notice {
    /// A message in this unknown role.
    UnknownRole(String),
    /// An image of a user that is not embedded in this URL.
    UnreadImage(String),
}

/// What a notice says.
pub enum NoticeView {
    UnknownRole(Seq<char>),
    UnreadImage(Seq<char>),
}

impl View for Notice {
    type V = NoticeView;

    open spec fn view(&self) -> NoticeView {
        match self {
            Notice::UnknownRole(role) => NoticeView::UnknownRole(role@),
            Notice::UnreadImage(url) => NoticeView::UnreadImage(url@),
        }
    }
}

/// What notices say.
pub open spec fn notices_view(notices: Seq<Notice>) -> Seq<NoticeView> {
    notices.map_values(|notice: Notice| notice@)
}

/// The notice of a part of a user's content: an image is passed over if its URL
/// embeds none.
pub open spec fn part_notice(part: JsonView) -> Option<NoticeView> {
    if as_str(part.get("type"@)) == Some("image_url"@) {
        match as_str(part.get2("image_url"@, "url"@)) {
            Some(url) => if data_url_block(url) is None {
                Some(NoticeView::UnreadImage(url))
            } else {
                None
            },
            None => None,
        }
    } else {
        None
    }
}

/// The notices of a user's content, in order.
pub open spec fn content_notices(content: Option<JsonView>) -> Seq<NoticeView> {
    match content {
        Some(JsonView::Array(parts)) => present(
            parts.map_values(|part: JsonView| part_notice(part)),
        ),
        _ => Seq::empty(),
    }
}

/// The notices of a message.
pub open spec fn message_notices(message: OpenAIMessageView) -> Seq<NoticeView> {
    if message.role == "user"@ {
        content_notices(message.content)
    } else if message.role == "system"@ || message.role == "tool"@ || message.role
        == "assistant"@ {
        Seq::empty()
    } else {
        seq![NoticeView::UnknownRole(message.role)]
    }
}

/// The notices of messages, in order. After a message that is refused there are
/// none, for it is the last that is read.
pub open spec fn conversation_notices(messages: Seq<OpenAIMessageView>) -> Seq<NoticeView>
    decreases messages.len(),
{
    if messages.len() == 0 {
        Seq::empty()
    } else {
        let before = messages.drop_last();
        conversation_notices(before) + if conversation_of(before) is Ok {
            message_notices(messages.last())
        } else {
            Seq::empty()
        }
    }
}

/// The notices of a chat request. One that is refused for its token limit is not
/// read any further.
pub open spec fn request_notices(request: OpenAIChatRequestView) -> Seq<NoticeView> {
    if token_limit(request) <= 0 {
        Seq::empty()
    } else {
        conversation_notices(request.messages)
    }
}

/// After a message that is refused there are no notices.
proof fn lemma_no_notices_after(messages: Seq<OpenAIMessageView>, n: int)
    requires
        0 <= n <= messages.len(),
        conversation_of(messages.take(n)) is Err,
    ensures
        conversation_notices(messages) == conversation_notices(messages.take(n)),
    decreases messages.len() - n,
{
    if n < messages.len() {
        let before = messages.drop_last();
        assert(before.take(n) =~= messages.take(n));
        lemma_refused(before, n);
        lemma_no_notices_after(before, n);
        assert(conversation_notices(messages) =~= conversation_notices(before));
    } else {
        assert(messages.take(n) =~= messages);
    }
}

/// The notice of a part of a user's content.
fn notice_of_part(part: &Json) -> (r: Option<Notice>)
    ensures
        (match r {
            Some(notice) => Some(notice@),
            None => None,
        }) == part_notice(part@),
{
    match part.get_str("type") {
        Some(kind) => if kind.eq("image_url") {
            match part.get2_str("image_url", "url") {
                Some(url) => match convert_data_url_to_image_block(url) {
                    Some(_) => None,
                    None => Some(Notice::UnreadImage(url.to_owned())),
                },
                None => None,
            }
        } else {
            None
        },
        None => None,
    }
}

/// Adds the notices of a user's content to others.
fn note_content(content: &Option<Json>, out: &mut Vec<Notice>)
    ensures
        notices_view(final(out)@) == notices_view(old(out)@) + content_notices(
            opt_view(*content),
        ),
{
    let ghost before = notices_view(out@);
    if let Some(Json::Array(parts)) = content {
        let ghost f = |part: JsonView| part_notice(part);
        assert(array_view(parts@).take(0).map_values(f) =~= Seq::empty());
        for i in 0..parts.len()
            invariant
                f == (|part: JsonView| part_notice(part)),
                notices_view(out@) == before + present(
                    array_view(parts@).take(i as int).map_values(f),
                ),
        {
            let ghost noted = out@;
            let notice = notice_of_part(&parts[i]);
            proof {
                let seen = array_view(parts@).take(i as int).map_values(f);
                let last = part_notice(array_view(parts@)[i as int]);
                lemma_present_push(seen, last);
                assert(array_view(parts@).take(i + 1).map_values(f) =~= seen.push(last));
            }
            if let Some(notice) = notice {
                out.push(notice);
                assert(notices_view(out@) =~= notices_view(noted).push(notice@));
            }
        }
        assert(array_view(parts@).take(parts@.len() as int) =~= array_view(parts@));
    }
    assert(notices_view(out@) =~= before + content_notices(opt_view(*content)));
}

/// Adds the notices of a message to others.
fn note_message(message: &OpenAIMessage, out: &mut Vec<Notice>)
    ensures
        notices_view(final(out)@) == notices_view(old(out)@) + message_notices(message@),
{
    let ghost before = notices_view(out@);
    let role = message.role.as_str();
    if role.eq("user") {
        note_content(&message.content, out);
    } else if !(role.eq("system") || role.eq("tool") || role.eq("assistant")) {
        let notice = Notice::UnknownRole(role.to_owned());
        out.push(notice);
        assert(notices_view(out@) =~= before.push(notice@));
    }
    assert(notices_view(out@) =~= before + message_notices(message@));
}

/// The notices of a chat request.
pub fn notices(request: &OpenAIChatRequest) -> (r: Vec<Notice>)
    ensures
        notices_view(r@) == request_notices(request@),
{
    let mut out: Vec<Notice> = Vec::new();
    assert(notices_view(out@) =~= Seq::empty());
    if request.allowed_tokens() <= 0 {
        return out;
    }
    let ghost views = openai_messages_view(request.messages@);
    for i in 0..request.messages.len()
        invariant
            views == openai_messages_view(request.messages@),
            token_limit(request@) > 0,
            conversation_of(views.take(i as int)) is Ok,
            notices_view(out@) == conversation_notices(views.take(i as int)),
    {
        let message = &request.messages[i];
        note_message(message, &mut out);
        proof {
            assert(views.take(i + 1).drop_last() =~= views.take(i as int));
            assert(views.take(i + 1).last() == message@);
        }
        if message.role.as_str().eq("tool") && message.tool_call_id.is_none() {
            proof {
                lemma_orphan_refused(views.take(i + 1));
                lemma_no_notices_after(views, i + 1);
            }
            return out;
        }
    }
    assert(views.take(views.len() as int) =~= views);
    out
}

/// A result of a tool without the call that it answers is refused.
proof fn lemma_orphan_refused(messages: Seq<OpenAIMessageView>)
    requires
        messages.len() > 0,
        messages.last().role == "tool"@,
        messages.last().tool_call_id is None,
    ensures
        conversation_of(messages) is Err,
{
    reveal_strlit("tool");
    reveal_strlit("system");
    assert("tool"@.len() == 4 && "system"@.len() == 6);
}

} // verus!
