//! Builds the prompt that is sent to the model: the user's request and the
//! messages shown so far, put into an instruction template.

use crate::command::{message_views, MessageInfo, MessageInfoView, SendMessageRequest, SendMessageRequestView};
use crate::text::{matches_at, occurs_at, to_chars, to_string};
use vstd::prelude::*;
use vstd::string::StringExecFns;

verus! {

/// The place in a template where the user's request goes.
pub open spec fn request_placeholder() -> Seq<char> {
    "{USER_REQ}"@
}

/// The place in a template where the messages shown so far go.
pub open spec fn context_placeholder() -> Seq<char> {
    "{MESSAGE_CONTEXT}"@
}

/// The character of a decimal digit.
pub open spec fn digit_char(d: nat) -> char {
    ((48 + d) as u8) as char
}

/// A number in decimal notation, without leading zeros.
pub open spec fn decimal(n: nat) -> Seq<char>
    decreases n,
{
    if n < 10 {
        seq![digit_char(n)]
    } else {
        decimal(n / 10).push(digit_char(n % 10))
    }
}

/// A truth value as a word.
pub open spec fn bool_text(b: bool) -> Seq<char> {
    if b {
        "true"@
    } else {
        "false"@
    }
}

/// `s` with every occurrence of `pat` replaced by `with`, the occurrences
/// taken from the left and not overlapping. An empty pattern replaces nothing.
pub open spec fn replace(s: Seq<char>, pat: Seq<char>, with: Seq<char>) -> Seq<char>
    decreases s.len(),
{
    if pat.len() == 0 || s.len() < pat.len() {
        s
    } else if occurs_at(s, pat, 0) {
        with + replace(s.subrange(pat.len() as int, s.len() as int), pat, with)
    } else {
        seq![s[0]] + replace(s.subrange(1, s.len() as int), pat, with)
    }
}

/// One message as a line of the context.
pub open spec fn message_line(m: MessageInfoView) -> Seq<char> {
    "ID: "@ + decimal(m.id as nat) + ", is_user: "@ + bool_text(m.is_user) + ", text: \""@ + m.text
        + "\""@
}

/// The lines of the messages, with a line break between two of them.
pub open spec fn message_lines(messages: Seq<MessageInfoView>) -> Seq<char>
    decreases messages.len(),
{
    if messages.len() == 0 {
        Seq::empty()
    } else if messages.len() == 1 {
        message_line(messages[0])
    } else {
        message_lines(messages.drop_last()) + seq!['\n'] + message_line(messages.last())
    }
}

/// What the model is told of the messages shown so far: how many there are,
/// one line for each, and the identifier that its reply will get.
pub open spec fn message_context(messages: Seq<MessageInfoView>) -> Seq<char> {
    "現在のメッセージ一覧（総数: "@ + decimal(messages.len()) + "）:\n"@ + message_lines(messages)
        + "\n\n注意: ユーザーが新しいメッセージを送信した後、AIの返信メッセージのIDは "@ + decimal(
        messages.len(),
    ) + " になります。"@
}

/// The prompt for a request: the template with the user's request in the
/// place of every request placeholder and then, in the result, the context
/// in the place of every context placeholder.
pub open spec fn prompt_spec(template: Seq<char>, request: SendMessageRequestView) -> Seq<char> {
    replace(
        replace(template, request_placeholder(), request.text),
        context_placeholder(),
        message_context(request.messages),
    )
}

/// Appends a number in decimal notation.
fn push_decimal(out: &mut String, n: usize)
    ensures
        final(out)@ == old(out)@ + decimal(n as nat),
    decreases n,
{
    if n >= 10 {
        push_decimal(out, n / 10);
    }
    let d: u8 = (n % 10) as u8;
    out.push((48u8 + d) as char);
    proof {
        if n >= 10 {
            assert(out@ =~= old(out)@ + decimal((n / 10) as nat).push(digit_char((n % 10) as nat)));
        } else {
            assert(out@ =~= old(out)@ + seq![digit_char(n as nat)]);
        }
    }
}

/// Replaces every occurrence of a pattern that is not empty.
fn replace_chars(s: &Vec<char>, pat: &Vec<char>, with: &Vec<char>) -> (r: Vec<char>)
    requires
        pat.len() > 0,
    ensures
        r@ == replace(s@, pat@, with@),
{
    let mut out: Vec<char> = Vec::new();
    let mut i: usize = 0;
    proof {
        assert(s@.subrange(0, s.len() as int) =~= s@);
        assert(out@ + replace(s@, pat@, with@) =~= replace(s@, pat@, with@));
    }
    while i < s.len()
        invariant
            i <= s.len(),
            pat.len() > 0,
            out@ + replace(s@.subrange(i as int, s.len() as int), pat@, with@) == replace(
                s@,
                pat@,
                with@,
            ),
        decreases s.len() - i,
    {
        let ghost rest = s@.subrange(i as int, s.len() as int);
        let ghost before = out@;
        if matches_at(s, pat, i) {
            proof {
                assert(rest.subrange(0, pat.len() as int) =~= s@.subrange(
                    i as int,
                    i + pat.len(),
                ));
                assert(occurs_at(rest, pat@, 0));
                assert(rest.subrange(pat.len() as int, rest.len() as int) =~= s@.subrange(
                    i + pat.len(),
                    s.len() as int,
                ));
            }
            let mut k: usize = 0;
            while k < with.len()
                invariant
                    k <= with.len(),
                    out@ == before + with@.subrange(0, k as int),
                decreases with.len() - k,
            {
                out.push(with[k]);
                k += 1;
            }
            proof {
                assert(with@.subrange(0, with.len() as int) =~= with@);
                assert((before + with@) + replace(
                    s@.subrange(i + pat.len(), s.len() as int),
                    pat@,
                    with@,
                ) =~= before + (with@ + replace(
                    s@.subrange(i + pat.len(), s.len() as int),
                    pat@,
                    with@,
                )));
            }
            i += pat.len();
        } else {
            proof {
                if rest.len() >= pat.len() {
                    assert(rest.subrange(0, pat.len() as int) =~= s@.subrange(
                        i as int,
                        i + pat.len(),
                    ));
                    assert(!occurs_at(rest, pat@, 0));
                    assert(rest.subrange(1, rest.len() as int) =~= s@.subrange(
                        i + 1,
                        s.len() as int,
                    ));
                    assert((before + seq![rest[0]]) + replace(
                        s@.subrange(i + 1, s.len() as int),
                        pat@,
                        with@,
                    ) =~= before + (seq![rest[0]] + replace(
                        s@.subrange(i + 1, s.len() as int),
                        pat@,
                        with@,
                    )));
                } else {
                    lemma_replace_short(s@, pat@, with@, i as int);
                }
            }
            out.push(s[i]);
            i += 1;
        }
    }
    proof {
        assert(s@.subrange(s.len() as int, s.len() as int) =~= Seq::<char>::empty());
        assert(out@ + Seq::<char>::empty() =~= out@);
    }
    out
}

/// In a text shorter than the pattern nothing is replaced, so its first
/// character and the rest stay as they are.
proof fn lemma_replace_short(s: Seq<char>, pat: Seq<char>, with: Seq<char>, i: int)
    requires
        0 <= i < s.len(),
        s.len() - i < pat.len(),
    ensures
        replace(s.subrange(i, s.len() as int), pat, with) == seq![s[i]] + replace(
            s.subrange(i + 1, s.len() as int),
            pat,
            with,
        ),
{
    let rest = s.subrange(i, s.len() as int);
    let tail = s.subrange(i + 1, s.len() as int);
    assert(replace(rest, pat, with) == rest);
    assert(replace(tail, pat, with) == tail);
    assert(rest =~= seq![s[i]] + tail);
}

/// Writes what the model is told of the messages shown so far.
pub fn render_message_context(messages: &Vec<MessageInfo>) -> (r: String)
    ensures
        r@ == message_context(message_views(messages@)),
{
    let ghost views = message_views(messages@);
    let mut lines = String::new();
    let mut i: usize = 0;
    while i < messages.len()
        invariant
            i <= messages.len(),
            views == message_views(messages@),
            lines@ == message_lines(views.subrange(0, i as int)),
        decreases messages.len() - i,
    {
        let ghost before = lines@;
        let ghost done = views.subrange(0, i as int);
        let ghost next = views.subrange(0, i + 1);
        proof {
            assert(next.drop_last() =~= done);
            assert(next.last() == messages@[i as int]@);
        }
        if i > 0 {
            lines.push('\n');
        }
        let m = &messages[i];
        lines.append("ID: ");
        push_decimal(&mut lines, m.id);
        lines.append(", is_user: ");
        if m.is_user {
            lines.append("true");
        } else {
            lines.append("false");
        }
        lines.append(", text: \"");
        lines.append(m.text.as_str());
        lines.append("\"");
        proof {
            let line = message_line(m@);
            if i > 0 {
                assert(lines@ =~= before + seq!['\n'] + line);
            } else {
                assert(done.len() == 0);
                assert(lines@ =~= line);
                assert(next.len() == 1);
                assert(next[0] == m@);
            }
        }
        i += 1;
    }
    proof {
        assert(views.subrange(0, i as int) =~= views);
    }
    let mut out = String::new();
    out.append("現在のメッセージ一覧（総数: ");
    push_decimal(&mut out, messages.len());
    out.append("）:\n");
    out.append(lines.as_str());
    out.append("\n\n注意: ユーザーが新しいメッセージを送信した後、AIの返信メッセージのIDは ");
    push_decimal(&mut out, messages.len());
    out.append(" になります。");
    proof {
        assert(out@ =~= message_context(views));
    }
    out
}

/// Builds the prompt for a request from an instruction template: puts the
/// user's request in the place of every `{USER_REQ}` and then, in the
/// result, the context of the messages in the place of every
/// `{MESSAGE_CONTEXT}`.
pub fn build_prompt(template: &str, request: &SendMessageRequest) -> (r: String)
    ensures
        r@ == prompt_spec(template@, request@),
{
    proof {
        reveal_strlit("{USER_REQ}");
        reveal_strlit("{MESSAGE_CONTEXT}");
    }
    let with_request = replace_chars(
        &to_chars(template),
        &to_chars("{USER_REQ}"),
        &to_chars(request.text.as_str()),
    );
    let context = render_message_context(&request.messages);
    let prompt = replace_chars(
        &with_request,
        &to_chars("{MESSAGE_CONTEXT}"),
        &to_chars(context.as_str()),
    );
    to_string(&prompt)
}

} // verus!
