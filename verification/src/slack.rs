//! Notifications: what a message to the chat holds before it is sent.

use vstd::prelude::*;
use crate::error::{Error, ErrorView};
use crate::text::{chars_of, find_char, find_from, string_of};

verus! {

/// A message as its author gives it.
#[derive(Debug)]
pub struct Message {
    /// The text of the message.
    pub text: String,
    /// A link, as an address or as `address|description`.
    pub link: Option<String>,
    /// The colour of the message.
    pub color: Option<String>,
}

pub struct MessageView {
    pub text: Seq<char>,
    pub link: Option<Seq<char>>,
    pub color: Option<Seq<char>>,
}

impl DeepView for Message {
    type V = MessageView;

    open spec fn deep_view(&self) -> MessageView {
        MessageView {
            text: self.text@,
            link: self.link.deep_view(),
            color: self.color.deep_view(),
        }
    }
}

impl Clone for Message {
    fn clone(&self) -> (r: Self)
        ensures
            r.deep_view() == self.deep_view(),
    {
        Message { text: self.text.clone(), link: self.link.clone(), color: self.color.clone() }
    }
}

/// A link with the text that is shown for it.
#[derive(Debug)]
pub struct Link {
    pub address: String,
    pub description: String,
}

pub struct LinkView {
    pub address: Seq<char>,
    pub description: Seq<char>,
}

impl DeepView for Link {
    type V = LinkView;

    open spec fn deep_view(&self) -> LinkView {
        LinkView { address: self.address@, description: self.description@ }
    }
}

/// A message as it is sent: its text, its colour, and its link taken apart.
#[derive(Debug)]
pub struct Notice {
    pub text: String,
    pub color: Option<String>,
    pub link: Option<Link>,
}

pub struct NoticeView {
    pub text: Seq<char>,
    pub color: Option<Seq<char>>,
    pub link: Option<LinkView>,
}

impl DeepView for Notice {
    type V = NoticeView;

    open spec fn deep_view(&self) -> NoticeView {
        NoticeView {
            text: self.text@,
            color: self.color.deep_view(),
            link: self.link.deep_view(),
        }
    }
}

/// The address and the description of a link. Without a bar the link is both;
/// with one bar the address stands before it and the description after it;
/// with more the link is malformed.
pub open spec fn link_of(link: Seq<char>) -> Result<LinkView, ErrorView> {
    let bar = find_from(link, '|', 0);
    if bar >= link.len() {
        Ok(LinkView { address: link, description: link })
    } else if find_from(link, '|', bar + 1) < link.len() {
        Err(ErrorView::MalformedLink(link))
    } else {
        Ok(LinkView { address: link.take(bar), description: link.skip(bar + 1) })
    }
}

/// The notice that a message makes.
pub open spec fn notice_of(msg: MessageView) -> Result<NoticeView, ErrorView> {
    match msg.link {
        None => Ok(NoticeView { text: msg.text, color: msg.color, link: None }),
        Some(link) => match link_of(link) {
            Err(e) => Err(e),
            Ok(l) => Ok(NoticeView { text: msg.text, color: msg.color, link: Some(l) }),
        },
    }
}

/// A result that holds a link, with the link and the error taken by their views.
pub open spec fn link_outcome(r: Result<Link, Error>) -> Result<LinkView, ErrorView> {
    match r {
        Ok(l) => Ok(l.deep_view()),
        Err(e) => Err(e@),
    }
}

/// A result that holds a notice, with the notice and the error taken by their
/// views.
pub open spec fn notice_outcome(r: Result<Notice, Error>) -> Result<NoticeView, ErrorView> {
    match r {
        Ok(n) => Ok(n.deep_view()),
        Err(e) => Err(e@),
    }
}

/// Takes a link apart into its address and its description.
pub fn parse_link(link: &str) -> (r: Result<Link, Error>)
    ensures
        link_outcome(r) == link_of(link@),
{
    let chars: Vec<char> = chars_of(link);
    let n: usize = chars.len();
    let bar: usize = find_char(&chars, '|', 0);
    if bar >= n {
        let address: String = string_of(&chars, 0, n);
        let description: String = string_of(&chars, 0, n);
        assert(chars@.subrange(0, n as int) =~= link@);
        return Ok(Link { address, description });
    }
    if find_char(&chars, '|', bar + 1) < n {
        let whole: String = string_of(&chars, 0, n);
        assert(chars@.subrange(0, n as int) =~= link@);
        return Err(Error::MalformedLink(whole));
    }
    Ok(Link { address: string_of(&chars, 0, bar), description: string_of(&chars, bar + 1, n) })
}

/// Makes the notice that is sent for a message: the text and the colour as
/// they are, and the link taken apart.
pub fn message(msg: Message) -> (r: Result<Notice, Error>)
    ensures
        notice_outcome(r) == notice_of(msg.deep_view()),
{
    let link: Option<Link> = match &msg.link {
        None => None,
        Some(l) => match parse_link(l.as_str()) {
            Err(e) => {
                return Err(e);
            },
            Ok(l) => Some(l),
        },
    };
    Ok(Notice { text: msg.text, color: msg.color, link })
}

} // verus!
