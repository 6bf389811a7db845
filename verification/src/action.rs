//! The actions that a token can ask for, and their text on the wire.

use crate::text::{join, join_items, space};
use vstd::prelude::*;
use vstd::string::*;

verus! {

/// What a token asks for. The content identifiers keep their order.
#[derive(Debug, Clone, PartialEq, Eq)]
pub enum Action {
    List,
    Get(Vec<String>),
    Put(Vec<String>),
    Del(Vec<String>),
    Create { content: Vec<String> },
}

/// An action as a mathematical value.
pub enum ActionView {
    List,
    Get(Seq<Seq<char>>),
    Put(Seq<Seq<char>>),
    Del(Seq<Seq<char>>),
    Create { content: Seq<Seq<char>> },
}

impl View for Action {
    type V = ActionView;

    open spec fn view(&self) -> ActionView {
        match self {
            Action::List => ActionView::List,
            Action::Get(items) => ActionView::Get(items.deep_view()),
            Action::Put(items) => ActionView::Put(items.deep_view()),
            Action::Del(items) => ActionView::Del(items.deep_view()),
            Action::Create { content } => ActionView::Create { content: content.deep_view() },
        }
    }
}

/// The keyword `LIST`.
pub open spec fn kw_list() -> Seq<char> {
    seq!['L', 'I', 'S', 'T']
}

/// The keyword `GET`.
pub open spec fn kw_get() -> Seq<char> {
    seq!['G', 'E', 'T']
}

/// The keyword `PUT`.
pub open spec fn kw_put() -> Seq<char> {
    seq!['P', 'U', 'T']
}

/// The keyword `DEL`.
pub open spec fn kw_del() -> Seq<char> {
    seq!['D', 'E', 'L']
}

/// The keyword `CREATE`.
pub open spec fn kw_create() -> Seq<char> {
    seq!['C', 'R', 'E', 'A', 'T', 'E']
}

impl ActionView {
    /// The keyword that names the action.
    pub open spec fn keyword(self) -> Seq<char> {
        match self {
            ActionView::List => kw_list(),
            ActionView::Get(_) => kw_get(),
            ActionView::Put(_) => kw_put(),
            ActionView::Del(_) => kw_del(),
            ActionView::Create { .. } => kw_create(),
        }
    }

    /// The content identifiers that the action carries; none for `List`.
    pub open spec fn items(self) -> Seq<Seq<char>> {
        match self {
            ActionView::List => Seq::empty(),
            ActionView::Get(items) => items,
            ActionView::Put(items) => items,
            ActionView::Del(items) => items,
            ActionView::Create { content } => content,
        }
    }

    /// The text of the action: `LIST` alone, any other keyword followed by a
    /// space and the items joined by spaces.
    pub open spec fn text(self) -> Seq<char> {
        match self {
            ActionView::List => kw_list(),
            _ => content_text(self.keyword(), self.items()),
        }
    }
}

/// A keyword, a space and the items joined by spaces.
pub open spec fn content_text(keyword: Seq<char>, items: Seq<Seq<char>>) -> Seq<char> {
    keyword + space() + join(items)
}

/// Writes a keyword, a space and the items joined by spaces.
pub fn serialize_content_action(action: &str, content: &Vec<String>) -> (text: String)
    ensures
        text@ == content_text(action@, content.deep_view()),
{
    let mut text = String::from_str(action);
    text.append(" ");
    proof {
        reveal_strlit(" ");
        assert(" "@ =~= space());
    }
    let items = join_items(content);
    text.append(items.as_str());
    text
}

/// Writes an action as it stands on the wire.
pub fn serialize_action(action: &Action) -> (text: String)
    ensures
        text@ == action@.text(),
{
    proof {
        reveal_strlit("PUT");
        reveal_strlit("GET");
        reveal_strlit("DEL");
        reveal_strlit("LIST");
        reveal_strlit("CREATE");
        assert("PUT"@ =~= kw_put());
        assert("GET"@ =~= kw_get());
        assert("DEL"@ =~= kw_del());
        assert("LIST"@ =~= kw_list());
        assert("CREATE"@ =~= kw_create());
    }
    match action {
        Action::Put(content) => serialize_content_action("PUT", content),
        Action::Get(content) => serialize_content_action("GET", content),
        Action::Del(content) => serialize_content_action("DEL", content),
        Action::List => String::from_str("LIST"),
        Action::Create { content } => serialize_content_action("CREATE", content),
    }
}

} // verus!
