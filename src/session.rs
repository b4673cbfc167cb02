use crate::transition::PageTransition;
use vstd::prelude::*;

verus! {

/// A decoded file: the header's version and the commands in file order.
#[derive(Debug)]
pub struct SNSS {
    pub version: i32,
    pub commands: Vec<Command>,
}

/// One framed record: its tag byte and its decoded payload.
#[derive(Debug)]
pub struct Command {
    pub id: u8,
    pub content: Content,
}

/// The payload of a record: a tab navigation entry, or the raw bytes of a
/// record of any other kind.
#[derive(Debug)]
pub enum Content {
    Tab(Tab),
    Other(Vec<u8>),
}

/// A tab navigation entry.
#[derive(Debug)]
pub struct Tab {
    pub id: i32,
    /// Index in this tab's back-forward list
    pub index: i32,
    pub url: String,
    pub title: String,
    pub state: Vec<u8>,
    pub transition: PageTransition,
    /// The page has POST data
    pub post: bool,
    pub referrer_url: String,
    pub reference_policy: i32,
    pub original_request_url: String,
    /// The user-agent was overridden
    pub user_agent: bool,
}

pub struct TabView {
    pub id: i32,
    pub index: i32,
    pub url: Seq<char>,
    pub title: Seq<char>,
    pub state: Seq<u8>,
    pub transition: u32,
    pub post: bool,
    pub referrer_url: Seq<char>,
    pub reference_policy: i32,
    pub original_request_url: Seq<char>,
    pub user_agent: bool,
}

pub enum ContentView {
    Tab(TabView),
    Other(Seq<u8>),
}

pub struct CommandView {
    pub id: u8,
    pub content: ContentView,
}

pub struct SessionView {
    pub version: i32,
    pub commands: Seq<CommandView>,
}

impl View for Tab {
    type V = TabView;

    open spec fn view(&self) -> TabView {
        TabView {
            id: self.id,
            index: self.index,
            url: self.url@,
            title: self.title@,
            state: self.state@,
            transition: self.transition.0,
            post: self.post,
            referrer_url: self.referrer_url@,
            reference_policy: self.reference_policy,
            original_request_url: self.original_request_url@,
            user_agent: self.user_agent,
        }
    }
}

impl View for Content {
    type V = ContentView;

    open spec fn view(&self) -> ContentView {
        match self {
            Content::Tab(t) => ContentView::Tab(t@),
            Content::Other(b) => ContentView::Other(b@),
        }
    }
}

impl View for Command {
    type V = CommandView;

    open spec fn view(&self) -> CommandView {
        CommandView { id: self.id, content: self.content@ }
    }
}

pub open spec fn commands_view(cs: Seq<Command>) -> Seq<CommandView> {
    cs.map_values(|c: Command| c@)
}

impl View for SNSS {
    type V = SessionView;

    open spec fn view(&self) -> SessionView {
        SessionView { version: self.version, commands: commands_view(self.commands@) }
    }
}

} // verus!
