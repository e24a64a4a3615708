//! A modal box with a title, a message, and an action that runs when the user
//! confirms.
use vstd::prelude::*;

verus! {

broadcast use vstd::string::group_string_axioms;

/// What a message box shows, and the action of its `Ok` button (none: `Ok` only
/// closes the box).
pub struct MessageBoxData<A> {
    pub title: String,
    pub message: String,
    pub action: Option<A>,
}

impl<A> MessageBoxData<A> {
    pub fn new(title: &str, message: &str, action: A) -> (r: Self)
        ensures
            r.title@ == title@,
            r.message@ == message@,
            r.action == Some(action),
    {
        MessageBoxData {
            title: String::from_str(title),
            message: String::from_str(message),
            action: Some(action),
        }
    }
}

impl<A> Default for MessageBoxData<A> {
    fn default() -> (r: Self)
        ensures
            r.title@ == Seq::<char>::empty(),
            r.message@ == Seq::<char>::empty(),
            r.action is None,
    {
        MessageBoxData { title: String::new(), message: String::new(), action: None }
    }
}

/// A message box: its content, while it has any, and whether it is shown.
pub struct MessageBox<A> {
    pub data: Option<MessageBoxData<A>>,
    is_open: bool,
}

impl<A> MessageBox<A> {
    pub closed spec fn shown(&self) -> bool {
        self.is_open
    }

    /// The content of the box, if it still has any.
    pub closed spec fn content(&self) -> Option<MessageBoxData<A>> {
        self.data
    }

    /// A closed box with empty content.
    pub fn new() -> (r: Self)
        ensures
            r.content() matches Some(d) && d.title@ == Seq::<char>::empty() && d.message@
                == Seq::<char>::empty() && d.action is None,
            !r.shown(),
    {
        MessageBox { data: Some(MessageBoxData::default()), is_open: false }
    }

    /// The box with `title`; a box without content stays so.
    pub fn title(self, title: String) -> (r: Self)
        ensures
            r.shown() == self.shown(),
            match self.content() {
                Some(d) => r.content() == Some(MessageBoxData { title, ..d }),
                None => r.content() is None,
            },
    {
        let MessageBox { data, is_open } = self;
        let data = match data {
            Some(d) => Some(MessageBoxData { title, ..d }),
            None => None,
        };
        MessageBox { data, is_open }
    }

    /// The box with `message`; a box without content stays so.
    pub fn message(self, message: String) -> (r: Self)
        ensures
            r.shown() == self.shown(),
            match self.content() {
                Some(d) => r.content() == Some(MessageBoxData { message, ..d }),
                None => r.content() is None,
            },
    {
        let MessageBox { data, is_open } = self;
        let data = match data {
            Some(d) => Some(MessageBoxData { message, ..d }),
            None => None,
        };
        MessageBox { data, is_open }
    }

    /// The box, shown, with `action` behind its `Ok` button.
    pub fn spawn(self, action: A) -> (r: Self)
        ensures
            r.shown(),
            match self.content() {
                Some(d) => r.content() == Some(MessageBoxData { action: Some(action), ..d }),
                None => r.content() is None,
            },
    {
        let MessageBox { data, is_open: _ } = self;
        let data = match data {
            Some(d) => Some(MessageBoxData { action: Some(action), ..d }),
            None => None,
        };
        MessageBox { data, is_open: true }
    }

    /// The user confirmed: the box closes and gives up its content; the action it
    /// held is returned to be run.
    pub fn click_ok(&mut self) -> (r: Option<A>)
        ensures
            !final(self).shown(),
            final(self).content() is None,
            r == match old(self).content() {
                Some(d) => d.action,
                None => None,
            },
    {
        self.is_open = false;
        match self.data.take() {
            Some(data) => data.action,
            None => None,
        }
    }

    /// The user declined: the box closes and drops its content and action.
    pub fn click_cancel(&mut self)
        ensures
            !final(self).shown(),
            final(self).content() is None,
    {
        self.is_open = false;
        self.data = None;
    }

    /// Whether the box is shown.
    pub fn is_open(&self) -> (r: bool)
        ensures
            r == self.shown(),
    {
        self.is_open
    }
}

} // verus!
