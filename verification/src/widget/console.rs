//! The console: the messages the tool has reported, newest last.
use vstd::prelude::*;

use crate::events::Type;

verus! {

/// How many messages the console keeps before it drops the oldest.
pub open spec fn console_capacity() -> nat {
    501
}

/// A reported message.
pub struct LogEntry {
    pub message: String,
    pub message_type: Type,
}

/// The console's log and whether it follows new messages.
pub struct ConsoleWidget {
    entries: Vec<LogEntry>,
    auto_scroll: bool,
}

/// The messages of a log, oldest first.
pub open spec fn log_view(entries: Seq<LogEntry>) -> Seq<(Seq<char>, Type)> {
    entries.map_values(|e: LogEntry| (e.message@, e.message_type))
}

/// The log after `message` was added to `log`: at capacity the oldest message
/// leaves first.
pub open spec fn log_after_add(log: Seq<(Seq<char>, Type)>, message: Seq<char>, message_type: Type) -> Seq<(Seq<char>, Type)> {
    if log.len() > 500 {
        log.drop_first().push((message, message_type))
    } else {
        log.push((message, message_type))
    }
}

impl ConsoleWidget {
    #[verifier::type_invariant]
    spec fn bounded(&self) -> bool {
        self.entries.len() <= console_capacity()
    }

    /// The messages, oldest first.
    pub closed spec fn log(&self) -> Seq<(Seq<char>, Type)> {
        log_view(self.entries@)
    }

    pub closed spec fn follows(&self) -> bool {
        self.auto_scroll
    }

    /// An empty console that follows new messages.
    pub fn new() -> (r: Self)
        ensures
            r.log() == Seq::<(Seq<char>, Type)>::empty(),
            r.follows(),
    {
        let r = ConsoleWidget { entries: Vec::new(), auto_scroll: true };
        assert(r.log() =~= Seq::<(Seq<char>, Type)>::empty());
        r
    }

    /// Adds a message at the end; when more than 500 messages are kept, the oldest
    /// one is dropped first.
    pub fn add(&mut self, message: &str, message_type: Type)
        ensures
            final(self).log() == log_after_add(old(self).log(), message@, message_type),
            final(self).follows() == old(self).follows(),
    {
        proof {
            use_type_invariant(&*self);
        }
        let entry = LogEntry { message: String::from_str(message), message_type };
        let ghost before = self.entries@;
        let mut entries: Vec<LogEntry> = Vec::new();
        std::mem::swap(&mut entries, &mut self.entries);
        if entries.len() > 500 {
            entries.remove(0);
            assert(log_view(entries@) =~= log_view(before).drop_first());
        }
        let ghost mid = entries@;
        entries.push(entry);
        assert(log_view(entries@) =~= log_view(mid).push((message@, message_type)));
        self.entries = entries;
    }

    /// Forgets every message.
    pub fn clear(&mut self)
        ensures
            final(self).log() == Seq::<(Seq<char>, Type)>::empty(),
            final(self).follows() == old(self).follows(),
    {
        let mut entries: Vec<LogEntry> = Vec::new();
        std::mem::swap(&mut entries, &mut self.entries);
        entries.clear();
        self.entries = entries;
        assert(self.log() =~= Seq::<(Seq<char>, Type)>::empty());
    }

    pub fn set_auto_scroll(&mut self, enabled: bool)
        ensures
            final(self).log() == old(self).log(),
            final(self).follows() == enabled,
    {
        proof {
            use_type_invariant(&*self);
        }
        self.auto_scroll = enabled;
    }

    /// The messages, oldest first.
    pub fn entries(&self) -> (r: &Vec<LogEntry>)
        ensures
            log_view(r@) == self.log(),
            r@.len() <= console_capacity(),
    {
        proof {
            use_type_invariant(self);
        }
        &self.entries
    }

    /// Whether the console scrolls to new messages.
    pub fn auto_scroll(&self) -> (r: bool)
        ensures
            r == self.follows(),
    {
        self.auto_scroll
    }
}

/// However many messages are added, the console never holds more than 501.
pub proof fn law_console_bounded(log: Seq<(Seq<char>, Type)>, message: Seq<char>, message_type: Type)
    requires
        log.len() <= console_capacity(),
    ensures
        log_after_add(log, message, message_type).len() <= console_capacity(),
        log_after_add(log, message, message_type).last() == (message, message_type),
{
}

} // verus!
