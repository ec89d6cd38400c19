//! What the exporters read of the application's setup.
use vstd::prelude::*;

use crate::messages::Message;
use crate::tapback::TapbackMessage;

verus! {

/// The platform that a message database comes from.
#[derive(Debug, Clone, Copy, PartialEq, Eq, Structural)]
pub enum Platform {
    MacOS,
    IOS,
}

/// The options that an export was started with.
#[derive(Debug, Clone)]
pub struct Options {
    /// The platform that the database comes from.
    pub platform: Platform,
    /// Where the database or the device backup lies.
    pub db_path: String,
    /// Where the attachments lie, if not where the database says.
    pub attachment_root: Option<String>,
    /// The password of an encrypted device backup.
    pub cleartext_password: Option<String>,
    /// What to call the database's owner.
    pub custom_name: Option<String>,
    /// Whether images are loaded with the page and not when they come in view.
    pub no_lazy: bool,
    /// Whether every row is shown at its own place in time, with its metadata.
    pub forensic: bool,
}

/// The reactions to one part of one message.
pub struct PartTapbacks {
    /// The message.
    pub guid: String,
    /// The part of it.
    pub part: usize,
    /// The reactions, in order.
    pub tapbacks: Vec<TapbackMessage>,
}

/// Data that is set up by the application's runtime.
pub struct Config {
    pub options: Options,
    /// The reactions, by the part of the message that they belong to. No part
    /// of a message occurs twice.
    pub tapbacks: Vec<PartTapbacks>,
    /// The messages that others refer to, with their text. Where a message
    /// cannot be had, it is not among them.
    pub messages: Vec<Message>,
}

/// The first message with an identifier, from `from` on.
pub open spec fn message_at(messages: Seq<Message>, guid: Seq<char>, from: int) -> Option<int>
    decreases messages.len() - from,
{
    if 0 <= from < messages.len() {
        if messages[from].guid@ == guid {
            Some(from)
        } else {
            message_at(messages, guid, from + 1)
        }
    } else {
        None
    }
}

/// The position of the reactions to a part of a message, from `from` on.
pub open spec fn tapbacks_at(
    tapbacks: Seq<PartTapbacks>,
    guid: Seq<char>,
    part: usize,
    from: int,
) -> Option<int>
    decreases tapbacks.len() - from,
{
    if 0 <= from < tapbacks.len() {
        if tapbacks[from].guid@ == guid && tapbacks[from].part == part {
            Some(from)
        } else {
            tapbacks_at(tapbacks, guid, part, from + 1)
        }
    } else {
        None
    }
}

impl Config {
    /// Whether all that is recorded among the reactions is a reaction, and no
    /// part of a message occurs twice among them.
    pub open spec fn well_formed(self) -> bool {
        &&& forall|i: int, j: int|
            0 <= i < self.tapbacks@.len() && 0 <= j < self.tapbacks@[i].tapbacks@.len() ==> (
            #[trigger] self.tapbacks@[i].tapbacks@[j]).is_reaction()
        &&& forall|i: int, j: int|
            0 <= i < j < self.tapbacks@.len() ==> !((#[trigger] self.tapbacks@[i]).guid@ == (
            #[trigger] self.tapbacks@[j]).guid@ && self.tapbacks@[i].part
                == self.tapbacks@[j].part)
    }

    /// The reactions to a part of a message, if any are recorded.
    pub open spec fn tapbacks_of(self, guid: Seq<char>, part: usize) -> Option<
        Seq<TapbackMessage>,
    > {
        match tapbacks_at(self.tapbacks@, guid, part, 0) {
            Some(at) => Some(self.tapbacks@[at].tapbacks@),
            None => None,
        }
    }

    /// A setup without messages or reactions.
    pub fn new(options: Options) -> (config: Config)
        ensures
            config.well_formed(),
            config.options == options,
            config.tapbacks@.len() == 0,
            config.messages@.len() == 0,
    {
        Config { options, tapbacks: Vec::new(), messages: Vec::new() }
    }

    /// Whether all that is recorded among the reactions is a reaction, and no
    /// part of a message occurs twice among them.
    pub fn is_well_formed(&self) -> (yes: bool)
        ensures
            yes == self.well_formed(),
    {
        for i in 0..self.tapbacks.len()
            invariant
                forall|a: int, b: int|
                    0 <= a < i && 0 <= b < self.tapbacks@[a].tapbacks@.len() ==> (
                    #[trigger] self.tapbacks@[a].tapbacks@[b]).is_reaction(),
                forall|a: int, b: int|
                    0 <= a < b < i ==> !((#[trigger] self.tapbacks@[a]).guid@ == (
                    #[trigger] self.tapbacks@[b]).guid@ && self.tapbacks@[a].part
                        == self.tapbacks@[b].part),
        {
            let entry = &self.tapbacks[i];
            for j in 0..entry.tapbacks.len()
                invariant
                    i < self.tapbacks@.len(),
                    *entry == self.tapbacks@[i as int],
                    forall|b: int|
                        0 <= b < j ==> (
                        #[trigger] self.tapbacks@[i as int].tapbacks@[b]).is_reaction(),
            {
                if !entry.tapbacks[j].message.is_tapback() {
                    assert(!self.tapbacks@[i as int].tapbacks@[j as int].is_reaction());
                    return false;
                }
            }
            for k in 0..i
                invariant
                    i < self.tapbacks@.len(),
                    *entry == self.tapbacks@[i as int],
                    forall|a: int|
                        0 <= a < k ==> !((#[trigger] self.tapbacks@[a]).guid@ == entry.guid@
                            && self.tapbacks@[a].part == entry.part),
            {
                if self.tapbacks[k].part == entry.part && self.tapbacks[k].guid == entry.guid {
                    assert(self.tapbacks@[k as int].guid@ == self.tapbacks@[i as int].guid@);
                    return false;
                }
            }
        }
        true
    }

    /// Record a reaction to a part of a message, behind those that are recorded
    /// already. What is no reaction is handed back.
    pub fn add_tapback(&mut self, guid: String, part: usize, tapback: TapbackMessage) -> (result:
        Result<(), TapbackMessage>)
        requires
            old(self).well_formed(),
        ensures
            final(self).well_formed(),
            final(self).options == old(self).options,
            final(self).messages == old(self).messages,
            match result {
                Ok(()) => tapback.is_reaction() && final(self).tapbacks_of(guid@, part) == Some(
                    (match old(self).tapbacks_of(guid@, part) {
                        Some(before) => before,
                        None => Seq::empty(),
                    }).push(tapback),
                ) && forall|g: Seq<char>, p: usize|
                    g != guid@ || p != part ==> #[trigger] final(self).tapbacks_of(g, p) == old(
                        self,
                    ).tapbacks_of(g, p),
                Err(rejected) => !tapback.is_reaction() && rejected == tapback && *final(self)
                    == *old(self),
            },
    {
        if !tapback.message.is_tapback() {
            return Err(tapback);
        }
        let ghost before = *self;
        let mut i: usize = 0;
        while i < self.tapbacks.len()
            invariant
                i <= self.tapbacks@.len(),
                *self == before,
                before == *old(self),
                before.well_formed(),
                tapback.is_reaction(),
                forall|k: int|
                    0 <= k < i ==> !((#[trigger] before.tapbacks@[k]).guid@ == guid@
                        && before.tapbacks@[k].part == part),
            decreases self.tapbacks@.len() - i,
        {
            if self.tapbacks[i].part == part && self.tapbacks[i].guid == guid {
                let mut entry = self.tapbacks.remove(i);
                entry.tapbacks.push(tapback);
                self.tapbacks.insert(i, entry);
                proof {
                    assert(self.tapbacks@ =~= before.tapbacks@.update(i as int, entry));
                    lemma_grown_entry(before, *self, i as int, tapback);
                }
                return Ok(());
            }
            i = i + 1;
        }
        let mut tapbacks: Vec<TapbackMessage> = Vec::new();
        tapbacks.push(tapback);
        let entry = PartTapbacks { guid, part, tapbacks };
        self.tapbacks.push(entry);
        proof {
            assert(self.tapbacks@ =~= before.tapbacks@.push(entry));
            assert(entry.tapbacks@ =~= seq![tapback]);
            lemma_new_entry(before, *self, entry);
            assert(Seq::<TapbackMessage>::empty().push(tapback) =~= entry.tapbacks@);
        }
        Ok(())
    }

    /// The message with an identifier, if it is known.
    pub open spec fn message_of(self, guid: Seq<char>) -> Option<Message> {
        match message_at(self.messages@, guid, 0) {
            Some(at) => Some(self.messages@[at]),
            None => None,
        }
    }

    /// The message with an identifier, if it is known.
    pub fn find_message(&self, guid: &String) -> (found: Option<&Message>)
        ensures
            match found {
                Some(found) => self.message_of(guid@) == Some(*found),
                None => self.message_of(guid@) is None,
            },
    {
        let mut i: usize = 0;
        while i < self.messages.len()
            invariant
                i <= self.messages@.len(),
                message_at(self.messages@, guid@, 0) == message_at(
                    self.messages@,
                    guid@,
                    i as int,
                ),
            decreases self.messages@.len() - i,
        {
            if self.messages[i].guid == *guid {
                return Some(&self.messages[i]);
            }
            i = i + 1;
        }
        None
    }

    /// The reactions to a part of a message, if any are recorded.
    pub fn part_tapbacks(&self, message: &Message, part: usize) -> (found: Option<
        &Vec<TapbackMessage>,
    >)
        ensures
            match found {
                Some(found) => self.tapbacks_of(message.guid@, part) == Some(found@),
                None => self.tapbacks_of(message.guid@, part) is None,
            },
    {
        let mut i: usize = 0;
        while i < self.tapbacks.len()
            invariant
                i <= self.tapbacks@.len(),
                tapbacks_at(self.tapbacks@, message.guid@, part, 0) == tapbacks_at(
                    self.tapbacks@,
                    message.guid@,
                    part,
                    i as int,
                ),
            decreases self.tapbacks@.len() - i,
        {
            if self.tapbacks[i].part == part && self.tapbacks[i].guid == message.guid {
                return Some(&self.tapbacks[i].tapbacks);
            }
            i = i + 1;
        }
        None
    }
}

proof fn lemma_tapbacks_at(
    tapbacks: Seq<PartTapbacks>,
    guid: Seq<char>,
    part: usize,
    from: int,
    at: int,
)
    requires
        0 <= from <= at < tapbacks.len(),
        tapbacks[at].guid@ == guid,
        tapbacks[at].part == part,
        forall|i: int|
            from <= i < at ==> !((#[trigger] tapbacks[i]).guid@ == guid && tapbacks[i].part
                == part),
    ensures
        tapbacks_at(tapbacks, guid, part, from) == Some(at),
    decreases at - from,
{
    if from < at {
        assert(!(tapbacks[from].guid@ == guid && tapbacks[from].part == part));
        lemma_tapbacks_at(tapbacks, guid, part, from + 1, at);
    }
}

/// A part of a message that does not occur is not found.
proof fn lemma_no_tapbacks_at(
    tapbacks: Seq<PartTapbacks>,
    guid: Seq<char>,
    part: usize,
    from: int,
)
    requires
        0 <= from,
        forall|i: int|
            from <= i < tapbacks.len() ==> !((#[trigger] tapbacks[i]).guid@ == guid
                && tapbacks[i].part == part),
    ensures
        tapbacks_at(tapbacks, guid, part, from) is None,
    decreases tapbacks.len() - from,
{
    if from < tapbacks.len() {
        assert(!(tapbacks[from].guid@ == guid && tapbacks[from].part == part));
        lemma_no_tapbacks_at(tapbacks, guid, part, from + 1);
    }
}

/// Where the search stops is decided by the entries' messages and parts alone.
proof fn lemma_same_tapbacks_at(
    a: Seq<PartTapbacks>,
    b: Seq<PartTapbacks>,
    guid: Seq<char>,
    part: usize,
    from: int,
)
    requires
        0 <= from,
        a.len() == b.len(),
        forall|i: int|
            0 <= i < a.len() ==> (#[trigger] a[i]).guid@ == b[i].guid@ && a[i].part == b[i].part,
    ensures
        tapbacks_at(a, guid, part, from) == tapbacks_at(b, guid, part, from),
    decreases a.len() - from,
{
    if from < a.len() {
        assert(a[from].guid@ == b[from].guid@);
        lemma_same_tapbacks_at(a, b, guid, part, from + 1);
    }
}

/// The search goes past an entry at the end that is not looked for.
proof fn lemma_tapbacks_at_push(
    tapbacks: Seq<PartTapbacks>,
    entry: PartTapbacks,
    guid: Seq<char>,
    part: usize,
    from: int,
)
    requires
        0 <= from <= tapbacks.len(),
        entry.guid@ != guid || entry.part != part,
    ensures
        tapbacks_at(tapbacks.push(entry), guid, part, from) == tapbacks_at(
            tapbacks,
            guid,
            part,
            from,
        ),
        match tapbacks_at(tapbacks, guid, part, from) {
            Some(at) => 0 <= at < tapbacks.len(),
            None => true,
        },
    decreases tapbacks.len() - from,
{
    if from < tapbacks.len() {
        lemma_tapbacks_at_push(tapbacks, entry, guid, part, from + 1);
    } else {
        assert(tapbacks_at(tapbacks.push(entry), guid, part, from + 1) is None);
    }
}

proof fn lemma_grown_entry(before: Config, after: Config, at: int, tapback: TapbackMessage)
    requires
        before.well_formed(),
        tapback.is_reaction(),
        0 <= at < before.tapbacks@.len(),
        after.tapbacks@.len() == before.tapbacks@.len(),
        forall|i: int|
            0 <= i < before.tapbacks@.len() && i != at ==> #[trigger] after.tapbacks@[i]
                == before.tapbacks@[i],
        after.tapbacks@[at].guid == before.tapbacks@[at].guid,
        after.tapbacks@[at].part == before.tapbacks@[at].part,
        after.tapbacks@[at].tapbacks@ == before.tapbacks@[at].tapbacks@.push(tapback),
    ensures
        after.well_formed(),
        after.tapbacks_of(before.tapbacks@[at].guid@, before.tapbacks@[at].part) == Some(
            before.tapbacks_of(before.tapbacks@[at].guid@, before.tapbacks@[at].part)->0.push(
                tapback,
            ),
        ),
        before.tapbacks_of(before.tapbacks@[at].guid@, before.tapbacks@[at].part) is Some,
        forall|g: Seq<char>, p: usize|
            g != before.tapbacks@[at].guid@ || p != before.tapbacks@[at].part
                ==> #[trigger] after.tapbacks_of(g, p) == before.tapbacks_of(g, p),
{
    let a = before.tapbacks@;
    let b = after.tapbacks@;
    assert forall|i: int| 0 <= i < a.len() implies (#[trigger] a[i]).guid@ == b[i].guid@
        && a[i].part == b[i].part by {
        if i != at {
            assert(b[i] == a[i]);
        }
    }
    assert forall|i: int, j: int| 0 <= i < b.len() && 0 <= j < b[i].tapbacks@.len() implies (
    #[trigger] b[i].tapbacks@[j]).is_reaction() by {
        if i != at || j < a[at].tapbacks@.len() {
            assert(b[i].tapbacks@[j] == a[i].tapbacks@[j]);
        }
    }
    assert forall|i: int, j: int| 0 <= i < j < b.len() implies !((#[trigger] b[i]).guid@ == (
    #[trigger] b[j]).guid@ && b[i].part == b[j].part) by {
        assert(a[i].guid@ == b[i].guid@ && a[j].guid@ == b[j].guid@);
        assert(!(a[i].guid@ == a[j].guid@ && a[i].part == a[j].part));
    }
    law_tapbacks_found(before, at);
    law_tapbacks_found(after, at);
    assert forall|g: Seq<char>, p: usize| g != a[at].guid@ || p != a[at].part implies
        #[trigger] after.tapbacks_of(g, p) == before.tapbacks_of(g, p) by {
        lemma_same_tapbacks_at(a, b, g, p, 0);
        lemma_found(a, g, p, 0);
    }
}

/// What is found is what was looked for.
pub(crate) proof fn lemma_found(tapbacks: Seq<PartTapbacks>, guid: Seq<char>, part: usize, from: int)
    requires
        0 <= from,
    ensures
        match tapbacks_at(tapbacks, guid, part, from) {
            Some(at) => from <= at < tapbacks.len() && tapbacks[at].guid@ == guid
                && tapbacks[at].part == part,
            None => true,
        },
    decreases tapbacks.len() - from,
{
    if from < tapbacks.len() {
        lemma_found(tapbacks, guid, part, from + 1);
    }
}

proof fn lemma_new_entry(before: Config, after: Config, entry: PartTapbacks)
    requires
        before.well_formed(),
        after.tapbacks@ == before.tapbacks@.push(entry),
        forall|j: int|
            0 <= j < entry.tapbacks@.len() ==> (#[trigger] entry.tapbacks@[j]).is_reaction(),
        forall|k: int|
            0 <= k < before.tapbacks@.len() ==> !((#[trigger] before.tapbacks@[k]).guid@
                == entry.guid@ && before.tapbacks@[k].part == entry.part),
    ensures
        after.well_formed(),
        before.tapbacks_of(entry.guid@, entry.part) is None,
        after.tapbacks_of(entry.guid@, entry.part) == Some(entry.tapbacks@),
        forall|g: Seq<char>, p: usize|
            g != entry.guid@ || p != entry.part ==> #[trigger] after.tapbacks_of(g, p)
                == before.tapbacks_of(g, p),
{
    let a = before.tapbacks@;
    let b = after.tapbacks@;
    assert forall|i: int, j: int| 0 <= i < b.len() && 0 <= j < b[i].tapbacks@.len() implies (
    #[trigger] b[i].tapbacks@[j]).is_reaction() by {
        if i < a.len() {
            assert(b[i].tapbacks@[j] == a[i].tapbacks@[j]);
        } else {
            assert(b[i].tapbacks@[j] == entry.tapbacks@[j]);
        }
    }
    assert forall|i: int, j: int| 0 <= i < j < b.len() implies !((#[trigger] b[i]).guid@ == (
    #[trigger] b[j]).guid@ && b[i].part == b[j].part) by {
        assert(b[i] == a[i]);
        if j < a.len() {
            assert(b[j] == a[j]);
        }
    }
    lemma_no_tapbacks_at(a, entry.guid@, entry.part, 0);
    law_tapbacks_found(after, a.len() as int);
    assert forall|g: Seq<char>, p: usize| g != entry.guid@ || p != entry.part implies
        #[trigger] after.tapbacks_of(g, p) == before.tapbacks_of(g, p) by {
        lemma_tapbacks_at_push(a, entry, g, p, 0);
    }
}

/// Every recorded list of reactions is found again under its message and part.
pub proof fn law_tapbacks_found(config: Config, at: int)
    requires
        config.well_formed(),
        0 <= at < config.tapbacks@.len(),
    ensures
        config.tapbacks_of(config.tapbacks@[at].guid@, config.tapbacks@[at].part) == Some(
            config.tapbacks@[at].tapbacks@,
        ),
{
    let entry = config.tapbacks@[at];
    assert forall|i: int| 0 <= i < at implies !((#[trigger] config.tapbacks@[i]).guid@
        == entry.guid@ && config.tapbacks@[i].part == entry.part) by {}
    lemma_tapbacks_at(config.tapbacks@, entry.guid@, entry.part, 0, at);
}

proof fn lemma_message_at(messages: Seq<Message>, guid: Seq<char>, from: int)
    requires
        0 <= from,
    ensures
        match message_at(messages, guid, from) {
            Some(at) => from <= at < messages.len() && messages[at].guid@ == guid && forall|i: int|
                from <= i < at ==> (#[trigger] messages[i]).guid@ != guid,
            None => forall|i: int|
                from <= i < messages.len() ==> (#[trigger] messages[i]).guid@ != guid,
        },
    decreases messages.len() - from,
{
    if from < messages.len() {
        lemma_message_at(messages, guid, from + 1);
    }
}

/// A message is found under its identifier and no other, it is found whenever it
/// is known, and where two have one identifier the first is found.
pub proof fn law_message_found(config: Config, guid: Seq<char>)
    ensures
        match config.message_of(guid) {
            Some(found) => found.guid@ == guid && exists|at: int|
                0 <= at < config.messages@.len() && #[trigger] config.messages@[at] == found
                    && forall|i: int|
                    0 <= i < at ==> (#[trigger] config.messages@[i]).guid@ != guid,
            None => forall|i: int|
                0 <= i < config.messages@.len() ==> (#[trigger] config.messages@[i]).guid@ != guid,
        },
{
    lemma_message_at(config.messages@, guid, 0);
    if let Some(at) = message_at(config.messages@, guid, 0) {
        assert(config.messages@[at] == config.message_of(guid)->0);
    }
}

/// What is found under a message and a part is a list that is recorded for just
/// that message and part; where nothing is recorded for them, nothing is found.
pub proof fn law_tapbacks_only_where_recorded(config: Config, guid: Seq<char>, part: usize)
    ensures
        match config.tapbacks_of(guid, part) {
            Some(found) => exists|i: int|
                0 <= i < config.tapbacks@.len() && (#[trigger] config.tapbacks@[i]).guid@ == guid
                    && config.tapbacks@[i].part == part && config.tapbacks@[i].tapbacks@ == found,
            None => forall|i: int|
                0 <= i < config.tapbacks@.len() ==> !((#[trigger] config.tapbacks@[i]).guid@
                    == guid && config.tapbacks@[i].part == part),
        },
{
    lemma_found(config.tapbacks@, guid, part, 0);
    lemma_not_found(config.tapbacks@, guid, part, 0);
}

/// Where nothing is found, there is nothing to find.
proof fn lemma_not_found(tapbacks: Seq<PartTapbacks>, guid: Seq<char>, part: usize, from: int)
    requires
        0 <= from,
    ensures
        tapbacks_at(tapbacks, guid, part, from) is None ==> forall|i: int|
            from <= i < tapbacks.len() ==> !((#[trigger] tapbacks[i]).guid@ == guid
                && tapbacks[i].part == part),
    decreases tapbacks.len() - from,
{
    if from < tapbacks.len() {
        lemma_not_found(tapbacks, guid, part, from + 1);
    }
}

} // verus!
