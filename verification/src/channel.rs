//! Channels: their members, access masks and modes.

use std::collections::HashMap;

use vstd::prelude::*;
use vstd::std_specs::iter::IteratorSpec;
use vstd::string::{StringExecFns, StringSliceAdditionalSpecFns};

pub mod lemmas;
pub mod masks;

use crate::channel::masks::MaskSet;
use crate::message::rpl::{ERR_KEYSET, ERR_USERNOTINCHANNEL};
use crate::message::Reply;
use crate::modes::{
    channel_events, lemma_events_without_params, opt_str_view, ChannelModeChange,
    ChannelModeChangeView, ChannelQuery, Error,
};
use crate::text::{decimal_usize, parse_usize, str_eq};

verus! {

broadcast use vstd::std_specs::hash::group_hash_axioms;

/// The identity of a connected session, by which a channel knows its
/// members.  Whoever owns the channels maps it to a nickname.
pub type MemberKey = u64;

/// Modes applied to clients on a per-channel basis.
#[derive(Clone, Copy, Debug, PartialEq, Eq)]
pub struct MemberModes {
    pub creator: bool,
    pub operator: bool,
    pub voice: bool,
}

impl Default for MemberModes {
    fn default() -> (modes: MemberModes)
        ensures
            modes == MemberModes::plain(),
    {
        MemberModes { creator: false, operator: false, voice: false }
    }
}

impl MemberModes {
    /// The modes of a member that joins a channel which has members
    /// already.
    pub open spec fn plain() -> MemberModes {
        MemberModes { creator: false, operator: false, voice: false }
    }

    /// The modes of the member that joins an empty channel.
    pub open spec fn founder() -> MemberModes {
        MemberModes { creator: true, operator: true, voice: false }
    }

    /// The character shown before the member's nickname: `@` for an
    /// operator, else `+` for a voiced member, else a space.
    pub fn symbol(&self) -> (c: char)
        ensures
            c == if self.operator {
                '@'
            } else if self.voice {
                '+'
            } else {
                ' '
            },
    {
        if self.operator {
            '@'
        } else if self.voice {
            '+'
        } else {
            ' '
        }
    }
}

/// Channel data.
pub struct Channel {
    /// The members, each with its modes on this channel.
    pub members: HashMap<MemberKey, MemberModes>,
    /// The topic.
    pub topic: Option<String>,
    pub user_limit: Option<usize>,
    pub key: Option<String>,
    pub ban_mask: MaskSet,
    pub exception_mask: MaskSet,
    pub invitation_mask: MaskSet,
    pub anonymous: bool,
    pub invite_only: bool,
    pub moderated: bool,
    pub no_privmsg_from_outside: bool,
    pub quiet: bool,
    pub private: bool,
    pub secret: bool,
    pub reop: bool,
    pub topic_restricted: bool,
}

/// What a channel holds: strings as their characters, the members as a map
/// and the masks as sets.
#[verifier::ext_equal]
pub struct ChannelView {
    pub members: Map<MemberKey, MemberModes>,
    pub topic: Option<Seq<char>>,
    pub user_limit: Option<usize>,
    pub key: Option<Seq<char>>,
    pub ban_mask: Set<Seq<char>>,
    pub exception_mask: Set<Seq<char>>,
    pub invitation_mask: Set<Seq<char>>,
    pub anonymous: bool,
    pub invite_only: bool,
    pub moderated: bool,
    pub no_privmsg_from_outside: bool,
    pub quiet: bool,
    pub private: bool,
    pub secret: bool,
    pub reop: bool,
    pub topic_restricted: bool,
}

/// The characters of an optional string.
pub open spec fn opt_string_view(s: Option<String>) -> Option<Seq<char>> {
    match s {
        Some(text) => Some(text@),
        None => None,
    }
}

impl View for Channel {
    type V = ChannelView;

    open spec fn view(&self) -> ChannelView {
        ChannelView {
            members: self.members@,
            topic: opt_string_view(self.topic),
            user_limit: self.user_limit,
            key: opt_string_view(self.key),
            ban_mask: self.ban_mask@,
            exception_mask: self.exception_mask@,
            invitation_mask: self.invitation_mask@,
            anonymous: self.anonymous,
            invite_only: self.invite_only,
            moderated: self.moderated,
            no_privmsg_from_outside: self.no_privmsg_from_outside,
            quiet: self.quiet,
            private: self.private,
            secret: self.secret,
            reop: self.reop,
            topic_restricted: self.topic_restricted,
        }
    }
}

impl ChannelView {
    /// The channel without members, masks, topic, key or limit, and with
    /// every flag unset.
    pub open spec fn empty() -> ChannelView {
        ChannelView {
            members: Map::empty(),
            topic: None,
            user_limit: None,
            key: None,
            ban_mask: Set::empty(),
            exception_mask: Set::empty(),
            invitation_mask: Set::empty(),
            anonymous: false,
            invite_only: false,
            moderated: false,
            no_privmsg_from_outside: false,
            quiet: false,
            private: false,
            secret: false,
            reop: false,
            topic_restricted: false,
        }
    }

    /// The channel with the operator flag of the member `key` set to
    /// `value`.
    pub open spec fn with_operator(self, key: MemberKey, value: bool) -> ChannelView {
        ChannelView {
            members: self.members.insert(
                key,
                MemberModes { operator: value, ..self.members[key] },
            ),
            ..self
        }
    }

    /// The channel with the voice flag of the member `key` set to `value`.
    pub open spec fn with_voice(self, key: MemberKey, value: bool) -> ChannelView {
        ChannelView {
            members: self.members.insert(key, MemberModes { voice: value, ..self.members[key] }),
            ..self
        }
    }

    /// The channel after a mode change.  `target` is the member that an
    /// operator or voice change names, if the channel has such a member.
    /// No mode change touches the creator mark of a member.
    pub open spec fn after(
        self,
        change: ChannelModeChangeView,
        target: Option<MemberKey>,
    ) -> ChannelView {
        match change {
            ChannelModeChangeView::InviteOnly(v) => ChannelView { invite_only: v, ..self },
            ChannelModeChangeView::Moderated(v) => ChannelView { moderated: v, ..self },
            ChannelModeChangeView::NoPrivMsgFromOutside(v) => ChannelView {
                no_privmsg_from_outside: v,
                ..self
            },
            ChannelModeChangeView::Secret(v) => ChannelView { secret: v, ..self },
            ChannelModeChangeView::TopicRestricted(v) => ChannelView { topic_restricted: v, ..self },
            ChannelModeChangeView::Key(v, key) => if v {
                if self.key is Some {
                    self
                } else {
                    ChannelView { key: Some(key), ..self }
                }
            } else if self.key == Some(key) {
                ChannelView { key: None, ..self }
            } else {
                self
            },
            ChannelModeChangeView::UserLimit(Some(text)) => match decimal_usize(text) {
                Some(limit) => ChannelView { user_limit: Some(limit), ..self },
                None => self,
            },
            ChannelModeChangeView::UserLimit(None) => ChannelView { user_limit: None, ..self },
            ChannelModeChangeView::ChangeBan(v, mask) => ChannelView {
                ban_mask: if v {
                    self.ban_mask.insert(mask)
                } else {
                    self.ban_mask.remove(mask)
                },
                ..self
            },
            ChannelModeChangeView::ChangeException(v, mask) => ChannelView {
                exception_mask: if v {
                    self.exception_mask.insert(mask)
                } else {
                    self.exception_mask.remove(mask)
                },
                ..self
            },
            ChannelModeChangeView::ChangeInvitation(v, mask) => ChannelView {
                invitation_mask: if v {
                    self.invitation_mask.insert(mask)
                } else {
                    self.invitation_mask.remove(mask)
                },
                ..self
            },
            ChannelModeChangeView::ChangeOperator(v, _) => match target {
                Some(key) => if self.members.contains_key(key) {
                    self.with_operator(key, v)
                } else {
                    self
                },
                None => self,
            },
            ChannelModeChangeView::ChangeVoice(v, _) => match target {
                Some(key) => if self.members.contains_key(key) {
                    self.with_voice(key, v)
                } else {
                    self
                },
                None => self,
            },
            ChannelModeChangeView::GetBans
            | ChannelModeChangeView::GetExceptions
            | ChannelModeChangeView::GetInvitations => self,
        }
    }

    /// The channel after `key` has joined: the member that joins an empty
    /// channel is its creator and an operator, any other gets no mode.  A
    /// member that joins again starts over likewise.
    pub open spec fn join(self, key: MemberKey) -> ChannelView {
        ChannelView {
            members: self.members.insert(
                key,
                if self.members.dom().is_empty() {
                    MemberModes::founder()
                } else {
                    MemberModes::plain()
                },
            ),
            ..self
        }
    }

    /// The channel after `key` has left.
    pub open spec fn part(self, key: MemberKey) -> ChannelView {
        ChannelView { members: self.members.remove(key), ..self }
    }

    /// The members that are marked as creator of the channel.
    pub open spec fn creators(self) -> Set<MemberKey> {
        Set::new(|key: MemberKey| self.members.contains_key(key) && self.members[key].creator)
    }

    /// Whether `nick` may join: it is not banned, or an exception or an
    /// invitation lets it in all the same.  The masks are compared with
    /// `nick` letter for letter.
    pub open spec fn can_join(self, nick: Seq<char>) -> bool {
        !self.ban_mask.contains(nick) || self.exception_mask.contains(nick)
            || self.invitation_mask.contains(nick)
    }

    /// Whether `key` may talk on the channel.  On a moderated channel only
    /// members with voice and operators may; elsewhere everybody may,
    /// unless the channel takes no messages from outside and `key` is no
    /// member.
    pub open spec fn can_talk(self, key: MemberKey) -> bool {
        if self.moderated {
            self.members.contains_key(key) && (self.members[key].voice
                || self.members[key].operator)
        } else {
            !self.no_privmsg_from_outside || self.members.contains_key(key)
        }
    }

    /// The letter `letter` if `set` holds, nothing otherwise.
    pub open spec fn letter_if(set: bool, letter: char) -> Seq<char> {
        if set {
            seq![letter]
        } else {
            Seq::empty()
        }
    }

    /// The summary of the channel's modes: `+`, then the letter of each
    /// mode that is set, in the order `a i m n q p r t s l k`: the flags
    /// first, then `l` for a user limit and `k` for a key.
    pub open spec fn mode_summary(self) -> Seq<char> {
        seq!['+'] + Self::letter_if(self.anonymous, 'a') + Self::letter_if(self.invite_only, 'i')
            + Self::letter_if(self.moderated, 'm') + Self::letter_if(
            self.no_privmsg_from_outside,
            'n',
        ) + Self::letter_if(self.quiet, 'q') + Self::letter_if(self.private, 'p')
            + Self::letter_if(self.reop, 'r') + Self::letter_if(self.topic_restricted, 't')
            + Self::letter_if(self.secret, 's')
            + Self::letter_if(self.user_limit is Some, 'l') + Self::letter_if(self.key is Some, 'k')
    }

    /// The channel after the mode changes among `events`, applied in order;
    /// the errors among them are passed over.  No change that names a
    /// member finds one.
    pub open spec fn after_all(
        self,
        events: Seq<Result<ChannelModeChangeView, Error>>,
    ) -> ChannelView
        decreases events.len(),
    {
        if events.len() == 0 {
            self
        } else {
            match events[0] {
                Ok(change) => self.after(change, None).after_all(events.drop_first()),
                Err(_) => self.after_all(events.drop_first()),
            }
        }
    }

    /// What applying a mode change returns: whether it changed anything, or
    /// the reply that says why it was refused.  `target` is as in `after`.
    pub open spec fn outcome(
        self,
        change: ChannelModeChangeView,
        target: Option<MemberKey>,
    ) -> Result<bool, Reply> {
        match change {
            ChannelModeChangeView::InviteOnly(v) => Ok(self.invite_only != v),
            ChannelModeChangeView::Moderated(v) => Ok(self.moderated != v),
            ChannelModeChangeView::NoPrivMsgFromOutside(v) => Ok(self.no_privmsg_from_outside != v),
            ChannelModeChangeView::Secret(v) => Ok(self.secret != v),
            ChannelModeChangeView::TopicRestricted(v) => Ok(self.topic_restricted != v),
            ChannelModeChangeView::Key(v, key) => if v {
                if self.key is Some {
                    Err(ERR_KEYSET)
                } else {
                    Ok(true)
                }
            } else {
                Ok(self.key == Some(key))
            },
            ChannelModeChangeView::UserLimit(Some(text)) => match decimal_usize(text) {
                Some(limit) => Ok(self.user_limit != Some(limit)),
                None => Ok(false),
            },
            ChannelModeChangeView::UserLimit(None) => Ok(self.user_limit is Some),
            ChannelModeChangeView::ChangeBan(v, mask) => Ok(v != self.ban_mask.contains(mask)),
            ChannelModeChangeView::ChangeException(v, mask) => Ok(
                v != self.exception_mask.contains(mask),
            ),
            ChannelModeChangeView::ChangeInvitation(v, mask) => Ok(
                v != self.invitation_mask.contains(mask),
            ),
            ChannelModeChangeView::ChangeOperator(v, _) => match target {
                Some(key) => if self.members.contains_key(key) {
                    Ok(self.members[key].operator != v)
                } else {
                    Err(ERR_USERNOTINCHANNEL)
                },
                None => Err(ERR_USERNOTINCHANNEL),
            },
            ChannelModeChangeView::ChangeVoice(v, _) => match target {
                Some(key) => if self.members.contains_key(key) {
                    Ok(self.members[key].voice != v)
                } else {
                    Err(ERR_USERNOTINCHANNEL)
                },
                None => Err(ERR_USERNOTINCHANNEL),
            },
            ChannelModeChangeView::GetBans
            | ChannelModeChangeView::GetExceptions
            | ChannelModeChangeView::GetInvitations => Ok(false),
        }
    }
}

impl Default for Channel {
    fn default() -> (chan: Channel)
        ensures
            chan@ == ChannelView::empty(),
    {
        Channel {
            members: HashMap::new(),
            topic: None,
            user_limit: None,
            key: None,
            ban_mask: MaskSet::new(),
            exception_mask: MaskSet::new(),
            invitation_mask: MaskSet::new(),
            anonymous: false,
            invite_only: false,
            moderated: false,
            no_privmsg_from_outside: false,
            quiet: false,
            private: false,
            secret: false,
            reop: false,
            topic_restricted: false,
        }
    }
}

/// Adds `mask` to a set of masks, or takes it out of the set.  Returns
/// whether the set changed.
fn change_mask(masks: &mut MaskSet, value: bool, mask: &str) -> (applied: bool)
    ensures
        final(masks)@ == if value {
            old(masks)@.insert(mask@)
        } else {
            old(masks)@.remove(mask@)
        },
        applied == (value != old(masks)@.contains(mask@)),
{
    if value {
        masks.insert(mask.to_owned())
    } else {
        masks.remove(mask)
    }
}

/// Appends the letter `letter` to `modes` if `set` holds.
fn push_if(modes: &mut String, set: bool, letter: &str, Ghost(c): Ghost<char>)
    requires
        letter@.len() == 1,
        letter@[0] == c,
    ensures
        final(modes)@ == old(modes)@ + ChannelView::letter_if(set, c),
{
    assert(letter@ =~= seq![c]);
    if set {
        modes.append(letter);
    }
}

/// Whether `nick_of` may give the name `nick` to the member `key`.
pub open spec fn names<'a, F: Fn(&MemberKey) -> &'a str>(
    nick_of: F,
    key: MemberKey,
    nick: Seq<char>,
) -> bool {
    exists|name: &'a str| call_ensures(nick_of, (&key,), name) && name@ == nick
}

/// Whether `nick_of` may give the member `key` a name other than `nick`.
pub open spec fn names_otherwise<'a, F: Fn(&MemberKey) -> &'a str>(
    nick_of: F,
    key: MemberKey,
    nick: Seq<char>,
) -> bool {
    exists|name: &'a str| call_ensures(nick_of, (&key,), name) && name@ != nick
}

/// Whether `found` is what a search for the member named `nick` may end with:
/// a member to which `nick_of` gives that name, or nothing where `nick_of`
/// gives every member another name.
pub open spec fn finds<'a, F: Fn(&MemberKey) -> &'a str>(
    chan: ChannelView,
    nick_of: F,
    nick: Seq<char>,
    found: Option<MemberKey>,
) -> bool {
    match found {
        Some(key) => chan.members.contains_key(key) && names(nick_of, key, nick),
        None => forall|key: MemberKey|
            chan.members.contains_key(key) ==> names_otherwise(nick_of, key, nick),
    }
}

impl Channel {
    /// Looks for a member whose nickname is `nick`, asking `nick_of` for
    /// the nickname of one member after the other until one matches.
    ///
    /// The members are asked in no particular order: where several have
    /// the nickname, any of them may be the one returned.
    pub fn find_member<'a, F>(&self, nick: &str, nick_of: F) -> (found: Option<MemberKey>) where
        F: Fn(&MemberKey) -> &'a str,

        requires
            forall|key: MemberKey|
                self@.members.contains_key(key) ==> call_requires(nick_of, (&key,)),
        ensures
            finds(self@, nick_of, nick@, found),
    {
        let ghost keys = self.members.keys().remaining();
        for key in it: self.members.keys()
            invariant
                forall|key: MemberKey|
                    self@.members.contains_key(key) ==> call_requires(nick_of, (&key,)),
                it.seq() == keys,
                keys.unref().to_set() == self@.members.dom(),
                forall|j: int|
                    0 <= j < it.index() ==> names_otherwise(nick_of, *#[trigger] keys[j], nick@),
        {
            assert(keys.unref().to_set().contains(*key));
            let name = nick_of(key);
            if str_eq(name, nick) {
                return Some(*key);
            }
        }
        assert forall|key: MemberKey| self@.members.contains_key(key) implies names_otherwise(
            nick_of,
            key,
            nick@,
        ) by {
            assert(keys.unref().to_set().contains(key));
            let j = choose|j: int| 0 <= j < keys.len() && keys.unref()[j] == key;
            assert(*keys[j] == key);
        }
        None
    }

    /// Sets the key if none is set, or removes the key if `key` is the one
    /// that is set.
    fn change_key(&mut self, value: bool, key: &str) -> (result: Result<bool, Reply>)
        ensures
            final(self)@ == old(self)@.after(ChannelModeChangeView::Key(value, key@), None),
            result == old(self)@.outcome(ChannelModeChangeView::Key(value, key@), None),
    {
        if value {
            if self.key.is_some() {
                return Err(ERR_KEYSET);
            }
            self.key = Some(key.to_owned());
            Ok(true)
        } else {
            let matches = match &self.key {
                Some(chan_key) => str_eq(key, chan_key.as_str()),
                None => false,
            };
            if matches {
                self.key = None;
            }
            Ok(matches)
        }
    }

    /// Sets the user limit to the number that `text` holds, if it holds
    /// one, or removes the limit if there is no text.
    fn change_user_limit(&mut self, text: Option<&str>) -> (applied: bool)
        ensures
            final(self)@ == old(self)@.after(
                ChannelModeChangeView::UserLimit(opt_str_view(text)),
                None,
            ),
            Ok::<bool, Reply>(applied) == old(self)@.outcome(
                ChannelModeChangeView::UserLimit(opt_str_view(text)),
                None,
            ),
    {
        match text {
            Some(s) => match parse_usize(s) {
                Some(limit) => {
                    let applied = match self.user_limit {
                        Some(chan_limit) => chan_limit != limit,
                        None => true,
                    };
                    self.user_limit = Some(limit);
                    applied
                },
                None => false,
            },
            None => {
                let applied = self.user_limit.is_some();
                self.user_limit = None;
                applied
            },
        }
    }

    /// Sets the operator flag of the member `target`, if there is such a
    /// member.
    fn change_operator(&mut self, value: bool, target: Option<MemberKey>) -> (result: Result<
        bool,
        Reply,
    >)
        ensures
            final(self)@ == old(self)@.after(
                ChannelModeChangeView::ChangeOperator(value, Seq::empty()),
                target,
            ),
            result == old(self)@.outcome(
                ChannelModeChangeView::ChangeOperator(value, Seq::empty()),
                target,
            ),
    {
        let found = match target {
            Some(key) => match self.members.get(&key) {
                Some(modes) => Some((key, *modes)),
                None => None,
            },
            None => None,
        };
        match found {
            Some((key, modes)) => {
                self.members.insert(key, MemberModes { operator: value, ..modes });
                Ok(modes.operator != value)
            },
            None => Err(ERR_USERNOTINCHANNEL),
        }
    }

    /// Sets the voice flag of the member `target`, if there is such a
    /// member.
    fn change_voice(&mut self, value: bool, target: Option<MemberKey>) -> (result: Result<
        bool,
        Reply,
    >)
        ensures
            final(self)@ == old(self)@.after(
                ChannelModeChangeView::ChangeVoice(value, Seq::empty()),
                target,
            ),
            result == old(self)@.outcome(
                ChannelModeChangeView::ChangeVoice(value, Seq::empty()),
                target,
            ),
    {
        let found = match target {
            Some(key) => match self.members.get(&key) {
                Some(modes) => Some((key, *modes)),
                None => None,
            },
            None => None,
        };
        match found {
            Some((key, modes)) => {
                self.members.insert(key, MemberModes { voice: value, ..modes });
                Ok(modes.voice != value)
            },
            None => Err(ERR_USERNOTINCHANNEL),
        }
    }

    /// Applies a mode change whose target member, if it names one, has been
    /// looked up already: `target` is the member that an operator or voice
    /// change is about, or `None` if the channel has no such member.
    ///
    /// Returns whether the change changed anything.  A key cannot be set
    /// while another is set (`ERR_KEYSET`), and a member that is not there
    /// cannot have its modes changed (`ERR_USERNOTINCHANNEL`); the channel
    /// is then left as it was.
    pub fn apply_mode_change_to(
        &mut self,
        change: ChannelModeChange,
        target: Option<MemberKey>,
    ) -> (result: Result<bool, Reply>)
        ensures
            final(self)@ == old(self)@.after(change@, target),
            result == old(self)@.outcome(change@, target),
    {
        match change {
            ChannelModeChange::InviteOnly(value) => {
                let applied = self.invite_only != value;
                self.invite_only = value;
                Ok(applied)
            },
            ChannelModeChange::Moderated(value) => {
                let applied = self.moderated != value;
                self.moderated = value;
                Ok(applied)
            },
            ChannelModeChange::NoPrivMsgFromOutside(value) => {
                let applied = self.no_privmsg_from_outside != value;
                self.no_privmsg_from_outside = value;
                Ok(applied)
            },
            ChannelModeChange::Secret(value) => {
                let applied = self.secret != value;
                self.secret = value;
                Ok(applied)
            },
            ChannelModeChange::TopicRestricted(value) => {
                let applied = self.topic_restricted != value;
                self.topic_restricted = value;
                Ok(applied)
            },
            ChannelModeChange::Key(value, key) => self.change_key(value, key),
            ChannelModeChange::UserLimit(text) => Ok(self.change_user_limit(text)),
            ChannelModeChange::ChangeBan(value, param) => Ok(
                change_mask(&mut self.ban_mask, value, param),
            ),
            ChannelModeChange::ChangeException(value, param) => Ok(
                change_mask(&mut self.exception_mask, value, param),
            ),
            ChannelModeChange::ChangeInvitation(value, param) => Ok(
                change_mask(&mut self.invitation_mask, value, param),
            ),
            ChannelModeChange::ChangeOperator(value, _) => self.change_operator(value, target),
            ChannelModeChange::ChangeVoice(value, _) => self.change_voice(value, target),
            ChannelModeChange::GetBans
            | ChannelModeChange::GetExceptions
            | ChannelModeChange::GetInvitations => Ok(false),
        }
    }

    /// Applies a mode change to the channel.  `nick_of` gives the nickname
    /// of a member; it is asked only where the change names a member.
    ///
    /// Returns whether the change changed anything.  A key cannot be set
    /// while another is set (`ERR_KEYSET`), and neither the operator flag
    /// nor the voice flag can be changed for a nickname that no member has
    /// (`ERR_USERNOTINCHANNEL`); the channel is then left as it was.
    pub fn apply_mode_change<'a, F>(&mut self, change: ChannelModeChange, nick_of: F) -> (result:
        Result<bool, Reply>) where F: Fn(&MemberKey) -> &'a str
        requires
            forall|key: MemberKey|
                old(self)@.members.contains_key(key) ==> call_requires(nick_of, (&key,)),
        ensures
            exists|target: Option<MemberKey>|
                {
                    &&& match change@.member() {
                        Some(nick) => finds(old(self)@, nick_of, nick, target),
                        None => target is None,
                    }
                    &&& final(self)@ == old(self)@.after(change@, target)
                    &&& result == old(self)@.outcome(change@, target)
                },
    {
        let target = match change {
            ChannelModeChange::ChangeOperator(_, nick) | ChannelModeChange::ChangeVoice(_, nick) => {
                self.find_member(nick, nick_of)
            },
            _ => None,
        };
        self.apply_mode_change_to(change, target)
    }

    /// Creates a channel without members that has the modes of the mode
    /// string `modes` set.  The string comes without parameters: its
    /// letters that would need one, and those that are no channel mode, are
    /// passed over.
    pub fn new(modes: &str) -> (chan: Channel)
        ensures
            chan@ == ChannelView::empty().after_all(
                channel_events(modes.spec_bytes(), true, Seq::empty()),
            ),
    {
        let mut chan = Channel::default();
        let mut query = ChannelQuery::simple(modes);
        let ghost events = query@;
        let ghost mut seen: int = 0;
        assert(events.skip(0) =~= events);
        loop
            invariant
                0 <= seen <= events.len(),
                events == channel_events(modes.spec_bytes(), true, Seq::empty()),
                query@ == events.skip(seen),
                ChannelView::empty().after_all(events) == chan@.after_all(events.skip(seen)),
            decreases events.len() - seen,
        {
            let item = query.next();
            proof {
                if item is Some {
                    assert(events.skip(seen)[0] == events[seen]);
                    assert(events.skip(seen).drop_first() =~= events.skip(seen + 1));
                    lemma_events_without_params(modes.spec_bytes(), true, seen);
                }
            }
            match item {
                Some(Ok(change)) => {
                    let applied = chan.apply_mode_change_to(change, None);
                    let _ = applied.unwrap();
                },
                Some(Err(_)) => {},
                None => {
                    return chan;
                },
            }
            proof {
                seen = seen + 1;
            }
        }
    }

    /// The summary of the channel's modes: `+`, then the letter of each
    /// mode that is set.
    pub fn modes(&self) -> (modes: String)
        ensures
            modes@ == self@.mode_summary(),
    {
        proof {
            reveal_strlit("+");
            reveal_strlit("a");
            reveal_strlit("i");
            reveal_strlit("m");
            reveal_strlit("n");
            reveal_strlit("q");
            reveal_strlit("p");
            reveal_strlit("r");
            reveal_strlit("t");
            reveal_strlit("s");
            reveal_strlit("l");
            reveal_strlit("k");
        }
        let mut modes = String::from_str("+");
        assert(modes@ =~= seq!['+']);
        push_if(&mut modes, self.anonymous, "a", Ghost('a'));
        push_if(&mut modes, self.invite_only, "i", Ghost('i'));
        push_if(&mut modes, self.moderated, "m", Ghost('m'));
        push_if(&mut modes, self.no_privmsg_from_outside, "n", Ghost('n'));
        push_if(&mut modes, self.quiet, "q", Ghost('q'));
        push_if(&mut modes, self.private, "p", Ghost('p'));
        push_if(&mut modes, self.reop, "r", Ghost('r'));
        push_if(&mut modes, self.topic_restricted, "t", Ghost('t'));
        push_if(&mut modes, self.secret, "s", Ghost('s'));
        push_if(&mut modes, self.user_limit.is_some(), "l", Ghost('l'));
        push_if(&mut modes, self.key.is_some(), "k", Ghost('k'));
        modes
    }

    /// Adds a member: as creator and operator if the channel was empty,
    /// with no mode otherwise.
    pub fn add_member(&mut self, key: MemberKey)
        ensures
            final(self)@ == old(self)@.join(key),
    {
        let modes = if self.members.is_empty() {
            MemberModes { creator: true, operator: true, voice: false }
        } else {
            MemberModes::default()
        };
        self.members.insert(key, modes);
    }

    /// Removes a member, if it is one.
    pub fn remove_member(&mut self, key: MemberKey)
        ensures
            final(self)@ == old(self)@.part(key),
    {
        self.members.remove(&key);
    }

    /// Whether the nickname `nick` may join the channel.
    pub fn can_join(&self, nick: &str) -> (allowed: bool)
        ensures
            allowed == self@.can_join(nick@),
    {
        !self.ban_mask.contains(nick) || self.exception_mask.contains(nick)
            || self.invitation_mask.contains(nick)
    }

    /// Whether `key` may send messages to the channel.
    pub fn can_talk(&self, key: MemberKey) -> (allowed: bool)
        ensures
            allowed == self@.can_talk(key),
    {
        if self.moderated {
            match self.members.get(&key) {
                Some(modes) => modes.voice || modes.operator,
                None => false,
            }
        } else {
            !self.no_privmsg_from_outside || self.members.contains_key(&key)
        }
    }

    /// The symbol that stands for the channel's visibility in a list of
    /// names: `@` for a secret channel, else `*` for a private one, else
    /// `=`.
    pub fn symbol(&self) -> (symbol: &'static str)
        ensures
            symbol@ == if self.secret {
                seq!['@']
            } else if self.private {
                seq!['*']
            } else {
                seq!['=']
            },
    {
        proof {
            reveal_strlit("@");
            reveal_strlit("*");
            reveal_strlit("=");
        }
        if self.secret {
            assert("@"@ =~= seq!['@']);
            "@"
        } else if self.private {
            assert("*"@ =~= seq!['*']);
            "*"
        } else {
            assert("="@ =~= seq!['=']);
            "="
        }
    }
}

} // verus!
