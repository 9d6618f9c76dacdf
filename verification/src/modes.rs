//! Mode strings and the typed mode changes they stand for.
//!
//! A mode string such as `+ov-b` is read byte by byte.  `+` and `-` set the
//! sign that applies to the letters after them (a string starts with `+` in
//! force), and every other byte is a mode letter that yields one event: a
//! mode change, or an error for that letter alone.

use vstd::prelude::*;
use vstd::string::StringSliceAdditionalSpecFns;

verus! {

/// The modes that a user can have.
pub const USER_MODES: &'static str = "aiorsw";

/// The channel modes that are set and unset without a parameter.
pub const SIMPLE_CHAN_MODES: &'static str = "aimnqst";

/// The channel modes that may come with a parameter.
pub const EXTENDED_CHAN_MODES: &'static str = "beIklov";

/// The `CHANMODES` token that the server advertises.
pub const CHANMODES: &'static str = "CHANMODES=beI,k,l,aimnpqst";

/// Why a mode letter did not yield a mode change.
#[derive(Clone, Copy, Debug, PartialEq, Eq)]
pub enum Error {
    /// The letter is no mode at all.
    UnknownMode(char),
    /// The mode needs a parameter and none was left.
    MissingModeParam,
    /// The mode exists, but cannot be changed with a mode string.
    UnsettableMode,
}

/// A change of a user mode.
#[derive(Clone, Copy, Debug, PartialEq, Eq)]
pub enum UserModeChange {
    Invisible(bool),
}

impl UserModeChange {
    /// Whether the mode is set (`true`) or unset.
    pub fn value(self) -> (v: bool)
        ensures
            v == self->Invisible_0,
    {
        match self {
            UserModeChange::Invisible(v) => v,
        }
    }

    /// The letter of the mode.
    pub fn symbol(self) -> (c: char)
        ensures
            c == 'i',
    {
        match self {
            UserModeChange::Invisible(_) => 'i',
        }
    }
}

/// A change of a channel mode, or a request to list one of the masks.
#[derive(Clone, Copy, Debug, PartialEq, Eq)]
pub enum ChannelModeChange<'a> {
    InviteOnly(bool),
    Moderated(bool),
    NoPrivMsgFromOutside(bool),
    Secret(bool),
    TopicRestricted(bool),
    Key(bool, &'a str),
    UserLimit(Option<&'a str>),
    GetBans,
    GetExceptions,
    GetInvitations,
    ChangeBan(bool, &'a str),
    ChangeException(bool, &'a str),
    ChangeInvitation(bool, &'a str),
    ChangeOperator(bool, &'a str),
    ChangeVoice(bool, &'a str),
}

/// What a `ChannelModeChange` says, with each parameter as the characters
/// it holds.
pub enum ChannelModeChangeView {
    InviteOnly(bool),
    Moderated(bool),
    NoPrivMsgFromOutside(bool),
    Secret(bool),
    TopicRestricted(bool),
    Key(bool, Seq<char>),
    UserLimit(Option<Seq<char>>),
    GetBans,
    GetExceptions,
    GetInvitations,
    ChangeBan(bool, Seq<char>),
    ChangeException(bool, Seq<char>),
    ChangeInvitation(bool, Seq<char>),
    ChangeOperator(bool, Seq<char>),
    ChangeVoice(bool, Seq<char>),
}

impl<'a> View for ChannelModeChange<'a> {
    type V = ChannelModeChangeView;

    open spec fn view(&self) -> ChannelModeChangeView {
        match *self {
            ChannelModeChange::InviteOnly(v) => ChannelModeChangeView::InviteOnly(v),
            ChannelModeChange::Moderated(v) => ChannelModeChangeView::Moderated(v),
            ChannelModeChange::NoPrivMsgFromOutside(v) => ChannelModeChangeView::NoPrivMsgFromOutside(v),
            ChannelModeChange::Secret(v) => ChannelModeChangeView::Secret(v),
            ChannelModeChange::TopicRestricted(v) => ChannelModeChangeView::TopicRestricted(v),
            ChannelModeChange::Key(v, p) => ChannelModeChangeView::Key(v, p@),
            ChannelModeChange::UserLimit(Some(p)) => ChannelModeChangeView::UserLimit(Some(p@)),
            ChannelModeChange::UserLimit(None) => ChannelModeChangeView::UserLimit(None),
            ChannelModeChange::GetBans => ChannelModeChangeView::GetBans,
            ChannelModeChange::GetExceptions => ChannelModeChangeView::GetExceptions,
            ChannelModeChange::GetInvitations => ChannelModeChangeView::GetInvitations,
            ChannelModeChange::ChangeBan(v, p) => ChannelModeChangeView::ChangeBan(v, p@),
            ChannelModeChange::ChangeException(v, p) => ChannelModeChangeView::ChangeException(v, p@),
            ChannelModeChange::ChangeInvitation(v, p) => ChannelModeChangeView::ChangeInvitation(v, p@),
            ChannelModeChange::ChangeOperator(v, p) => ChannelModeChangeView::ChangeOperator(v, p@),
            ChannelModeChange::ChangeVoice(v, p) => ChannelModeChangeView::ChangeVoice(v, p@),
        }
    }
}

impl ChannelModeChangeView {
    /// Whether the change sets something: the sign of a flag or of a mask
    /// entry, and for the user limit whether a limit is given.  A listing
    /// request sets nothing.
    pub open spec fn value(self) -> bool {
        match self {
            ChannelModeChangeView::InviteOnly(v) => v,
            ChannelModeChangeView::Moderated(v) => v,
            ChannelModeChangeView::NoPrivMsgFromOutside(v) => v,
            ChannelModeChangeView::Secret(v) => v,
            ChannelModeChangeView::TopicRestricted(v) => v,
            ChannelModeChangeView::Key(v, _) => v,
            ChannelModeChangeView::UserLimit(l) => l is Some,
            ChannelModeChangeView::GetBans => false,
            ChannelModeChangeView::GetExceptions => false,
            ChannelModeChangeView::GetInvitations => false,
            ChannelModeChangeView::ChangeBan(v, _) => v,
            ChannelModeChangeView::ChangeException(v, _) => v,
            ChannelModeChangeView::ChangeInvitation(v, _) => v,
            ChannelModeChangeView::ChangeOperator(v, _) => v,
            ChannelModeChangeView::ChangeVoice(v, _) => v,
        }
    }

    /// The letter of the mode, which a listing request does not have.
    pub open spec fn symbol(self) -> Option<char> {
        match self {
            ChannelModeChangeView::InviteOnly(_) => Some('i'),
            ChannelModeChangeView::Moderated(_) => Some('m'),
            ChannelModeChangeView::NoPrivMsgFromOutside(_) => Some('n'),
            ChannelModeChangeView::Secret(_) => Some('s'),
            ChannelModeChangeView::TopicRestricted(_) => Some('t'),
            ChannelModeChangeView::Key(_, _) => Some('k'),
            ChannelModeChangeView::UserLimit(_) => Some('l'),
            ChannelModeChangeView::GetBans => None,
            ChannelModeChangeView::GetExceptions => None,
            ChannelModeChangeView::GetInvitations => None,
            ChannelModeChangeView::ChangeBan(_, _) => Some('b'),
            ChannelModeChangeView::ChangeException(_, _) => Some('e'),
            ChannelModeChangeView::ChangeInvitation(_, _) => Some('I'),
            ChannelModeChangeView::ChangeOperator(_, _) => Some('o'),
            ChannelModeChangeView::ChangeVoice(_, _) => Some('v'),
        }
    }

    /// The nickname of the member that the change is about, if it is about
    /// one.
    pub open spec fn member(self) -> Option<Seq<char>> {
        match self {
            ChannelModeChangeView::ChangeOperator(_, nick) => Some(nick),
            ChannelModeChangeView::ChangeVoice(_, nick) => Some(nick),
            _ => None,
        }
    }

    /// The parameter that the change carries, if it carries one.
    pub open spec fn param(self) -> Option<Seq<char>> {
        match self {
            ChannelModeChangeView::Key(_, p) => Some(p),
            ChannelModeChangeView::UserLimit(l) => l,
            ChannelModeChangeView::ChangeBan(_, p) => Some(p),
            ChannelModeChangeView::ChangeException(_, p) => Some(p),
            ChannelModeChangeView::ChangeInvitation(_, p) => Some(p),
            ChannelModeChangeView::ChangeOperator(_, p) => Some(p),
            ChannelModeChangeView::ChangeVoice(_, p) => Some(p),
            _ => None,
        }
    }
}

/// The characters of an optional string.
pub open spec fn opt_str_view(s: Option<&str>) -> Option<Seq<char>> {
    match s {
        Some(p) => Some(p@),
        None => None,
    }
}

impl<'a> ChannelModeChange<'a> {
    /// Whether the change sets something (see `ChannelModeChangeView::value`).
    pub fn value(&self) -> (v: bool)
        ensures
            v == self@.value(),
    {
        match self {
            ChannelModeChange::InviteOnly(v)
            | ChannelModeChange::Moderated(v)
            | ChannelModeChange::NoPrivMsgFromOutside(v)
            | ChannelModeChange::Secret(v)
            | ChannelModeChange::TopicRestricted(v)
            | ChannelModeChange::Key(v, _)
            | ChannelModeChange::ChangeBan(v, _)
            | ChannelModeChange::ChangeException(v, _)
            | ChannelModeChange::ChangeInvitation(v, _)
            | ChannelModeChange::ChangeOperator(v, _)
            | ChannelModeChange::ChangeVoice(v, _) => *v,
            ChannelModeChange::UserLimit(l) => l.is_some(),
            _ => false,
        }
    }

    /// The letter of the mode, which a listing request does not have.
    pub fn symbol(&self) -> (c: Option<char>)
        ensures
            c == self@.symbol(),
    {
        match self {
            ChannelModeChange::InviteOnly(_) => Some('i'),
            ChannelModeChange::Moderated(_) => Some('m'),
            ChannelModeChange::NoPrivMsgFromOutside(_) => Some('n'),
            ChannelModeChange::Secret(_) => Some('s'),
            ChannelModeChange::TopicRestricted(_) => Some('t'),
            ChannelModeChange::Key(_, _) => Some('k'),
            ChannelModeChange::UserLimit(_) => Some('l'),
            ChannelModeChange::ChangeBan(_, _) => Some('b'),
            ChannelModeChange::ChangeException(_, _) => Some('e'),
            ChannelModeChange::ChangeInvitation(_, _) => Some('I'),
            ChannelModeChange::ChangeOperator(_, _) => Some('o'),
            ChannelModeChange::ChangeVoice(_, _) => Some('v'),
            _ => None,
        }
    }

    /// The parameter that the change carries, if it carries one.
    pub fn param(&self) -> (p: Option<&'a str>)
        ensures
            opt_str_view(p) == self@.param(),
    {
        match self {
            ChannelModeChange::Key(_, p) => Some(p),
            ChannelModeChange::UserLimit(l) => *l,
            ChannelModeChange::ChangeBan(_, p) => Some(p),
            ChannelModeChange::ChangeException(_, p) => Some(p),
            ChannelModeChange::ChangeInvitation(_, p) => Some(p),
            ChannelModeChange::ChangeOperator(_, p) => Some(p),
            ChannelModeChange::ChangeVoice(_, p) => Some(p),
            _ => None,
        }
    }
}

/// The first mode letter of `modes` with the sign that applies to it, and
/// the bytes that follow the letter.  `sign` is the sign that is in force
/// where `modes` starts.
pub open spec fn first_letter(modes: Seq<u8>, sign: bool) -> Option<(bool, u8, Seq<u8>)>
    decreases modes.len(),
{
    if modes.len() == 0 {
        None
    } else if modes[0] as char == '+' {
        first_letter(modes.drop_first(), true)
    } else if modes[0] as char == '-' {
        first_letter(modes.drop_first(), false)
    } else {
        Some((sign, modes[0], modes.drop_first()))
    }
}

/// Whether `mode` is the letter of a user mode.
pub open spec fn is_user_mode(mode: u8) -> bool {
    let c = mode as char;
    c == 'a' || c == 'i' || c == 'o' || c == 'r' || c == 's' || c == 'w'
}

/// The event that a letter of a user mode string yields under `sign`.
pub open spec fn user_event(sign: bool, mode: u8) -> Result<UserModeChange, Error> {
    if mode as char == 'i' {
        Ok(UserModeChange::Invisible(sign))
    } else if is_user_mode(mode) {
        Err(Error::UnsettableMode)
    } else {
        Err(Error::UnknownMode(mode as char))
    }
}

/// The events that a user mode string yields, one for each mode letter.
pub open spec fn user_events(modes: Seq<u8>, sign: bool) -> Seq<Result<UserModeChange, Error>>
    decreases modes.len(),
{
    if modes.len() == 0 {
        Seq::empty()
    } else if modes[0] as char == '+' {
        user_events(modes.drop_first(), true)
    } else if modes[0] as char == '-' {
        user_events(modes.drop_first(), false)
    } else {
        seq![user_event(sign, modes[0])] + user_events(modes.drop_first(), sign)
    }
}

/// Whether a channel mode letter takes the next parameter under `sign`.
pub open spec fn takes_param(sign: bool, mode: u8) -> bool {
    let c = mode as char;
    c == 'k' || c == 'b' || c == 'e' || c == 'I' || c == 'o' || c == 'v' || (c == 'l' && sign)
}

/// The parameter that a channel mode letter gets: the next one if the
/// letter takes one and one is left, unless that one is empty.
pub open spec fn param_for(sign: bool, mode: u8, params: Seq<Seq<char>>) -> Option<Seq<char>> {
    if takes_param(sign, mode) && params.len() > 0 && params[0].len() > 0 {
        Some(params[0])
    } else {
        None
    }
}

/// The parameters that are left after a channel mode letter: a letter that
/// takes a parameter uses one up, also where that one is empty.
pub open spec fn params_after(sign: bool, mode: u8, params: Seq<Seq<char>>) -> Seq<Seq<char>> {
    if takes_param(sign, mode) && params.len() > 0 {
        params.drop_first()
    } else {
        params
    }
}

/// The event that a letter of a channel mode string yields under `sign`,
/// with `param` the parameter that the letter gets.
pub open spec fn channel_event(sign: bool, mode: u8, param: Option<Seq<char>>) -> Result<
    ChannelModeChangeView,
    Error,
> {
    let c = mode as char;
    if c == 'i' {
        Ok(ChannelModeChangeView::InviteOnly(sign))
    } else if c == 'm' {
        Ok(ChannelModeChangeView::Moderated(sign))
    } else if c == 'n' {
        Ok(ChannelModeChangeView::NoPrivMsgFromOutside(sign))
    } else if c == 's' {
        Ok(ChannelModeChangeView::Secret(sign))
    } else if c == 't' {
        Ok(ChannelModeChangeView::TopicRestricted(sign))
    } else if c == 'k' {
        match param {
            Some(p) => Ok(ChannelModeChangeView::Key(sign, p)),
            None => Err(Error::MissingModeParam),
        }
    } else if c == 'l' {
        if sign {
            match param {
                Some(p) => Ok(ChannelModeChangeView::UserLimit(Some(p))),
                None => Err(Error::MissingModeParam),
            }
        } else {
            Ok(ChannelModeChangeView::UserLimit(None))
        }
    } else if c == 'b' {
        match param {
            Some(p) => Ok(ChannelModeChangeView::ChangeBan(sign, p)),
            None => Ok(ChannelModeChangeView::GetBans),
        }
    } else if c == 'e' {
        match param {
            Some(p) => Ok(ChannelModeChangeView::ChangeException(sign, p)),
            None => Ok(ChannelModeChangeView::GetExceptions),
        }
    } else if c == 'I' {
        match param {
            Some(p) => Ok(ChannelModeChangeView::ChangeInvitation(sign, p)),
            None => Ok(ChannelModeChangeView::GetInvitations),
        }
    } else if c == 'o' {
        match param {
            Some(p) => Ok(ChannelModeChangeView::ChangeOperator(sign, p)),
            None => Err(Error::MissingModeParam),
        }
    } else if c == 'v' {
        match param {
            Some(p) => Ok(ChannelModeChangeView::ChangeVoice(sign, p)),
            None => Err(Error::MissingModeParam),
        }
    } else {
        Err(Error::UnknownMode(c))
    }
}

/// The events that a channel mode string yields with the parameters
/// `params`, one for each mode letter.
pub open spec fn channel_events(modes: Seq<u8>, sign: bool, params: Seq<Seq<char>>) -> Seq<
    Result<ChannelModeChangeView, Error>,
>
    decreases modes.len(),
{
    if modes.len() == 0 {
        Seq::empty()
    } else if modes[0] as char == '+' {
        channel_events(modes.drop_first(), true, params)
    } else if modes[0] as char == '-' {
        channel_events(modes.drop_first(), false, params)
    } else {
        seq![channel_event(sign, modes[0], param_for(sign, modes[0], params))] + channel_events(
            modes.drop_first(),
            sign,
            params_after(sign, modes[0], params),
        )
    }
}

/// The events of a user mode string are the event of its first letter,
/// then the events of what follows that letter.
pub proof fn lemma_user_events_unfold(modes: Seq<u8>, sign: bool)
    ensures
        match first_letter(modes, sign) {
            Some((s, mode, rest)) => user_events(modes, sign) == seq![user_event(s, mode)]
                + user_events(rest, s),
            None => user_events(modes, sign) == Seq::<Result<UserModeChange, Error>>::empty(),
        },
    decreases modes.len(),
{
    if modes.len() > 0 {
        if modes[0] as char == '+' {
            lemma_user_events_unfold(modes.drop_first(), true);
        } else if modes[0] as char == '-' {
            lemma_user_events_unfold(modes.drop_first(), false);
        }
    }
}

/// The events of a channel mode string are the event of its first letter,
/// then the events of what follows that letter with the parameters that
/// the letter left.
pub proof fn lemma_channel_events_unfold(modes: Seq<u8>, sign: bool, params: Seq<Seq<char>>)
    ensures
        match first_letter(modes, sign) {
            Some((s, mode, rest)) => channel_events(modes, sign, params) == seq![
                channel_event(s, mode, param_for(s, mode, params)),
            ] + channel_events(rest, s, params_after(s, mode, params)),
            None => channel_events(modes, sign, params) == Seq::<
                Result<ChannelModeChangeView, Error>,
            >::empty(),
        },
    decreases modes.len(),
{
    if modes.len() > 0 {
        if modes[0] as char == '+' {
            lemma_channel_events_unfold(modes.drop_first(), true, params);
        } else if modes[0] as char == '-' {
            lemma_channel_events_unfold(modes.drop_first(), false, params);
        }
    }
}

/// A mode string that comes without parameters asks for no key and names
/// no member, so that no change among its events can be refused.
pub proof fn lemma_events_without_params(modes: Seq<u8>, sign: bool, i: int)
    requires
        0 <= i < channel_events(modes, sign, Seq::empty()).len(),
    ensures
        match channel_events(modes, sign, Seq::empty())[i] {
            Ok(change) => !(change is Key) && change.member() is None,
            Err(_) => true,
        },
    decreases modes.len(),
{
    let rest = modes.drop_first();
    if modes[0] as char == '+' {
        lemma_events_without_params(rest, true, i);
    } else if modes[0] as char == '-' {
        lemma_events_without_params(rest, false, i);
    } else if i > 0 {
        lemma_events_without_params(rest, sign, i - 1);
    }
}

/// A reading position in a mode string, with the sign in force there.
struct SimpleQuery<'a> {
    modes: &'a [u8],
    pos: usize,
    value: bool,
}

impl<'a> SimpleQuery<'a> {
    #[verifier::type_invariant]
    spec fn in_bounds(self) -> bool {
        self.pos <= self.modes@.len()
    }

    /// The bytes that are still to be read.
    spec fn rest(self) -> Seq<u8> {
        self.modes@.skip(self.pos as int)
    }

    fn new(modes: &'a str) -> (query: Self)
        ensures
            query.rest() == modes.spec_bytes(),
            query.value,
    {
        SimpleQuery { modes: modes.as_bytes(), pos: 0, value: true }
    }

    /// Reads on to the next mode letter and returns it with its sign.
    fn next(&mut self) -> (item: Option<(bool, u8)>)
        ensures
            match first_letter(old(self).rest(), old(self).value) {
                Some((sign, mode, rest)) => item == Some((sign, mode)) && final(self).rest() == rest
                    && final(self).value == sign,
                None => item is None && final(self).rest().len() == 0,
            },
    {
        proof {
            use_type_invariant(&*self);
        }
        while self.pos < self.modes.len()
            invariant
                self.pos <= self.modes@.len(),
                first_letter(self.rest(), self.value) == first_letter(
                    old(self).rest(),
                    old(self).value,
                ),
            decreases self.modes@.len() - self.pos,
        {
            let mode = self.modes[self.pos];
            assert(self.rest()[0] == mode);
            assert(self.rest().drop_first() == self.modes@.skip(self.pos + 1));
            self.pos = self.pos + 1;
            match mode as char {
                '+' => {
                    self.value = true;
                },
                '-' => {
                    self.value = false;
                },
                _ => {
                    return Some((self.value, mode));
                },
            }
        }
        None
    }
}

/// The mode changes that a user mode string asks for, read one at a time.
pub struct UserQuery<'a> {
    inner: SimpleQuery<'a>,
}

impl<'a> View for UserQuery<'a> {
    type V = Seq<Result<UserModeChange, Error>>;

    /// The events that are still to come.
    closed spec fn view(&self) -> Seq<Result<UserModeChange, Error>> {
        user_events(self.inner.rest(), self.inner.value)
    }
}

impl<'a> UserQuery<'a> {
    /// Starts reading the user mode string `modes`.
    pub fn new(modes: &'a str) -> (query: UserQuery<'a>)
        ensures
            query@ == user_events(modes.spec_bytes(), true),
    {
        UserQuery { inner: SimpleQuery::new(modes) }
    }

    /// The event of the next mode letter, or `None` when the string has no
    /// letter left.  An error stands for its letter alone: the letters
    /// after it are still read.
    pub fn next(&mut self) -> (item: Option<Result<UserModeChange, Error>>)
        ensures
            item == if old(self)@.len() > 0 {
                Some(old(self)@[0])
            } else {
                None
            },
            final(self)@ == if old(self)@.len() > 0 {
                old(self)@.drop_first()
            } else {
                old(self)@
            },
    {
        proof {
            lemma_user_events_unfold(self.inner.rest(), self.inner.value);
        }
        let item = self.inner.next();
        proof {
            lemma_user_events_unfold(self.inner.rest(), self.inner.value);
        }
        match item {
            Some((value, mode)) => {
                let c = mode as char;
                let event = if c == 'i' {
                    Ok(UserModeChange::Invisible(value))
                } else if c == 'a' || c == 'o' || c == 'r' || c == 's' || c == 'w' {
                    Err(Error::UnsettableMode)
                } else {
                    Err(Error::UnknownMode(c))
                };
                Some(event)
            },
            None => None,
        }
    }
}

/// The characters of each of the parameters `params`.
pub open spec fn params_view(params: Seq<&str>) -> Seq<Seq<char>> {
    Seq::new(params.len(), |i: int| params[i]@)
}

/// What an event says, with each parameter as the characters it holds.
pub open spec fn event_view(event: Result<ChannelModeChange, Error>) -> Result<
    ChannelModeChangeView,
    Error,
> {
    match event {
        Ok(change) => Ok(change@),
        Err(error) => Err(error),
    }
}

/// The mode changes that a channel mode string asks for with its
/// parameters, read one at a time.
pub struct ChannelQuery<'a> {
    inner: SimpleQuery<'a>,
    params: Vec<&'a str>,
    used: usize,
}

impl<'a> View for ChannelQuery<'a> {
    type V = Seq<Result<ChannelModeChangeView, Error>>;

    /// The events that are still to come.
    closed spec fn view(&self) -> Seq<Result<ChannelModeChangeView, Error>> {
        channel_events(self.inner.rest(), self.inner.value, self.params_left())
    }
}

impl<'a> ChannelQuery<'a> {
    /// The parameters that no letter has taken yet.
    spec fn params_left(self) -> Seq<Seq<char>> {
        if self.used <= self.params@.len() {
            params_view(self.params@).skip(self.used as int)
        } else {
            Seq::empty()
        }
    }

    /// Starts reading the channel mode string `modes`, whose letters take
    /// their parameters from `params`, in order.
    pub fn new(modes: &'a str, params: Vec<&'a str>) -> (query: ChannelQuery<'a>)
        ensures
            query@ == channel_events(modes.spec_bytes(), true, params_view(params@)),
    {
        let query = ChannelQuery { inner: SimpleQuery::new(modes), params, used: 0 };
        assert(query.params_left() =~= params_view(params@));
        query
    }

    /// Starts reading a channel mode string that comes without parameters.
    pub fn simple(modes: &'a str) -> (query: ChannelQuery<'a>)
        ensures
            query@ == channel_events(modes.spec_bytes(), true, Seq::empty()),
    {
        let params: Vec<&'a str> = Vec::new();
        assert(params_view(params@) =~= Seq::<Seq<char>>::empty());
        ChannelQuery::new(modes, params)
    }

    /// Takes the next parameter for the letter `mode`, which takes one
    /// under `sign`.
    fn take_param(&mut self, Ghost(sign): Ghost<bool>, Ghost(mode): Ghost<u8>) -> (param: Option<&'a str>)
        requires
            takes_param(sign, mode),
        ensures
            opt_str_view(param) == param_for(sign, mode, old(self).params_left()),
            final(self).params_left() == params_after(sign, mode, old(self).params_left()),
            final(self).inner == old(self).inner,
    {
        if self.used < self.params.len() {
            let param = self.params[self.used];
            assert(old(self).params_left()[0] == param@);
            assert(old(self).params_left().drop_first() =~= params_view(self.params@).skip(
                self.used + 1,
            ));
            self.used = self.used + 1;
            if param.is_empty() {
                None
            } else {
                Some(param)
            }
        } else {
            None
        }
    }

    /// The event of the next mode letter, or `None` when the string has no
    /// letter left.  An error stands for its letter alone: the letters
    /// after it are still read.
    pub fn next(&mut self) -> (item: Option<Result<ChannelModeChange<'a>, Error>>)
        ensures
            match item {
                Some(event) => old(self)@.len() > 0 && event_view(event) == old(self)@[0],
                None => old(self)@.len() == 0,
            },
            final(self)@ == if old(self)@.len() > 0 {
                old(self)@.drop_first()
            } else {
                old(self)@
            },
    {
        proof {
            lemma_channel_events_unfold(self.inner.rest(), self.inner.value, self.params_left());
        }
        let item = self.inner.next();
        proof {
            lemma_channel_events_unfold(self.inner.rest(), self.inner.value, self.params_left());
        }
        let (value, mode) = match item {
            Some(letter) => letter,
            None => {
                return None;
            },
        };
        let c = mode as char;
        let event = if c == 'i' {
            Ok(ChannelModeChange::InviteOnly(value))
        } else if c == 'm' {
            Ok(ChannelModeChange::Moderated(value))
        } else if c == 'n' {
            Ok(ChannelModeChange::NoPrivMsgFromOutside(value))
        } else if c == 's' {
            Ok(ChannelModeChange::Secret(value))
        } else if c == 't' {
            Ok(ChannelModeChange::TopicRestricted(value))
        } else if c == 'k' {
            match self.take_param(Ghost(value), Ghost(mode)) {
                Some(param) => Ok(ChannelModeChange::Key(value, param)),
                None => Err(Error::MissingModeParam),
            }
        } else if c == 'l' {
            if value {
                match self.take_param(Ghost(value), Ghost(mode)) {
                    Some(param) => Ok(ChannelModeChange::UserLimit(Some(param))),
                    None => Err(Error::MissingModeParam),
                }
            } else {
                Ok(ChannelModeChange::UserLimit(None))
            }
        } else if c == 'b' {
            match self.take_param(Ghost(value), Ghost(mode)) {
                Some(param) => Ok(ChannelModeChange::ChangeBan(value, param)),
                None => Ok(ChannelModeChange::GetBans),
            }
        } else if c == 'e' {
            match self.take_param(Ghost(value), Ghost(mode)) {
                Some(param) => Ok(ChannelModeChange::ChangeException(value, param)),
                None => Ok(ChannelModeChange::GetExceptions),
            }
        } else if c == 'I' {
            match self.take_param(Ghost(value), Ghost(mode)) {
                Some(param) => Ok(ChannelModeChange::ChangeInvitation(value, param)),
                None => Ok(ChannelModeChange::GetInvitations),
            }
        } else if c == 'o' {
            match self.take_param(Ghost(value), Ghost(mode)) {
                Some(param) => Ok(ChannelModeChange::ChangeOperator(value, param)),
                None => Err(Error::MissingModeParam),
            }
        } else if c == 'v' {
            match self.take_param(Ghost(value), Ghost(mode)) {
                Some(param) => Ok(ChannelModeChange::ChangeVoice(value, param)),
                None => Err(Error::MissingModeParam),
            }
        } else {
            Err(Error::UnknownMode(c))
        };
        Some(event)
    }
}

/// Whether every event of `events` is a mode change, none an error.
pub open spec fn all_ok(events: Seq<Result<ChannelModeChangeView, Error>>) -> bool {
    forall|i: int| 0 <= i < events.len() ==> (#[trigger] events[i]) is Ok
}

/// Whether `s` is a channel mode string each of whose letters yields a mode
/// change when the string comes without parameters.
pub fn is_channel_mode_string(s: &str) -> (valid: bool)
    ensures
        valid == all_ok(channel_events(s.spec_bytes(), true, Seq::empty())),
{
    let mut query = ChannelQuery::simple(s);
    let ghost events = query@;
    let ghost mut seen: int = 0;
    loop
        invariant
            0 <= seen <= events.len(),
            events == channel_events(s.spec_bytes(), true, Seq::empty()),
            query@ == events.skip(seen),
            forall|i: int| 0 <= i < seen ==> (#[trigger] events[i]) is Ok,
        decreases events.len() - seen,
    {
        match query.next() {
            Some(event) => {
                assert(events.skip(seen)[0] == events[seen]);
                assert(events.skip(seen).drop_first() =~= events.skip(seen + 1));
                if event.is_err() {
                    return false;
                }
                proof {
                    seen = seen + 1;
                }
            },
            None => {
                return true;
            },
        }
    }
}

} // verus!
