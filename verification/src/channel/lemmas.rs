//! What holds of every channel: who its creator is, what applying a mode
//! change twice does, and what the mode summary gives back.

use vstd::prelude::*;
use vstd::utf8::{encode_utf8, is_ascii_chars_encode_utf8};

use crate::channel::{ChannelView, MemberKey};
use crate::message::rpl::{ERR_KEYSET, ERR_USERNOTINCHANNEL};
use crate::message::Reply;
use crate::modes::{channel_events, ChannelModeChangeView};

verus! {

/// Something that happens to a channel: a member joins or leaves, or a mode
/// change is applied with the member it names looked up.
pub enum ChannelEvent {
    Join(MemberKey),
    Part(MemberKey),
    Mode(ChannelModeChangeView, Option<MemberKey>),
}

impl ChannelView {
    /// The channel after `event`.
    pub open spec fn step(self, event: ChannelEvent) -> ChannelView {
        match event {
            ChannelEvent::Join(key) => self.join(key),
            ChannelEvent::Part(key) => self.part(key),
            ChannelEvent::Mode(change, target) => self.after(change, target),
        }
    }

    /// The channel after `events`, in order.
    pub open spec fn run(self, events: Seq<ChannelEvent>) -> ChannelView
        decreases events.len(),
    {
        if events.len() == 0 {
            self
        } else {
            self.run(events.drop_last()).step(events.last())
        }
    }

    /// Whether the two channels have the same flags set.
    pub open spec fn same_flags(self, other: ChannelView) -> bool {
        &&& self.anonymous == other.anonymous
        &&& self.invite_only == other.invite_only
        &&& self.moderated == other.moderated
        &&& self.no_privmsg_from_outside == other.no_privmsg_from_outside
        &&& self.quiet == other.quiet
        &&& self.private == other.private
        &&& self.secret == other.secret
        &&& self.reop == other.reop
        &&& self.topic_restricted == other.topic_restricted
    }

    /// Whether `c` is a character that a mode summary can hold.
    pub open spec fn is_summary_letter(c: char) -> bool {
        c == '+' || c == 'a' || c == 'i' || c == 'm' || c == 'n' || c == 'q' || c == 'p' || c
            == 'r' || c == 't' || c == 's' || c == 'l' || c == 'k'
    }

    /// Whether no two members are marked as creator.
    pub open spec fn at_most_one_creator(self) -> bool {
        forall|a: MemberKey, b: MemberKey|
            self.creators().contains(a) && self.creators().contains(b) ==> a == b
    }
}

/// A mode change leaves the creator mark of every member as it is.
pub proof fn lemma_mode_change_keeps_creators(
    chan: ChannelView,
    change: ChannelModeChangeView,
    target: Option<MemberKey>,
)
    ensures
        chan.after(change, target).creators() == chan.creators(),
        chan.after(change, target).members.dom() == chan.members.dom(),
{
    assert(chan.after(change, target).members.dom() =~= chan.members.dom());
    assert(chan.after(change, target).creators() =~= chan.creators());
}

/// A channel never has two creators: if it has at most one, it has at most
/// one after whatever happens to it.
pub proof fn lemma_at_most_one_creator(chan: ChannelView, events: Seq<ChannelEvent>)
    requires
        chan.at_most_one_creator(),
    ensures
        chan.run(events).at_most_one_creator(),
    decreases events.len(),
{
    if events.len() > 0 {
        let before = chan.run(events.drop_last());
        let now = chan.run(events);
        lemma_at_most_one_creator(chan, events.drop_last());
        match events.last() {
            ChannelEvent::Join(key) => {
                if before.members.dom().is_empty() {
                    assert forall|a: MemberKey| now.creators().contains(a) implies a == key by {
                        if a != key {
                            assert(before.members.dom().contains(a));
                        }
                    }
                } else {
                    assert forall|a: MemberKey| now.creators().contains(
                        a,
                    ) implies before.creators().contains(a) by {}
                }
            },
            ChannelEvent::Part(key) => {
                assert forall|a: MemberKey| now.creators().contains(
                    a,
                ) implies before.creators().contains(a) by {}
            },
            ChannelEvent::Mode(change, target) => {
                lemma_mode_change_keeps_creators(before, change, target);
            },
        }
        assert forall|a: MemberKey, b: MemberKey|
            now.creators().contains(a) && now.creators().contains(b) implies a == b by {
            if !before.members.dom().is_empty() || !(events.last() is Join) {
                assert(before.creators().contains(a) && before.creators().contains(b));
            }
        }
    }
}

/// The member that joins an empty channel is its creator, and the only
/// one, for as long as it neither leaves nor joins again, whoever else
/// joins or leaves and whatever modes are changed.
pub proof fn lemma_first_member_is_the_creator(
    chan: ChannelView,
    first: MemberKey,
    events: Seq<ChannelEvent>,
)
    requires
        chan.members.dom().is_empty(),
        forall|i: int|
            0 <= i < events.len() ==> events[i] != ChannelEvent::Join(first) && events[i]
                != ChannelEvent::Part(first),
    ensures
        chan.join(first).run(events).creators() == set![first],
        chan.join(first).run(events).members.contains_key(first),
    decreases events.len(),
{
    let start = chan.join(first);
    if events.len() == 0 {
        assert forall|a: MemberKey| start.creators().contains(a) implies a == first by {
            if a != first {
                assert(chan.members.dom().contains(a));
            }
        }
        assert(start.creators() =~= set![first]);
    } else {
        let before = start.run(events.drop_last());
        lemma_first_member_is_the_creator(chan, first, events.drop_last());
        assert(before.creators().contains(first));
        match events.last() {
            ChannelEvent::Join(key) => {
                assert(!before.members.dom().is_empty()) by {
                    assert(before.members.dom().contains(first));
                }
                assert forall|a: MemberKey|
                    before.join(key).creators().contains(a) == before.creators().contains(a) by {
                    if a == key {
                        assert(!before.creators().contains(key));
                    }
                }
            },
            ChannelEvent::Part(key) => {
                assert forall|a: MemberKey|
                    before.part(key).creators().contains(a) == before.creators().contains(a) by {
                    if a == key {
                        assert(!before.creators().contains(key));
                    }
                }
            },
            ChannelEvent::Mode(change, target) => {
                lemma_mode_change_keeps_creators(before, change, target);
            },
        }
        assert(start.run(events).creators() =~= set![first]);
    }
}

/// What applying a mode change returns when the same change has just been
/// applied: a key cannot be set twice, a member that is not there is still
/// not there, and anything else has nothing left to change.
pub open spec fn second_outcome(
    chan: ChannelView,
    change: ChannelModeChangeView,
    target: Option<MemberKey>,
) -> Result<bool, Reply> {
    if change matches ChannelModeChangeView::Key(true, _) {
        Err(ERR_KEYSET)
    } else if change.member() is Some && !(target matches Some(key) && chan.members.contains_key(
        key,
    )) {
        Err(ERR_USERNOTINCHANNEL)
    } else {
        Ok(false)
    }
}

/// Applying a mode change a second time changes nothing.  For a flag, and
/// for anything but a key to set or a member that is not there, the second
/// application says so by returning `false`.
pub proof fn lemma_mode_change_twice(
    chan: ChannelView,
    change: ChannelModeChangeView,
    target: Option<MemberKey>,
)
    ensures
        chan.after(change, target).after(change, target) == chan.after(change, target),
        chan.after(change, target).outcome(change, target) == second_outcome(chan, change, target),
{
    let once = chan.after(change, target);
    let twice = once.after(change, target);
    match change {
        ChannelModeChangeView::ChangeBan(_, _) => {
            assert(twice.ban_mask =~= once.ban_mask);
        },
        ChannelModeChangeView::ChangeException(_, _) => {
            assert(twice.exception_mask =~= once.exception_mask);
        },
        ChannelModeChangeView::ChangeInvitation(_, _) => {
            assert(twice.invitation_mask =~= once.invitation_mask);
        },
        ChannelModeChangeView::ChangeOperator(_, _) | ChannelModeChangeView::ChangeVoice(_, _) => {
            assert(twice.members =~= once.members);
        },
        _ => {},
    }
}

/// Setting a ban and removing it again: the first step changes something
/// if and only if the mask was not banned before, the second always does,
/// and the channel is then without the mask.  Where the mask was not
/// banned before, the channel is as it was.
pub proof fn lemma_ban_then_unban(chan: ChannelView, mask: Seq<char>)
    ensures
        ({
            let set = ChannelModeChangeView::ChangeBan(true, mask);
            let unset = ChannelModeChangeView::ChangeBan(false, mask);
            let banned = chan.after(set, None);
            let back = banned.after(unset, None);
            &&& chan.outcome(set, None) == Ok::<bool, Reply>(!chan.ban_mask.contains(mask))
            &&& banned.outcome(unset, None) == Ok::<bool, Reply>(true)
            &&& back == (ChannelView { ban_mask: chan.ban_mask.remove(mask), ..chan })
            &&& !chan.ban_mask.contains(mask) ==> back == chan
        }),
{
    let set = ChannelModeChangeView::ChangeBan(true, mask);
    let unset = ChannelModeChangeView::ChangeBan(false, mask);
    let back = chan.after(set, None).after(unset, None);
    assert(back.ban_mask =~= chan.ban_mask.remove(mask));
    assert(back =~= (ChannelView { ban_mask: chan.ban_mask.remove(mask), ..chan }));
    if !chan.ban_mask.contains(mask) {
        assert(chan.ban_mask.remove(mask) =~= chan.ban_mask);
        assert(back =~= chan);
    }
}

/// If `x` stands in `a + b`, it stands in `a` or in `b`, and the other way
/// round.
proof fn lemma_contains_of_concat(a: Seq<char>, b: Seq<char>, x: char)
    ensures
        (a + b).contains(x) == (a.contains(x) || b.contains(x)),
{
    if a.contains(x) {
        let j = choose|j: int| 0 <= j < a.len() && a[j] == x;
        assert((a + b)[j] == x);
    }
    if b.contains(x) {
        let j = choose|j: int| 0 <= j < b.len() && b[j] == x;
        assert((a + b)[a.len() + j] == x);
    }
    if (a + b).contains(x) {
        let j = choose|j: int| 0 <= j < (a + b).len() && (a + b)[j] == x;
        if j < a.len() {
            assert(a[j] == x);
        } else {
            assert(b[j - a.len()] == x);
        }
    }
}

/// The one letter that `letter_if` may give is all that it holds.
proof fn lemma_contains_of_letter(set: bool, letter: char, x: char)
    ensures
        ChannelView::letter_if(set, letter).contains(x) == (set && letter == x),
{
    if set {
        assert(ChannelView::letter_if(set, letter)[0] == letter);
    }
}

/// `s` continued by the letter that `letter_if` may give holds what `s`
/// holds, and that letter.
proof fn lemma_contains_with_letter(s: Seq<char>, set: bool, letter: char, x: char)
    ensures
        (s + ChannelView::letter_if(set, letter)).contains(x) == (s.contains(x) || (set && letter
            == x)),
{
    lemma_contains_of_concat(s, ChannelView::letter_if(set, letter), x);
    lemma_contains_of_letter(set, letter, x);
}

/// What starts `a` starts `a + b`.
proof fn lemma_first_of_concat(a: Seq<char>, b: Seq<char>)
    requires
        a.len() > 0,
    ensures
        (a + b).len() > 0,
        (a + b)[0] == a[0],
{
}

/// A mode summary starts with `+`.
pub proof fn lemma_summary_starts_with_plus(chan: ChannelView)
    ensures
        chan.mode_summary().len() > 0,
        chan.mode_summary()[0] == '+',
{
    let sum0 = seq!['+'];
    let sum1 = sum0 + ChannelView::letter_if(chan.anonymous, 'a');
    let sum2 = sum1 + ChannelView::letter_if(chan.invite_only, 'i');
    let sum3 = sum2 + ChannelView::letter_if(chan.moderated, 'm');
    let sum4 = sum3 + ChannelView::letter_if(chan.no_privmsg_from_outside, 'n');
    let sum5 = sum4 + ChannelView::letter_if(chan.quiet, 'q');
    let sum6 = sum5 + ChannelView::letter_if(chan.private, 'p');
    let sum7 = sum6 + ChannelView::letter_if(chan.reop, 'r');
    let sum8 = sum7 + ChannelView::letter_if(chan.topic_restricted, 't');
    let sum9 = sum8 + ChannelView::letter_if(chan.secret, 's');
    let sum10 = sum9 + ChannelView::letter_if(chan.user_limit is Some, 'l');
    assert(sum0[0] == '+');
    lemma_first_of_concat(sum0, ChannelView::letter_if(chan.anonymous, 'a'));
    lemma_first_of_concat(sum1, ChannelView::letter_if(chan.invite_only, 'i'));
    lemma_first_of_concat(sum2, ChannelView::letter_if(chan.moderated, 'm'));
    lemma_first_of_concat(sum3, ChannelView::letter_if(chan.no_privmsg_from_outside, 'n'));
    lemma_first_of_concat(sum4, ChannelView::letter_if(chan.quiet, 'q'));
    lemma_first_of_concat(sum5, ChannelView::letter_if(chan.private, 'p'));
    lemma_first_of_concat(sum6, ChannelView::letter_if(chan.reop, 'r'));
    lemma_first_of_concat(sum7, ChannelView::letter_if(chan.topic_restricted, 't'));
    lemma_first_of_concat(sum8, ChannelView::letter_if(chan.secret, 's'));
    lemma_first_of_concat(sum9, ChannelView::letter_if(chan.user_limit is Some, 'l'));
    lemma_first_of_concat(sum10, ChannelView::letter_if(chan.key is Some, 'k'));
}

/// The characters that a mode summary holds are `+` and the letter of each
/// mode that is set: `l` where the channel has a user limit, `k` where it
/// has a key.
pub proof fn lemma_summary_contains(chan: ChannelView, x: char)
    ensures
        chan.mode_summary().contains(x) == (x == '+' || (chan.anonymous && x == 'a') || (
        chan.invite_only && x == 'i') || (chan.moderated && x == 'm') || (
        chan.no_privmsg_from_outside && x == 'n') || (chan.quiet && x == 'q') || (chan.private
            && x == 'p') || (chan.reop && x == 'r') || (chan.topic_restricted && x == 't') || (
        chan.secret && x == 's') || (chan.user_limit is Some && x == 'l') || (chan.key is Some
            && x == 'k')),
{
    let sum0 = seq!['+'];
    let sum1 = sum0 + ChannelView::letter_if(chan.anonymous, 'a');
    let sum2 = sum1 + ChannelView::letter_if(chan.invite_only, 'i');
    let sum3 = sum2 + ChannelView::letter_if(chan.moderated, 'm');
    let sum4 = sum3 + ChannelView::letter_if(chan.no_privmsg_from_outside, 'n');
    let sum5 = sum4 + ChannelView::letter_if(chan.quiet, 'q');
    let sum6 = sum5 + ChannelView::letter_if(chan.private, 'p');
    let sum7 = sum6 + ChannelView::letter_if(chan.reop, 'r');
    let sum8 = sum7 + ChannelView::letter_if(chan.topic_restricted, 't');
    let sum9 = sum8 + ChannelView::letter_if(chan.secret, 's');
    let sum10 = sum9 + ChannelView::letter_if(chan.user_limit is Some, 'l');
    let sum11 = sum10 + ChannelView::letter_if(chan.key is Some, 'k');
    assert(sum0.contains(x) == (x == '+')) by {
        assert(sum0[0] == '+');
    }
    lemma_contains_with_letter(sum0, chan.anonymous, 'a', x);
    lemma_contains_with_letter(sum1, chan.invite_only, 'i', x);
    lemma_contains_with_letter(sum2, chan.moderated, 'm', x);
    lemma_contains_with_letter(sum3, chan.no_privmsg_from_outside, 'n', x);
    lemma_contains_with_letter(sum4, chan.quiet, 'q', x);
    lemma_contains_with_letter(sum5, chan.private, 'p', x);
    lemma_contains_with_letter(sum6, chan.reop, 'r', x);
    lemma_contains_with_letter(sum7, chan.topic_restricted, 't', x);
    lemma_contains_with_letter(sum8, chan.secret, 's', x);
    lemma_contains_with_letter(sum9, chan.user_limit is Some, 'l', x);
    lemma_contains_with_letter(sum10, chan.key is Some, 'k', x);
    assert(chan.mode_summary() == sum11);
}

/// Every character of a mode summary is `+` or one of its eleven letters.
proof fn lemma_summary_letters(chan: ChannelView, i: int)
    requires
        0 <= i < chan.mode_summary().len(),
    ensures
        ChannelView::is_summary_letter(chan.mode_summary()[i]),
{
    let x = chan.mode_summary()[i];
    assert(chan.mode_summary().contains(x));
    lemma_summary_contains(chan, x);
}

/// A mode summary holds the letter of a flag if and only if the flag is
/// set, and does not hold `-`.
proof fn lemma_summary_holds(chan: ChannelView)
    ensures
        chan.mode_summary().contains('i') == chan.invite_only,
        chan.mode_summary().contains('m') == chan.moderated,
        chan.mode_summary().contains('n') == chan.no_privmsg_from_outside,
        chan.mode_summary().contains('t') == chan.topic_restricted,
        chan.mode_summary().contains('s') == chan.secret,
        !chan.mode_summary().contains('-'),
{
    lemma_summary_contains(chan, 'i');
    lemma_summary_contains(chan, 'm');
    lemma_summary_contains(chan, 'n');
    lemma_summary_contains(chan, 't');
    lemma_summary_contains(chan, 's');
    lemma_summary_contains(chan, '-');
}

/// A mode string without `-` that comes without parameters sets the flags
/// whose letters it holds, and changes nothing else.
pub proof fn lemma_flags_of_plain_string(chan: ChannelView, modes: Seq<u8>)
    requires
        !modes.contains('-' as u8),
    ensures
        chan.after_all(channel_events(modes, true, Seq::empty())) == (ChannelView {
            invite_only: chan.invite_only || modes.contains('i' as u8),
            moderated: chan.moderated || modes.contains('m' as u8),
            no_privmsg_from_outside: chan.no_privmsg_from_outside || modes.contains('n' as u8),
            secret: chan.secret || modes.contains('s' as u8),
            topic_restricted: chan.topic_restricted || modes.contains('t' as u8),
            ..chan
        }),
    decreases modes.len(),
{
    let events = channel_events(modes, true, Seq::empty());
    if modes.len() > 0 {
        let rest = modes.drop_first();
        assert(modes[0] != '-' as u8);
        assert forall|x: u8| modes.contains(x) == (modes[0] == x || rest.contains(x)) by {
            if rest.contains(x) {
                let j = choose|j: int| 0 <= j < rest.len() && rest[j] == x;
                assert(modes[j + 1] == x);
            }
            if modes.contains(x) && modes[0] != x {
                let j = choose|j: int| 0 <= j < modes.len() && modes[j] == x;
                assert(rest[j - 1] == x);
            }
        }
        if modes[0] as char == '+' {
            lemma_flags_of_plain_string(chan, rest);
        } else {
            let next = match events[0] {
                Ok(change) => chan.after(change, None),
                Err(_) => chan,
            };
            assert(events.drop_first() =~= channel_events(rest, true, Seq::empty()));
            lemma_flags_of_plain_string(next, rest);
        }
    } else {
        assert(forall|x: u8| !modes.contains(x));
    }
}

/// A channel made from the mode summary of `chan` has the flags `i`, `m`,
/// `n`, `t` and `s` set exactly where `chan` has them set, and is empty
/// otherwise.  It has all the flags of `chan` where `chan` is not
/// anonymous, quiet, private or reop: `a`, `q`, `p` and `r` are no letters
/// of a mode string.
pub proof fn lemma_mode_summary_round_trip(chan: ChannelView)
    ensures
        ({
            let again = ChannelView::empty().after_all(
                channel_events(encode_utf8(chan.mode_summary()), true, Seq::empty()),
            );
            &&& again == (ChannelView {
                invite_only: chan.invite_only,
                moderated: chan.moderated,
                no_privmsg_from_outside: chan.no_privmsg_from_outside,
                secret: chan.secret,
                topic_restricted: chan.topic_restricted,
                ..ChannelView::empty()
            })
            &&& !chan.anonymous && !chan.quiet && !chan.private && !chan.reop
                ==> again.same_flags(chan)
        }),
{
    let summary = chan.mode_summary();
    let modes = encode_utf8(summary);
    assert forall|i: int| 0 <= i < summary.len() implies ChannelView::is_summary_letter(
        #[trigger] summary[i],
    ) by {
        lemma_summary_letters(chan, i);
    }
    is_ascii_chars_encode_utf8(summary);
    assert forall|x: char| ChannelView::is_summary_letter(x) || x == '-' implies (
    modes.contains(x as u8) <==> summary.contains(x)) by {
        if modes.contains(x as u8) {
            let j = choose|j: int| 0 <= j < modes.len() && modes[j] == x as u8;
            assert(summary[j] as u8 == modes[j]);
            assert(summary[j] == x);
        }
        if summary.contains(x) {
            let j = choose|j: int| 0 <= j < summary.len() && summary[j] == x;
            assert(modes[j] == x as u8);
        }
    }
    lemma_summary_holds(chan);
    lemma_flags_of_plain_string(ChannelView::empty(), modes);
}

} // verus!
