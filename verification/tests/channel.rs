use ellidri::channel::masks::MaskSet;
use ellidri::channel::{Channel, MemberKey, MemberModes};
use ellidri::message::rpl::{ERR_KEYSET, ERR_USERNOTINCHANNEL};
use ellidri::message::Reply;
use ellidri::modes::{ChannelModeChange, ChannelQuery};

const ALICE: MemberKey = 1;
const BOB: MemberKey = 2;
const CAROL: MemberKey = 3;

fn nick_of(key: &MemberKey) -> &'static str {
    match *key {
        ALICE => "alice",
        BOB => "bob",
        CAROL => "carol",
        _ => "",
    }
}

fn apply(chan: &mut Channel, change: ChannelModeChange) -> Result<bool, Reply> {
    chan.apply_mode_change(change, nick_of)
}

fn flags(chan: &Channel) -> [bool; 9] {
    [
        chan.anonymous,
        chan.invite_only,
        chan.moderated,
        chan.no_privmsg_from_outside,
        chan.quiet,
        chan.private,
        chan.secret,
        chan.reop,
        chan.topic_restricted,
    ]
}

fn creators(chan: &Channel) -> Vec<MemberKey> {
    let mut keys: Vec<MemberKey> =
        chan.members.iter().filter(|(_, modes)| modes.creator).map(|(key, _)| *key).collect();
    keys.sort();
    keys
}

#[test]
fn reply_codes() {
    assert_eq!(ERR_USERNOTINCHANNEL, 441);
    assert_eq!(ERR_KEYSET, 467);
}

#[test]
fn member_symbol() {
    assert_eq!(MemberModes { creator: false, operator: true, voice: false }.symbol(), '@');
    assert_eq!(MemberModes { creator: true, operator: true, voice: true }.symbol(), '@');
    assert_eq!(MemberModes { creator: false, operator: false, voice: true }.symbol(), '+');
    assert_eq!(MemberModes { creator: true, operator: false, voice: false }.symbol(), ' ');
    assert_eq!(MemberModes::default().symbol(), ' ');
}

#[test]
fn default_member_has_no_mode() {
    assert_eq!(MemberModes::default(), MemberModes { creator: false, operator: false, voice: false });
}

#[test]
fn default_channel_is_empty() {
    let chan = Channel::default();
    assert!(chan.members.is_empty());
    assert_eq!(chan.topic, None);
    assert_eq!(chan.user_limit, None);
    assert_eq!(chan.key, None);
    assert!(chan.ban_mask.is_empty());
    assert!(chan.exception_mask.is_empty());
    assert!(chan.invitation_mask.is_empty());
    assert_eq!(flags(&chan), [false; 9]);
    assert_eq!(chan.modes(), "+");
}

#[test]
fn new_channel_has_the_default_modes() {
    let chan = Channel::new("+nt");
    assert!(chan.members.is_empty());
    assert_eq!(flags(&chan), [false, false, false, true, false, false, false, false, true]);
    assert_eq!(chan.modes(), "+nt");
}

#[test]
fn new_channel_passes_over_what_needs_a_parameter() {
    let chan = Channel::new("+kilo-v+s-i+zm");
    assert_eq!(chan.key, None);
    assert_eq!(chan.user_limit, None);
    assert!(chan.members.is_empty());
    assert!(chan.ban_mask.is_empty());
    assert!(!chan.invite_only);
    assert!(chan.secret);
    assert!(chan.moderated);
}

#[test]
fn new_channel_takes_the_last_sign_of_a_letter() {
    assert!(!Channel::new("+n-n").no_privmsg_from_outside);
    assert!(Channel::new("-n+n").no_privmsg_from_outside);
    assert!(!Channel::new("-n").no_privmsg_from_outside);
}

#[test]
fn first_member_is_creator_and_operator() {
    let mut chan = Channel::new("+n");
    chan.add_member(ALICE);
    assert_eq!(
        chan.members.get(&ALICE),
        Some(&MemberModes { creator: true, operator: true, voice: false })
    );
    chan.add_member(BOB);
    chan.add_member(CAROL);
    assert_eq!(chan.members.get(&BOB), Some(&MemberModes::default()));
    assert_eq!(chan.members.get(&CAROL), Some(&MemberModes::default()));
    assert_eq!(chan.members.len(), 3);
    assert_eq!(creators(&chan), vec![ALICE]);
}

#[test]
fn creator_stays_the_only_one_while_others_come_and_go() {
    let mut chan = Channel::default();
    chan.add_member(ALICE);
    chan.add_member(BOB);
    chan.remove_member(BOB);
    chan.add_member(CAROL);
    assert_eq!(apply(&mut chan, ChannelModeChange::ChangeOperator(true, "carol")), Ok(true));
    assert_eq!(apply(&mut chan, ChannelModeChange::ChangeOperator(false, "alice")), Ok(true));
    chan.add_member(BOB);
    chan.add_member(BOB);
    assert_eq!(creators(&chan), vec![ALICE]);
    assert_eq!(
        chan.members.get(&ALICE),
        Some(&MemberModes { creator: true, operator: false, voice: false })
    );
}

#[test]
fn channel_that_empties_gets_a_new_creator() {
    let mut chan = Channel::default();
    chan.add_member(ALICE);
    chan.remove_member(ALICE);
    assert!(chan.members.is_empty());
    chan.add_member(BOB);
    assert_eq!(creators(&chan), vec![BOB]);
}

#[test]
fn creator_that_leaves_or_joins_again_is_creator_no_more() {
    let mut chan = Channel::default();
    chan.add_member(ALICE);
    chan.add_member(BOB);
    chan.add_member(ALICE);
    assert_eq!(chan.members.get(&ALICE), Some(&MemberModes::default()));
    assert_eq!(creators(&chan), Vec::<MemberKey>::new());

    let mut chan = Channel::default();
    chan.add_member(ALICE);
    chan.add_member(BOB);
    chan.remove_member(ALICE);
    assert_eq!(creators(&chan), Vec::<MemberKey>::new());
    assert_eq!(chan.members.len(), 1);
}

#[test]
fn removing_a_member_twice_is_removing_it_once() {
    let mut chan = Channel::default();
    chan.add_member(ALICE);
    chan.add_member(BOB);
    chan.remove_member(BOB);
    chan.remove_member(BOB);
    chan.remove_member(CAROL);
    assert_eq!(chan.members.len(), 1);
    assert!(chan.members.contains_key(&ALICE));
}

#[test]
fn channel_creation_and_key() {
    let mut chan = Channel::new("");
    chan.add_member(ALICE);
    assert_eq!(
        chan.members.get(&ALICE),
        Some(&MemberModes { creator: true, operator: true, voice: false })
    );
    assert_eq!(apply(&mut chan, ChannelModeChange::Key(true, "secret")), Ok(true));
    assert_eq!(chan.key.as_deref(), Some("secret"));
    assert_eq!(apply(&mut chan, ChannelModeChange::Key(true, "other")), Err(ERR_KEYSET));
    assert_eq!(chan.key.as_deref(), Some("secret"));
    assert_eq!(apply(&mut chan, ChannelModeChange::Key(false, "Secret")), Ok(false));
    assert_eq!(chan.key.as_deref(), Some("secret"));
    assert_eq!(apply(&mut chan, ChannelModeChange::Key(false, "secret")), Ok(true));
    assert_eq!(chan.key, None);
    assert_eq!(apply(&mut chan, ChannelModeChange::Key(false, "whatever")), Ok(false));
    assert_eq!(chan.key, None);
}

#[test]
fn moderated_talk() {
    let mut chan = Channel::default();
    chan.add_member(ALICE);
    chan.add_member(BOB);
    assert_eq!(apply(&mut chan, ChannelModeChange::Moderated(true)), Ok(true));
    assert!(chan.can_talk(ALICE));
    assert!(!chan.can_talk(BOB));
    assert!(!chan.can_talk(CAROL));
    assert_eq!(apply(&mut chan, ChannelModeChange::ChangeVoice(true, "bob")), Ok(true));
    assert!(chan.can_talk(BOB));
    assert!(!chan.can_talk(CAROL));
}

#[test]
fn voiced_member_talks_on_a_moderated_channel() {
    let mut chan = Channel::new("+m");
    chan.add_member(ALICE);
    chan.members.insert(BOB, MemberModes { creator: false, operator: false, voice: true });
    chan.add_member(CAROL);
    assert!(chan.can_talk(BOB));
    assert!(!chan.can_talk(CAROL));
}

#[test]
fn talk_from_outside() {
    let mut chan = Channel::default();
    chan.add_member(ALICE);
    assert!(chan.can_talk(ALICE));
    assert!(chan.can_talk(BOB));
    assert_eq!(apply(&mut chan, ChannelModeChange::NoPrivMsgFromOutside(true)), Ok(true));
    assert!(chan.can_talk(ALICE));
    assert!(!chan.can_talk(BOB));
}

#[test]
fn ban_with_exception() {
    let mut chan = Channel::default();
    assert!(chan.can_join("alice!*@*"));
    assert_eq!(apply(&mut chan, ChannelModeChange::ChangeBan(true, "alice!*@*")), Ok(true));
    assert!(!chan.can_join("alice!*@*"));
    assert!(chan.can_join("alice"));
    assert!(chan.can_join("bob!*@*"));
    assert_eq!(
        apply(&mut chan, ChannelModeChange::ChangeException(true, "alice!*@*")),
        Ok(true)
    );
    assert!(chan.can_join("alice!*@*"));
}

#[test]
fn ban_with_invitation() {
    let mut chan = Channel::default();
    assert_eq!(apply(&mut chan, ChannelModeChange::ChangeBan(true, "bob")), Ok(true));
    assert!(!chan.can_join("bob"));
    assert_eq!(apply(&mut chan, ChannelModeChange::ChangeInvitation(true, "bob")), Ok(true));
    assert!(chan.can_join("bob"));
    assert_eq!(apply(&mut chan, ChannelModeChange::ChangeInvitation(false, "bob")), Ok(true));
    assert!(!chan.can_join("bob"));
}

#[test]
fn user_limit_parse() {
    let mut chan = Channel::default();
    assert_eq!(apply(&mut chan, ChannelModeChange::UserLimit(Some("42"))), Ok(true));
    assert_eq!(chan.user_limit, Some(42));
    assert_eq!(apply(&mut chan, ChannelModeChange::UserLimit(Some("notanumber"))), Ok(false));
    assert_eq!(chan.user_limit, Some(42));
    assert_eq!(apply(&mut chan, ChannelModeChange::UserLimit(Some("42"))), Ok(false));
    assert_eq!(apply(&mut chan, ChannelModeChange::UserLimit(Some("+042"))), Ok(false));
    assert_eq!(apply(&mut chan, ChannelModeChange::UserLimit(Some("0"))), Ok(true));
    assert_eq!(chan.user_limit, Some(0));
    assert_eq!(apply(&mut chan, ChannelModeChange::UserLimit(Some("-1"))), Ok(false));
    assert_eq!(apply(&mut chan, ChannelModeChange::UserLimit(Some(" 7"))), Ok(false));
    assert_eq!(chan.user_limit, Some(0));
    assert_eq!(apply(&mut chan, ChannelModeChange::UserLimit(None)), Ok(true));
    assert_eq!(chan.user_limit, None);
    assert_eq!(apply(&mut chan, ChannelModeChange::UserLimit(None)), Ok(false));
}

#[test]
fn flag_changes_apply_once() {
    let changes = [
        ChannelModeChange::InviteOnly(true),
        ChannelModeChange::Moderated(true),
        ChannelModeChange::NoPrivMsgFromOutside(true),
        ChannelModeChange::Secret(true),
        ChannelModeChange::TopicRestricted(true),
    ];
    let mut chan = Channel::default();
    for change in changes {
        assert_eq!(apply(&mut chan, change), Ok(true));
        assert_eq!(apply(&mut chan, change), Ok(false));
    }
    assert_eq!(flags(&chan), [false, true, true, true, false, false, true, false, true]);
    assert_eq!(apply(&mut chan, ChannelModeChange::InviteOnly(false)), Ok(true));
    assert_eq!(apply(&mut chan, ChannelModeChange::InviteOnly(false)), Ok(false));
    assert!(!chan.invite_only);
}

#[test]
fn ban_then_unban() {
    let mut chan = Channel::default();
    chan.ban_mask.insert("other".to_owned());
    assert_eq!(apply(&mut chan, ChannelModeChange::ChangeBan(true, "x")), Ok(true));
    assert!(chan.ban_mask.contains("x"));
    assert_eq!(apply(&mut chan, ChannelModeChange::ChangeBan(false, "x")), Ok(true));
    assert!(!chan.ban_mask.contains("x"));
    assert!(chan.ban_mask.contains("other"));
    assert_eq!(chan.ban_mask.len(), 1);
}

#[test]
fn ban_of_a_banned_mask_changes_nothing() {
    let mut chan = Channel::default();
    assert_eq!(apply(&mut chan, ChannelModeChange::ChangeBan(true, "x")), Ok(true));
    assert_eq!(apply(&mut chan, ChannelModeChange::ChangeBan(true, "x")), Ok(false));
    assert_eq!(apply(&mut chan, ChannelModeChange::ChangeBan(false, "x")), Ok(true));
    assert_eq!(apply(&mut chan, ChannelModeChange::ChangeBan(false, "x")), Ok(false));
    assert!(chan.ban_mask.is_empty());
}

#[test]
fn exception_and_invitation_masks() {
    let mut chan = Channel::default();
    assert_eq!(apply(&mut chan, ChannelModeChange::ChangeException(true, "e")), Ok(true));
    assert_eq!(apply(&mut chan, ChannelModeChange::ChangeException(true, "e")), Ok(false));
    assert_eq!(apply(&mut chan, ChannelModeChange::ChangeInvitation(true, "i")), Ok(true));
    assert!(chan.exception_mask.contains("e"));
    assert!(chan.invitation_mask.contains("i"));
    assert!(chan.ban_mask.is_empty());
    assert_eq!(apply(&mut chan, ChannelModeChange::ChangeException(false, "e")), Ok(true));
    assert_eq!(apply(&mut chan, ChannelModeChange::ChangeInvitation(false, "e")), Ok(false));
    assert!(chan.exception_mask.is_empty());
    assert_eq!(chan.invitation_mask.len(), 1);
}

#[test]
fn operator_change() {
    let mut chan = Channel::default();
    chan.add_member(ALICE);
    chan.add_member(BOB);
    assert_eq!(apply(&mut chan, ChannelModeChange::ChangeOperator(true, "bob")), Ok(true));
    assert_eq!(
        chan.members.get(&BOB),
        Some(&MemberModes { creator: false, operator: true, voice: false })
    );
    assert_eq!(apply(&mut chan, ChannelModeChange::ChangeOperator(true, "bob")), Ok(false));
    assert_eq!(apply(&mut chan, ChannelModeChange::ChangeOperator(true, "alice")), Ok(false));
    assert_eq!(apply(&mut chan, ChannelModeChange::ChangeOperator(false, "bob")), Ok(true));
    assert_eq!(chan.members.get(&BOB), Some(&MemberModes::default()));
    assert_eq!(
        chan.members.get(&ALICE),
        Some(&MemberModes { creator: true, operator: true, voice: false })
    );
}

#[test]
fn voice_change() {
    let mut chan = Channel::default();
    chan.add_member(ALICE);
    chan.add_member(BOB);
    assert_eq!(apply(&mut chan, ChannelModeChange::ChangeVoice(true, "bob")), Ok(true));
    assert_eq!(
        chan.members.get(&BOB),
        Some(&MemberModes { creator: false, operator: false, voice: true })
    );
    assert_eq!(chan.members.get(&BOB).unwrap().symbol(), '+');
    assert_eq!(apply(&mut chan, ChannelModeChange::ChangeVoice(true, "bob")), Ok(false));
    assert_eq!(apply(&mut chan, ChannelModeChange::ChangeVoice(true, "alice")), Ok(true));
    assert_eq!(
        chan.members.get(&ALICE),
        Some(&MemberModes { creator: true, operator: true, voice: true })
    );
    assert_eq!(apply(&mut chan, ChannelModeChange::ChangeVoice(false, "bob")), Ok(true));
    assert_eq!(chan.members.get(&BOB), Some(&MemberModes::default()));
}

#[test]
fn member_change_for_a_stranger() {
    let mut chan = Channel::default();
    chan.add_member(ALICE);
    assert_eq!(
        apply(&mut chan, ChannelModeChange::ChangeOperator(true, "bob")),
        Err(ERR_USERNOTINCHANNEL)
    );
    assert_eq!(
        apply(&mut chan, ChannelModeChange::ChangeVoice(true, "carol")),
        Err(ERR_USERNOTINCHANNEL)
    );
    assert_eq!(chan.members.len(), 1);
    let mut empty = Channel::default();
    assert_eq!(
        apply(&mut empty, ChannelModeChange::ChangeOperator(false, "alice")),
        Err(ERR_USERNOTINCHANNEL)
    );
}

#[test]
fn member_change_with_the_member_looked_up() {
    let mut chan = Channel::default();
    chan.add_member(ALICE);
    chan.add_member(BOB);
    assert_eq!(chan.find_member("bob", nick_of), Some(BOB));
    assert_eq!(chan.find_member("carol", nick_of), None);
    let change = ChannelModeChange::ChangeOperator(true, "bob");
    assert_eq!(chan.apply_mode_change_to(change, Some(BOB)), Ok(true));
    assert_eq!(chan.apply_mode_change_to(change, Some(CAROL)), Err(ERR_USERNOTINCHANNEL));
    assert_eq!(chan.apply_mode_change_to(change, None), Err(ERR_USERNOTINCHANNEL));
    assert_eq!(chan.apply_mode_change_to(ChannelModeChange::Secret(true), Some(BOB)), Ok(true));
}

#[test]
fn listing_requests_change_nothing() {
    let mut chan = Channel::new("+n");
    chan.add_member(ALICE);
    for change in [
        ChannelModeChange::GetBans,
        ChannelModeChange::GetExceptions,
        ChannelModeChange::GetInvitations,
    ] {
        assert_eq!(apply(&mut chan, change), Ok(false));
    }
    assert_eq!(chan.modes(), "+n");
    assert_eq!(chan.members.len(), 1);
}

#[test]
fn mode_summary_order() {
    let mut chan = Channel::default();
    chan.anonymous = true;
    chan.invite_only = true;
    chan.moderated = true;
    chan.no_privmsg_from_outside = true;
    chan.quiet = true;
    chan.private = true;
    chan.reop = true;
    chan.topic_restricted = true;
    chan.user_limit = Some(5);
    chan.key = Some("k".to_owned());
    assert_eq!(chan.modes(), "+aimnqprtlk");
    chan.secret = true;
    assert_eq!(chan.modes(), "+aimnqprtslk");
    chan.quiet = false;
    chan.user_limit = None;
    assert_eq!(chan.modes(), "+aimnprtsk");
}

#[test]
fn mode_summary_shows_key_and_limit() {
    let mut chan = Channel::default();
    assert!(!chan.modes().contains('k'));
    assert!(!chan.modes().contains('l'));
    assert_eq!(apply(&mut chan, ChannelModeChange::Key(true, "pass")), Ok(true));
    assert_eq!(chan.modes(), "+k");
    assert_eq!(apply(&mut chan, ChannelModeChange::UserLimit(Some("9"))), Ok(true));
    assert_eq!(chan.modes(), "+lk");
}

#[test]
fn mode_summary_shows_the_secret_flag() {
    let chan = Channel::new("+s");
    assert!(chan.secret);
    assert_eq!(chan.modes(), "+s");
    assert_eq!(Channel::new("+st").modes(), "+ts");
}

#[test]
fn mode_summary_read_back() {
    for modes in ["", "+n", "+imnt", "+tn-i", "+m", "+s", "+stn", "+imnst", "+s-s"] {
        let chan = Channel::new(modes);
        let summary = chan.modes();
        let again = Channel::new(&summary);
        assert_eq!(flags(&again), flags(&chan), "{:?}", modes);
        assert_eq!(again.modes(), summary);
    }
}

#[test]
fn mode_summary_read_back_loses_what_it_cannot_say() {
    let mut chan = Channel::new("+i");
    chan.private = true;
    chan.key = Some("k".to_owned());
    let summary = chan.modes();
    assert_eq!(summary, "+ipk");
    let mut query = ChannelQuery::simple(&summary);
    let mut again = Channel::default();
    while let Some(event) = query.next() {
        if let Ok(change) = event {
            assert!(apply(&mut again, change).is_ok());
        }
    }
    assert_eq!(flags(&again), [false, true, false, false, false, false, false, false, false]);
}

#[test]
fn channel_symbol() {
    let mut chan = Channel::default();
    assert_eq!(chan.symbol(), "=");
    chan.private = true;
    assert_eq!(chan.symbol(), "*");
    chan.secret = true;
    assert_eq!(chan.symbol(), "@");
    chan.private = false;
    assert_eq!(chan.symbol(), "@");
}

#[test]
fn mask_set_holds_each_mask_once() {
    let mut set = MaskSet::new();
    assert!(set.is_empty());
    assert_eq!(set.len(), 0);
    assert!(set.insert("a!*@*".to_owned()));
    assert!(set.insert("b!*@*".to_owned()));
    assert!(!set.insert("a!*@*".to_owned()));
    assert!(set.insert("A!*@*".to_owned()));
    assert_eq!(set.len(), 3);
    assert!(set.contains("a!*@*"));
    assert!(!set.contains("a"));
    assert_eq!(set.masks(), &vec!["a!*@*".to_owned(), "b!*@*".to_owned(), "A!*@*".to_owned()]);
    assert!(set.remove("b!*@*"));
    assert!(!set.remove("b!*@*"));
    assert!(!set.remove("c!*@*"));
    assert_eq!(set.masks(), &vec!["a!*@*".to_owned(), "A!*@*".to_owned()]);
    assert!(set.remove("a!*@*"));
    assert!(set.remove("A!*@*"));
    assert!(set.is_empty());
    assert!(MaskSet::default().is_empty());
}
