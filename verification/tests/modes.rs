use ellidri::modes::{
    is_channel_mode_string, ChannelModeChange, ChannelQuery, Error, UserModeChange, UserQuery,
    CHANMODES, EXTENDED_CHAN_MODES, SIMPLE_CHAN_MODES, USER_MODES,
};

fn channel_events<'a>(modes: &'a str, params: Vec<&'a str>) -> Vec<Result<ChannelModeChange<'a>, Error>> {
    let mut query = ChannelQuery::new(modes, params);
    let mut events = Vec::new();
    while let Some(event) = query.next() {
        events.push(event);
    }
    assert_eq!(query.next(), None);
    events
}

fn user_events(modes: &str) -> Vec<Result<UserModeChange, Error>> {
    let mut query = UserQuery::new(modes);
    let mut events = Vec::new();
    while let Some(event) = query.next() {
        events.push(event);
    }
    assert_eq!(query.next(), None);
    events
}

#[test]
fn advertised_mode_letters() {
    assert_eq!(USER_MODES, "aiorsw");
    assert_eq!(SIMPLE_CHAN_MODES, "aimnqst");
    assert_eq!(EXTENDED_CHAN_MODES, "beIklov");
    assert_eq!(CHANMODES, "CHANMODES=beI,k,l,aimnpqst");
}

#[test]
fn user_mode_invisible_follows_the_sign() {
    assert_eq!(user_events("i"), vec![Ok(UserModeChange::Invisible(true))]);
    assert_eq!(user_events("+i"), vec![Ok(UserModeChange::Invisible(true))]);
    assert_eq!(user_events("-i"), vec![Ok(UserModeChange::Invisible(false))]);
    assert_eq!(
        user_events("-i+i-+i"),
        vec![
            Ok(UserModeChange::Invisible(false)),
            Ok(UserModeChange::Invisible(true)),
            Ok(UserModeChange::Invisible(true)),
        ]
    );
}

#[test]
fn user_mode_reserved_letters_are_unsettable() {
    assert_eq!(
        user_events("aorsw"),
        vec![
            Err(Error::UnsettableMode),
            Err(Error::UnsettableMode),
            Err(Error::UnsettableMode),
            Err(Error::UnsettableMode),
            Err(Error::UnsettableMode),
        ]
    );
}

#[test]
fn user_mode_other_letters_are_unknown() {
    assert_eq!(
        user_events("+zi-I"),
        vec![
            Err(Error::UnknownMode('z')),
            Ok(UserModeChange::Invisible(true)),
            Err(Error::UnknownMode('I')),
        ]
    );
}

#[test]
fn user_mode_string_without_letters_yields_nothing() {
    assert_eq!(user_events(""), vec![]);
    assert_eq!(user_events("+-+"), vec![]);
}

#[test]
fn mode_string_is_read_byte_by_byte() {
    // "é" is the two bytes 0xC3 0xA9.
    assert_eq!(
        user_events("é"),
        vec![Err(Error::UnknownMode('\u{c3}')), Err(Error::UnknownMode('\u{a9}'))]
    );
    assert_eq!(
        channel_events("é", vec![]),
        vec![Err(Error::UnknownMode('\u{c3}')), Err(Error::UnknownMode('\u{a9}'))]
    );
}

#[test]
fn user_mode_change_value_and_symbol() {
    assert!(UserModeChange::Invisible(true).value());
    assert!(!UserModeChange::Invisible(false).value());
    assert_eq!(UserModeChange::Invisible(false).symbol(), 'i');
}

#[test]
fn channel_flags_take_no_parameter() {
    assert_eq!(
        channel_events("+imnst", vec!["unused"]),
        vec![
            Ok(ChannelModeChange::InviteOnly(true)),
            Ok(ChannelModeChange::Moderated(true)),
            Ok(ChannelModeChange::NoPrivMsgFromOutside(true)),
            Ok(ChannelModeChange::Secret(true)),
            Ok(ChannelModeChange::TopicRestricted(true)),
        ]
    );
    assert_eq!(
        channel_events("-i+m-nst", vec![]),
        vec![
            Ok(ChannelModeChange::InviteOnly(false)),
            Ok(ChannelModeChange::Moderated(true)),
            Ok(ChannelModeChange::NoPrivMsgFromOutside(false)),
            Ok(ChannelModeChange::Secret(false)),
            Ok(ChannelModeChange::TopicRestricted(false)),
        ]
    );
}

#[test]
fn channel_key_needs_a_parameter() {
    assert_eq!(channel_events("+k", vec!["secret"]), vec![Ok(ChannelModeChange::Key(true, "secret"))]);
    assert_eq!(channel_events("-k", vec!["secret"]), vec![Ok(ChannelModeChange::Key(false, "secret"))]);
    assert_eq!(channel_events("+k", vec![]), vec![Err(Error::MissingModeParam)]);
    assert_eq!(channel_events("-k", vec![]), vec![Err(Error::MissingModeParam)]);
}

#[test]
fn channel_user_limit_needs_a_parameter_to_set() {
    assert_eq!(channel_events("+l", vec!["42"]), vec![Ok(ChannelModeChange::UserLimit(Some("42")))]);
    assert_eq!(channel_events("+l", vec![]), vec![Err(Error::MissingModeParam)]);
    assert_eq!(channel_events("-l", vec![]), vec![Ok(ChannelModeChange::UserLimit(None))]);
    // Removing the limit takes no parameter: the next letter gets it.
    assert_eq!(
        channel_events("-lk", vec!["key"]),
        vec![Ok(ChannelModeChange::UserLimit(None)), Ok(ChannelModeChange::Key(false, "key"))]
    );
}

#[test]
fn channel_masks_are_listed_without_a_parameter() {
    assert_eq!(
        channel_events("+beI", vec![]),
        vec![
            Ok(ChannelModeChange::GetBans),
            Ok(ChannelModeChange::GetExceptions),
            Ok(ChannelModeChange::GetInvitations),
        ]
    );
    assert_eq!(
        channel_events("+b-e+I", vec!["a!*@*", "b!*@*", "c!*@*"]),
        vec![
            Ok(ChannelModeChange::ChangeBan(true, "a!*@*")),
            Ok(ChannelModeChange::ChangeException(false, "b!*@*")),
            Ok(ChannelModeChange::ChangeInvitation(true, "c!*@*")),
        ]
    );
}

#[test]
fn channel_member_modes_need_a_parameter() {
    assert_eq!(
        channel_events("+o-v", vec!["alice", "bob"]),
        vec![
            Ok(ChannelModeChange::ChangeOperator(true, "alice")),
            Ok(ChannelModeChange::ChangeVoice(false, "bob")),
        ]
    );
    assert_eq!(
        channel_events("+ov", vec!["alice"]),
        vec![Ok(ChannelModeChange::ChangeOperator(true, "alice")), Err(Error::MissingModeParam)]
    );
}

#[test]
fn empty_parameter_counts_as_absent_but_is_used_up() {
    assert_eq!(
        channel_events("+bo", vec!["", "alice"]),
        vec![Ok(ChannelModeChange::GetBans), Ok(ChannelModeChange::ChangeOperator(true, "alice"))]
    );
    assert_eq!(channel_events("+o", vec![""]), vec![Err(Error::MissingModeParam)]);
    assert_eq!(channel_events("+v", vec![""]), vec![Err(Error::MissingModeParam)]);
    assert_eq!(channel_events("+l", vec![""]), vec![Err(Error::MissingModeParam)]);
    assert_eq!(channel_events("+k", vec![""]), vec![Err(Error::MissingModeParam)]);
    assert_eq!(channel_events("+e", vec![""]), vec![Ok(ChannelModeChange::GetExceptions)]);
    assert_eq!(channel_events("+I", vec![""]), vec![Ok(ChannelModeChange::GetInvitations)]);
}

#[test]
fn parameters_are_taken_in_order() {
    assert_eq!(
        channel_events("+ov-b+ik", vec!["alice", "bob", "x!*@*", "pass", "left over"]),
        vec![
            Ok(ChannelModeChange::ChangeOperator(true, "alice")),
            Ok(ChannelModeChange::ChangeVoice(true, "bob")),
            Ok(ChannelModeChange::ChangeBan(false, "x!*@*")),
            Ok(ChannelModeChange::InviteOnly(true)),
            Ok(ChannelModeChange::Key(true, "pass")),
        ]
    );
}

#[test]
fn an_error_does_not_stop_the_reading() {
    assert_eq!(
        channel_events("+zki", vec![]),
        vec![
            Err(Error::UnknownMode('z')),
            Err(Error::MissingModeParam),
            Ok(ChannelModeChange::InviteOnly(true)),
        ]
    );
}

#[test]
fn letters_of_other_modes_are_unknown_to_a_channel_query() {
    assert_eq!(
        channel_events("aqpr", vec![]),
        vec![
            Err(Error::UnknownMode('a')),
            Err(Error::UnknownMode('q')),
            Err(Error::UnknownMode('p')),
            Err(Error::UnknownMode('r')),
        ]
    );
}

#[test]
fn simple_query_has_no_parameters() {
    let mut query = ChannelQuery::simple("+nk-l");
    assert_eq!(query.next(), Some(Ok(ChannelModeChange::NoPrivMsgFromOutside(true))));
    assert_eq!(query.next(), Some(Err(Error::MissingModeParam)));
    assert_eq!(query.next(), Some(Ok(ChannelModeChange::UserLimit(None))));
    assert_eq!(query.next(), None);
    assert_eq!(query.next(), None);
}

#[test]
fn channel_mode_change_value() {
    assert!(ChannelModeChange::InviteOnly(true).value());
    assert!(!ChannelModeChange::Moderated(false).value());
    assert!(ChannelModeChange::NoPrivMsgFromOutside(true).value());
    assert!(!ChannelModeChange::Secret(false).value());
    assert!(ChannelModeChange::TopicRestricted(true).value());
    assert!(ChannelModeChange::Key(true, "k").value());
    assert!(!ChannelModeChange::Key(false, "k").value());
    assert!(ChannelModeChange::UserLimit(Some("3")).value());
    assert!(!ChannelModeChange::UserLimit(None).value());
    assert!(!ChannelModeChange::GetBans.value());
    assert!(!ChannelModeChange::GetExceptions.value());
    assert!(!ChannelModeChange::GetInvitations.value());
    assert!(ChannelModeChange::ChangeBan(true, "m").value());
    assert!(!ChannelModeChange::ChangeException(false, "m").value());
    assert!(ChannelModeChange::ChangeInvitation(true, "m").value());
    assert!(!ChannelModeChange::ChangeOperator(false, "n").value());
    assert!(ChannelModeChange::ChangeVoice(true, "n").value());
}

#[test]
fn channel_mode_change_symbol() {
    assert_eq!(ChannelModeChange::InviteOnly(true).symbol(), Some('i'));
    assert_eq!(ChannelModeChange::Moderated(true).symbol(), Some('m'));
    assert_eq!(ChannelModeChange::NoPrivMsgFromOutside(true).symbol(), Some('n'));
    assert_eq!(ChannelModeChange::Secret(true).symbol(), Some('s'));
    assert_eq!(ChannelModeChange::TopicRestricted(true).symbol(), Some('t'));
    assert_eq!(ChannelModeChange::Key(true, "k").symbol(), Some('k'));
    assert_eq!(ChannelModeChange::UserLimit(None).symbol(), Some('l'));
    assert_eq!(ChannelModeChange::ChangeBan(true, "m").symbol(), Some('b'));
    assert_eq!(ChannelModeChange::ChangeException(true, "m").symbol(), Some('e'));
    assert_eq!(ChannelModeChange::ChangeInvitation(true, "m").symbol(), Some('I'));
    assert_eq!(ChannelModeChange::ChangeOperator(true, "n").symbol(), Some('o'));
    assert_eq!(ChannelModeChange::ChangeVoice(true, "n").symbol(), Some('v'));
    assert_eq!(ChannelModeChange::GetBans.symbol(), None);
    assert_eq!(ChannelModeChange::GetExceptions.symbol(), None);
    assert_eq!(ChannelModeChange::GetInvitations.symbol(), None);
}

#[test]
fn channel_mode_change_param() {
    assert_eq!(ChannelModeChange::Key(true, "k").param(), Some("k"));
    assert_eq!(ChannelModeChange::UserLimit(Some("3")).param(), Some("3"));
    assert_eq!(ChannelModeChange::UserLimit(None).param(), None);
    assert_eq!(ChannelModeChange::ChangeBan(true, "b").param(), Some("b"));
    assert_eq!(ChannelModeChange::ChangeException(true, "e").param(), Some("e"));
    assert_eq!(ChannelModeChange::ChangeInvitation(true, "I").param(), Some("I"));
    assert_eq!(ChannelModeChange::ChangeOperator(true, "o").param(), Some("o"));
    assert_eq!(ChannelModeChange::ChangeVoice(true, "v").param(), Some("v"));
    assert_eq!(ChannelModeChange::InviteOnly(true).param(), None);
    assert_eq!(ChannelModeChange::GetBans.param(), None);
}

#[test]
fn channel_mode_strings_that_are_valid() {
    assert!(is_channel_mode_string(""));
    assert!(is_channel_mode_string("+"));
    assert!(is_channel_mode_string("+n"));
    assert!(is_channel_mode_string("+imnst"));
    assert!(is_channel_mode_string("-imnst+beI"));
    assert!(is_channel_mode_string("+nt-l"));
}

#[test]
fn channel_mode_strings_that_are_not_valid() {
    assert!(!is_channel_mode_string("+k"));
    assert!(!is_channel_mode_string("-k"));
    assert!(!is_channel_mode_string("+l"));
    assert!(!is_channel_mode_string("+o"));
    assert!(!is_channel_mode_string("+v"));
    assert!(!is_channel_mode_string("+a"));
    assert!(!is_channel_mode_string("+ntz"));
    assert!(!is_channel_mode_string("n t"));
}

#[test]
fn mode_string_is_valid_exactly_where_every_event_is_ok() {
    for modes in ["", "+n", "+nk", "-l+l", "imnstbeI", "+x", "-o", "++--", "+i-k", "q"] {
        let all_ok = channel_events(modes, vec![]).iter().all(|event| event.is_ok());
        assert_eq!(is_channel_mode_string(modes), all_ok, "{:?}", modes);
    }
}
