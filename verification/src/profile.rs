use vstd::prelude::*;
use crate::resources::{AppState, UserProfile};
use crate::text::{byte_len_spec, trim, trim_spec, reversed};

verus! {

/// A key event on a username screen (released keys are not reported).
pub enum KeyEvent {
    Enter,
    Escape,
    Backspace,
    /// Keys that type text.
    Text(String),
    /// Any other key.
    Other,
}

/// The two username screens: first registration, and changing the name.
#[derive(Debug, Clone, Copy, PartialEq, Eq, Structural)]
pub enum UsernameScreen {
    Register,
    NameChange,
}

/// What a username screen does after a frame of input.
pub enum EntryOutcome {
    /// A name was confirmed: store this profile and leave the screen.
    Submitted { username: String, uid: String },
    /// The player left without a name.
    Cancelled,
    /// The screen stays; the shown name and the hint change where given.
    Editing { display: Option<String>, status: Option<String> },
}

/// The mathematical value of an [`EntryOutcome`].
pub enum EntryView {
    Submitted { username: Seq<char>, uid: Seq<char> },
    Cancelled,
    Editing { display: Option<Seq<char>>, status: Option<Seq<char>> },
}

pub open spec fn opt_view(o: Option<String>) -> Option<Seq<char>> {
    match o {
        Some(s) => Some(s@),
        None => None,
    }
}

impl View for EntryOutcome {
    type V = EntryView;

    open spec fn view(&self) -> EntryView {
        match self {
            EntryOutcome::Submitted { username, uid } => EntryView::Submitted { username: username@, uid: uid@ },
            EntryOutcome::Cancelled => EntryView::Cancelled,
            EntryOutcome::Editing { display, status } => EntryView::Editing {
                display: opt_view(*display),
                status: opt_view(*status),
            },
        }
    }
}

/// The screen a username screen leaves to: the multiplayer menu after
/// registration, the title screen after a name change.
pub open spec fn exit_screen_spec(screen: UsernameScreen) -> AppState {
    match screen {
        UsernameScreen::Register => AppState::MultiplayerMenu,
        UsernameScreen::NameChange => AppState::TitleScreen,
    }
}

/// The screen a username screen leaves to.
pub fn exit_screen(screen: UsernameScreen) -> (s: AppState)
    ensures
        s == exit_screen_spec(screen),
{
    match screen {
        UsernameScreen::Register => AppState::MultiplayerMenu,
        UsernameScreen::NameChange => AppState::TitleScreen,
    }
}

/// The hint a username screen shows while the player types.
pub open spec fn prompt_spec(screen: UsernameScreen) -> Seq<char> {
    match screen {
        UsernameScreen::Register => "Type username using alphanumeric characters and press Enter"@,
        UsernameScreen::NameChange => "Type new username and press Enter to save"@,
    }
}

fn prompt(screen: UsernameScreen) -> (s: String)
    ensures
        s@ == prompt_spec(screen),
{
    match screen {
        UsernameScreen::Register => String::from_str("Type username using alphanumeric characters and press Enter"),
        UsernameScreen::NameChange => String::from_str("Type new username and press Enter to save"),
    }
}

/// The hint after Enter with no name.
pub open spec fn empty_name_hint() -> Seq<char> {
    "Username cannot be empty!"@
}

/// The characters a username may hold: ASCII letters and digits, `_` and `-`.
pub open spec fn name_char(c: char) -> bool {
    ('a' <= c && c <= 'z') || ('A' <= c && c <= 'Z') || ('0' <= c && c <= '9') || c == '_' || c == '-'
}

/// The characters of `s` that a username may hold, in order.
pub open spec fn name_chars_of(s: Seq<char>) -> Seq<char>
    decreases s.len(),
{
    if s.len() == 0 {
        seq![]
    } else if name_char(s.last()) {
        name_chars_of(s.drop_last()).push(s.last())
    } else {
        name_chars_of(s.drop_last())
    }
}

/// The identifier derived from a username: its characters in reverse order.
pub open spec fn uid_spec(username: Seq<char>) -> Seq<char> {
    username.reverse()
}

/// The name being typed once a name change screen leaves: cleared; the
/// registration screen keeps it.
pub open spec fn after_leaving(screen: UsernameScreen, input: Seq<char>) -> Seq<char> {
    match screen {
        UsernameScreen::Register => input,
        UsernameScreen::NameChange => seq![],
    }
}

/// Key events on a username screen, in order, from the name being typed
/// `input`. Enter with a name (once trimmed) confirms it; Enter without one
/// shows a hint and goes on; Escape leaves; Backspace removes a character;
/// typed text adds its permitted characters while the name is under 16 bytes.
/// When the frame ends on the screen, an edited name is shown with a `_`
/// cursor and the typing hint.
pub open spec fn entry_spec(
    screen: UsernameScreen,
    input: Seq<char>,
    events: Seq<KeyEvent>,
    edited: bool,
    status: Option<Seq<char>>,
) -> (Seq<char>, EntryView)
    decreases events.len(),
{
    if events.len() == 0 {
        (
            input,
            EntryView::Editing {
                display: if edited { Some(input + "_"@) } else { None },
                status: if edited { Some(prompt_spec(screen)) } else { status },
            },
        )
    } else {
        let rest = events.drop_first();
        match events[0] {
            KeyEvent::Enter => {
                let t = trim_spec(input);
                if t.len() > 0 {
                    (after_leaving(screen, input), EntryView::Submitted { username: t, uid: uid_spec(t) })
                } else {
                    entry_spec(screen, input, rest, edited, Some(empty_name_hint()))
                }
            },
            KeyEvent::Escape => (after_leaving(screen, input), EntryView::Cancelled),
            KeyEvent::Backspace => entry_spec(
                screen,
                if input.len() > 0 { input.drop_last() } else { input },
                rest,
                true,
                status,
            ),
            KeyEvent::Text(s) => {
                if byte_len_spec(input) < 16 {
                    let k = name_chars_of(s@);
                    entry_spec(screen, input + k, rest, edited || k.len() > 0, status)
                } else {
                    entry_spec(screen, input, rest, edited, status)
                }
            },
            KeyEvent::Other => entry_spec(screen, input, rest, edited, status),
        }
    }
}

fn is_name_char(c: char) -> (b: bool)
    ensures
        b == name_char(c),
{
    ('a' <= c && c <= 'z') || ('A' <= c && c <= 'Z') || ('0' <= c && c <= '9') || c == '_' || c == '-'
}

/// The identifier derived from a username.
pub fn uid_for(username: &str) -> (uid: String)
    ensures
        uid@ == uid_spec(username@),
{
    reversed(username)
}

/// Adds to `input` the permitted characters of `text`; tells whether any was.
fn type_name_chars(input: &mut String, text: &str) -> (added: bool)
    ensures
        final(input)@ == old(input)@ + name_chars_of(text@),
        added == (name_chars_of(text@).len() > 0),
{
    let cs = crate::text::chars_of(text);
    let mut added = false;
    let mut j: usize = 0;
    let ghost start = input@;
    assert(cs@.take(0) =~= Seq::<char>::empty());
    assert(start + name_chars_of(Seq::<char>::empty()) =~= start);
    while j < cs.len()
        invariant
            j <= cs@.len(),
            cs@ == text@,
            input@ == start + name_chars_of(cs@.take(j as int)),
            added == (name_chars_of(cs@.take(j as int)).len() > 0),
        decreases cs@.len() - j,
    {
        let c = cs[j];
        assert(cs@.take(j + 1).drop_last() =~= cs@.take(j as int));
        assert(cs@.take(j + 1).last() == c);
        if is_name_char(c) {
            crate::text::push_char(input, c);
            added = true;
            assert(start + name_chars_of(cs@.take(j as int)).push(c) =~= (start + name_chars_of(
                cs@.take(j as int),
            )).push(c));
        }
        j = j + 1;
    }
    assert(cs@.take(cs@.len() as int) =~= cs@);
    added
}

fn leave(screen: UsernameScreen, input: &mut String)
    ensures
        final(input)@ == after_leaving(screen, old(input)@),
{
    if screen == UsernameScreen::NameChange {
        *input = String::new();
    }
}

/// A frame of key events on a username screen, applied to the name being
/// typed.
pub fn username_entry(screen: UsernameScreen, input: &mut String, events: &[KeyEvent]) -> (out: EntryOutcome)
    ensures
        (final(input)@, out@) == entry_spec(screen, old(input)@, events@, false, None),
{
    let mut edited = false;
    let mut status: Option<String> = None;
    let mut i: usize = 0;
    assert(events@.skip(0) =~= events@);
    while i < events.len()
        invariant
            i <= events@.len(),
            entry_spec(screen, old(input)@, events@, false, None) == entry_spec(
                screen,
                input@,
                events@.skip(i as int),
                edited,
                opt_view(status),
            ),
        decreases events@.len() - i,
    {
        assert(events@.skip(i as int)[0] == events@[i as int]);
        assert(events@.skip(i as int).drop_first() =~= events@.skip(i + 1));
        match &events[i] {
            KeyEvent::Enter => {
                let t = trim(input.as_str());
                if !t.as_str().is_empty() {
                    let uid = uid_for(t.as_str());
                    leave(screen, input);
                    return EntryOutcome::Submitted { username: t, uid };
                } else {
                    status = Some(String::from_str("Username cannot be empty!"));
                }
            },
            KeyEvent::Escape => {
                leave(screen, input);
                return EntryOutcome::Cancelled;
            },
            KeyEvent::Backspace => {
                let _ = crate::text::pop_char(input);
                edited = true;
            },
            KeyEvent::Text(s) => {
                if crate::text::byte_len(input.as_str()) < 16 {
                    let added = type_name_chars(input, s.as_str());
                    edited = edited || added;
                }
            },
            KeyEvent::Other => {},
        }
        i = i + 1;
    }
    assert(events@.skip(i as int) =~= Seq::<KeyEvent>::empty());
    if edited {
        let mut display = input.clone();
        display.append("_");
        EntryOutcome::Editing { display: Some(display), status: Some(prompt(screen)) }
    } else {
        EntryOutcome::Editing { display: None, status }
    }
}

/// On the name change screen: an empty name being typed starts from the
/// current username.
pub fn prefill_name(input: &mut String, current: &str)
    ensures
        final(input)@ == if old(input)@.len() == 0 && current@.len() > 0 {
            current@
        } else {
            old(input)@
        },
{
    if input.as_str().is_empty() && !current.is_empty() {
        *input = String::from_str(current);
    }
}

/// Where the registration screen sends an already registered player.
pub fn registration_skip(profile: &UserProfile) -> (s: Option<AppState>)
    ensures
        profile.username@.len() > 0 ==> s == Some(AppState::MultiplayerMenu),
        profile.username@.len() == 0 ==> s is None,
{
    if !profile.username.as_str().is_empty() {
        Some(AppState::MultiplayerMenu)
    } else {
        None
    }
}

/// The name shown on a username screen without its `_` cursor, trimmed.
pub open spec fn name_on_display_spec(text: Seq<char>) -> Seq<char> {
    let t = if text.len() > 0 && text.last() == '_' {
        text.drop_last()
    } else {
        text
    };
    trim_spec(t)
}

/// The buttons of the username screens: confirm (register or save) and leave
/// (cancel or back).
#[derive(Debug, Clone, Copy, PartialEq, Eq, Structural)]
pub enum ProfileButton {
    Confirm,
    Leave,
}

/// A pressed button of a username screen, with the name shown on the screen:
/// confirm registers a non-empty name, leave leaves.
pub fn profile_button(button: ProfileButton, shown: &str) -> (out: EntryOutcome)
    ensures
        out@ == match button {
            ProfileButton::Confirm => {
                let t = name_on_display_spec(shown@);
                if t.len() > 0 {
                    EntryView::Submitted { username: t, uid: uid_spec(t) }
                } else {
                    EntryView::Editing { display: None, status: None }
                }
            },
            ProfileButton::Leave => EntryView::Cancelled,
        },
{
    match button {
        ProfileButton::Leave => EntryOutcome::Cancelled,
        ProfileButton::Confirm => {
            let cs = crate::text::chars_of(shown);
            let n = cs.len();
            let body: Vec<char> = if n > 0 && cs[n - 1] == '_' {
                let mut v: Vec<char> = Vec::new();
                let mut k: usize = 0;
                while k < n - 1
                    invariant
                        k <= n - 1,
                        n == cs@.len(),
                        n > 0,
                        v@ == cs@.take(k as int),
                    decreases n - 1 - k,
                {
                    v.push(cs[k]);
                    assert(cs@.take(k + 1) =~= cs@.take(k as int).push(cs@[k as int]));
                    k = k + 1;
                }
                assert(cs@.take(n - 1) =~= cs@.drop_last());
                v
            } else {
                cs
            };
            let t = crate::text::string_of(crate::text::trim_chars(body.as_slice()).as_slice());
            if !t.as_str().is_empty() {
                let uid = uid_for(t.as_str());
                EntryOutcome::Submitted { username: t, uid }
            } else {
                EntryOutcome::Editing { display: None, status: None }
            }
        },
    }
}

impl UserProfile {
    /// Takes a confirmed username and its identifier.
    pub fn register(&mut self, username: String)
        ensures
            final(self).username@ == username@,
            final(self).uid@ == uid_spec(username@),
    {
        self.uid = uid_for(username.as_str());
        self.username = username;
    }
}

/// The identifier gives the username back: reversing it again restores the
/// name, and it has the same length.
pub proof fn lemma_uid_gives_back_username(username: Seq<char>)
    ensures
        uid_spec(username).len() == username.len(),
        uid_spec(username).reverse() == username,
{
    assert(uid_spec(username).reverse() =~= username);
}


/// Whether every character of `s` may be part of a username.
pub open spec fn clean_name(s: Seq<char>) -> bool {
    forall|i: int| 0 <= i < s.len() ==> name_char(#[trigger] s[i])
}

proof fn lemma_name_chars_clean(s: Seq<char>)
    ensures
        clean_name(name_chars_of(s)),
    decreases s.len(),
{
    if s.len() > 0 {
        lemma_name_chars_clean(s.drop_last());
    }
}

proof fn lemma_clean_concat(a: Seq<char>, b: Seq<char>)
    requires
        clean_name(a),
        clean_name(b),
    ensures
        clean_name(a + b),
{
    assert forall|i: int| 0 <= i < (a + b).len() implies name_char(#[trigger] (a + b)[i]) by {
        if i >= a.len() {
            assert((a + b)[i] == b[i - a.len()]);
        }
    }
}

proof fn lemma_clean_is_trimmed(s: Seq<char>)
    requires
        clean_name(s),
    ensures
        trim_spec(s) == s,
{
    if s.len() > 0 {
        assert(name_char(s[0]));
        assert(name_char(s.last()));
    }
}

/// A username typed on these screens holds only ASCII letters, digits, `_`
/// and `-`, and what is confirmed is exactly the name typed, with the
/// reversed name as identifier.
pub proof fn lemma_typed_names_stay_clean(
    screen: UsernameScreen,
    input: Seq<char>,
    events: Seq<KeyEvent>,
    edited: bool,
    status: Option<Seq<char>>,
)
    requires
        clean_name(input),
    ensures
        clean_name(entry_spec(screen, input, events, edited, status).0),
        entry_spec(screen, input, events, edited, status).1 matches EntryView::Submitted { username, uid } ==> {
            &&& clean_name(username)
            &&& uid == uid_spec(username)
        },
    decreases events.len(),
{
    if events.len() > 0 {
        let rest = events.drop_first();
        match events[0] {
            KeyEvent::Enter => {
                lemma_clean_is_trimmed(input);
                if trim_spec(input).len() == 0 {
                    lemma_typed_names_stay_clean(screen, input, rest, edited, Some(empty_name_hint()));
                }
            },
            KeyEvent::Escape => {},
            KeyEvent::Backspace => {
                let next = if input.len() > 0 { input.drop_last() } else { input };
                assert(clean_name(next)) by {
                    assert forall|i: int| 0 <= i < next.len() implies name_char(#[trigger] next[i]) by {
                        assert(next[i] == input[i]);
                    }
                }
                lemma_typed_names_stay_clean(screen, next, rest, true, status);
            },
            KeyEvent::Text(s) => {
                if byte_len_spec(input) < 16 {
                    let k = name_chars_of(s@);
                    lemma_name_chars_clean(s@);
                    lemma_clean_concat(input, k);
                    lemma_typed_names_stay_clean(screen, input + k, rest, edited || k.len() > 0, status);
                } else {
                    lemma_typed_names_stay_clean(screen, input, rest, edited, status);
                }
            },
            KeyEvent::Other => {
                lemma_typed_names_stay_clean(screen, input, rest, edited, status);
            },
        }
    }
}

/// Whether a key event types at most one character, as a key press does.
pub open spec fn single_key(e: KeyEvent) -> bool {
    match e {
        KeyEvent::Text(t) => t@.len() <= 1,
        _ => true,
    }
}

proof fn lemma_clean_bytes(s: Seq<char>)
    requires
        clean_name(s),
    ensures
        byte_len_spec(s) == s.len(),
{
    assert(vstd::utf8::is_ascii_chars(s)) by {
        assert forall|i: int| 0 <= i < s.len() implies '\0' <= #[trigger] s[i] <= '\u{7f}' by {
            assert(name_char(s[i]));
        }
    }
    vstd::utf8::is_ascii_chars_encode_utf8(s);
}

proof fn lemma_name_chars_len(s: Seq<char>)
    ensures
        name_chars_of(s).len() <= s.len(),
    decreases s.len(),
{
    if s.len() > 0 {
        lemma_name_chars_len(s.drop_last());
    }
}

/// A username typed key by key stays at most 16 characters long: from a clean
/// name of at most 16 characters, events that each type at most one
/// character leave a name of at most 16 characters, and confirm one too.
pub proof fn lemma_typed_names_stay_short(
    screen: UsernameScreen,
    input: Seq<char>,
    events: Seq<KeyEvent>,
    edited: bool,
    status: Option<Seq<char>>,
)
    requires
        clean_name(input),
        input.len() <= 16,
        forall|i: int| 0 <= i < events.len() ==> single_key(#[trigger] events[i]),
    ensures
        entry_spec(screen, input, events, edited, status).0.len() <= 16,
        entry_spec(screen, input, events, edited, status).1 matches EntryView::Submitted { username, uid } ==> {
            username.len() <= 16
        },
    decreases events.len(),
{
    if events.len() > 0 {
        let rest = events.drop_first();
        assert(single_key(events[0]));
        assert forall|i: int| 0 <= i < rest.len() implies single_key(#[trigger] rest[i]) by {
            assert(rest[i] == events[i + 1]);
        }
        match events[0] {
            KeyEvent::Enter => {
                lemma_clean_is_trimmed(input);
                if trim_spec(input).len() == 0 {
                    lemma_typed_names_stay_short(screen, input, rest, edited, Some(empty_name_hint()));
                }
            },
            KeyEvent::Escape => {},
            KeyEvent::Backspace => {
                let next = if input.len() > 0 { input.drop_last() } else { input };
                assert(clean_name(next)) by {
                    assert forall|i: int| 0 <= i < next.len() implies name_char(#[trigger] next[i]) by {
                        assert(next[i] == input[i]);
                    }
                }
                lemma_typed_names_stay_short(screen, next, rest, true, status);
            },
            KeyEvent::Text(t) => {
                if byte_len_spec(input) < 16 {
                    let k = name_chars_of(t@);
                    lemma_name_chars_clean(t@);
                    lemma_name_chars_len(t@);
                    lemma_clean_bytes(input);
                    lemma_clean_concat(input, k);
                    lemma_typed_names_stay_short(screen, input + k, rest, edited || k.len() > 0, status);
                } else {
                    lemma_typed_names_stay_short(screen, input, rest, edited, status);
                }
            },
            KeyEvent::Other => {
                lemma_typed_names_stay_short(screen, input, rest, edited, status);
            },
        }
    }
}

/// Whether `c` is an ASCII letter of either case, an ASCII digit, `_` or `-`.
pub open spec fn ascii_name_char(c: char) -> bool {
    ('a' <= c && c <= 'z') || ('A' <= c && c <= 'Z') || ('0' <= c && c <= '9') || c == '_' || c == '-'
}

proof fn lemma_name_chars_keep_ascii_names(t: Seq<char>)
    requires
        forall|i: int| 0 <= i < t.len() ==> ascii_name_char(#[trigger] t[i]),
    ensures
        name_chars_of(t) == t,
    decreases t.len(),
{
    if t.len() > 0 {
        assert(ascii_name_char(t[t.len() - 1]));
        lemma_name_chars_keep_ascii_names(t.drop_last());
        assert(t.drop_last().push(t.last()) =~= t);
    }
}

/// Every ASCII letter of either case, digit, `_` and `-` may be typed: text
/// made only of them, typed on a name shorter than 16 bytes, is appended
/// unchanged. Typed on an empty registration screen and confirmed with Enter,
/// non-empty such text is submitted as the username, with its reverse as
/// identifier.
pub proof fn lemma_ascii_names_are_typed(
    screen: UsernameScreen,
    input: Seq<char>,
    e: KeyEvent,
    edited: bool,
    status: Option<Seq<char>>,
)
    requires
        byte_len_spec(input) < 16,
        e matches KeyEvent::Text(t) && forall|i: int| 0 <= i < t@.len() ==> ascii_name_char(#[trigger] t@[i]),
    ensures
        e matches KeyEvent::Text(t) ==> entry_spec(screen, input, seq![e], edited, status).0 == input + t@,
        e matches KeyEvent::Text(t) ==> (t@.len() > 0 ==> entry_spec(
            UsernameScreen::Register,
            seq![],
            seq![e, KeyEvent::Enter],
            false,
            None,
        ).1 == (EntryView::Submitted { username: t@, uid: t@.reverse() })),
{
    if let KeyEvent::Text(t) = e {
        lemma_name_chars_keep_ascii_names(t@);
        let one = seq![e];
        assert(one.drop_first() =~= Seq::<KeyEvent>::empty());
        let two = seq![e, KeyEvent::Enter];
        assert(two.drop_first() =~= seq![KeyEvent::Enter]);
        assert(seq![KeyEvent::Enter].drop_first() =~= Seq::<KeyEvent>::empty());
        let empty: Seq<char> = seq![];
        assert(byte_len_spec(empty) == 0) by {
            assert(vstd::utf8::encode_utf8(empty) =~= Seq::<u8>::empty()) by {
                reveal_with_fuel(vstd::utf8::encode_utf8, 1);
            }
        }
        assert(empty + t@ =~= t@);
        assert(clean_name(t@)) by {
            assert forall|i: int| 0 <= i < t@.len() implies name_char(#[trigger] t@[i]) by {
                assert(ascii_name_char(t@[i]));
            }
        }
        lemma_clean_is_trimmed(t@);
        assert(one[0] == e);
        assert(entry_spec(screen, input, one, edited, status) == entry_spec(
            screen,
            input + t@,
            Seq::<KeyEvent>::empty(),
            edited || t@.len() > 0,
            status,
        ));
        assert(two[0] == e);
        assert(entry_spec(UsernameScreen::Register, empty, two, false, None) == entry_spec(
            UsernameScreen::Register,
            empty + t@,
            seq![KeyEvent::Enter],
            t@.len() > 0,
            None,
        ));
        assert(seq![KeyEvent::Enter][0] == KeyEvent::Enter);
    }
}

} // verus!
