use vstd::prelude::*;
use crate::resources::AppState;
use crate::text::{
    contains_char, contains_seq, contains_str, dec_spec, decimal, replace, replace_spec, starts_with,
    trim, trim_spec,
};

verus! {

/// The room code drawn from the clock: `nanos % 9000 + 1000`, in decimal.
pub open spec fn room_code_spec(nanos: u128) -> Seq<char> {
    dec_spec((nanos % 9000 + 1000) as nat)
}

/// A four-digit room code drawn from the clock reading `nanos`.
pub fn generate_room_code(nanos: u128) -> (code: String)
    ensures
        code@ == room_code_spec(nanos),
{
    let n = (nanos % 9000 + 1000) as u32;
    decimal(n)
}

/// Every room code has four digits, from 1000 to 9999, and reads back as the
/// number drawn.
pub proof fn lemma_room_code_four_digits(nanos: u128)
    ensures
        room_code_spec(nanos).len() == 4,
        crate::text::all_digits(room_code_spec(nanos)),
        crate::text::parse_u32_spec(room_code_spec(nanos)) == Some((nanos % 9000 + 1000) as u32),
{
    let n = (nanos % 9000 + 1000) as nat;
    crate::text::lemma_four_digit_decimal(n);
    crate::text::lemma_decimal_digits(n);
    crate::text::lemma_decimal_parses_back(n as u32);
}

/// The room registry's address of room `code`.
pub open spec fn room_url_spec(code: Seq<char>) -> Seq<char> {
    "https://code-termination-proxy.gideon-a-e-laurie.workers.dev/rooms/"@ + code
}

/// The room registry's address of room `code`.
pub fn room_url(code: &str) -> (url: String)
    ensures
        url@ == room_url_spec(code@),
{
    let mut url = String::from_str("https://code-termination-proxy.gideon-a-e-laurie.workers.dev/rooms/");
    url.append(code);
    url
}

/// The room under which a client registers its own address: `{code}_client`.
pub open spec fn client_room_spec(code: Seq<char>) -> Seq<char> {
    code + "_client"@
}

/// The room under which a client of room `code` registers its own address.
pub fn client_room_code(code: &str) -> (c: String)
    ensures
        c@ == client_room_spec(code@),
{
    let mut c = String::from_str(code);
    c.append("_client");
    c
}

/// Whether a room label names a direct connection rather than a registered room.
pub open spec fn is_direct_room(room_code: Seq<char>) -> bool {
    "DIRECT"@.is_prefix_of(room_code)
}

/// The registered rooms to delete when a connection ends: none for a direct
/// connection; the room and its client room for a host; the client room for a
/// client.
pub open spec fn rooms_to_close_spec(room_code: Seq<char>, is_host: bool) -> Seq<Seq<char>> {
    if is_direct_room(room_code) {
        seq![]
    } else if is_host {
        seq![room_code, client_room_spec(room_code)]
    } else {
        seq![client_room_spec(room_code)]
    }
}

/// The registered rooms to delete when a connection with room label
/// `room_code` ends.
pub fn rooms_to_close(room_code: &str, is_host: bool) -> (rooms: Vec<String>)
    ensures
        rooms@.len() == rooms_to_close_spec(room_code@, is_host).len(),
        forall|i: int| 0 <= i < rooms@.len() ==> #[trigger] rooms@[i]@ == rooms_to_close_spec(room_code@, is_host)[i],
{
    let mut rooms: Vec<String> = Vec::new();
    if !starts_with(room_code, "DIRECT") {
        if is_host {
            rooms.push(String::from_str(room_code));
        }
        rooms.push(client_room_code(room_code));
    }
    rooms
}

/// Whether a registry reply says that no room is there: empty, or holding
/// `404`, `Not Found` or `Error`.
pub open spec fn reply_is_missing_room(content: Seq<char>) -> bool {
    content.len() == 0 || contains_seq(content, "404"@) || contains_seq(content, "Not Found"@)
        || contains_seq(content, "Error"@)
}

/// What a room lookup gives, from the registry's exit status and reply.
pub open spec fn lookup_spec(success: bool, reply: Seq<char>) -> Result<Seq<char>, Seq<char>> {
    if success {
        let content = trim_spec(reply);
        if reply_is_missing_room(content) {
            Err("Room not found"@)
        } else {
            Ok(content)
        }
    } else {
        Err("Failed to fetch room code from proxy"@)
    }
}

/// Reads the registry's reply to a room lookup: the address stored for the
/// room, or why there is none.
pub fn read_room_lookup(success: bool, reply: &str) -> (r: Result<String, String>)
    ensures
        r matches Ok(a) ==> lookup_spec(success, reply@) == Ok::<Seq<char>, Seq<char>>(a@),
        r matches Err(e) ==> lookup_spec(success, reply@) == Err::<Seq<char>, Seq<char>>(e@),
{
    if success {
        let content = trim(reply);
        if content.as_str().is_empty() || contains_str(content.as_str(), "404") || contains_str(
            content.as_str(),
            "Not Found",
        ) || contains_str(content.as_str(), "Error") {
            Err(String::from_str("Room not found"))
        } else {
            Ok(content)
        }
    } else {
        Err(String::from_str("Failed to fetch room code from proxy"))
    }
}

/// Reads the registry's answer to storing a room: success, or the error
/// `Proxy error: {stderr} {stdout}`.
pub fn read_room_store(success: bool, stderr: &str, stdout: &str) -> (r: Result<(), String>)
    ensures
        success ==> r is Ok,
        !success ==> (r matches Err(e) && e@ == "Proxy error: "@ + stderr@ + " "@ + stdout@),
{
    if success {
        Ok(())
    } else {
        let mut e = String::from_str("Proxy error: ");
        e.append(stderr);
        e.append(" ");
        e.append(stdout);
        Err(e)
    }
}

/// The public IP address from the IP lookup service: its trimmed reply when
/// the lookup ran and succeeded, else the loopback address.
pub fn public_ip_or_loopback(reply: Option<&str>) -> (ip: String)
    ensures
        reply matches Some(r) ==> ip@ == trim_spec(r@),
        reply is None ==> ip@ == "127.0.0.1"@,
{
    match reply {
        Some(r) => trim(r),
        None => String::from_str("127.0.0.1"),
    }
}

/// `{ip}:{port}`, the address a host advertises when STUN gave none.
pub fn ip_with_port(ip: &str, port: u16) -> (a: String)
    ensures
        a@ == ip@ + ":"@ + dec_spec(port as nat),
{
    let mut a = String::from_str(ip);
    a.append(":");
    a.append(decimal(port as u32).as_str());
    a
}

/// The marker that a host appends to its address for a battle room.
pub open spec fn battle_marker() -> Seq<char> {
    "|BATTLE"@
}

/// The address a host stores in the registry: its public address, marked for
/// a battle room.
pub open spec fn advertised_spec(addr: Seq<char>, is_battle: bool) -> Seq<char> {
    if is_battle {
        addr + battle_marker()
    } else {
        addr
    }
}

/// The address a host stores in the registry.
pub fn advertised_address(addr: &str, is_battle: bool) -> (a: String)
    ensures
        a@ == advertised_spec(addr@, is_battle),
{
    let mut a = String::from_str(addr);
    if is_battle {
        a.append("|BATTLE");
    }
    a
}

/// The room label of a host that could not register: `DIRECT ({address})`.
pub fn direct_room_label(ip_port: &str) -> (label: String)
    ensures
        label@ == "DIRECT ("@ + ip_port@ + ")"@,
{
    let mut label = String::from_str("DIRECT (");
    label.append(ip_port);
    label.append(")");
    label
}

/// Whether what the player typed is an address (it holds `.` or `:`) rather
/// than a room code.
pub fn is_direct_address(code: &str) -> (b: bool)
    ensures
        b == (code@.contains('.') || code@.contains(':')),
{
    contains_char(code, '.') || contains_char(code, ':')
}

/// A stored address without its battle marker, and whether it had one.
pub open spec fn unmarked_spec(addr: Seq<char>) -> (Seq<char>, bool) {
    if contains_seq(addr, battle_marker()) {
        (replace_spec(addr, battle_marker(), ""@), true)
    } else {
        (addr, false)
    }
}

/// Splits a stored address into the address proper and whether it is a
/// battle room.
pub fn split_battle_marker(addr: &str) -> (r: (String, bool))
    ensures
        (r.0@, r.1) == unmarked_spec(addr@),
{
    proof {
        reveal_strlit("|BATTLE");
    }
    if contains_str(addr, "|BATTLE") {
        (replace(addr, "|BATTLE", ""), true)
    } else {
        (String::from_str(addr), false)
    }
}

/// The socket addresses to try for a stored address, in order: the address
/// itself, then its trimmed text with the game's port 50505.
pub fn address_candidates(clean: &str) -> (c: (String, String))
    ensures
        c.0@ == clean@,
        c.1@ == trim_spec(clean@) + ":50505"@,
{
    let mut with_port = trim(clean);
    with_port.append(":50505");
    (String::from_str(clean), with_port)
}

proof fn lemma_no_bar_no_marker(addr: Seq<char>)
    requires
        !addr.contains('|'),
    ensures
        !contains_seq(addr, battle_marker()),
{
    reveal_strlit("|BATTLE");
    if contains_seq(addr, battle_marker()) {
        let i = choose|i: int|
            0 <= i && i + battle_marker().len() <= addr.len() && #[trigger] addr.subrange(
                i,
                i + battle_marker().len(),
            ) == battle_marker();
        assert(addr.subrange(i, i + battle_marker().len())[0] == '|');
        assert(addr[i] == '|');
    }
}

proof fn lemma_replace_marker_tail(addr: Seq<char>)
    requires
        !addr.contains('|'),
    ensures
        replace_spec(addr + battle_marker(), battle_marker(), ""@) == addr,
    decreases addr.len(),
{
    reveal_strlit("|BATTLE");
    reveal_strlit("");
    let s = addr + battle_marker();
    if addr.len() == 0 {
        assert(s =~= battle_marker());
        assert(battle_marker().is_prefix_of(s));
        assert(s.skip(battle_marker().len() as int) =~= Seq::<char>::empty());
        assert(replace_spec(Seq::<char>::empty(), battle_marker(), ""@) == Seq::<char>::empty());
        assert(replace_spec(s, battle_marker(), ""@) == ""@ + replace_spec(
            s.skip(battle_marker().len() as int),
            battle_marker(),
            ""@,
        ));
        assert(""@ + Seq::<char>::empty() =~= addr);
    } else {
        assert(s[0] == addr[0]);
        assert(!battle_marker().is_prefix_of(s)) by {
            if battle_marker().is_prefix_of(s) {
                assert(s.subrange(0, 7)[0] == '|');
            }
        }
        assert(!addr.drop_first().contains('|')) by {
            if addr.drop_first().contains('|') {
                let j = choose|j: int| 0 <= j < addr.drop_first().len() && addr.drop_first()[j] == '|';
                assert(addr[j + 1] == '|');
            }
        }
        assert(s.drop_first() =~= addr.drop_first() + battle_marker());
        lemma_replace_marker_tail(addr.drop_first());
        assert(replace_spec(s, battle_marker(), ""@) == seq![s[0]] + replace_spec(
            s.drop_first(),
            battle_marker(),
            ""@,
        ));
        assert(seq![s[0]] + addr.drop_first() =~= addr);
    }
}

/// A client reads back exactly what a host advertised: for an address without
/// `|` (as socket addresses are), the stored address without its marker is
/// the address, and the marker tells whether the room is a battle room.
pub proof fn lemma_battle_marker_roundtrip(addr: Seq<char>, is_battle: bool)
    requires
        !addr.contains('|'),
    ensures
        unmarked_spec(advertised_spec(addr, is_battle)) == (addr, is_battle),
{
    lemma_no_bar_no_marker(addr);
    if is_battle {
        let s = addr + battle_marker();
        assert(s.subrange(addr.len() as int, (addr.len() + battle_marker().len()) as int) =~= battle_marker());
        lemma_replace_marker_tail(addr);
    }
}


/// What the player has typed on the join screen, and what the screen says.
pub struct RoomCodeInput {
    pub code: String,
    pub status_message: String,
    pub error_message: String,
    pub is_connecting: bool,
}

/// The mathematical value of the join screen's input.
pub struct RoomCodeView {
    pub code: Seq<char>,
    pub status: Seq<char>,
    pub error: Seq<char>,
    pub connecting: bool,
}

impl View for RoomCodeInput {
    type V = RoomCodeView;

    open spec fn view(&self) -> RoomCodeView {
        RoomCodeView {
            code: self.code@,
            status: self.status_message@,
            error: self.error_message@,
            connecting: self.is_connecting,
        }
    }
}

impl Default for RoomCodeInput {
    fn default() -> (r: Self)
        ensures
            r@ == (RoomCodeView { code: seq![], status: seq![], error: seq![], connecting: false }),
    {
        RoomCodeInput {
            code: String::new(),
            status_message: String::new(),
            error_message: String::new(),
            is_connecting: false,
        }
    }
}

/// A digit key, of the top row or of the keypad.
#[derive(Debug, Clone, Copy, PartialEq, Eq, Structural)]
pub enum DigitKey {
    Zero,
    One,
    Two,
    Three,
    Four,
    Five,
    Six,
    Seven,
    Eight,
    Nine,
}

/// The character a digit key types.
pub open spec fn digit_key_char(d: DigitKey) -> char {
    match d {
        DigitKey::Zero => '0',
        DigitKey::One => '1',
        DigitKey::Two => '2',
        DigitKey::Three => '3',
        DigitKey::Four => '4',
        DigitKey::Five => '5',
        DigitKey::Six => '6',
        DigitKey::Seven => '7',
        DigitKey::Eight => '8',
        DigitKey::Nine => '9',
    }
}

impl DigitKey {
    /// The character this key types.
    pub fn typed_char(self) -> (c: char)
        ensures
            c == digit_key_char(self),
    {
        match self {
            DigitKey::Zero => '0',
            DigitKey::One => '1',
            DigitKey::Two => '2',
            DigitKey::Three => '3',
            DigitKey::Four => '4',
            DigitKey::Five => '5',
            DigitKey::Six => '6',
            DigitKey::Seven => '7',
            DigitKey::Eight => '8',
            DigitKey::Nine => '9',
        }
    }
}

/// The keys pressed on the join screen in one frame.
pub struct JoinKeys {
    pub escape: bool,
    /// The digit keys pressed, top row `0` to `9` then keypad `0` to `9`.
    pub digits: Vec<DigitKey>,
    /// The period or the keypad decimal key.
    pub dot: bool,
    /// The semicolon key, which types `:`.
    pub colon: bool,
    pub backspace: bool,
    pub enter: bool,
}

/// What the join screen asks for after a frame of keys.
pub enum JoinCommand {
    Stay,
    BackToMenu,
    /// Start joining with what was typed.
    Connect(String),
}

/// The mathematical value of a [`JoinCommand`].
pub enum JoinCommandView {
    Stay,
    BackToMenu,
    Connect(Seq<char>),
}

impl View for JoinCommand {
    type V = JoinCommandView;

    open spec fn view(&self) -> JoinCommandView {
        match self {
            JoinCommand::Stay => JoinCommandView::Stay,
            JoinCommand::BackToMenu => JoinCommandView::BackToMenu,
            JoinCommand::Connect(c) => JoinCommandView::Connect(c@),
        }
    }
}

/// The most bytes that the typed code may hold.
pub open spec fn max_code_bytes() -> nat {
    22
}

/// One typed character: appended, clearing the error, while the code is
/// shorter than 22 bytes.
pub open spec fn type_char_spec(v: RoomCodeView, c: char) -> RoomCodeView {
    if crate::text::byte_len_spec(v.code) < max_code_bytes() {
        RoomCodeView { code: v.code.push(c), error: seq![], ..v }
    } else {
        v
    }
}

/// The digit keys `ds` typed in order.
pub open spec fn type_digits_spec(v: RoomCodeView, ds: Seq<DigitKey>) -> RoomCodeView
    decreases ds.len(),
{
    if ds.len() == 0 {
        v
    } else {
        type_char_spec(type_digits_spec(v, ds.drop_last()), digit_key_char(ds.last()))
    }
}

/// What a frame of keys does on the join screen. Nothing while connecting;
/// Escape goes back; otherwise digits, `.`, `:` are typed, Backspace removes
/// the last character, and Enter with something typed starts connecting.
pub open spec fn join_keys_spec(
    v: RoomCodeView,
    escape: bool,
    digits: Seq<DigitKey>,
    dot: bool,
    colon: bool,
    backspace: bool,
    enter: bool,
) -> (RoomCodeView, JoinCommandView) {
    if v.connecting {
        (v, JoinCommandView::Stay)
    } else if escape {
        (v, JoinCommandView::BackToMenu)
    } else {
        let v1 = type_digits_spec(v, digits);
        let v2 = if dot { type_char_spec(v1, '.') } else { v1 };
        let v3 = if colon { type_char_spec(v2, ':') } else { v2 };
        let v4 = if backspace && v3.code.len() > 0 {
            RoomCodeView { code: v3.code.drop_last(), error: seq![], ..v3 }
        } else {
            v3
        };
        if enter && v4.code.len() > 0 {
            let status = if v4.code.contains('.') || v4.code.contains(':') {
                "CONNECTING DIRECTLY..."@
            } else {
                "FETCHING ROOM ADDRESS..."@
            };
            (RoomCodeView { connecting: true, status, ..v4 }, JoinCommandView::Connect(v4.code))
        } else {
            (v4, JoinCommandView::Stay)
        }
    }
}

impl RoomCodeInput {
    fn type_char(&mut self, c: char)
        ensures
            final(self)@ == type_char_spec(old(self)@, c),
    {
        if crate::text::byte_len(self.code.as_str()) < 22 {
            crate::text::push_char(&mut self.code, c);
            self.error_message = String::new();
        }
    }

    /// Applies a frame of keys to the join screen.
    pub fn apply_join_keys(&mut self, keys: &JoinKeys) -> (cmd: JoinCommand)
        ensures
            (final(self)@, cmd@) == join_keys_spec(
                old(self)@,
                keys.escape,
                keys.digits@,
                keys.dot,
                keys.colon,
                keys.backspace,
                keys.enter,
            ),
    {
        if self.is_connecting {
            return JoinCommand::Stay;
        }
        if keys.escape {
            return JoinCommand::BackToMenu;
        }
        let ghost start = self@;
        let mut i: usize = 0;
        assert(keys.digits@.take(0) =~= Seq::<DigitKey>::empty());
        while i < keys.digits.len()
            invariant
                i <= keys.digits@.len(),
                self@ == type_digits_spec(start, keys.digits@.take(i as int)),
            decreases keys.digits@.len() - i,
        {
            self.type_char(keys.digits[i].typed_char());
            assert(keys.digits@.take(i + 1).drop_last() =~= keys.digits@.take(i as int));
            i = i + 1;
        }
        assert(keys.digits@.take(keys.digits@.len() as int) =~= keys.digits@);
        if keys.dot {
            self.type_char('.');
        }
        if keys.colon {
            self.type_char(':');
        }
        if keys.backspace && !self.code.as_str().is_empty() {
            let _ = crate::text::pop_char(&mut self.code);
            self.error_message = String::new();
        }
        if keys.enter && !self.code.as_str().is_empty() {
            self.is_connecting = true;
            if is_direct_address(self.code.as_str()) {
                self.status_message = String::from_str("CONNECTING DIRECTLY...");
            } else {
                self.status_message = String::from_str("FETCHING ROOM ADDRESS...");
            }
            return JoinCommand::Connect(self.code.clone());
        }
        JoinCommand::Stay
    }

    /// A failed join: the error is shown in capitals after `ERROR: `, and the
    /// screen takes input again.
    pub fn join_failed(&mut self, err: &str)
        ensures
            final(self)@ == (RoomCodeView {
                error: "ERROR: "@ + crate::text::uppercase_spec(err@),
                connecting: false,
                status: seq![],
                code: old(self)@.code,
            }),
    {
        let mut e = String::from_str("ERROR: ");
        e.append(crate::text::to_uppercase(err).as_str());
        self.error_message = e;
        self.is_connecting = false;
        self.status_message = String::new();
    }
}

/// The characters that can be typed on the join screen.
pub open spec fn typed_code_char(c: char) -> bool {
    crate::text::is_digit(c) || c == '.' || c == ':'
}

/// A code as the join screen's keys build it: digits, dots and colons, at
/// most 22 of them.
pub open spec fn typed_code(code: Seq<char>) -> bool {
    &&& code.len() <= max_code_bytes()
    &&& forall|i: int| 0 <= i < code.len() ==> typed_code_char(#[trigger] code[i])
}

proof fn lemma_typed_code_bytes(code: Seq<char>)
    requires
        forall|i: int| 0 <= i < code.len() ==> typed_code_char(#[trigger] code[i]),
    ensures
        crate::text::byte_len_spec(code) == code.len(),
{
    assert(vstd::utf8::is_ascii_chars(code));
    vstd::utf8::is_ascii_chars_encode_utf8(code);
}

proof fn lemma_type_char_keeps_typed(v: RoomCodeView, c: char)
    requires
        typed_code(v.code),
        typed_code_char(c),
    ensures
        typed_code(type_char_spec(v, c).code),
{
    lemma_typed_code_bytes(v.code);
    let w = type_char_spec(v, c);
    assert forall|i: int| 0 <= i < w.code.len() implies typed_code_char(#[trigger] w.code[i]) by {
        if i < v.code.len() {
            assert(w.code[i] == v.code[i] || w.code == v.code);
        }
    }
}

proof fn lemma_type_digits_keeps_typed(v: RoomCodeView, ds: Seq<DigitKey>)
    requires
        typed_code(v.code),
    ensures
        typed_code(type_digits_spec(v, ds).code),
    decreases ds.len(),
{
    if ds.len() > 0 {
        lemma_type_digits_keeps_typed(v, ds.drop_last());
        lemma_type_char_keeps_typed(type_digits_spec(v, ds.drop_last()), digit_key_char(ds.last()));
    }
}

/// The join screen only ever holds a typed code: starting from one, any frame
/// of digit keys, `.`, `:`, Backspace, Enter or Escape leaves digits, dots and
/// colons, at most 22 of them. While connecting a frame changes nothing, and
/// Escape leaves the input as it was.
pub proof fn lemma_join_keys_keep_code_typed(
    v: RoomCodeView,
    escape: bool,
    digits: Seq<DigitKey>,
    dot: bool,
    colon: bool,
    backspace: bool,
    enter: bool,
)
    requires
        typed_code(v.code),
    ensures
        typed_code(join_keys_spec(v, escape, digits, dot, colon, backspace, enter).0.code),
        v.connecting ==> join_keys_spec(v, escape, digits, dot, colon, backspace, enter) == (
            v,
            JoinCommandView::Stay,
        ),
        escape && !v.connecting ==> join_keys_spec(v, escape, digits, dot, colon, backspace, enter) == (
            v,
            JoinCommandView::BackToMenu,
        ),
{
    lemma_type_digits_keeps_typed(v, digits);
    let v1 = type_digits_spec(v, digits);
    if dot {
        lemma_type_char_keeps_typed(v1, '.');
    }
    let v2 = if dot { type_char_spec(v1, '.') } else { v1 };
    if colon {
        lemma_type_char_keeps_typed(v2, ':');
    }
    let v3 = if colon { type_char_spec(v2, ':') } else { v2 };
    if backspace && v3.code.len() > 0 {
        assert forall|i: int| 0 <= i < v3.code.drop_last().len() implies typed_code_char(
            #[trigger] v3.code.drop_last()[i],
        ) by {
            assert(v3.code.drop_last()[i] == v3.code[i]);
        }
    }
}


/// Whether the join screen shows the typed code in four slots: at most four
/// bytes, and no `.` or `:`.
pub open spec fn shows_slots(code: Seq<char>) -> bool {
    crate::text::byte_len_spec(code) <= 4 && !code.contains('.') && !code.contains(':')
}

/// Slot `i` of the four-slot display: the `i`-th character typed, or `_`.
pub open spec fn slot_spec(code: Seq<char>, i: int) -> char {
    if i < crate::text::byte_len_spec(code) {
        code[i]
    } else {
        '_'
    }
}

/// The typed code as the join screen shows it: four slots separated by spaces
/// (`1 2 _ _`) for a short room code, else the text as typed.
pub open spec fn code_display_spec(code: Seq<char>) -> Seq<char> {
    if shows_slots(code) {
        seq![
            slot_spec(code, 0), ' ', slot_spec(code, 1), ' ', slot_spec(code, 2), ' ', slot_spec(code, 3),
        ]
    } else {
        code
    }
}

/// The typed code as the join screen shows it.
pub fn code_display(code: &str) -> (d: String)
    requires
        shows_slots(code@) ==> crate::text::byte_len_spec(code@) <= code@.len(),
    ensures
        d@ == code_display_spec(code@),
{
    let n = crate::text::byte_len(code);
    if n <= 4 && !contains_char(code, '.') && !contains_char(code, ':') {
        let cs = crate::text::chars_of(code);
        let mut out: Vec<char> = Vec::new();
        let mut i: usize = 0;
        while i < 4
            invariant
                i <= 4,
                n <= 4,
                n == crate::text::byte_len_spec(code@),
                n <= cs@.len(),
                cs@ == code@,
                shows_slots(code@),
                out@.len() == if i == 0 { 0 } else { 2 * i - 1 },
                forall|k: int| 0 <= k < i ==> #[trigger] out@[2 * k] == slot_spec(code@, k),
                forall|k: int| 0 <= k < i - 1 ==> #[trigger] out@[2 * k + 1] == ' ',
            decreases 4 - i,
        {
            if i > 0 {
                out.push(' ');
            }
            if i < n {
                out.push(cs[i]);
            } else {
                out.push('_');
            }
            i = i + 1;
        }
        assert(out@[2 * 0int] == slot_spec(code@, 0));
        assert(out@[2 * 1int] == slot_spec(code@, 1));
        assert(out@[2 * 2int] == slot_spec(code@, 2));
        assert(out@[2 * 3int] == slot_spec(code@, 3));
        assert(out@[2 * 0int + 1] == ' ');
        assert(out@[2 * 1int + 1] == ' ');
        assert(out@[2 * 2int + 1] == ' ');
        assert(out@ =~= code_display_spec(code@));
        crate::text::string_of(out.as_slice())
    } else {
        String::from_str(code)
    }
}

/// The hint under the typed code: the error if any, else the status if any,
/// else what Enter will do.
pub open spec fn join_hint_spec(v: RoomCodeView) -> Seq<char> {
    if v.error.len() > 0 {
        v.error
    } else if v.status.len() > 0 {
        v.status
    } else if v.code.contains('.') || v.code.contains(':') {
        "Press ENTER to connect directly"@
    } else if crate::text::byte_len_spec(v.code) == 4 {
        "Press ENTER to fetch room details"@
    } else {
        "Type code or host IP/port"@
    }
}

/// The hint under the typed code.
pub fn join_hint(input: &RoomCodeInput) -> (h: String)
    ensures
        h@ == join_hint_spec(input@),
{
    if !input.error_message.as_str().is_empty() {
        input.error_message.clone()
    } else if !input.status_message.as_str().is_empty() {
        input.status_message.clone()
    } else if is_direct_address(input.code.as_str()) {
        String::from_str("Press ENTER to connect directly")
    } else if crate::text::byte_len(input.code.as_str()) == 4 {
        String::from_str("Press ENTER to fetch room details")
    } else {
        String::from_str("Type code or host IP/port")
    }
}

/// The room code line of the host's waiting screen: `DIRECT CONNECT` for a
/// direct connection, else the room code.
pub fn host_code_text(room_code: &str) -> (t: String)
    ensures
        t@ == if is_direct_room(room_code@) {
            "DIRECT CONNECT"@
        } else {
            room_code@
        },
{
    if starts_with(room_code, "DIRECT") {
        String::from_str("DIRECT CONNECT")
    } else {
        String::from_str(room_code)
    }
}

/// The address line of the host's waiting screen: for a direct connection,
/// the address to share, that is the label without `DIRECT (`, `)` and the
/// battle marker, so the plain IP and port that a peer types; else a waiting
/// message.
pub open spec fn host_address_text_spec(room_code: Seq<char>) -> Seq<char> {
    if is_direct_room(room_code) {
        "Share this address with peer:\n"@ + unmarked_spec(
            replace_spec(replace_spec(room_code, "DIRECT ("@, ""@), ")"@, ""@),
        ).0
    } else {
        "Waiting for peer to join..."@
    }
}

/// The address line of the host's waiting screen.
pub fn host_address_text(room_code: &str) -> (t: String)
    ensures
        t@ == host_address_text_spec(room_code@),
{
    proof {
        reveal_strlit("DIRECT (");
        reveal_strlit(")");
    }
    if starts_with(room_code, "DIRECT") {
        let a = replace(room_code, "DIRECT (", "");
        let b = replace(a.as_str(), ")", "");
        let (plain, _) = split_battle_marker(b.as_str());
        let mut t = String::from_str("Share this address with peer:\n");
        t.append(plain.as_str());
        t
    } else {
        String::from_str("Waiting for peer to join...")
    }
}

/// The multiplayer status line: battle or not, connected (or the peer's
/// address known) or waiting, the room (`DIRECT` for a direct connection),
/// and in a normal game the peer's level.
pub open spec fn status_line_spec(room_code: Seq<char>, is_battle: bool, linked: bool, peer_level: u32) -> Seq<char> {
    let label = if is_direct_room(room_code) { "DIRECT"@ } else { room_code };
    if linked {
        if is_battle {
            "MULTIPLAYER BATTLE: CONNECTED | ROOM: "@ + label
        } else {
            "MULTIPLAYER: CONNECTED | ROOM: "@ + label + " | PEER LEVEL: "@ + dec_spec(peer_level as nat)
        }
    } else {
        if is_battle {
            "MULTIPLAYER BATTLE: WAITING FOR PEER | ROOM: "@ + label
        } else {
            "MULTIPLAYER: WAITING FOR PEER | ROOM: "@ + label
        }
    }
}

/// The multiplayer status line; `peer_level` is the level of the peer's
/// player if one is shown, which counts as level 1 otherwise.
pub fn status_line(room_code: &str, is_battle: bool, linked: bool, peer_level: Option<u32>) -> (s: String)
    ensures
        s@ == status_line_spec(
            room_code@,
            is_battle,
            linked,
            match peer_level {
                Some(l) => l,
                None => 1,
            },
        ),
{
    let level: u32 = match peer_level {
        Some(l) => l,
        None => 1,
    };
    let label: &str = if starts_with(room_code, "DIRECT") {
        "DIRECT"
    } else {
        room_code
    };
    let mut s: String;
    if linked {
        if is_battle {
            s = String::from_str("MULTIPLAYER BATTLE: CONNECTED | ROOM: ");
            s.append(label);
        } else {
            s = String::from_str("MULTIPLAYER: CONNECTED | ROOM: ");
            s.append(label);
            s.append(" | PEER LEVEL: ");
            s.append(decimal(level).as_str());
        }
    } else {
        if is_battle {
            s = String::from_str("MULTIPLAYER BATTLE: WAITING FOR PEER | ROOM: ");
        } else {
            s = String::from_str("MULTIPLAYER: WAITING FOR PEER | ROOM: ");
        }
        s.append(label);
    }
    s
}


/// The screen a client goes to once joined, and a host once a client
/// joined: the battle arena for a battle room, else the game.
pub open spec fn play_screen_spec(is_battle: bool) -> AppState {
    if is_battle {
        AppState::BattleArena
    } else {
        AppState::Game
    }
}

/// The screen for a battle room or a normal room.
pub fn play_screen(is_battle: bool) -> (s: AppState)
    ensures
        s == play_screen_spec(is_battle),
{
    if is_battle {
        AppState::BattleArena
    } else {
        AppState::Game
    }
}

/// What hosting or joining in the background reported.
pub enum LinkEvent {
    HostSucceeded { room_code: String, is_battle: bool },
    HostFailed(String),
    JoinSucceeded { is_battle: bool },
    JoinFailed(String),
}

/// What the game does on a [`LinkEvent`].
#[derive(Debug, Clone, Copy, PartialEq, Eq, Structural)]
pub enum LinkReaction {
    /// Hosting: keep the socket, and look up the client's address in the
    /// registry unless the room is a direct connection.
    Hosting { poll_for_client: bool },
    /// Go to this screen.
    Show(AppState),
    /// The join screen shows the error.
    ShowError,
}

/// Reacts to a report of the background hosting or joining.
pub fn react_to_link_event(input: &mut RoomCodeInput, event: &LinkEvent) -> (r: LinkReaction)
    ensures
        match event {
            LinkEvent::HostSucceeded { room_code, is_battle } => {
                &&& r == LinkReaction::Hosting { poll_for_client: !is_direct_room(room_code@) }
                &&& final(input)@ == old(input)@
            },
            LinkEvent::HostFailed(_) => {
                &&& r == LinkReaction::Show(AppState::MultiplayerMenu)
                &&& final(input)@ == old(input)@
            },
            LinkEvent::JoinSucceeded { is_battle } => {
                &&& r == LinkReaction::Show(play_screen_spec(*is_battle))
                &&& final(input)@ == old(input)@
            },
            LinkEvent::JoinFailed(err) => {
                &&& r == LinkReaction::ShowError
                &&& final(input)@ == (RoomCodeView {
                    error: "ERROR: "@ + crate::text::uppercase_spec(err@),
                    connecting: false,
                    status: seq![],
                    code: old(input)@.code,
                })
            },
        },
{
    match event {
        LinkEvent::HostSucceeded { room_code, is_battle: _ } => LinkReaction::Hosting {
            poll_for_client: !starts_with(room_code.as_str(), "DIRECT"),
        },
        LinkEvent::HostFailed(_) => LinkReaction::Show(AppState::MultiplayerMenu),
        LinkEvent::JoinSucceeded { is_battle } => LinkReaction::Show(play_screen(*is_battle)),
        LinkEvent::JoinFailed(err) => {
            input.join_failed(err.as_str());
            LinkReaction::ShowError
        },
    }
}

/// The connection as the game loop sees it.
#[derive(Debug, Clone, Copy, PartialEq, Eq, Structural)]
pub struct LinkState {
    pub is_host: bool,
    pub is_connected: bool,
}

/// The position, level, activity and name of the peer's player, from a
/// `STATE` message; the coordinates are left as text.
pub struct RemoteUpdate {
    pub x_text: String,
    pub y_text: String,
    pub level: u32,
    pub active: bool,
    pub username: String,
    /// The peer is on the local player's level and active: show them.
    pub visible: bool,
}

/// What to do with a datagram.
pub enum DatagramAction {
    Ignore,
    /// A client joined: take the sender as the peer and answer `ACK`.
    AcceptPeer,
    /// The peer's player moved.
    Remote(RemoteUpdate),
}

/// The mathematical value of a [`DatagramAction`].
pub enum DatagramView {
    Ignore,
    AcceptPeer,
    Remote { x: Seq<char>, y: Seq<char>, level: u32, active: bool, username: Seq<char>, visible: bool },
}

impl View for DatagramAction {
    type V = DatagramView;

    open spec fn view(&self) -> DatagramView {
        match self {
            DatagramAction::Ignore => DatagramView::Ignore,
            DatagramAction::AcceptPeer => DatagramView::AcceptPeer,
            DatagramAction::Remote(u) => DatagramView::Remote {
                x: u.x_text@,
                y: u.y_text@,
                level: u.level,
                active: u.active,
                username: u.username@,
                visible: u.visible,
            },
        }
    }
}

/// A number field of a `STATE` message, 1 where it does not parse.
pub open spec fn field_or_one(w: Seq<char>) -> u32 {
    match crate::text::parse_u32_spec(w) {
        Some(v) => v,
        None => 1,
    }
}

/// What a datagram `msg` does, split in words: `JOIN` to a host accepts the
/// sender; `ACK` to a client connects it; `STATE x y level _ active [name]`
/// (at least six words) moves the peer's player, whose level and activity
/// count as 1 where they do not parse, whose name is `Player` if missing, and
/// who is shown on the same level only when active (activity 1).
pub open spec fn datagram_spec(link: LinkState, msg: Seq<char>, current_level: u32) -> (LinkState, DatagramView) {
    let w = crate::text::words(msg);
    if w.len() == 0 {
        (link, DatagramView::Ignore)
    } else if w[0] == "JOIN"@ {
        if link.is_host {
            (LinkState { is_connected: true, ..link }, DatagramView::AcceptPeer)
        } else {
            (link, DatagramView::Ignore)
        }
    } else if w[0] == "ACK"@ {
        (if !link.is_host { LinkState { is_connected: true, ..link } } else { link }, DatagramView::Ignore)
    } else if w[0] == "STATE"@ && w.len() >= 6 {
        let level = field_or_one(w[3]);
        let active = field_or_one(w[5]) == 1;
        (
            link,
            DatagramView::Remote {
                x: w[1],
                y: w[2],
                level,
                active,
                username: if w.len() >= 7 { w[6] } else { "Player"@ },
                visible: level == current_level && active,
            },
        )
    } else {
        (link, DatagramView::Ignore)
    }
}

fn field_value(w: &str) -> (v: u32)
    ensures
        v == field_or_one(w@),
{
    match crate::text::parse_u32(w) {
        Some(v) => v,
        None => 1,
    }
}

/// Handles a datagram received during play.
pub fn on_datagram(link: &mut LinkState, msg: &str, current_level: u32) -> (a: DatagramAction)
    ensures
        (*final(link), a@) == datagram_spec(*old(link), msg@, current_level),
{
    let w = crate::text::split_words(msg);
    if w.len() == 0 {
        return DatagramAction::Ignore;
    }
    let join = String::from_str("JOIN");
    let ack = String::from_str("ACK");
    let state = String::from_str("STATE");
    if w[0] == join {
        if link.is_host {
            link.is_connected = true;
            DatagramAction::AcceptPeer
        } else {
            DatagramAction::Ignore
        }
    } else if w[0] == ack {
        if !link.is_host {
            link.is_connected = true;
        }
        DatagramAction::Ignore
    } else if w[0] == state && w.len() >= 6 {
        let level = field_value(w[3].as_str());
        let active = field_value(w[5].as_str()) == 1;
        let username = if w.len() >= 7 {
            w[6].clone()
        } else {
            String::from_str("Player")
        };
        DatagramAction::Remote(
            RemoteUpdate {
                x_text: w[1].clone(),
                y_text: w[2].clone(),
                level,
                active,
                username,
                visible: level == current_level && active,
            },
        )
    } else {
        DatagramAction::Ignore
    }
}

/// Whether a datagram on the host's waiting screen is a client's `JOIN`
/// (after trimming whitespace); if so, the screen to play on.
pub fn host_waiting_datagram(msg: &str, is_battle: bool) -> (s: Option<AppState>)
    ensures
        crate::text::trim_spec(msg@) == "JOIN"@ ==> s == Some(play_screen_spec(is_battle)),
        crate::text::trim_spec(msg@) != "JOIN"@ ==> s is None,
{
    let t = trim(msg);
    let join = String::from_str("JOIN");
    if t == join {
        Some(play_screen(is_battle))
    } else {
        None
    }
}


/// The message that carries the local player's state to the peer:
/// `STATE {x} {y} {level} 0 1 {username}`.
pub open spec fn state_payload_spec(x: Seq<char>, y: Seq<char>, level: u32, username: Seq<char>) -> Seq<char> {
    "STATE"@ + seq![' '] + (x + seq![' '] + (y + seq![' '] + (dec_spec(level as nat) + seq![' '] + (
    "0"@ + seq![' '] + ("1"@ + seq![' '] + username)))))
}

/// The message that carries the local player's position (as text), level and
/// name to the peer.
pub fn state_payload(x_text: &str, y_text: &str, level: u32, username: &str) -> (p: String)
    ensures
        p@ == state_payload_spec(x_text@, y_text@, level, username@),
{
    proof {
        reveal_strlit(" ");
    }
    let mut p = String::from_str("STATE");
    p.append(" ");
    p.append(x_text);
    p.append(" ");
    p.append(y_text);
    p.append(" ");
    p.append(decimal(level).as_str());
    p.append(" ");
    p.append("0");
    p.append(" ");
    p.append("1");
    p.append(" ");
    p.append(username);
    assert(p@ =~= state_payload_spec(x_text@, y_text@, level, username@));
    p
}

proof fn lemma_literal_word(w: Seq<char>)
    requires
        crate::text::is_word(w),
    ensures
        crate::text::words_from(w, seq![]) == seq![w],
{
    crate::text::lemma_words_of_word(w, seq![]);
    assert(Seq::<char>::empty() + w =~= w);
}

/// The peer reads a `STATE` message back as it was sent: for coordinates and a
/// name that are single words, the message's words are `STATE`, the
/// coordinates, the level, `0`, `1` and the name; the peer takes the level and
/// name as sent, the player as active, and shows them exactly when on its own
/// level.
pub proof fn lemma_state_message_roundtrip(
    link: LinkState,
    x: Seq<char>,
    y: Seq<char>,
    level: u32,
    username: Seq<char>,
    current_level: u32,
)
    requires
        crate::text::is_word(x),
        crate::text::is_word(y),
        crate::text::is_word(username),
    ensures
        crate::text::words(state_payload_spec(x, y, level, username)) == seq![
            "STATE"@, x, y, dec_spec(level as nat), "0"@, "1"@, username,
        ],
        datagram_spec(link, state_payload_spec(x, y, level, username), current_level) == (
            link,
            DatagramView::Remote { x, y, level, active: true, username, visible: level == current_level },
        ),
{
    reveal_strlit("STATE");
    reveal_strlit("JOIN");
    reveal_strlit("ACK");
    reveal_strlit("0");
    reveal_strlit("1");
    let d = dec_spec(level as nat);
    crate::text::lemma_decimal_digits(level as nat);
    crate::text::lemma_decimal_parses_back(level);
    assert("0"@ =~= dec_spec(0));
    assert("1"@ =~= dec_spec(1));
    crate::text::lemma_decimal_parses_back(0);
    crate::text::lemma_decimal_parses_back(1);
    crate::text::lemma_decimal_digits(0);
    crate::text::lemma_decimal_digits(1);
    let r6 = username;
    let r5 = "1"@ + seq![' '] + r6;
    let r4 = "0"@ + seq![' '] + r5;
    let r3 = d + seq![' '] + r4;
    let r2 = y + seq![' '] + r3;
    let r1 = x + seq![' '] + r2;
    let r0 = "STATE"@ + seq![' '] + r1;
    assert(crate::text::is_word("STATE"@));
    assert(crate::text::is_word(d));
    lemma_literal_word("STATE"@);
    lemma_literal_word(x);
    lemma_literal_word(y);
    lemma_literal_word(d);
    lemma_literal_word("0"@);
    lemma_literal_word("1"@);
    lemma_literal_word(username);
    crate::text::lemma_words_split_at_space("1"@, r6, seq![]);
    crate::text::lemma_words_split_at_space("0"@, r5, seq![]);
    crate::text::lemma_words_split_at_space(d, r4, seq![]);
    crate::text::lemma_words_split_at_space(y, r3, seq![]);
    crate::text::lemma_words_split_at_space(x, r2, seq![]);
    crate::text::lemma_words_split_at_space("STATE"@, r1, seq![]);
    let w = crate::text::words(r0);
    assert(w =~= seq!["STATE"@, x, y, d, "0"@, "1"@, username]);
    assert(w[0] != "JOIN"@);
    assert(w[0] != "ACK"@);
}


/// The room label a host keeps: the registered room code when the registry
/// took the address, else `DIRECT ({address})`.
pub fn hosted_room_label(registered: bool, room_code: &str, ip_port: &str) -> (label: String)
    ensures
        registered ==> label@ == room_code@,
        !registered ==> label@ == "DIRECT ("@ + ip_port@ + ")"@,
{
    if registered {
        String::from_str(room_code)
    } else {
        direct_room_label(ip_port)
    }
}

/// The room label a client keeps once joined: what it typed for a direct
/// connection, else the host address it found in the registry.
pub fn joined_room_label(is_direct: bool, typed: &str, found_address: &str) -> (label: String)
    ensures
        is_direct ==> label@ == typed@,
        !is_direct ==> label@ == found_address@,
{
    if is_direct {
        String::from_str(typed)
    } else {
        String::from_str(found_address)
    }
}

} // verus!
