//! The login screen: the name field, the join button and what comes of it.

use vstd::prelude::*;

use crate::game::client::GameSession;
use crate::gatekeeper::join::JoinResponse;
use crate::text::{control, is_control, or_default, text_or, trim, trimmed};

verus! {

// ---------------------------------------------------------------------------
// The gatekeeper's address
// ---------------------------------------------------------------------------
/// The gatekeeper base URL.
#[derive(Debug, Clone, PartialEq, Eq)]
pub struct GatekeeperUrl(pub String);

/// The gatekeeper base URL, from `GATEKEEPER_URL`.
pub fn gatekeeper_url(var: Option<String>) -> (res: GatekeeperUrl)
    ensures
        res.0@ == text_or(var, "http://20.104.144.109:3000"@),
{
    GatekeeperUrl(or_default(var, "http://20.104.144.109:3000"))
}

// ---------------------------------------------------------------------------
// The name field
// ---------------------------------------------------------------------------
/// Tracks the name the player is typing in the login UI.
#[derive(Debug, Clone, PartialEq, Eq)]
pub struct NameBuffer(pub String);

impl Default for NameBuffer {
    fn default() -> (res: NameBuffer)
        ensures
            res.0@ == "Player1"@,
    {
        NameBuffer("Player1".to_owned())
    }
}

/// A key that was pressed.
#[derive(Debug, Clone, PartialEq, Eq)]
pub enum KeyPress {
    /// A key that stands for text.
    Character(String),
    Backspace,
    Other,
}

/// The view of a `KeyPress`.
pub enum KeyPressView {
    Character(Seq<char>),
    Backspace,
    Other,
}

impl View for KeyPress {
    type V = KeyPressView;

    open spec fn view(&self) -> KeyPressView {
        match self {
            KeyPress::Character(text) => KeyPressView::Character(text@),
            KeyPress::Backspace => KeyPressView::Backspace,
            KeyPress::Other => KeyPressView::Other,
        }
    }
}

/// A list of pressed keys.
pub open spec fn key_presses(v: Seq<KeyPress>) -> Seq<KeyPressView> {
    v.map_values(|k: KeyPress| k@)
}

/// A text without its control characters.
pub open spec fn printable(text: Seq<char>) -> Seq<char>
    decreases text.len(),
{
    if text.len() == 0 {
        Seq::empty()
    } else if is_control(text.last()) {
        printable(text.drop_last())
    } else {
        printable(text.drop_last()).push(text.last())
    }
}

/// The name after a key.
pub open spec fn typed(name: Seq<char>, key: KeyPressView) -> Seq<char> {
    match key {
        KeyPressView::Character(text) => name + printable(text),
        KeyPressView::Backspace => if name.len() == 0 {
            name
        } else {
            name.drop_last()
        },
        KeyPressView::Other => name,
    }
}

/// Whether a key makes the field be drawn anew: a backspace always does, text
/// only if something of it is printable.
pub open spec fn redraws(key: KeyPressView) -> bool {
    match key {
        KeyPressView::Character(text) => printable(text).len() > 0,
        KeyPressView::Backspace => true,
        KeyPressView::Other => false,
    }
}

/// The name after a list of keys.
pub open spec fn typed_all(name: Seq<char>, keys: Seq<KeyPressView>) -> Seq<char>
    decreases keys.len(),
{
    if keys.len() == 0 {
        name
    } else {
        typed(typed_all(name, keys.drop_last()), keys.last())
    }
}

/// Whether one of the keys makes the field be drawn anew.
pub open spec fn some_redraws(keys: Seq<KeyPressView>) -> bool {
    exists|i: int| 0 <= i < keys.len() && redraws(#[trigger] keys[i])
}

/// What the field shows: the name and a cursor.
pub open spec fn field_text(name: Seq<char>) -> Seq<char> {
    name + "_"@
}

impl NameBuffer {
    /// What the field shows.
    pub fn shown(&self) -> (res: String)
        ensures
            res@ == field_text(self.0@),
    {
        self.0.clone().concat("_")
    }

    /// Appends the printable characters of a text; says whether there were any.
    fn append(&mut self, text: &str) -> (res: bool)
        ensures
            final(self).0@ == old(self).0@ + printable(text@),
            res == (printable(text@).len() > 0),
    {
        let ghost start = self.0@;
        let mut changed = false;
        let len: usize = text.unicode_len();
        let mut i: usize = 0;
        assert(start + printable(text@.take(0)) =~= start);
        while i < len
            invariant
                i <= len,
                len == text@.len(),
                self.0@ == start + printable(text@.take(i as int)),
                changed == (printable(text@.take(i as int)).len() > 0),
            decreases len - i,
        {
            let c = text.get_char(i);
            let ghost before = printable(text@.take(i as int));
            assert(text@.take(i + 1).drop_last() =~= text@.take(i as int));
            if !control(c) {
                self.0.push(c);
                changed = true;
                assert(start + before.push(c) =~= (start + before).push(c));
            }
            i = i + 1;
        }
        assert(text@.take(text@.len() as int) =~= text@);
        changed
    }

    /// Drops the last character, if there is one.
    fn backspace(&mut self)
        ensures
            final(self).0@ == typed(old(self).0@, KeyPressView::Backspace),
    {
        let len: usize = self.0.as_str().unicode_len();
        if len > 0 {
            let shorter = self.0.as_str().substring_char(0, len - 1).to_owned();
            assert(shorter@ =~= self.0@.drop_last());
            self.0 = shorter;
        }
    }
}

/// Takes in pressed keys. Gives the new text of the name field, if it is to be
/// drawn anew.
pub fn handle_text_input(name_buf: &mut NameBuffer, keys: &Vec<KeyPress>) -> (res: Option<String>)
    ensures
        final(name_buf).0@ == typed_all(old(name_buf).0@, key_presses(keys@)),
        (match res {
            Some(text) => some_redraws(key_presses(keys@)) && text@ == field_text(
                final(name_buf).0@,
            ),
            None => !some_redraws(key_presses(keys@)),
        }),
{
    let ghost all = key_presses(keys@);
    let ghost start = name_buf.0@;
    let mut changed = false;
    let mut i: usize = 0;
    while i < keys.len()
        invariant
            i <= keys@.len(),
            all == key_presses(keys@),
            name_buf.0@ == typed_all(start, all.take(i as int)),
            changed == some_redraws(all.take(i as int)),
        decreases keys@.len() - i,
    {
        let ghost before = all.take(i as int);
        let ghost now = all.take(i + 1);
        proof {
            assert(now.drop_last() =~= before);
            assert(now.last() == keys@[i as int]@);
            if some_redraws(before) {
                let k = choose|k: int| 0 <= k < before.len() && redraws(#[trigger] before[k]);
                assert(redraws(now[k]));
            }
            if redraws(now[i as int]) {
                assert(some_redraws(now));
            }
            if some_redraws(now) && !redraws(now[i as int]) {
                let k = choose|k: int| 0 <= k < now.len() && redraws(#[trigger] now[k]);
                assert(redraws(before[k]));
            }
        }
        match &keys[i] {
            KeyPress::Character(text) => {
                if name_buf.append(text.as_str()) {
                    changed = true;
                }
            },
            KeyPress::Backspace => {
                name_buf.backspace();
                changed = true;
            },
            KeyPress::Other => {},
        }
        i = i + 1;
    }
    assert(all.take(keys@.len() as int) =~= all);
    if changed {
        Some(name_buf.shown())
    } else {
        None
    }
}

/// The name never holds a control character that was typed: if it had none
/// before, it has none after any keys.
pub proof fn law_name_stays_printable(name: Seq<char>, keys: Seq<KeyPressView>)
    requires
        forall|i: int| 0 <= i < name.len() ==> !is_control(#[trigger] name[i]),
    ensures
        forall|i: int|
            0 <= i < typed_all(name, keys).len() ==> !is_control(
                #[trigger] typed_all(name, keys)[i],
            ),
    decreases keys.len(),
{
    if keys.len() > 0 {
        let before = typed_all(name, keys.drop_last());
        let after = typed_all(name, keys);
        law_name_stays_printable(name, keys.drop_last());
        match keys.last() {
            KeyPressView::Character(text) => {
                lemma_printable(text);
                assert forall|i: int| 0 <= i < after.len() implies !is_control(
                    #[trigger] after[i],
                ) by {
                    if i < before.len() {
                        assert(after[i] == before[i]);
                    } else {
                        assert(after[i] == printable(text)[i - before.len()]);
                    }
                }
            },
            _ => {
                assert forall|i: int| 0 <= i < after.len() implies !is_control(
                    #[trigger] after[i],
                ) by {
                    assert(after[i] == before[i]);
                }
            },
        }
    }
}

/// What typing does: text adds its characters that are no control characters, in
/// order; a backspace takes the last character away, if there is one; any other
/// key does nothing. Keys count one after the other.
pub proof fn law_typing(
    name: Seq<char>,
    text: Seq<char>,
    keys: Seq<KeyPressView>,
    key: KeyPressView,
)
    ensures
        typed(name, KeyPressView::Character(text)) == name + text.filter(
            |c: char| !(c as u32 <= 31 || (127 <= c as u32 && c as u32 <= 159)),
        ),
        name.len() > 0 ==> typed(name, KeyPressView::Backspace) == name.take(name.len() - 1),
        typed(Seq::empty(), KeyPressView::Backspace) == Seq::<char>::empty(),
        typed(name, KeyPressView::Other) == name,
        typed_all(name, Seq::empty()) == name,
        typed_all(name, keys.push(key)) == typed(typed_all(name, keys), key),
        field_text(name) == name + "_"@,
{
    lemma_printable_is_filter(text);
    assert(keys.push(key).drop_last() =~= keys);
    if name.len() > 0 {
        assert(name.drop_last() =~= name.take(name.len() - 1));
    }
}

/// The field is drawn anew exactly if some key was a backspace, or a text with a
/// character that is no control character.
pub proof fn law_redraws(keys: Seq<KeyPressView>)
    ensures
        some_redraws(keys) <==> exists|i: int|
            0 <= i < keys.len() && match #[trigger] keys[i] {
                KeyPressView::Character(text) => exists|j: int|
                    0 <= j < text.len() && !is_control(#[trigger] text[j]),
                KeyPressView::Backspace => true,
                KeyPressView::Other => false,
            },
{
    assert forall|i: int| 0 <= i < keys.len() implies redraws(#[trigger] keys[i]) == (match keys[i] {
        KeyPressView::Character(text) => exists|j: int|
            0 <= j < text.len() && !is_control(#[trigger] text[j]),
        KeyPressView::Backspace => true,
        KeyPressView::Other => false,
    }) by {
        match keys[i] {
            KeyPressView::Character(text) => {
                lemma_printable_some(text);
            },
            _ => {},
        }
    }
}

proof fn lemma_printable_is_filter(text: Seq<char>)
    ensures
        printable(text) == text.filter(
            |c: char| !(c as u32 <= 31 || (127 <= c as u32 && c as u32 <= 159)),
        ),
    decreases text.len(),
{
    reveal(Seq::filter);
    if text.len() > 0 {
        lemma_printable_is_filter(text.drop_last());
    } else {
        assert(text =~= Seq::empty());
    }
}

proof fn lemma_printable_some(text: Seq<char>)
    ensures
        printable(text).len() > 0 <==> exists|j: int|
            0 <= j < text.len() && !is_control(#[trigger] text[j]),
    decreases text.len(),
{
    if text.len() > 0 {
        let rest = text.drop_last();
        lemma_printable_some(rest);
        if exists|j: int| 0 <= j < rest.len() && !is_control(#[trigger] rest[j]) {
            let j = choose|j: int| 0 <= j < rest.len() && !is_control(#[trigger] rest[j]);
            assert(!is_control(text[j]));
        }
        if !is_control(text.last()) {
            assert(!is_control(text[text.len() - 1]));
        }
        if exists|j: int| 0 <= j < text.len() && !is_control(#[trigger] text[j]) {
            let j = choose|j: int| 0 <= j < text.len() && !is_control(#[trigger] text[j]);
            if j < rest.len() {
                assert(!is_control(rest[j]));
            }
        }
    }
}

proof fn lemma_printable(text: Seq<char>)
    ensures
        forall|i: int| 0 <= i < printable(text).len() ==> !is_control(#[trigger] printable(text)[i]),
    decreases text.len(),
{
    if text.len() > 0 {
        let rest = printable(text.drop_last());
        lemma_printable(text.drop_last());
        assert forall|i: int| 0 <= i < printable(text).len() implies !is_control(
            #[trigger] printable(text)[i],
        ) by {
            if i < rest.len() {
                assert(printable(text)[i] == rest[i]);
            }
        }
    }
}

/// Typing a printable character and then a backspace gives the name back.
pub proof fn law_backspace_undoes_character(name: Seq<char>, c: char)
    requires
        !is_control(c),
    ensures
        typed_all(name, seq![KeyPressView::Character(seq![c]), KeyPressView::Backspace]) == name,
{
    let keys = seq![KeyPressView::Character(seq![c]), KeyPressView::Backspace];
    let one = keys.drop_last();
    assert(one =~= seq![KeyPressView::Character(seq![c])]);
    assert(one.drop_last() =~= Seq::empty());
    assert(seq![c].drop_last() =~= Seq::empty());
    assert(printable(seq![c].drop_last()) =~= Seq::empty());
    assert(printable(seq![c]) =~= seq![c]);
    assert(typed_all(name, one.drop_last()) == name);
    assert(typed_all(name, one) =~= name + seq![c]);
    assert((name + seq![c]).drop_last() =~= name);
}

// ---------------------------------------------------------------------------
// The join button
// ---------------------------------------------------------------------------
/// What a change of the join button leads to.
#[derive(Debug, Clone, PartialEq, Eq)]
pub enum JoinPress {
    /// Nothing: the button was not pressed.
    Ignored,
    /// A message on the status line.
    Refused(String),
    /// A request to this address under this name.
    Send { url: String, display_name: String },
}

/// Reacts to the join button. Without an address of its own, the request goes
/// to the local gatekeeper.
pub fn handle_join_button(pressed: bool, name: &NameBuffer, base: Option<GatekeeperUrl>) -> (res:
    JoinPress)
    ensures
        (match res {
            JoinPress::Ignored => !pressed,
            JoinPress::Refused(message) => pressed && trimmed(name.0@).len() == 0 && message@
                == "Name cannot be empty"@,
            JoinPress::Send { url, display_name } => pressed && trimmed(name.0@).len() > 0
                && display_name@ == trimmed(name.0@) && url@ == (match base {
                Some(given) => given.0@,
                None => "http://localhost:3000"@,
            }) + "/join"@,
        }),
{
    if !pressed {
        return JoinPress::Ignored;
    }
    let display_name = trim(name.0.as_str());
    if display_name.is_empty() {
        return JoinPress::Refused("Name cannot be empty".to_owned());
    }
    let base_url = match base {
        Some(given) => given.0,
        None => "http://localhost:3000".to_owned(),
    };
    JoinPress::Send { url: base_url.concat("/join"), display_name: display_name.to_owned() }
}

/// The reason given for an answer that is no success.
pub fn status_error(status: &str) -> (res: String)
    ensures
        res@ == "Server returned "@ + status@,
{
    "Server returned ".to_owned().concat(status)
}

/// What the end of a join request leads to.
#[derive(Debug, Clone, PartialEq, Eq)]
pub enum JoinOutcome {
    /// The client goes on to connect.
    Connect(GameSession),
    /// A message on the status line.
    Failed(String),
}

/// Takes in how a join request came out.
pub fn poll_join_task(result: Result<JoinResponse, String>) -> (res: JoinOutcome)
    ensures
        (match result {
            Ok(response) => res is Connect && res->Connect_0.token@ == response.token@
                && res->Connect_0.server_addr@ == response.server_addr@
                && res->Connect_0.quic_port == response.quic_port,
            Err(reason) => res is Failed && res->Failed_0@ == "Join failed: "@ + reason@,
        }),
{
    match result {
        Ok(response) => JoinOutcome::Connect(
            GameSession {
                token: response.token,
                server_addr: response.server_addr,
                quic_port: response.quic_port,
            },
        ),
        Err(reason) => JoinOutcome::Failed("Join failed: ".to_owned().concat(reason.as_str())),
    }
}

} // verus!
