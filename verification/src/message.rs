//! Dialogue turns and their serialized form.
//!
//! A turn is stored and measured in its serialized shape, so the metadata
//! overhead of the encoding is charged against the window's character budget.

use vstd::prelude::*;

verus! {

/// The mathematical value of a [`Message`]: role and content as character
/// sequences.
pub struct MessageView {
    pub role: Seq<char>,
    pub content: Seq<char>,
}

/// One role-tagged message (user or assistant) in a conversation.
#[derive(Debug)]
pub struct Message {
    pub role: String,
    pub content: String,
}

impl View for Message {
    type V = MessageView;

    open spec fn view(&self) -> MessageView {
        MessageView { role: self.role@, content: self.content@ }
    }
}

/// The role tag of a turn authored by the end user.
pub open spec fn user_role() -> Seq<char> {
    seq!['u', 's', 'e', 'r']
}

/// The role tag of a turn authored by the completion provider.
pub open spec fn assistant_role() -> Seq<char> {
    seq!['a', 's', 's', 'i', 's', 't', 'a', 'n', 't']
}

/// The only roles the completion client recognizes.
pub open spec fn valid_role(role: Seq<char>) -> bool {
    role == user_role() || role == assistant_role()
}

/// The views of a sequence of messages.
pub open spec fn views_of(msgs: Seq<Message>) -> Seq<MessageView> {
    msgs.map_values(|m: Message| m@)
}

/// The role string literals denote the role tags of the model.
pub proof fn lemma_role_literals()
    ensures
        ("user")@ == user_role(),
        ("assistant")@ == assistant_role(),
{
    reveal_strlit("user");
    reveal_strlit("assistant");
    assert(("user")@ =~= user_role());
    assert(("assistant")@ =~= assistant_role());
}

/// Hexadecimal digit for a nibble, as used in `\u00..` escapes.
pub open spec fn hex_digit(n: u32) -> char {
    if n == 0 {
        '0'
    } else if n == 1 {
        '1'
    } else if n == 2 {
        '2'
    } else if n == 3 {
        '3'
    } else if n == 4 {
        '4'
    } else if n == 5 {
        '5'
    } else if n == 6 {
        '6'
    } else if n == 7 {
        '7'
    } else if n == 8 {
        '8'
    } else if n == 9 {
        '9'
    } else if n == 10 {
        'a'
    } else if n == 11 {
        'b'
    } else if n == 12 {
        'c'
    } else if n == 13 {
        'd'
    } else if n == 14 {
        'e'
    } else {
        'f'
    }
}

/// How one character appears inside a serialized string literal.
pub open spec fn escaped_char(c: char) -> Seq<char> {
    if c == '"' {
        seq!['\\', '"']
    } else if c == '\\' {
        seq!['\\', '\\']
    } else if c == '\n' {
        seq!['\\', 'n']
    } else if c == '\r' {
        seq!['\\', 'r']
    } else if c == '\t' {
        seq!['\\', 't']
    } else if c == '\u{08}' {
        seq!['\\', 'b']
    } else if c == '\u{0c}' {
        seq!['\\', 'f']
    } else if (c as u32) < 0x20 {
        seq!['\\', 'u', '0', '0', hex_digit((c as u32) / 16), hex_digit((c as u32) % 16)]
    } else {
        seq![c]
    }
}

/// A whole string escaped for inclusion in a serialized string literal.
pub open spec fn escape(s: Seq<char>) -> Seq<char>
    decreases s.len(),
{
    if s.len() == 0 {
        Seq::<char>::empty()
    } else {
        escape(s.drop_last()) + escaped_char(s.last())
    }
}

/// The opening frame of a serialized turn, up to the role's value.
pub open spec fn ser_prefix() -> Seq<char> {
    seq!['{', '"', 'r', 'o', 'l', 'e', '"', ':', '"']
}

/// The frame between the role's value and the content's value.
pub open spec fn ser_mid() -> Seq<char> {
    seq!['"', ',', '"', 'c', 'o', 'n', 't', 'e', 'n', 't', '"', ':', '"']
}

/// The closing frame of a serialized turn.
pub open spec fn ser_suffix() -> Seq<char> {
    seq!['"', '}']
}

/// The serialized form of a turn: the unit that is stored and measured.
pub open spec fn serialized(m: MessageView) -> Seq<char> {
    ser_prefix() + escape(m.role) + ser_mid() + escape(m.content) + ser_suffix()
}

/// The length of the serialized form: what one turn costs against the
/// character budget.
pub open spec fn serialized_len(m: MessageView) -> nat {
    serialized(m).len()
}

proof fn lemma_escape_take_succ(s: Seq<char>, i: int)
    requires
        0 <= i < s.len(),
    ensures
        escape(s.take(i + 1)) == escape(s.take(i)) + escaped_char(s[i]),
{
    assert(s.take(i + 1).len() == i + 1);
    assert(s.take(i + 1).drop_last() =~= s.take(i));
    assert(s.take(i + 1).last() == s[i]);
}

/// How many characters `c` occupies once escaped.
fn escape_cost(c: char) -> (n: u128)
    ensures
        n == escaped_char(c).len(),
{
    if c == '"' || c == '\\' || c == '\n' || c == '\r' || c == '\t' || c == '\u{08}' || c
        == '\u{0c}' {
        2
    } else if (c as u32) < 0x20 {
        6
    } else {
        1
    }
}

/// The length of `s` once escaped.
fn escaped_length(s: &str) -> (n: u128)
    ensures
        n == escape(s@).len(),
        n <= 6 * (usize::MAX as u128),
{
    let len = s.unicode_len();
    let mut i: usize = 0;
    let mut acc: u128 = 0;
    while i < len
        invariant
            len == s@.len(),
            0 <= i <= len,
            acc == escape(s@.take(i as int)).len(),
            acc <= 6 * i,
        decreases len - i,
    {
        let c = s.get_char(i);
        proof {
            lemma_escape_take_succ(s@, i as int);
        }
        let cost = escape_cost(c);
        acc = acc + cost;
        i = i + 1;
    }
    proof {
        assert(s@.take(len as int) =~= s@);
    }
    acc
}

impl Message {
    /// Builds a turn from a role tag and its text.
    pub fn new(role: &str, content: &str) -> (m: Message)
        ensures
            m@.role == role@,
            m@.content == content@,
    {
        Message { role: role.to_owned(), content: content.to_owned() }
    }

    /// An owned copy with the same role and content.
    pub fn duplicate(&self) -> (m: Message)
        ensures
            m@ == self@,
    {
        Message { role: self.role.clone(), content: self.content.clone() }
    }

    /// The cost of this turn against the character budget: the length of its
    /// serialized form.
    pub fn serialized_length(&self) -> (n: u128)
        ensures
            n == serialized_len(self@),
    {
        let role_part = escaped_length(self.role.as_str());
        let content_part = escaped_length(self.content.as_str());
        proof {
            assert(ser_prefix().len() == 9);
            assert(ser_mid().len() == 13);
            assert(ser_suffix().len() == 2);
        }
        24 + role_part + content_part
    }
}

} // verus!
