//! JSON objects: how they are written, and what their members are.

use vstd::prelude::*;
use vstd::string::*;
use vstd::utf8::encode_utf8;

use crate::hash;
use crate::text;

verus! {

/// A text in quotes.
pub open spec fn quoted(s: Seq<char>) -> Seq<char> {
    "\""@ + s + "\""@
}

/// What stands for a character in a JSON string: quotes, backslashes and control characters are
/// escaped.
pub open spec fn json_char(c: char) -> Seq<char> {
    if c == '"' {
        seq!['\\', '"']
    } else if c == '\\' {
        seq!['\\', '\\']
    } else if c == '\u{8}' {
        seq!['\\', 'b']
    } else if c == '\t' {
        seq!['\\', 't']
    } else if c == '\n' {
        seq!['\\', 'n']
    } else if c == '\u{c}' {
        seq!['\\', 'f']
    } else if c == '\r' {
        seq!['\\', 'r']
    } else if c as u32 <= 31 {
        seq![
            '\\',
            'u',
            '0',
            '0',
            hash::hex_digit(c as int / 16),
            hash::hex_digit(c as int % 16),
        ]
    } else {
        seq![c]
    }
}

/// What stands for a text in a JSON string.
pub open spec fn json_chars(s: Seq<char>) -> Seq<char>
    decreases s.len(),
{
    if s.len() == 0 {
        Seq::empty()
    } else {
        json_chars(s.drop_last()) + json_char(s.last())
    }
}

/// A text as a JSON string.
pub open spec fn json_string(s: Seq<char>) -> Seq<char> {
    quoted(json_chars(s))
}

/// `serde_json::Value::from` and its `Display`: a text as a JSON string.
#[verifier::external_body]
pub(crate) fn json_text(s: &str) -> (res: String)
    ensures
        res@ == json_string(s@),
{
    serde_json::Value::from(s).to_string()
}

/// One member of an object as it is written: its name, and the JSON of its value.
pub open spec fn member_text(member: (Seq<char>, Seq<char>)) -> Seq<char> {
    quoted(member.0) + ":"@ + member.1
}

/// The members of an object as they are written.
pub open spec fn members_text(members: Seq<(Seq<char>, Seq<char>)>) -> Seq<char>
    decreases members.len(),
{
    if members.len() == 0 {
        Seq::empty()
    } else if members.len() == 1 {
        member_text(members[0])
    } else {
        members_text(members.drop_last()) + ","@ + member_text(members.last())
    }
}

/// An object as it is written.
pub open spec fn object_text(members: Seq<(Seq<char>, Seq<char>)>) -> Seq<char> {
    "{"@ + members_text(members) + "}"@
}

/// The bytes of the name and of the value of one member.
#[derive(Debug)]
pub struct Member {
    pub name: Vec<u8>,
    pub value: Vec<u8>,
}

/// What is known of one member.
#[verifier::ext_equal]
pub struct MemberView {
    pub name: Seq<u8>,
    pub value: Seq<u8>,
}

impl View for Member {
    type V = MemberView;

    open spec fn view(&self) -> MemberView {
        MemberView { name: self.name@, value: self.value@ }
    }
}

/// What is known of several members.
pub open spec fn member_views(members: Seq<Member>) -> Seq<MemberView> {
    members.map_values(|m: Member| m@)
}

/// How far an object has been read: how deep the reading is in objects and arrays, whether it is
/// in a string and behind a backslash there, the members that have been read, and what has been
/// read of the one at hand, whose value begins behind the colon.
#[verifier::ext_equal]
pub struct Reading {
    pub depth: nat,
    pub quoted: bool,
    pub escaped: bool,
    pub named: bool,
    pub name: Seq<u8>,
    pub value: Seq<u8>,
    pub members: Seq<MemberView>,
}

impl Reading {
    /// The start of an object.
    pub open spec fn start() -> Reading {
        Reading {
            depth: 0,
            quoted: false,
            escaped: false,
            named: false,
            name: Seq::empty(),
            value: Seq::empty(),
            members: Seq::empty(),
        }
    }

    /// The reading with one more byte of the name or the value at hand.
    pub open spec fn keep(self, byte: u8) -> Reading {
        if self.named {
            Reading { value: self.value.push(byte), ..self }
        } else {
            Reading { name: self.name.push(byte), ..self }
        }
    }

    /// The reading with the member at hand finished, where there is one.
    pub open spec fn finish(self) -> Reading {
        Reading {
            named: false,
            name: Seq::empty(),
            value: Seq::empty(),
            members: if self.named {
                self.members.push(MemberView { name: self.name, value: self.value })
            } else {
                self.members
            },
            ..self
        }
    }

    /// The reading after one more byte.
    pub open spec fn step(self, byte: u8) -> Reading {
        if self.quoted {
            let kept = self.keep(byte);
            if self.escaped {
                Reading { escaped: false, ..kept }
            } else if byte == 0x5c {
                Reading { escaped: true, ..kept }
            } else if byte == 0x22 {
                Reading { quoted: false, ..kept }
            } else {
                kept
            }
        } else if byte == 0x22 {
            Reading { quoted: true, ..self.keep(byte) }
        } else if byte == 0x7b || byte == 0x5b {
            if self.depth == 0 {
                Reading { depth: 1, ..self }
            } else {
                Reading { depth: self.depth + 1, ..self.keep(byte) }
            }
        } else if byte == 0x7d || byte == 0x5d {
            if self.depth <= 1 {
                Reading { depth: 0, ..self.finish() }
            } else {
                Reading { depth: (self.depth - 1) as nat, ..self.keep(byte) }
            }
        } else if self.depth == 1 && byte == 0x2c {
            self.finish()
        } else if self.depth == 1 && byte == 0x3a {
            Reading { named: true, ..self }
        } else {
            self.keep(byte)
        }
    }

    /// The reading after some more bytes.
    pub open spec fn after(self, bytes: Seq<u8>) -> Reading
        decreases bytes.len(),
    {
        if bytes.len() == 0 {
            self
        } else {
            self.after(bytes.drop_last()).step(bytes.last())
        }
    }
}

/// The members of a JSON object: each has what stands before its colon and what stands behind
/// it, up to the comma or brace that ends it.
pub open spec fn members_of(json: Seq<u8>) -> Seq<MemberView> {
    Reading::start().after(json).members
}

struct Reader {
    depth: usize,
    quoted: bool,
    escaped: bool,
    named: bool,
    name: Vec<u8>,
    value: Vec<u8>,
    members: Vec<Member>,
}

impl View for Reader {
    type V = Reading;

    closed spec fn view(&self) -> Reading {
        Reading {
            depth: self.depth as nat,
            quoted: self.quoted,
            escaped: self.escaped,
            named: self.named,
            name: self.name@,
            value: self.value@,
            members: member_views(self.members@),
        }
    }
}

impl Reader {
    fn keep(&mut self, byte: u8)
        ensures
            final(self)@ == old(self)@.keep(byte),
            final(self).depth == old(self).depth,
    {
        if self.named {
            self.value.push(byte);
        } else {
            self.name.push(byte);
        }
        proof {
            assert(self@ =~= old(self)@.keep(byte));
        }
    }

    fn finish(&mut self)
        ensures
            final(self)@ == old(self)@.finish(),
            final(self).depth == old(self).depth,
    {
        let ghost before = self.members@;
        let mut name: Vec<u8> = Vec::new();
        let mut value: Vec<u8> = Vec::new();
        name.append(&mut self.name);
        value.append(&mut self.value);
        if self.named {
            self.members.push(Member { name, value });
            proof {
                assert(member_views(self.members@) =~= member_views(before).push(
                    MemberView { name: old(self)@.name, value: old(self)@.value },
                ));
            }
        }
        self.named = false;
        proof {
            assert(self@ =~= old(self)@.finish());
        }
    }

    fn step(&mut self, byte: u8)
        requires
            old(self).depth < usize::MAX,
        ensures
            final(self)@ == old(self)@.step(byte),
            final(self).depth <= old(self).depth + 1,
    {
        if self.quoted {
            self.keep(byte);
            if self.escaped {
                self.escaped = false;
            } else if byte == 0x5c {
                self.escaped = true;
            } else if byte == 0x22 {
                self.quoted = false;
            }
        } else if byte == 0x22 {
            self.keep(byte);
            self.quoted = true;
        } else if byte == 0x7b || byte == 0x5b {
            if self.depth > 0 {
                self.keep(byte);
            }
            self.depth = self.depth + 1;
        } else if byte == 0x7d || byte == 0x5d {
            if self.depth <= 1 {
                self.finish();
                self.depth = 0;
            } else {
                self.keep(byte);
                self.depth = self.depth - 1;
            }
        } else if self.depth == 1 && byte == 0x2c {
            self.finish();
        } else if self.depth == 1 && byte == 0x3a {
            self.named = true;
        } else {
            self.keep(byte);
        }
        proof {
            assert(self@ =~= old(self)@.step(byte));
        }
    }
}

/// The members of a JSON object.
pub fn read_members(json: &[u8]) -> (res: Vec<Member>)
    ensures
        member_views(res@) == members_of(json@),
{
    let mut reader: Reader = Reader {
        depth: 0,
        quoted: false,
        escaped: false,
        named: false,
        name: Vec::new(),
        value: Vec::new(),
        members: Vec::new(),
    };
    let mut i: usize = 0;
    proof {
        assert(reader@ =~= Reading::start());
        assert(json@.take(0) =~= Seq::<u8>::empty());
    }
    while i < json.len()
        invariant
            i <= json@.len(),
            reader.depth <= i,
            reader@ == Reading::start().after(json@.take(i as int)),
        decreases json@.len() - i,
    {
        reader.step(json[i]);
        proof {
            assert(json@.take(i + 1).drop_last() =~= json@.take(i as int));
            assert(json@.take(i + 1).last() == json@[i as int]);
        }
        i += 1;
    }
    proof {
        assert(json@.take(json@.len() as int) =~= json@);
    }
    reader.members
}

/// Some bytes one after the other are read one after the other.
pub proof fn lemma_after_both(reading: Reading, a: Seq<u8>, b: Seq<u8>)
    ensures
        reading.after(a + b) == reading.after(a).after(b),
    decreases b.len(),
{
    if b.len() == 0 {
        assert(a + b =~= a);
    } else {
        lemma_after_both(reading, a, b.drop_last());
        assert((a + b).drop_last() =~= a + b.drop_last());
        assert((a + b).last() == b.last());
    }
}

/// The reading with some more bytes of the name or the value at hand.
pub open spec fn with_kept(reading: Reading, bytes: Seq<u8>) -> Reading {
    if reading.named {
        Reading { value: reading.value + bytes, ..reading }
    } else {
        Reading { name: reading.name + bytes, ..reading }
    }
}

/// Whether a byte stands for itself in a string.
pub open spec fn is_plain(byte: u8) -> bool {
    byte != 0x22 && byte != 0x5c
}

/// Whether a byte stands for itself outside of strings.
pub open spec fn is_inert(byte: u8) -> bool {
    &&& byte != 0x22
    &&& byte != 0x7b
    &&& byte != 0x5b
    &&& byte != 0x7d
    &&& byte != 0x5d
    &&& byte != 0x2c
    &&& byte != 0x3a
}

/// Bytes that mean nothing where they stand are kept.
pub proof fn lemma_after_kept(reading: Reading, bytes: Seq<u8>)
    requires
        !reading.escaped,
        forall|i: int|
            0 <= i < bytes.len() ==> if reading.quoted {
                is_plain(#[trigger] bytes[i])
            } else {
                is_inert(bytes[i])
            },
    ensures
        reading.after(bytes) == with_kept(reading, bytes),
    decreases bytes.len(),
{
    if bytes.len() == 0 {
        assert(with_kept(reading, bytes) =~= reading);
    } else {
        let fewer = bytes.drop_last();
        assert forall|i: int| 0 <= i < fewer.len() implies if reading.quoted {
            is_plain(#[trigger] fewer[i])
        } else {
            is_inert(fewer[i])
        } by {
            assert(fewer[i] == bytes[i]);
        }
        lemma_after_kept(reading, fewer);
        assert(bytes.last() == bytes[bytes.len() - 1]);
        assert(fewer.push(bytes.last()) =~= bytes);
        assert(with_kept(reading, bytes) =~= with_kept(reading, fewer).keep(bytes.last()));
    }
}

/// A single byte is one step.
pub proof fn lemma_after_one(reading: Reading, byte: u8)
    ensures
        reading.after(seq![byte]) == reading.step(byte),
{
    assert(seq![byte].drop_last() =~= Seq::<u8>::empty());
    assert(reading.after(seq![byte].drop_last()) == reading);
}

/// The text that a JSON string stands for, where it is one.
pub uninterp spec fn parsed_text(json: Seq<u8>) -> Option<Seq<char>>;

/// `serde_json::from_slice` for a `String`: the text depends on the bytes alone, and reading a
/// text as a JSON string gives that text back.
#[verifier::external_body]
pub(crate) fn parse_text(json: &[u8]) -> (res: Option<String>)
    ensures
        text::view_opt(res) == parsed_text(json@),
        forall|s: Seq<char>|
            json@ == encode_utf8(#[trigger] json_string(s)) ==> text::view_opt(res) == Some(s),
{
    serde_json::from_slice(json).ok()
}

/// The values of the members with a name.
pub open spec fn values_named(members: Seq<MemberView>, name: Seq<char>) -> Seq<Seq<u8>>
    decreases members.len(),
{
    if members.len() == 0 {
        Seq::empty()
    } else {
        let before = values_named(members.drop_last(), name);
        if parsed_text(members.last().name) == Some(name) {
            before.push(members.last().value)
        } else {
            before
        }
    }
}

/// Whether some bytes stand for the text of which they are the JSON string, where they are that.
pub open spec fn stands_for_its_text(json: Seq<u8>) -> bool {
    forall|s: Seq<char>|
        json == encode_utf8(#[trigger] json_string(s)) ==> parsed_text(json) == Some(s)
}

/// The bytes of several texts.
pub open spec fn byte_views(values: Seq<Vec<u8>>) -> Seq<Seq<u8>> {
    values.map_values(|v: Vec<u8>| v@)
}

fn copy_bytes(bytes: &Vec<u8>) -> (res: Vec<u8>)
    ensures
        res@ == bytes@,
{
    let mut res: Vec<u8> = Vec::new();
    while res.len() < bytes.len()
        invariant
            res@.len() <= bytes@.len(),
            res@ == bytes@.take(res@.len() as int),
        decreases bytes@.len() - res@.len(),
    {
        let ghost before = res@;
        res.push(bytes[res.len()]);
        proof {
            assert(res@ =~= bytes@.take(before.len() as int + 1));
        }
    }
    proof {
        assert(bytes@.take(bytes@.len() as int) =~= bytes@);
    }
    res
}

/// The values of the members with a name.
pub fn member_values(members: &Vec<Member>, name: &str) -> (res: Vec<Vec<u8>>)
    ensures
        byte_views(res@) == values_named(member_views(members@), name@),
        forall|i: int|
            0 <= i < members@.len() ==> stands_for_its_text(
                (#[trigger] member_views(members@)[i]).name,
            ),
{
    let ghost all = member_views(members@);
    let mut res: Vec<Vec<u8>> = Vec::new();
    let mut i: usize = 0;
    proof {
        assert(all.take(0) =~= Seq::<MemberView>::empty());
    }
    while i < members.len()
        invariant
            i <= members@.len(),
            all == member_views(members@),
            byte_views(res@) == values_named(all.take(i as int), name@),
            forall|j: int| 0 <= j < i ==> stands_for_its_text((#[trigger] all[j]).name),
        decreases members@.len() - i,
    {
        let ghost before = res@;
        proof {
            assert(all[i as int] == members@[i as int]@);
            assert(all.take(i + 1).drop_last() =~= all.take(i as int));
            assert(all.take(i + 1).last() == all[i as int]);
        }
        if let Some(found) = parse_text(members[i].name.as_slice()) {
            if text::same(found.as_str(), name) {
                res.push(copy_bytes(&members[i].value));
                proof {
                    assert(byte_views(res@) =~= byte_views(before).push(all[i as int].value));
                }
            }
        }
        i += 1;
    }
    proof {
        assert(all.take(all.len() as int) =~= all);
    }
    res
}

/// The bytes of two texts one behind the other.
pub proof fn lemma_encode_both(a: Seq<char>, b: Seq<char>)
    ensures
        encode_utf8(a + b) == encode_utf8(a) + encode_utf8(b),
    decreases a.len(),
{
    if a.len() == 0 {
        assert(a + b =~= b);
        assert(encode_utf8(a) + encode_utf8(b) =~= encode_utf8(b));
    } else {
        lemma_encode_both(a.drop_first(), b);
        assert((a + b).drop_first() =~= a.drop_first() + b);
        assert((a + b)[0] == a[0]);
        assert(encode_utf8(a + b) =~= encode_utf8(a) + encode_utf8(b));
    }
}

/// The bytes of one character.
pub proof fn lemma_encode_one(c: char)
    ensures
        encode_utf8(seq![c]) == vstd::utf8::encode_scalar(c as u32),
{
    assert(seq![c].drop_first() =~= Seq::<char>::empty());
    assert(encode_utf8(Seq::<char>::empty()) =~= Seq::<u8>::empty());
    assert(encode_utf8(seq![c]) =~= vstd::utf8::encode_scalar(c as u32));
}

/// An ASCII character is one byte.
pub proof fn lemma_encode_ascii(c: char)
    requires
        c <= '\u{7f}',
    ensures
        encode_utf8(seq![c]) == seq![c as u8],
{
    assert(vstd::utf8::is_ascii_chars(seq![c]));
    vstd::utf8::is_ascii_chars_encode_utf8(seq![c]);
    assert(encode_utf8(seq![c]) =~= seq![c as u8]);
}

/// The bytes of a character that is not ASCII stand for themselves in a string.
proof fn lemma_wide_bytes_are_plain(c: char)
    requires
        c > '\u{7f}',
    ensures
        forall|i: int|
            0 <= i < encode_utf8(seq![c]).len() ==> is_plain(#[trigger] encode_utf8(seq![c])[i]),
{
    lemma_encode_one(c);
    assert forall|b: u8| #[trigger] (0x80u8 | b) >= 0x80 by {
        assert((0x80u8 | b) >= 0x80) by (bit_vector);
    }
    assert forall|b: u8| #[trigger] (0xC0u8 | b) >= 0x80 by {
        assert((0xC0u8 | b) >= 0x80) by (bit_vector);
    }
    assert forall|b: u8| #[trigger] (0xE0u8 | b) >= 0x80 by {
        assert((0xE0u8 | b) >= 0x80) by (bit_vector);
    }
    assert forall|b: u8| #[trigger] (0xF0u8 | b) >= 0x80 by {
        assert((0xF0u8 | b) >= 0x80) by (bit_vector);
    }
}

/// Whether some text is kept as it is where it is read outside of strings.
pub open spec fn is_kept(value: Seq<char>) -> bool {
    forall|reading: Reading|
        !reading.escaped && !reading.quoted ==> #[trigger] reading.after(encode_utf8(value))
            == with_kept(reading, encode_utf8(value))
}

proof fn lemma_kept_both(reading: Reading, a: Seq<u8>, b: Seq<u8>)
    requires
        reading.after(a) == with_kept(reading, a),
        with_kept(reading, a).after(b) == with_kept(with_kept(reading, a), b),
    ensures
        reading.after(a + b) == with_kept(reading, a + b),
{
    lemma_after_both(reading, a, b);
    assert(with_kept(with_kept(reading, a), b) =~= with_kept(reading, a + b));
}

proof fn lemma_after_json_char(reading: Reading, c: char)
    requires
        reading.quoted,
        !reading.escaped,
    ensures
        reading.after(encode_utf8(json_char(c))) == with_kept(reading, encode_utf8(json_char(c))),
{
    let all = json_char(c);
    if all.len() == 1 {
        if c <= '\u{7f}' {
            lemma_encode_ascii(c);
        } else {
            lemma_wide_bytes_are_plain(c);
        }
        lemma_after_kept(reading, encode_utf8(all));
    } else {
        let bytes = encode_utf8(all);
        assert(vstd::utf8::is_ascii_chars(all));
        vstd::utf8::is_ascii_chars_encode_utf8(all);
        let first = bytes.take(1);
        let second = bytes.subrange(1, 2);
        let rest = bytes.skip(2);
        assert(first =~= seq![0x5cu8]);
        assert(second =~= seq![bytes[1]]);
        assert(bytes =~= first + (second + rest));
        lemma_after_one(reading, 0x5c);
        let behind = reading.after(first);
        lemma_after_one(behind, bytes[1]);
        let past = behind.after(second);
        assert forall|i: int| 0 <= i < rest.len() implies is_plain(#[trigger] rest[i]) by {
            assert(rest[i] == all[i + 2] as u8);
        }
        lemma_after_kept(past, rest);
        lemma_after_both(behind, second, rest);
        lemma_after_both(reading, first, second + rest);
        assert(with_kept(past, rest) =~= with_kept(reading, bytes));
    }
}

proof fn lemma_after_json_chars(reading: Reading, s: Seq<char>)
    requires
        reading.quoted,
        !reading.escaped,
    ensures
        reading.after(encode_utf8(json_chars(s))) == with_kept(
            reading,
            encode_utf8(json_chars(s)),
        ),
    decreases s.len(),
{
    if s.len() == 0 {
        assert(encode_utf8(json_chars(s)) =~= Seq::<u8>::empty());
        assert(with_kept(reading, encode_utf8(json_chars(s))) =~= reading);
    } else {
        let head = json_chars(s.drop_last());
        let tail = json_char(s.last());
        lemma_after_json_chars(reading, s.drop_last());
        lemma_after_json_char(with_kept(reading, encode_utf8(head)), s.last());
        lemma_encode_both(head, tail);
        lemma_kept_both(reading, encode_utf8(head), encode_utf8(tail));
    }
}

/// A JSON string is kept as it is.
pub proof fn lemma_string_is_kept(s: Seq<char>)
    ensures
        is_kept(json_string(s)),
{
    let inner = encode_utf8(json_chars(s));
    let quote = seq![0x22u8];
    reveal_strlit("\"");
    assert("\""@ =~= seq!['"']);
    lemma_encode_ascii('"');
    lemma_encode_both("\""@, json_chars(s));
    lemma_encode_both("\""@ + json_chars(s), "\""@);
    let bytes = encode_utf8(json_string(s));
    assert(bytes =~= quote + inner + quote);
    assert forall|reading: Reading| !reading.escaped && !reading.quoted implies #[trigger]
        reading.after(bytes) == with_kept(reading, bytes) by {
        lemma_after_one(reading, 0x22);
        let opened = reading.after(quote);
        lemma_after_json_chars(opened, s);
        lemma_after_both(reading, quote, inner);
        let full = reading.after(quote + inner);
        lemma_after_one(full, 0x22);
        lemma_after_both(reading, quote + inner, quote);
        assert(reading.after(bytes) =~= with_kept(reading, bytes));
    }
}

/// Printable ASCII characters other than quotes and backslashes stand for themselves.
pub proof fn lemma_plain_string(s: Seq<char>)
    requires
        text::is_plain(s),
    ensures
        json_chars(s) == s,
        json_string(s) == quoted(s),
    decreases s.len(),
{
    if s.len() > 0 {
        let fewer = s.drop_last();
        assert forall|i: int| 0 <= i < fewer.len() implies ' ' <= #[trigger] fewer[i] <= '~'
            && fewer[i] != '"' && fewer[i] != '\\' by {
            assert(fewer[i] == s[i]);
        }
        lemma_plain_string(fewer);
        assert(s.last() == s[s.len() - 1]);
        assert(json_chars(s) =~= s);
    }
}

/// ASCII characters that mean nothing outside of strings are kept as they are.
pub proof fn lemma_inert_is_kept(s: Seq<char>)
    requires
        text::is_plain(s),
        forall|i: int| 0 <= i < s.len() ==> is_inert((#[trigger] s[i]) as u8),
    ensures
        is_kept(s),
{
    assert(vstd::utf8::is_ascii_chars(s));
    vstd::utf8::is_ascii_chars_encode_utf8(s);
    assert forall|reading: Reading| !reading.escaped && !reading.quoted implies #[trigger]
        reading.after(encode_utf8(s)) == with_kept(reading, encode_utf8(s)) by {
        assert forall|i: int| 0 <= i < encode_utf8(s).len() implies is_inert(
            #[trigger] encode_utf8(s)[i],
        ) by {
            assert(s[i] as u8 == encode_utf8(s)[i]);
        }
        lemma_after_kept(reading, encode_utf8(s));
    }
}

/// What is known of the members of an object as it is written.
pub open spec fn written_views(members: Seq<(Seq<char>, Seq<char>)>) -> Seq<MemberView> {
    members.map_values(
        |m: (Seq<char>, Seq<char>)|
            MemberView { name: encode_utf8(quoted(m.0)), value: encode_utf8(m.1) },
    )
}

/// The reading of an object whose members so far are these, the last of them at hand.
spec fn at_last(members: Seq<(Seq<char>, Seq<char>)>) -> Reading {
    Reading {
        depth: 1,
        quoted: false,
        escaped: false,
        named: true,
        name: encode_utf8(quoted(members.last().0)),
        value: encode_utf8(members.last().1),
        members: written_views(members.drop_last()),
    }
}

proof fn lemma_after_member(reading: Reading, member: (Seq<char>, Seq<char>))
    requires
        text::is_plain(member.0),
        is_kept(member.1),
        reading.depth == 1,
        !reading.quoted,
        !reading.escaped,
        !reading.named,
        reading.name.len() == 0,
        reading.value.len() == 0,
    ensures
        reading.after(encode_utf8(member_text(member))) == (Reading {
            named: true,
            name: encode_utf8(quoted(member.0)),
            value: encode_utf8(member.1),
            ..reading
        }),
{
    let name = encode_utf8(quoted(member.0));
    let value = encode_utf8(member.1);
    reveal_strlit(":");
    assert(":"@ =~= seq![':']);
    lemma_encode_ascii(':');
    lemma_plain_string(member.0);
    lemma_string_is_kept(member.0);
    lemma_encode_both(quoted(member.0), ":"@);
    lemma_encode_both(quoted(member.0) + ":"@, member.1);
    let named = with_kept(reading, name);
    assert(reading.after(name) == named);
    assert(named.name =~= name);
    lemma_after_one(named, 0x3a);
    lemma_after_both(reading, name, seq![0x3au8]);
    let open = reading.after(name + seq![0x3au8]);
    lemma_after_both(reading, name + seq![0x3au8], value);
    assert(open.after(value) == with_kept(open, value));
    assert(open.value + value =~= value);
}

proof fn lemma_after_members(members: Seq<(Seq<char>, Seq<char>)>)
    requires
        members.len() > 0,
        forall|i: int|
            0 <= i < members.len() ==> text::is_plain((#[trigger] members[i]).0) && is_kept(
                members[i].1,
            ),
    ensures
        Reading::start().after(encode_utf8("{"@ + members_text(members))) == at_last(members),
    decreases members.len(),
{
    let start = Reading::start();
    let last = members.last();
    reveal_strlit("{");
    reveal_strlit(",");
    assert("{"@ =~= seq!['{']);
    assert(","@ =~= seq![',']);
    lemma_encode_ascii('{');
    lemma_encode_ascii(',');
    assert(last == members[members.len() - 1]);
    if members.len() == 1 {
        lemma_after_one(start, 0x7b);
        lemma_encode_both("{"@, member_text(last));
        lemma_after_both(start, seq![0x7bu8], encode_utf8(member_text(last)));
        lemma_after_member(start.step(0x7b), last);
        assert(at_last(members) =~= start.after(encode_utf8("{"@ + members_text(members))));
    } else {
        let fewer = members.drop_last();
        assert forall|i: int| 0 <= i < fewer.len() implies text::is_plain(
            (#[trigger] fewer[i]).0,
        ) && is_kept(fewer[i].1) by {
            assert(fewer[i] == members[i]);
        }
        lemma_after_members(fewer);
        let front = "{"@ + members_text(fewer);
        assert("{"@ + members_text(members) =~= front + ","@ + member_text(last));
        lemma_encode_both(front, ","@);
        lemma_encode_both(front + ","@, member_text(last));
        lemma_after_both(start, encode_utf8(front), seq![0x2cu8]);
        lemma_after_one(at_last(fewer), 0x2c);
        let next = at_last(fewer).step(0x2c);
        lemma_after_both(start, encode_utf8(front + ","@), encode_utf8(member_text(last)));
        lemma_after_member(next, last);
        assert(next.members =~= written_views(fewer));
        assert(at_last(members) =~= next.after(encode_utf8(member_text(last))));
    }
}

/// The members of an object as it is written are those that it is written from.
pub proof fn lemma_members_of_object(members: Seq<(Seq<char>, Seq<char>)>)
    requires
        members.len() > 0,
        forall|i: int|
            0 <= i < members.len() ==> text::is_plain((#[trigger] members[i]).0) && is_kept(
                members[i].1,
            ),
    ensures
        members_of(encode_utf8(object_text(members))) == written_views(members),
{
    lemma_after_members(members);
    reveal_strlit("}");
    assert("}"@ =~= seq!['}']);
    lemma_encode_ascii('}');
    let front = "{"@ + members_text(members);
    lemma_encode_both(front, "}"@);
    lemma_after_both(Reading::start(), encode_utf8(front), seq![0x7du8]);
    lemma_after_one(at_last(members), 0x7d);
    assert(written_views(members.drop_last()).push(
        MemberView {
            name: encode_utf8(quoted(members.last().0)),
            value: encode_utf8(members.last().1),
        },
    ) =~= written_views(members));
}

/// Where the names of an object as it is written are read and differ, each has its own value.
pub proof fn lemma_value_of(members: Seq<(Seq<char>, Seq<char>)>, n: int, k: int)
    requires
        0 <= n <= members.len(),
        0 <= k < members.len(),
        forall|i: int| 0 <= i < members.len() ==> text::is_plain((#[trigger] members[i]).0),
        forall|i: int|
            0 <= i < members.len() && i != k ==> (#[trigger] members[i]).0 != members[k].0,
        forall|i: int|
            0 <= i < members.len() ==> stands_for_its_text(
                (#[trigger] written_views(members)[i]).name,
            ),
    ensures
        values_named(written_views(members).take(n), members[k].0) == if k < n {
            seq![encode_utf8(members[k].1)]
        } else {
            Seq::<Seq<u8>>::empty()
        },
    decreases n,
{
    let all = written_views(members);
    if n > 0 {
        lemma_value_of(members, n - 1, k);
        assert(all.take(n).drop_last() =~= all.take(n - 1));
        assert(all.take(n).last() == all[n - 1]);
        lemma_plain_string(members[n - 1].0);
        assert(stands_for_its_text(all[n - 1].name));
        assert(all[n - 1].name == encode_utf8(json_string(members[n - 1].0)));
        assert(parsed_text(all[n - 1].name) == Some(members[n - 1].0));
        if k == n - 1 {
            assert(values_named(all.take(n), members[k].0) =~= seq![encode_utf8(members[k].1)]);
        }
    }
}

/// The values of a name are those of the members with that name, in order: one more member with it
/// adds its value behind the others, and one with another name adds none. What is read of an
/// object is the name and the value of each of its members.
pub proof fn values_are_those_of_the_name(
    members: Vec<Member>,
    name: &str,
    before: Vec<Vec<u8>>,
    last: Member,
    longer: Vec<Member>,
    res: Vec<Vec<u8>>,
    json: &[u8],
    read: Vec<Member>,
    i: int,
)
    requires
        longer@ == members@.push(last),
        call_ensures(member_values, (&members, name), before),
        call_ensures(member_values, (&longer, name), res),
        call_ensures(read_members, (json,), read),
        0 <= i < read@.len(),
    ensures
        parsed_text(last.name@) == Some(name@) ==> res@.len() == before@.len() + 1
            && res@.last()@ == last.value@,
        parsed_text(last.name@) != Some(name@) ==> res@.len() == before@.len(),
        read@.len() == members_of(json@).len(),
        read@[i].name@ == members_of(json@)[i].name && read@[i].value@ == members_of(json@)[i].value,
{
    let views = member_views(longer@);
    assert(views.drop_last() =~= member_views(members@));
    assert(views.last() == last@);
    assert(byte_views(res@).len() == res@.len() && byte_views(before@).len() == before@.len());
    if parsed_text(last.name@) == Some(name@) {
        assert(byte_views(res@).last() == last.value@);
        assert(byte_views(res@)[res@.len() - 1] == res@[res@.len() - 1]@);
    }
    assert(member_views(read@).len() == read@.len());
    assert(member_views(read@)[i] == read@[i]@);
}

} // verus!
