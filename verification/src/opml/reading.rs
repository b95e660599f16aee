//! What a written document says: reading it gives back what it was written from.

use vstd::prelude::*;
use vstd::string::*;

use crate::opml::document::{OpmlDocument, OpmlOutline};
use crate::opml::exporter;
use crate::opml::exporter::OpmlExporter;
use crate::text;

verus! {

/// The characters of a text before the first occurrence of one.
pub open spec fn until(s: Seq<char>, c: char) -> Seq<char>
    decreases s.len(),
{
    if s.len() == 0 || s[0] == c {
        Seq::empty()
    } else {
        seq![s[0]] + until(s.drop_first(), c)
    }
}

/// A text without the spaces at its start.
pub open spec fn unindented(s: Seq<char>) -> Seq<char>
    decreases s.len(),
{
    if s.len() > 0 && s[0] == ' ' {
        unindented(s.drop_first())
    } else {
        s
    }
}

/// The attributes that a text begins with, each by its name and its value, and what stands
/// behind them.
pub open spec fn read_attributes(s: Seq<char>) -> (Seq<(Seq<char>, Seq<char>)>, Seq<char>)
    decreases s.len(),
{
    if s.len() > 0 && s[0] == ' ' {
        let name = until(s.skip(1), '=');
        let behind = s.skip(1 + name.len() as int + 2);
        let value = until(behind, '"');
        let rest = behind.skip(value.len() as int + 1);
        if rest.len() < s.len() {
            let (more, end) = read_attributes(rest);
            (seq![(name, exporter::unescaped(value))] + more, end)
        } else {
            (Seq::empty(), s)
        }
    } else {
        (Seq::empty(), s)
    }
}

/// The value under a name, where there is one.
pub open spec fn value_of(named: Seq<(Seq<char>, Seq<char>)>, name: Seq<char>) -> Option<Seq<char>>
    decreases named.len(),
{
    if named.len() == 0 {
        None
    } else if named[0].0 == name {
        Some(named[0].1)
    } else {
        value_of(named.drop_first(), name)
    }
}

/// An entry as it is read: its attributes, and the entries in it.
pub struct ReadEntry {
    pub attributes: Seq<(Seq<char>, Seq<char>)>,
    pub children: Seq<ReadEntry>,
}

/// The entries that a text begins with, and what stands behind them.
pub open spec fn read_entries(s: Seq<char>) -> (Seq<ReadEntry>, Seq<char>)
    decreases s.len(),
{
    let start = unindented(s);
    if !text::begins_with(start, "<outline"@) {
        (Seq::empty(), start)
    } else {
        let (attributes, behind) = read_attributes(start.skip("<outline"@.len() as int));
        if text::begins_with(behind, "/>\n"@) {
            let rest = behind.skip("/>\n"@.len() as int);
            if rest.len() < s.len() {
                let (more, end) = read_entries(rest);
                (seq![ReadEntry { attributes, children: Seq::empty() }] + more, end)
            } else {
                (Seq::empty(), start)
            }
        } else {
            let inner = behind.skip(">\n"@.len() as int);
            if text::begins_with(behind, ">\n"@) && inner.len() < s.len() {
                let (children, closing) = read_entries(inner);
                let rest = closing.skip("</outline>\n"@.len() as int);
                if text::begins_with(closing, "</outline>\n"@) && rest.len() < s.len() {
                    let (more, end) = read_entries(rest);
                    (seq![ReadEntry { attributes, children }] + more, end)
                } else {
                    (Seq::empty(), start)
                }
            } else {
                (Seq::empty(), start)
            }
        }
    }
}

/// The elements that a text begins with, each in a line of its own and with nothing but text in
/// it, by their names and texts, and what stands behind them.
pub open spec fn read_elements(s: Seq<char>) -> (Seq<(Seq<char>, Seq<char>)>, Seq<char>)
    decreases s.len(),
{
    let start = unindented(s);
    if text::begins_with(start, "<"@) && !text::begins_with(start, "</"@) {
        let name = until(start.skip(1), '>');
        let behind = start.skip(1 + name.len() as int + 1);
        let value = until(behind, '<');
        let closing = "</"@ + name + ">\n"@;
        let rest = behind.skip(value.len() as int + closing.len() as int);
        if text::begins_with(behind.skip(value.len() as int), closing) && rest.len() < s.len() {
            let (more, end) = read_elements(rest);
            (seq![(name, exporter::unescaped(value))] + more, end)
        } else {
            (Seq::empty(), start)
        }
    } else {
        (Seq::empty(), start)
    }
}

/// A document as it is read: the elements of its head, and its entries.
pub struct ReadDocument {
    pub head: Seq<(Seq<char>, Seq<char>)>,
    pub entries: Seq<ReadEntry>,
}

/// What an OPML 2.0 document begins with.
pub open spec fn prologue() -> Seq<char> {
    "<?xml version=\"1.0\" encoding=\"UTF-8\"?>\n"@ + "<opml version=\"2.0\">\n"@ + "  <head>\n"@
}

/// What an OPML 2.0 document has between its head and its entries.
pub open spec fn body_start() -> Seq<char> {
    "</head>\n"@ + "  <body>\n"@
}

/// What an OPML 2.0 document ends with.
pub open spec fn document_end() -> Seq<char> {
    "</body>\n"@ + "</opml>\n"@
}

/// The document that a text is, where it is one.
pub open spec fn read_document(s: Seq<char>) -> Option<ReadDocument> {
    if !text::begins_with(s, prologue()) {
        None
    } else {
        let (head, behind) = read_elements(s.skip(prologue().len() as int));
        if !text::begins_with(behind, body_start()) {
            None
        } else {
            let (entries, end) = read_entries(behind.skip(body_start().len() as int));
            if end == document_end() {
                Some(ReadDocument { head, entries })
            } else {
                None
            }
        }
    }
}

/// Whether an entry as it is read says what an entry holds: every attribute has the value of its
/// field, and is missing where the field is. Where there is no title of its own, the text is it.
pub open spec fn says(read: ReadEntry, o: OpmlOutline) -> bool
    decreases o,
{
    &&& value_of(read.attributes, "text"@) == Some(o.text@)
    &&& o.title is None ==> value_of(read.attributes, "title"@) is None
    &&& o.title matches Some(title) ==> match value_of(read.attributes, "title"@) {
        Some(own) => own == title@,
        None => o.text@ == title@,
    }
    &&& value_of(read.attributes, "type"@) == text::view_opt(o.outline_type)
    &&& value_of(read.attributes, "xmlUrl"@) == text::view_opt(o.xml_url)
    &&& value_of(read.attributes, "htmlUrl"@) == text::view_opt(o.html_url)
    &&& value_of(read.attributes, "description"@) == text::view_opt(o.description)
    &&& read.children.len() == o.children@.len()
    &&& forall|i: int|
        0 <= i < o.children@.len() ==> says(#[trigger] read.children[i], o.children@[i])
}

proof fn lemma_until(a: Seq<char>, rest: Seq<char>, c: char)
    requires
        forall|i: int| 0 <= i < a.len() ==> a[i] != c,
        rest.len() > 0,
        rest[0] == c,
    ensures
        until(a + rest, c) == a,
    decreases a.len(),
{
    if a.len() == 0 {
        assert(a + rest =~= rest);
        assert(until(rest, c) =~= a);
    } else {
        let tail = a.drop_first();
        assert forall|i: int| 0 <= i < tail.len() implies tail[i] != c by {
            assert(tail[i] == a[i + 1]);
        }
        lemma_until(tail, rest, c);
        assert((a + rest).drop_first() =~= tail + rest);
        assert((a + rest)[0] == a[0]);
        assert(seq![a[0]] + tail =~= a);
    }
}

proof fn lemma_unindented(margin: Seq<char>, rest: Seq<char>)
    requires
        forall|i: int| 0 <= i < margin.len() ==> margin[i] == ' ',
        rest.len() > 0 ==> rest[0] != ' ',
    ensures
        unindented(margin + rest) == rest,
    decreases margin.len(),
{
    if margin.len() == 0 {
        assert(margin + rest =~= rest);
    } else {
        assert(margin[0] == ' ');
        let fewer = margin.drop_first();
        assert forall|i: int| 0 <= i < fewer.len() implies fewer[i] == ' ' by {
            assert(fewer[i] == margin[i + 1]);
        }
        lemma_unindented(fewer, rest);
        assert((margin + rest).drop_first() =~= fewer + rest);
    }
}

proof fn lemma_reads_attribute(name: Seq<char>, value: Seq<char>, tail: Seq<char>)
    requires
        forall|i: int| 0 <= i < name.len() ==> name[i] != '=',
    ensures
        ({
            let (more, end) = read_attributes(tail);
            read_attributes(exporter::attribute(name, value) + tail) == (
                seq![(name, value)] + more,
                end,
            )
        }),
{
    reveal_strlit(" ");
    reveal_strlit("=\"");
    reveal_strlit("\"");
    let e = exporter::escaped(value);
    let s = exporter::attribute(name, value) + tail;
    let quoted = "=\""@ + e + "\""@ + tail;
    let closed = "\""@ + tail;
    assert(s.skip(1) =~= name + quoted);
    lemma_until(name, quoted, '=');
    let behind = s.skip(1 + name.len() as int + 2);
    assert(behind =~= e + closed);
    exporter::escaped_text_holds_no_markup(value);
    assert forall|i: int| 0 <= i < e.len() implies e[i] != '"' by {}
    lemma_until(e, closed, '"');
    assert(behind.skip(e.len() as int + 1) =~= tail);
    exporter::unescaping_undoes_escaping(value);
}

proof fn lemma_reads_optional(
    name: Seq<char>,
    value: Option<String>,
    tail: Seq<char>,
)
    requires
        forall|i: int| 0 <= i < name.len() ==> name[i] != '=',
    ensures
        ({
            let (more, end) = read_attributes(tail);
            read_attributes(exporter::optional_attribute(name, value) + tail) == (
                match value {
                    Some(v) => seq![(name, v@)] + more,
                    None => more,
                },
                end,
            )
        }),
{
    match value {
        Some(v) => {
            lemma_reads_attribute(name, v@, tail);
        },
        None => {
            assert(exporter::optional_attribute(name, value) + tail =~= tail);
        },
    }
}

proof fn lemma_front(
    pair: (Seq<char>, Seq<char>),
    rest: Seq<(Seq<char>, Seq<char>)>,
    name: Seq<char>,
)
    ensures
        value_of(seq![pair] + rest, name) == if pair.0 == name {
            Some(pair.1)
        } else {
            value_of(rest, name)
        },
{
    assert((seq![pair] + rest).drop_first() =~= rest);
}

/// The names of the attributes differ, and hold no equals sign.
proof fn lemma_names()
    ensures
        "text"@ != "title"@ && "text"@ != "type"@ && "text"@ != "xmlUrl"@ && "text"@ != "htmlUrl"@
            && "text"@ != "description"@,
        "title"@ != "type"@ && "title"@ != "xmlUrl"@ && "title"@ != "htmlUrl"@ && "title"@
            != "description"@,
        "type"@ != "xmlUrl"@ && "type"@ != "htmlUrl"@ && "type"@ != "description"@,
        "xmlUrl"@ != "htmlUrl"@ && "xmlUrl"@ != "description"@,
        "htmlUrl"@ != "description"@,
        forall|i: int| 0 <= i < "text"@.len() ==> "text"@[i] != '=',
        forall|i: int| 0 <= i < "title"@.len() ==> "title"@[i] != '=',
        forall|i: int| 0 <= i < "type"@.len() ==> "type"@[i] != '=',
        forall|i: int| 0 <= i < "xmlUrl"@.len() ==> "xmlUrl"@[i] != '=',
        forall|i: int| 0 <= i < "htmlUrl"@.len() ==> "htmlUrl"@[i] != '=',
        forall|i: int| 0 <= i < "description"@.len() ==> "description"@[i] != '=',
{
    reveal_strlit("text");
    reveal_strlit("title");
    reveal_strlit("type");
    reveal_strlit("xmlUrl");
    reveal_strlit("htmlUrl");
    reveal_strlit("description");
    assert("text"@.len() == 4 && "title"@.len() == 5 && "type"@.len() == 4);
    assert("xmlUrl"@.len() == 6 && "htmlUrl"@.len() == 7 && "description"@.len() == 11);
    assert("text"@[1] != "type"@[1]);
}

/// Reading the attributes of an entry gives back all its fields, whatever stands behind them.
pub proof fn attributes_are_read_back(o: OpmlOutline, tail: Seq<char>)
    requires
        tail.len() == 0 || tail[0] != ' ',
    ensures
        ({
            let (named, end) = read_attributes(exporter::attributes(o) + tail);
            &&& end == tail
            &&& value_of(named, "text"@) == Some(o.text@)
            &&& o.title is None ==> value_of(named, "title"@) is None
            &&& o.title matches Some(title) ==> match value_of(named, "title"@) {
                Some(own) => own == title@,
                None => o.text@ == title@,
            }
            &&& value_of(named, "type"@) == text::view_opt(o.outline_type)
            &&& value_of(named, "xmlUrl"@) == text::view_opt(o.xml_url)
            &&& value_of(named, "htmlUrl"@) == text::view_opt(o.html_url)
            &&& value_of(named, "description"@) == text::view_opt(o.description)
        }),
{
    lemma_names();
    let own: Option<String> = if text::view_opt(o.title) == Some(o.text@) {
        None
    } else {
        o.title
    };
    let a1 = exporter::optional_attribute("title"@, own);
    let a2 = exporter::optional_attribute("type"@, o.outline_type);
    let a3 = exporter::optional_attribute("xmlUrl"@, o.xml_url);
    let a4 = exporter::optional_attribute("htmlUrl"@, o.html_url);
    let a5 = exporter::optional_attribute("description"@, o.description);
    lemma_six(exporter::attribute("text"@, o.text@), a1, a2, a3, a4, a5, tail);
    let t5 = a5 + tail;
    let t4 = a4 + t5;
    let t3 = a3 + t4;
    let t2 = a2 + t3;
    let t1 = a1 + t2;
    lemma_reads_attribute("text"@, o.text@, t1);
    lemma_reads_optional("title"@, own, t2);
    lemma_reads_optional("type"@, o.outline_type, t3);
    lemma_reads_optional("xmlUrl"@, o.xml_url, t4);
    lemma_reads_optional("htmlUrl"@, o.html_url, t5);
    lemma_reads_optional("description"@, o.description, tail);
    lemma_six_values(
        ("text"@, o.text@),
        ("title"@, own),
        ("type"@, o.outline_type),
        ("xmlUrl"@, o.xml_url),
        ("htmlUrl"@, o.html_url),
        ("description"@, o.description),
        read_attributes(t1).0,
        read_attributes(t2).0,
        read_attributes(t3).0,
        read_attributes(t4).0,
        read_attributes(t5).0,
    );
}

proof fn lemma_six(
    a: Seq<char>,
    b: Seq<char>,
    c: Seq<char>,
    d: Seq<char>,
    e: Seq<char>,
    f: Seq<char>,
    tail: Seq<char>,
)
    ensures
        a + b + c + d + e + f + tail == a + (b + (c + (d + (e + (f + tail))))),
{
    assert(a + b + c + d + e + f + tail =~= a + (b + (c + (d + (e + (f + tail))))));
}

proof fn lemma_six_values(
    v0: (Seq<char>, Seq<char>),
    v1: (Seq<char>, Option<String>),
    v2: (Seq<char>, Option<String>),
    v3: (Seq<char>, Option<String>),
    v4: (Seq<char>, Option<String>),
    v5: (Seq<char>, Option<String>),
    r1: Seq<(Seq<char>, Seq<char>)>,
    r2: Seq<(Seq<char>, Seq<char>)>,
    r3: Seq<(Seq<char>, Seq<char>)>,
    r4: Seq<(Seq<char>, Seq<char>)>,
    r5: Seq<(Seq<char>, Seq<char>)>,
)
    requires
        v0.0 != v1.0 && v0.0 != v2.0 && v0.0 != v3.0 && v0.0 != v4.0 && v0.0 != v5.0,
        v1.0 != v2.0 && v1.0 != v3.0 && v1.0 != v4.0 && v1.0 != v5.0,
        v2.0 != v3.0 && v2.0 != v4.0 && v2.0 != v5.0,
        v3.0 != v4.0 && v3.0 != v5.0,
        v4.0 != v5.0,
        is_front(v1, r2, r1),
        is_front(v2, r3, r2),
        is_front(v3, r4, r3),
        is_front(v4, r5, r4),
        is_front(v5, Seq::empty(), r5),
    ensures
        value_of(seq![v0] + r1, v0.0) == Some(v0.1),
        value_of(seq![v0] + r1, v1.0) == text::view_opt(v1.1),
        value_of(seq![v0] + r1, v2.0) == text::view_opt(v2.1),
        value_of(seq![v0] + r1, v3.0) == text::view_opt(v3.1),
        value_of(seq![v0] + r1, v4.0) == text::view_opt(v4.1),
        value_of(seq![v0] + r1, v5.0) == text::view_opt(v5.1),
{
    let none = Seq::<(Seq<char>, Seq<char>)>::empty();
    lemma_values(v5.0, v5.1, none, r5);
    lemma_values(v4.0, v4.1, r5, r4);
    lemma_values(v3.0, v3.1, r4, r3);
    lemma_values(v2.0, v2.1, r3, r2);
    lemma_values(v1.0, v1.1, r2, r1);
    lemma_front(v0, r1, v0.0);
    lemma_front(v0, r1, v1.0);
    lemma_front(v0, r1, v2.0);
    lemma_front(v0, r1, v3.0);
    lemma_front(v0, r1, v4.0);
    lemma_front(v0, r1, v5.0);
    assert(value_of(none, v1.0) is None);
    assert(value_of(none, v2.0) is None);
    assert(value_of(none, v3.0) is None);
    assert(value_of(none, v4.0) is None);
    assert(value_of(none, v5.0) is None);
}

/// Whether a list is another with one more value in front, where there is one.
spec fn is_front(
    named: (Seq<char>, Option<String>),
    rest: Seq<(Seq<char>, Seq<char>)>,
    all: Seq<(Seq<char>, Seq<char>)>,
) -> bool {
    all == match named.1 {
        Some(v) => seq![(named.0, v@)] + rest,
        None => rest,
    }
}

proof fn lemma_values(
    name: Seq<char>,
    value: Option<String>,
    rest: Seq<(Seq<char>, Seq<char>)>,
    all: Seq<(Seq<char>, Seq<char>)>,
)
    requires
        all == (match value {
            Some(v) => seq![(name, v@)] + rest,
            None => rest,
        }),
    ensures
        forall|other: Seq<char>|
            other != name ==> #[trigger] value_of(all, other) == value_of(rest, other),
        value is Some ==> value_of(all, name) == text::view_opt(value),
        value is None ==> value_of(all, name) == value_of(rest, name),
{
    if let Some(v) = value {
        lemma_front((name, v@), rest, name);
        assert forall|other: Seq<char>| other != name implies #[trigger] value_of(all, other)
            == value_of(rest, other) by {
            lemma_front((name, v@), rest, other);
        }
    }
}

/// Entries that differ in any field but for a title that repeats the text are written
/// differently.
pub proof fn different_entries_are_written_differently(a: OpmlOutline, b: OpmlOutline)
    requires
        exporter::attributes(a) == exporter::attributes(b),
    ensures
        a.text@ == b.text@,
        text::view_opt(a.outline_type) == text::view_opt(b.outline_type),
        text::view_opt(a.xml_url) == text::view_opt(b.xml_url),
        text::view_opt(a.html_url) == text::view_opt(b.html_url),
        text::view_opt(a.description) == text::view_opt(b.description),
        a.title is Some && b.title is Some ==> text::view_opt(a.title) == text::view_opt(b.title),
{
    attributes_are_read_back(a, Seq::empty());
    attributes_are_read_back(b, Seq::empty());
}

/// Whether the entries that were read begin with what says some entries, and go on with others.
spec fn says_first(
    read: Seq<ReadEntry>,
    os: Seq<OpmlOutline>,
    n: nat,
    others: Seq<ReadEntry>,
) -> bool {
    &&& read.len() == n + others.len()
    &&& n <= os.len()
    &&& forall|i: int| 0 <= i < n ==> says(#[trigger] read[i], os[i])
    &&& read.skip(n as int) == others
}

proof fn lemma_entries(os: Seq<OpmlOutline>, n: nat, margin: Seq<char>, tail: Seq<char>)
    requires
        n <= os.len(),
        forall|i: int| 0 <= i < margin.len() ==> margin[i] == ' ',
    ensures
        ({
            let (read, end) = read_entries(exporter::entries_text(os, n, margin) + tail);
            let (others, behind) = read_entries(tail);
            says_first(read, os, n, others) && end == behind
        }),
    decreases os, n, 0nat,
{
    let s = exporter::entries_text(os, n, margin) + tail;
    let (others, behind) = read_entries(tail);
    if n == 0 {
        assert(s =~= tail);
        assert(others.skip(0) =~= others);
    } else {
        let m = (n - 1) as nat;
        let o = os[n - 1];
        assert(decreases_to!(os => o));
        let next = exporter::entry_text(o, margin) + tail;
        assert(s =~= exporter::entries_text(os, m, margin) + next);
        lemma_entries(os, m, margin, next);
        lemma_entry(o, margin, tail);
        let (read, end) = read_entries(s);
        let (rest, closing) = read_entries(next);
        assert(rest == seq![rest[0]] + others);
        assert(read.skip(m as int) == rest);
        assert forall|i: int| 0 <= i < n implies says(#[trigger] read[i], os[i]) by {
            if i == m {
                assert(read.skip(m as int)[0] == read[m as int]);
            }
        }
        assert(read.skip(n as int) =~= rest.skip(1));
        assert(rest.skip(1) =~= others);
    }
}

proof fn lemma_empty_entry(
    margin: Seq<char>,
    attributes: Seq<char>,
    named: Seq<(Seq<char>, Seq<char>)>,
    tail: Seq<char>,
)
    requires
        forall|i: int| 0 <= i < margin.len() ==> margin[i] == ' ',
        read_attributes(attributes + ("/>\n"@ + tail)) == (named, "/>\n"@ + tail),
    ensures
        ({
            let (others, behind) = read_entries(tail);
            read_entries(margin + "<outline"@ + attributes + "/>\n"@ + tail) == (
                seq![ReadEntry { attributes: named, children: Seq::empty() }] + others,
                behind,
            )
        }),
{
    reveal_strlit("<outline");
    reveal_strlit("/>\n");
    let s = margin + "<outline"@ + attributes + "/>\n"@ + tail;
    let closing = "/>\n"@ + tail;
    let start = "<outline"@ + attributes + closing;
    assert(s =~= margin + start);
    lemma_unindented(margin, start);
    assert(start.take(8) =~= "<outline"@);
    assert(start.skip(8) =~= attributes + closing);
    assert(closing.take(3) =~= "/>\n"@);
    assert(closing.skip(3) =~= tail);
}

proof fn lemma_full_entry(
    margin: Seq<char>,
    attributes: Seq<char>,
    named: Seq<(Seq<char>, Seq<char>)>,
    inner: Seq<char>,
    children: Seq<ReadEntry>,
    tail: Seq<char>,
)
    requires
        forall|i: int| 0 <= i < margin.len() ==> margin[i] == ' ',
        read_attributes(attributes + (">\n"@ + inner)) == (named, ">\n"@ + inner),
        read_entries(inner) == (children, "</outline>\n"@ + tail),
        inner.len() > tail.len(),
    ensures
        ({
            let (others, behind) = read_entries(tail);
            read_entries(margin + "<outline"@ + attributes + ">\n"@ + inner) == (
                seq![ReadEntry { attributes: named, children }] + others,
                behind,
            )
        }),
{
    reveal_strlit("<outline");
    reveal_strlit("/>\n");
    reveal_strlit(">\n");
    reveal_strlit("</outline>\n");
    let s = margin + "<outline"@ + attributes + ">\n"@ + inner;
    let opening = ">\n"@ + inner;
    let start = "<outline"@ + attributes + opening;
    assert(s =~= margin + start);
    lemma_unindented(margin, start);
    assert(start.take(8) =~= "<outline"@);
    assert(start.skip(8) =~= attributes + opening);
    assert(!text::begins_with(opening, "/>\n"@)) by {
        if text::begins_with(opening, "/>\n"@) {
            assert(opening.take(3)[0] == opening[0]);
        }
    }
    assert(opening.take(2) =~= ">\n"@);
    assert(opening.skip(2) =~= inner);
    let after = "</outline>\n"@ + tail;
    assert(after.take(11) =~= "</outline>\n"@);
    assert(after.skip(11) =~= tail);
}

proof fn lemma_end_of_entry(margin: Seq<char>, tail: Seq<char>)
    requires
        forall|i: int| 0 <= i < margin.len() ==> margin[i] == ' ',
    ensures
        read_entries(margin + "</outline>\n"@ + tail) == (
            Seq::<ReadEntry>::empty(),
            "</outline>\n"@ + tail,
        ),
{
    reveal_strlit("<outline");
    reveal_strlit("</outline>\n");
    let after = "</outline>\n"@ + tail;
    assert(margin + "</outline>\n"@ + tail =~= margin + after);
    lemma_unindented(margin, after);
    assert(!text::begins_with(after, "<outline"@)) by {
        if text::begins_with(after, "<outline"@) {
            assert(after.take(8)[1] == after[1]);
        }
    }
}

proof fn lemma_entry(o: OpmlOutline, margin: Seq<char>, tail: Seq<char>)
    requires
        forall|i: int| 0 <= i < margin.len() ==> margin[i] == ' ',
    ensures
        ({
            let (read, end) = read_entries(exporter::entry_text(o, margin) + tail);
            let (others, behind) = read_entries(tail);
            &&& read.len() == 1 + others.len()
            &&& says(read[0], o)
            &&& read == seq![read[0]] + others
            &&& end == behind
        }),
    decreases o, 0nat, 0nat,
{
    let s = exporter::entry_text(o, margin) + tail;
    let (others, behind) = read_entries(tail);
    let children = o.children@;
    let attributes = exporter::attributes(o);
    if children.len() == 0 {
        reveal_strlit("/>\n");
        let closing = "/>\n"@ + tail;
        assert(closing[0] == '/');
        attributes_are_read_back(o, closing);
        let named = read_attributes(attributes + closing).0;
        lemma_empty_entry(margin, attributes, named, tail);
        let entry = ReadEntry { attributes: named, children: Seq::empty() };
        assert(says(entry, o));
    } else {
        reveal_strlit(">\n");
        reveal_strlit("  ");
        reveal_strlit("</outline>\n");
        let deeper = margin + "  "@;
        let end = margin + "</outline>\n"@ + tail;
        let lines = exporter::entries_text(children, children.len(), deeper);
        let inner = lines + end;
        let opening = ">\n"@ + inner;
        assert(opening[0] == '>');
        lemma_nested_text(
            margin + "<outline"@ + attributes + ">\n"@,
            lines,
            margin,
            "</outline>\n"@,
            tail,
        );
        attributes_are_read_back(o, opening);
        assert(decreases_to!(o => o.children));
        assert(decreases_to!(o.children => o.children@));
        lemma_entries(children, children.len(), deeper, end);
        lemma_end_of_entry(margin, tail);
        let named = read_attributes(attributes + opening).0;
        let read = read_entries(inner).0;
        assert(read_entries(inner).1 == "</outline>\n"@ + tail);
        lemma_full_entry(margin, attributes, named, inner, read, tail);
        let entry = ReadEntry { attributes: named, children: read };
        assert(says(entry, o));
    }
}

proof fn lemma_nested_text(
    a: Seq<char>,
    b: Seq<char>,
    c: Seq<char>,
    d: Seq<char>,
    tail: Seq<char>,
)
    ensures
        a + b + c + d + tail == a + (b + (c + d + tail)),
{
    assert(a + b + c + d + tail =~= a + (b + (c + d + tail)));
}

proof fn lemma_reads_element(name: Seq<char>, value: Option<String>, tail: Seq<char>)
    requires
        name.len() > 0,
        forall|i: int| 0 <= i < name.len() ==> name[i] != '>' && name[i] != '/',
    ensures
        ({
            let (more, end) = read_elements(tail);
            read_elements(exporter::head_element(name, value) + tail) == (
                match value {
                    Some(v) => seq![(name, v@)] + more,
                    None => more,
                },
                end,
            )
        }),
{
    match value {
        Some(v) => {
            reveal_strlit("    <");
            reveal_strlit("    ");
            reveal_strlit("<");
            reveal_strlit(">");
            reveal_strlit("</");
            reveal_strlit(">\n");
            let e = exporter::escaped(v@);
            let closing = "</"@ + name + ">\n"@;
            let ending = closing + tail;
            let named = ">"@ + e + ending;
            let start = "<"@ + name + named;
            let s = exporter::head_element(name, value) + tail;
            assert(s =~= "    "@ + start);
            lemma_unindented("    "@, start);
            assert(start.take(1) =~= "<"@);
            assert(!text::begins_with(start, "</"@)) by {
                if text::begins_with(start, "</"@) {
                    assert(start.take(2)[1] == start[1]);
                    assert(start[1] == name[0]);
                }
            }
            assert(start.skip(1) =~= name + named);
            lemma_until(name, named, '>');
            let behind = start.skip(1 + name.len() as int + 1);
            assert(behind =~= e + ending);
            exporter::escaped_text_holds_no_markup(v@);
            assert forall|i: int| 0 <= i < e.len() implies e[i] != '<' by {}
            lemma_until(e, ending, '<');
            assert(behind.skip(e.len() as int) =~= ending);
            assert(ending.take(closing.len() as int) =~= closing);
            assert(behind.skip(e.len() as int + closing.len() as int) =~= tail);
            exporter::unescaping_undoes_escaping(v@);
        },
        None => {
            assert(exporter::head_element(name, value) + tail =~= tail);
        },
    }
}

/// A written document is read back: its head has the title, the date and the owner, each where
/// the document has one, and its entries say all that the entries of the document hold, in
/// order and at every depth.
pub proof fn document_is_read_back(doc: OpmlDocument)
    ensures
        ({
            let read = read_document(exporter::document_text(doc));
            &&& read is Some
            &&& value_of(read->0.head, "title"@) == text::view_opt(doc.title)
            &&& value_of(read->0.head, "dateCreated"@) == text::view_opt(doc.date_created)
            &&& value_of(read->0.head, "ownerEmail"@) == text::view_opt(doc.owner_email)
            &&& read->0.entries.len() == doc.outlines@.len()
            &&& forall|i: int|
                0 <= i < doc.outlines@.len() ==> says(
                    #[trigger] read->0.entries[i],
                    doc.outlines@[i],
                )
        }),
{
    let s = exporter::document_text(doc);
    let os = doc.outlines@;
    let lines = exporter::entries_text(os, os.len(), "    "@);
    let h0 = exporter::head_element("title"@, doc.title);
    let h1 = exporter::head_element("dateCreated"@, doc.date_created);
    let h2 = exporter::head_element("ownerEmail"@, doc.owner_email);
    let margin = seq![' ', ' '];
    let closing = margin + document_end();
    let body = lines + closing;
    let behind = body_start() + body;
    let t3 = margin + behind;
    let t2 = h2 + t3;
    let t1 = h1 + t2;
    let t0 = h0 + t1;
    lemma_margins(margin);
    lemma_whole_text(
        prologue(),
        h0,
        h1,
        h2,
        margin,
        "</head>\n"@,
        "  <body>\n"@,
        lines,
        "</body>\n"@,
        "</opml>\n"@,
    );
    assert(s == prologue() + t0);
    assert(s.take(prologue().len() as int) =~= prologue());
    assert(s.skip(prologue().len() as int) =~= t0);
    assert(behind.take(body_start().len() as int) =~= body_start());
    lemma_head(doc, t3, behind);
    assert(behind.skip(body_start().len() as int) =~= body);
    reveal_strlit("    ");
    lemma_entries(os, os.len(), "    "@, closing);
    lemma_end_of_body(margin);
}

proof fn lemma_margins(margin: Seq<char>)
    requires
        margin == seq![' ', ' '],
    ensures
        "  </head>\n"@ == margin + "</head>\n"@,
        "  </body>\n"@ == margin + "</body>\n"@,
{
    reveal_strlit("  </head>\n");
    reveal_strlit("  </body>\n");
    reveal_strlit("</head>\n");
    reveal_strlit("</body>\n");
    assert("  </head>\n"@ =~= margin + "</head>\n"@);
    assert("  </body>\n"@ =~= margin + "</body>\n"@);
}

proof fn lemma_whole_text(
    p: Seq<char>,
    h0: Seq<char>,
    h1: Seq<char>,
    h2: Seq<char>,
    m: Seq<char>,
    a: Seq<char>,
    b: Seq<char>,
    lines: Seq<char>,
    c: Seq<char>,
    d: Seq<char>,
)
    ensures
        p + h0 + h1 + h2 + (m + a) + b + lines + (m + c) + d == p + (h0 + (h1 + (h2 + (m + ((a
            + b) + (lines + (m + (c + d)))))))),
{
    let tail = b + lines + (m + c) + d;
    assert((m + a) + tail =~= m + ((a + b) + (lines + (m + (c + d)))));
    assert(p + h0 + h1 + h2 + (m + a) + b + lines + (m + c) + d =~= p + h0 + h1 + h2 + ((m + a)
        + tail));
    assert(p + h0 + h1 + h2 + ((m + a) + tail) =~= p + (h0 + (h1 + (h2 + ((m + a) + tail)))));
}

proof fn lemma_end_of_body(margin: Seq<char>)
    requires
        margin == seq![' ', ' '],
    ensures
        read_entries(margin + document_end()) == (Seq::<ReadEntry>::empty(), document_end()),
{
    reveal_strlit("<outline");
    reveal_strlit("</body>\n");
    assert(document_end()[0] == '<' && document_end()[1] == '/');
    lemma_unindented(margin, document_end());
    assert(!text::begins_with(document_end(), "<outline"@)) by {
        if text::begins_with(document_end(), "<outline"@) {
            assert(document_end().take(8)[1] == document_end()[1]);
        }
    }
}

proof fn lemma_head(doc: OpmlDocument, tail: Seq<char>, behind: Seq<char>)
    requires
        tail == seq![' ', ' '] + behind,
        text::begins_with(behind, body_start()),
    ensures
        ({
            let all = exporter::head_element("title"@, doc.title) + (exporter::head_element(
                "dateCreated"@,
                doc.date_created,
            ) + (exporter::head_element("ownerEmail"@, doc.owner_email) + tail));
            let (head, end) = read_elements(all);
            &&& end == behind
            &&& value_of(head, "title"@) == text::view_opt(doc.title)
            &&& value_of(head, "dateCreated"@) == text::view_opt(doc.date_created)
            &&& value_of(head, "ownerEmail"@) == text::view_opt(doc.owner_email)
        }),
{
    reveal_strlit("title");
    reveal_strlit("dateCreated");
    reveal_strlit("ownerEmail");
    reveal_strlit("<");
    reveal_strlit("</");
    reveal_strlit("</head>\n");
    let t2 = exporter::head_element("ownerEmail"@, doc.owner_email) + tail;
    let t1 = exporter::head_element("dateCreated"@, doc.date_created) + t2;
    let t0 = exporter::head_element("title"@, doc.title) + t1;
    lemma_reads_element("title"@, doc.title, t1);
    lemma_reads_element("dateCreated"@, doc.date_created, t2);
    lemma_reads_element("ownerEmail"@, doc.owner_email, tail);
    assert(behind.take(body_start().len() as int)[0] == behind[0]);
    assert(behind.take(body_start().len() as int)[1] == behind[1]);
    lemma_unindented(seq![' ', ' '], behind);
    assert(behind.take(2) =~= "</"@);
    let none = Seq::<(Seq<char>, Seq<char>)>::empty();
    assert(read_elements(tail) == (none, behind));
    let r2 = read_elements(t2).0;
    let r1 = read_elements(t1).0;
    let r0 = read_elements(t0).0;
    assert("title"@.len() == 5 && "dateCreated"@.len() == 11 && "ownerEmail"@.len() == 10);
    lemma_values("ownerEmail"@, doc.owner_email, none, r2);
    lemma_values("dateCreated"@, doc.date_created, r2, r1);
    lemma_values("title"@, doc.title, r1, r0);
    assert(value_of(none, "title"@) is None);
    assert(value_of(none, "dateCreated"@) is None);
    assert(value_of(none, "ownerEmail"@) is None);
}

/// What is written out is read back: the head of a document and all its entries, and every text
/// whatever it holds.
pub proof fn written_document_is_read_back(
    doc: OpmlDocument,
    res: String,
    s: &str,
    safe: String,
)
    requires
        call_ensures(OpmlExporter::export, (&doc,), res),
        call_ensures(OpmlExporter::escape_xml, (s,), safe),
    ensures
        ({
            let read = read_document(res@);
            &&& read is Some
            &&& value_of(read->0.head, "title"@) == text::view_opt(doc.title)
            &&& value_of(read->0.head, "dateCreated"@) == text::view_opt(doc.date_created)
            &&& value_of(read->0.head, "ownerEmail"@) == text::view_opt(doc.owner_email)
            &&& read->0.entries.len() == doc.outlines@.len()
            &&& forall|i: int|
                0 <= i < doc.outlines@.len() ==> says(
                    #[trigger] read->0.entries[i],
                    doc.outlines@[i],
                )
        }),
        exporter::unescaped(safe@) == s@,
        !safe@.contains('<') && !safe@.contains('>') && !safe@.contains('"') && !safe@.contains(
            '\'',
        ),
{
    document_is_read_back(doc);
    exporter::unescaping_undoes_escaping(s@);
    exporter::escaped_text_holds_no_markup(s@);
}

} // verus!
