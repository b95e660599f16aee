//! How an OPML document is written down.

use vstd::prelude::*;
use vstd::string::*;

use crate::opml::document::{OpmlDocument, OpmlOutline};
use crate::text;

verus! {

/// What stands for a character in the text of an XML element or attribute.
pub open spec fn escaped_char(c: char) -> Seq<char> {
    if c == '&' {
        seq!['&', 'a', 'm', 'p', ';']
    } else if c == '<' {
        seq!['&', 'l', 't', ';']
    } else if c == '>' {
        seq!['&', 'g', 't', ';']
    } else if c == '"' {
        seq!['&', 'q', 'u', 'o', 't', ';']
    } else if c == '\'' {
        seq!['&', 'a', 'p', 'o', 's', ';']
    } else {
        seq![c]
    }
}

/// A text with every character that XML reserves replaced by its entity.
pub open spec fn escaped(s: Seq<char>) -> Seq<char>
    decreases s.len(),
{
    if s.len() == 0 {
        Seq::empty()
    } else {
        escaped(s.drop_last()) + escaped_char(s.last())
    }
}

/// The character that an escaped text begins with, and how many characters stand for it.
pub open spec fn read_char(s: Seq<char>) -> (char, int) {
    if text::begins_with(s, escaped_char('&')) {
        ('&', 5)
    } else if text::begins_with(s, escaped_char('<')) {
        ('<', 4)
    } else if text::begins_with(s, escaped_char('>')) {
        ('>', 4)
    } else if text::begins_with(s, escaped_char('"')) {
        ('"', 6)
    } else if text::begins_with(s, escaped_char('\'')) {
        ('\'', 6)
    } else {
        (s[0], 1)
    }
}

/// A text with every entity replaced by the character that it stands for.
pub open spec fn unescaped(s: Seq<char>) -> Seq<char>
    decreases s.len(),
{
    if s.len() == 0 {
        Seq::empty()
    } else {
        let (c, n) = read_char(s);
        if 0 < n <= s.len() {
            seq![c] + unescaped(s.skip(n))
        } else {
            Seq::empty()
        }
    }
}

/// One line with an element of the head, where there is a value for it.
pub open spec fn head_element(name: Seq<char>, value: Option<String>) -> Seq<char> {
    match value {
        Some(value) => "    <"@ + name + ">"@ + escaped(value@) + "</"@ + name + ">\n"@,
        None => Seq::empty(),
    }
}

/// An attribute of an element.
pub open spec fn attribute(name: Seq<char>, value: Seq<char>) -> Seq<char> {
    " "@ + name + "=\""@ + escaped(value) + "\""@
}

/// An attribute of an element, where there is a value for it.
pub open spec fn optional_attribute(name: Seq<char>, value: Option<String>) -> Seq<char> {
    match value {
        Some(value) => attribute(name, value@),
        None => Seq::empty(),
    }
}

/// The attributes of an entry. The title is left out where it repeats the text.
pub open spec fn attributes(o: OpmlOutline) -> Seq<char> {
    attribute("text"@, o.text@) + (if text::view_opt(o.title) == Some(o.text@) {
        Seq::empty()
    } else {
        optional_attribute("title"@, o.title)
    }) + optional_attribute("type"@, o.outline_type) + optional_attribute("xmlUrl"@, o.xml_url)
        + optional_attribute("htmlUrl"@, o.html_url) + optional_attribute(
        "description"@,
        o.description,
    )
}

/// The lines of an entry and of everything in it, each behind its margin.
pub open spec fn entry_text(o: OpmlOutline, margin: Seq<char>) -> Seq<char>
    decreases o, 0nat,
{
    let start = margin + "<outline"@ + attributes(o);
    if o.children@.len() == 0 {
        start + "/>\n"@
    } else {
        start + ">\n"@ + entries_text(o.children@, o.children@.len(), margin + "  "@) + margin
            + "</outline>\n"@
    }
}

/// The lines of the first `n` of some entries.
pub open spec fn entries_text(os: Seq<OpmlOutline>, n: nat, margin: Seq<char>) -> Seq<char>
    decreases os, n,
{
    if n == 0 || n > os.len() {
        Seq::empty()
    } else {
        entries_text(os, (n - 1) as nat, margin) + entry_text(os[n - 1], margin)
    }
}

/// A document as OPML 2.0.
pub open spec fn document_text(doc: OpmlDocument) -> Seq<char> {
    "<?xml version=\"1.0\" encoding=\"UTF-8\"?>\n"@ + "<opml version=\"2.0\">\n"@ + "  <head>\n"@
        + head_element("title"@, doc.title) + head_element("dateCreated"@, doc.date_created)
        + head_element("ownerEmail"@, doc.owner_email) + "  </head>\n"@ + "  <body>\n"@
        + entries_text(doc.outlines@, doc.outlines@.len(), "    "@) + "  </body>\n"@
        + "</opml>\n"@
}

/// Writes OPML.
pub struct OpmlExporter;

impl OpmlExporter {
    /// The document as OPML 2.0.
    pub fn export(doc: &OpmlDocument) -> (res: String)
        ensures
            res@ == document_text(*doc),
    {
        let mut output: String = "<?xml version=\"1.0\" encoding=\"UTF-8\"?>\n".to_string();
        output.append("<opml version=\"2.0\">\n");
        output.append("  <head>\n");
        Self::write_head_element(&mut output, "title", &doc.title);
        Self::write_head_element(&mut output, "dateCreated", &doc.date_created);
        Self::write_head_element(&mut output, "ownerEmail", &doc.owner_email);
        output.append("  </head>\n");
        output.append("  <body>\n");
        Self::write_outlines(&mut output, &doc.outlines, "    ");
        output.append("  </body>\n");
        output.append("</opml>\n");
        output
    }

    fn write_head_element(output: &mut String, name: &str, value: &Option<String>)
        ensures
            final(output)@ == old(output)@ + head_element(name@, *value),
    {
        let ghost before = output@;
        if let Some(value) = value {
            output.append("    <");
            output.append(name);
            output.append(">");
            output.append(Self::escape_xml(value.as_str()).as_str());
            output.append("</");
            output.append(name);
            output.append(">\n");
        }
        proof {
            assert(output@ =~= before + head_element(name@, *value));
        }
    }

    fn write_attribute(output: &mut String, name: &str, value: &str)
        ensures
            final(output)@ == old(output)@ + attribute(name@, value@),
    {
        let ghost before = output@;
        output.append(" ");
        output.append(name);
        output.append("=\"");
        output.append(Self::escape_xml(value).as_str());
        output.append("\"");
        proof {
            assert(output@ =~= before + attribute(name@, value@));
        }
    }

    fn write_optional_attribute(output: &mut String, name: &str, value: &Option<String>)
        ensures
            final(output)@ == old(output)@ + optional_attribute(name@, *value),
    {
        let ghost before = output@;
        if let Some(value) = value {
            Self::write_attribute(output, name, value.as_str());
        }
        proof {
            assert(output@ =~= before + optional_attribute(name@, *value));
        }
    }

    fn write_attributes(output: &mut String, outline: &OpmlOutline)
        ensures
            final(output)@ == old(output)@ + attributes(*outline),
    {
        let ghost before = output@;
        Self::write_attribute(output, "text", outline.text.as_str());
        let repeated: bool = match &outline.title {
            Some(title) => text::same(title.as_str(), outline.text.as_str()),
            None => false,
        };
        if !repeated {
            Self::write_optional_attribute(output, "title", &outline.title);
        }
        Self::write_optional_attribute(output, "type", &outline.outline_type);
        Self::write_optional_attribute(output, "xmlUrl", &outline.xml_url);
        Self::write_optional_attribute(output, "htmlUrl", &outline.html_url);
        Self::write_optional_attribute(output, "description", &outline.description);
        proof {
            assert(output@ =~= before + attributes(*outline));
        }
    }

    /// Writes one entry and everything in it.
    fn write_outline(output: &mut String, outline: &OpmlOutline, margin: &str)
        ensures
            final(output)@ == old(output)@ + entry_text(*outline, margin@),
        decreases outline, 0nat,
    {
        let ghost before = output@;
        output.append(margin);
        output.append("<outline");
        Self::write_attributes(output, outline);
        if outline.children.len() == 0 {
            output.append("/>\n");
        } else {
            output.append(">\n");
            let mut inner: String = margin.to_string();
            inner.append("  ");
            Self::write_outlines(output, &outline.children, inner.as_str());
            output.append(margin);
            output.append("</outline>\n");
        }
        proof {
            assert(output@ =~= before + entry_text(*outline, margin@));
        }
    }

    fn write_outlines(output: &mut String, outlines: &Vec<OpmlOutline>, margin: &str)
        ensures
            final(output)@ == old(output)@ + entries_text(outlines@, outlines@.len(), margin@),
        decreases outlines, 1nat,
    {
        let ghost before = output@;
        let mut i: usize = 0;
        while i < outlines.len()
            invariant
                i <= outlines@.len(),
                output@ == before + entries_text(outlines@, i as nat, margin@),
            decreases outlines@.len() - i,
        {
            proof {
                assert(decreases_to!(outlines => outlines@));
                assert(decreases_to!(outlines@ => outlines@[i as int]));
            }
            Self::write_outline(output, &outlines[i], margin);
            proof {
                assert(output@ =~= before + entries_text(outlines@, (i + 1) as nat, margin@));
            }
            i += 1;
        }
    }

    /// The text with every character that XML reserves replaced by its entity.
    pub fn escape_xml(s: &str) -> (res: String)
        ensures
            res@ == escaped(s@),
    {
        let chars: Vec<char> = text::to_chars(s);
        let mut res: String = String::new();
        let mut i: usize = 0;
        while i < chars.len()
            invariant
                chars@ == s@,
                i <= chars@.len(),
                res@ == escaped(s@.take(i as int)),
            decreases chars@.len() - i,
        {
            let c: char = chars[i];
            let ghost before = res@;
            if c == '&' {
                res.append("&amp;");
            } else if c == '<' {
                res.append("&lt;");
            } else if c == '>' {
                res.append("&gt;");
            } else if c == '"' {
                res.append("&quot;");
            } else if c == '\'' {
                res.append("&apos;");
            } else {
                res.push(c);
            }
            proof {
                reveal_strlit("&amp;");
                reveal_strlit("&lt;");
                reveal_strlit("&gt;");
                reveal_strlit("&quot;");
                reveal_strlit("&apos;");
                assert(res@ =~= before + escaped_char(c));
                assert(s@.take(i + 1).drop_last() =~= s@.take(i as int));
                assert(s@.take(i + 1).last() == c);
            }
            i += 1;
        }
        proof {
            assert(s@.take(s@.len() as int) =~= s@);
        }
        res
    }
}

proof fn lemma_escaped_front(s: Seq<char>)
    requires
        s.len() > 0,
    ensures
        escaped(s) == escaped_char(s[0]) + escaped(s.drop_first()),
    decreases s.len(),
{
    if s.len() == 1 {
        assert(s.drop_last() =~= Seq::<char>::empty());
        assert(s.drop_first() =~= Seq::<char>::empty());
        assert(escaped(s.drop_last()) + escaped_char(s.last()) =~= escaped_char(s[0])
            + escaped(s.drop_first()));
    } else {
        lemma_escaped_front(s.drop_last());
        assert(s.drop_last().drop_first() =~= s.drop_first().drop_last());
        assert(s.drop_last()[0] == s[0]);
        assert(s.drop_first().last() == s.last());
        assert(escaped(s) =~= escaped_char(s[0]) + escaped(s.drop_first()));
    }
}

/// An escaped text holds no character that XML reserves, except the ampersands that its
/// entities begin with.
pub proof fn escaped_text_holds_no_markup(s: Seq<char>)
    ensures
        forall|i: int|
            0 <= i < escaped(s).len() ==> {
                let c = #[trigger] escaped(s)[i];
                c != '<' && c != '>' && c != '"' && c != '\''
            },
    decreases s.len(),
{
    if s.len() > 0 {
        escaped_text_holds_no_markup(s.drop_last());
        let head = escaped(s.drop_last());
        let tail = escaped_char(s.last());
        assert forall|i: int| 0 <= i < escaped(s).len() implies {
            let c = #[trigger] escaped(s)[i];
            c != '<' && c != '>' && c != '"' && c != '\''
        } by {
            if i < head.len() {
                assert(escaped(s)[i] == head[i]);
            } else {
                assert(escaped(s)[i] == tail[i - head.len()]);
            }
        }
    }
}

/// Texts can be escaped piece by piece.
pub proof fn escaping_goes_piece_by_piece(a: Seq<char>, b: Seq<char>)
    ensures
        escaped(a + b) == escaped(a) + escaped(b),
    decreases b.len(),
{
    if b.len() == 0 {
        assert(a + b =~= a);
        assert(escaped(a) + escaped(b) =~= escaped(a));
    } else {
        escaping_goes_piece_by_piece(a, b.drop_last());
        assert((a + b).drop_last() =~= a + b.drop_last());
        assert((a + b).last() == b.last());
        assert(escaped(a + b) =~= escaped(a) + escaped(b));
    }
}

/// Whether a text begins with one of the five entities.
pub open spec fn begins_with_entity(s: Seq<char>) -> bool {
    ||| text::begins_with(s, escaped_char('&'))
    ||| text::begins_with(s, escaped_char('<'))
    ||| text::begins_with(s, escaped_char('>'))
    ||| text::begins_with(s, escaped_char('"'))
    ||| text::begins_with(s, escaped_char('\''))
}

/// Every ampersand of an escaped text begins one of the five entities.
pub proof fn ampersands_begin_entities(s: Seq<char>)
    ensures
        forall|i: int|
            0 <= i < escaped(s).len() && #[trigger] escaped(s)[i] == '&' ==> begins_with_entity(
                escaped(s).skip(i),
            ),
    decreases s.len(),
{
    if s.len() > 0 {
        ampersands_begin_entities(s.drop_last());
        let head = escaped(s.drop_last());
        let tail = escaped_char(s.last());
        let all = escaped(s);
        assert forall|i: int| 0 <= i < all.len() && #[trigger] all[i] == '&' implies
            begins_with_entity(all.skip(i)) by {
            if i < head.len() {
                assert(head[i] == '&');
                lemma_longer_begins_with_entity(head.skip(i), tail);
                assert(head.skip(i) + tail =~= all.skip(i));
            } else {
                assert(tail[i - head.len()] == '&');
                assert(i == head.len());
                assert(all.skip(i) =~= tail);
                assert(tail.take(tail.len() as int) =~= tail);
            }
        }
    }
}

proof fn lemma_longer_begins_with_entity(s: Seq<char>, more: Seq<char>)
    requires
        begins_with_entity(s),
    ensures
        begins_with_entity(s + more),
{
    assert forall|p: Seq<char>| #[trigger] text::begins_with(s, p) implies text::begins_with(
        s + more,
        p,
    ) by {
        assert((s + more).take(p.len() as int) =~= s.take(p.len() as int));
    }
}

/// Reading the entities of an escaped text gives the text back.
pub proof fn unescaping_undoes_escaping(s: Seq<char>)
    ensures
        unescaped(escaped(s)) == s,
    decreases s.len(),
{
    if s.len() > 0 {
        lemma_escaped_front(s);
        let c = s[0];
        let e = escaped(s);
        let rest = escaped(s.drop_first());
        let n = escaped_char(c).len() as int;
        unescaping_undoes_escaping(s.drop_first());
        assert(e.take(n) =~= escaped_char(c));
        assert(e.skip(n) =~= rest);
        lemma_read_char(c, e);
        assert(seq![c] + s.drop_first() =~= s);
    }
}

proof fn lemma_read_char(c: char, e: Seq<char>)
    requires
        text::begins_with(e, escaped_char(c)),
    ensures
        read_char(e) == (c, escaped_char(c).len() as int),
{
    let n = escaped_char(c).len() as int;
    assert forall|i: int| 0 <= i < n implies e[i] == escaped_char(c)[i] by {
        assert(e.take(n)[i] == e[i]);
    }
    lemma_other_entity(c, '&', e);
    lemma_other_entity(c, '<', e);
    lemma_other_entity(c, '>', e);
    lemma_other_entity(c, '"', e);
    lemma_other_entity(c, '\'', e);
}

/// No entity begins a text that begins with what stands for another character.
proof fn lemma_other_entity(c: char, d: char, e: Seq<char>)
    requires
        d == '&' || d == '<' || d == '>' || d == '"' || d == '\'',
        forall|i: int| 0 <= i < escaped_char(c).len() ==> e[i] == escaped_char(c)[i],
    ensures
        c != d ==> !text::begins_with(e, escaped_char(d)),
{
    let p = escaped_char(d);
    let q = escaped_char(c);
    if c != d && text::begins_with(e, p) {
        assert forall|i: int| 0 <= i < p.len() implies e[i] == p[i] by {
            assert(e.take(p.len() as int)[i] == e[i]);
        }
        assert(e[0] == q[0]);
        assert(p[0] == '&');
        if q.len() > 1 {
            assert(e[1] == q[1] && e[1] == p[1]);
            assert(e[2] == q[2] && e[2] == p[2]);
        }
    }
}

/// What is written out is XML: it begins by saying so and in which version of OPML it is, and ends
/// where that ends.
pub proof fn written_document_is_opml(doc: OpmlDocument, res: String)
    requires
        call_ensures(OpmlExporter::export, (&doc,), res),
    ensures
        text::begins_with(
            res@,
            "<?xml version=\"1.0\" encoding=\"UTF-8\"?>\n"@ + "<opml version=\"2.0\">\n"@
                + "  <head>\n"@,
        ),
        text::ends_with(res@, "  </body>\n"@ + "</opml>\n"@),
{
    let front = "<?xml version=\"1.0\" encoding=\"UTF-8\"?>\n"@ + "<opml version=\"2.0\">\n"@
        + "  <head>\n"@;
    let end = "  </body>\n"@ + "</opml>\n"@;
    let inner = head_element("title"@, doc.title) + head_element("dateCreated"@, doc.date_created)
        + head_element("ownerEmail"@, doc.owner_email) + "  </head>\n"@ + "  <body>\n"@
        + entries_text(doc.outlines@, doc.outlines@.len(), "    "@);
    assert(res@ =~= front + inner + end);
    assert(res@.take(front.len() as int) =~= front);
    assert(res@.skip(res@.len() - end.len()) =~= end);
}

} // verus!
