//! The executable element-stack writer.

use vstd::prelude::*;
use vstd::string::StrSliceExecFns;
use vstd::string::StringExecFns;

use crate::model::{
    escaped, init_state, mark_top_has_children, ns_pairs_view, ns_prefix_text, opt_str_view,
    opt_string_view, spaces, spec_attr, spec_attr_esc, spec_begin_elem, spec_cdata, spec_close,
    spec_close_elem, spec_comment, spec_dtd, spec_elem, spec_elem_text, spec_empty_elem,
    spec_end_elem, spec_indent, spec_ns_decl, spec_set_mode, spec_text, spec_write, wf, Mode,
    WriterModel,
};

verus! {

/// A streaming XML writer.
///
/// The writer appends markup to an owned `String` sink as operations are
/// called, tracking open elements on a stack so that pending start tags
/// are terminated, indentation matches the nesting depth, and closing
/// tags reuse the namespace prefix captured when the element was opened.
/// Its abstract state is a [`WriterModel`]; every operation's contract
/// says that the writer steps by the corresponding `spec_*` transition.
#[derive(Debug)]
pub struct XmlWriter {
    /// The output accumulated so far.
    out: String,
    /// Open elements, innermost last: name and whether any child was
    /// appended under it.
    stack: Vec<(String, bool)>,
    /// The namespace prefix current when each open element was opened.
    ns_stack: Vec<Option<String>>,
    /// Whether a start tag is unterminated and still accepting
    /// attributes.
    opened: bool,
    /// The output-formatting mode.
    mode: Mode,
    /// An XML namespace prefix applied to every subsequently opened
    /// construct, until changed; `None` for no prefix.
    pub namespace: Option<String>,
    /// Whether the pending start tag's element has a child arriving.
    children: bool,
    /// Whether a newline should precede the next indented line.
    newline: bool,
}

impl View for XmlWriter {
    type V = WriterModel;

    closed spec fn view(&self) -> WriterModel {
        WriterModel {
            out: self.out@,
            stack: self.stack@.map_values(|p: (String, bool)| (p.0@, p.1)),
            ns_stack: self.ns_stack@.map_values(
                |o: Option<String>|
                    match o {
                        Some(p) => Some(p@),
                        None => None,
                    },
            ),
            opened: self.opened,
            mode: self.mode,
            namespace: match self.namespace {
                Some(ref p) => Some(p@),
                None => None,
            },
            children: self.children,
            newline: self.newline,
        }
    }
}

impl XmlWriter {
    /// Create a new writer with `compact` output, appending to `sink`.
    pub fn compact_mode(sink: String) -> (w: XmlWriter)
        ensures
            w@ == init_state(sink@, Mode::Compact),
            wf(w@),
    {
        XmlWriter::with_mode(sink, Mode::Compact)
    }

    /// Create a new writer with `pretty` output, appending to `sink`.
    pub fn pretty_mode(sink: String) -> (w: XmlWriter)
        ensures
            w@ == init_state(sink@, Mode::Pretty),
            wf(w@),
    {
        XmlWriter::with_mode(sink, Mode::Pretty)
    }

    /// Create a new writer with `very pretty` output, appending to `sink`.
    pub fn very_pretty_mode(sink: String) -> (w: XmlWriter)
        ensures
            w@ == init_state(sink@, Mode::FullyPretty),
            wf(w@),
    {
        XmlWriter::with_mode(sink, Mode::FullyPretty)
    }

    fn with_mode(sink: String, mode: Mode) -> (w: XmlWriter)
        ensures
            w@ == init_state(sink@, mode),
            wf(w@),
    {
        let w = XmlWriter {
            out: sink,
            stack: Vec::new(),
            ns_stack: Vec::new(),
            opened: false,
            mode: mode,
            namespace: None,
            children: false,
            newline: false,
        };
        proof {
            assert(w@ =~= init_state(w.out@, mode));
        }
        w
    }

    /// Copy an optional namespace prefix.
    fn clone_ns(ns: &Option<String>) -> (r: Option<String>)
        ensures
            r == *ns,
    {
        match ns {
            Some(s) => Some(s.clone()),
            None => None,
        }
    }

    /// Borrow an optional namespace prefix as a string slice.
    fn prefix_ref<'a>(ns: &'a Option<String>) -> (r: Option<&'a str>)
        ensures
            opt_str_view(r) == opt_string_view(*ns),
    {
        match ns {
            Some(s) => Some(s.as_str()),
            None => None,
        }
    }

    /// Terminate a pending start tag, if one is open: `/>` if the mode
    /// is fully pretty and no child has arrived, `>` otherwise.
    fn close_elem(&mut self)
        ensures
            final(self)@ == spec_close_elem(old(self)@),
    {
        if self.opened {
            if self.mode == Mode::FullyPretty && !self.children {
                self.out.append("/>");
            } else {
                self.out.append(">");
            }
            self.opened = false;
        }
        proof {
            assert(self@ =~= spec_close_elem(old(self)@));
        }
    }

    /// Emit positional indentation for the current depth.
    fn indent(&mut self)
        ensures
            final(self)@ == spec_indent(old(self)@),
    {
        let depth = self.stack.len();
        if self.mode == Mode::FullyPretty {
            if self.newline {
                self.out.append("\n");
            } else {
                self.newline = true;
            }
            let ghost base = self@.out;
            let mut i: usize = 0;
            while i < depth
                invariant
                    i <= depth,
                    self@ =~= (WriterModel {
                        out: base + spaces(i as nat),
                        newline: true,
                        ..old(self)@
                    }),
                decreases depth - i,
            {
                self.out.append("  ");
                i += 1;
            }
            proof {
                assert(self@ =~= spec_indent(old(self)@));
            }
        } else if self.mode == Mode::Pretty && depth > 0 {
            self.out.append("\n");
            let ghost base = self@.out;
            let mut i: usize = 0;
            while i < depth
                invariant
                    i <= depth,
                    self@ =~= (WriterModel { out: base + spaces(i as nat), ..old(self)@ }),
                decreases depth - i,
            {
                self.out.append("  ");
                i += 1;
            }
            proof {
                assert(self@ =~= spec_indent(old(self)@));
            }
        } else {
            proof {
                assert(self@ =~= spec_indent(old(self)@));
            }
        }
    }

    /// Write `prefix:` if a prefix is given.
    fn ns_prefix(&mut self, namespace: Option<&str>)
        ensures
            final(self)@ == (WriterModel {
                out: old(self)@.out + ns_prefix_text(opt_str_view(namespace)),
                ..old(self)@
            }),
    {
        if let Some(ns) = namespace {
            self.out.append(ns);
            self.out.append(":");
        }
        proof {
            assert(self@ =~= WriterModel {
                out: old(self)@.out + ns_prefix_text(opt_str_view(namespace)),
                ..old(self)@
            });
        }
    }

    /// Write `text` with the five XML-special characters replaced by
    /// their named entities; in identifier position a backslash is
    /// doubled as well.
    fn escape(&mut self, text: &str, ident: bool)
        ensures
            final(self)@ == (WriterModel {
                out: old(self)@.out + escaped(text@, ident),
                ..old(self)@
            }),
    {
        let n = text.unicode_len();
        let mut i: usize = 0;
        while i < n
            invariant
                i <= n,
                n == text@.len(),
                self@ =~= (WriterModel {
                    out: old(self)@.out + escaped(text@.take(i as int), ident),
                    ..old(self)@
                }),
            decreases n - i,
        {
            let c = text.get_char(i);
            if c == '"' {
                self.out.append("&quot;");
            } else if c == '\'' {
                self.out.append("&apos;");
            } else if c == '&' {
                self.out.append("&amp;");
            } else if c == '<' {
                self.out.append("&lt;");
            } else if c == '>' {
                self.out.append("&gt;");
            } else if c == '\\' && ident {
                self.out.append("\\\\");
            } else {
                let s = text.substring_char(i, i + 1);
                proof {
                    assert(s@ =~= seq![text@[i as int]]);
                }
                self.out.append(s);
            }
            proof {
                assert(text@.take(i as int + 1).drop_last() =~= text@.take(i as int));
                assert(self@ =~= WriterModel {
                    out: old(self)@.out + escaped(text@.take(i as int + 1), ident),
                    ..old(self)@
                });
            }
            i += 1;
        }
        proof {
            assert(text@.take(n as int) =~= text@);
        }
    }

    /// Switch to `compact` mode.
    pub fn set_compact_mode(&mut self)
        ensures
            final(self)@ == spec_set_mode(old(self)@, Mode::Compact),
    {
        self.mode = Mode::Compact;
        proof {
            assert(final(self)@ =~= spec_set_mode(old(self)@, Mode::Compact));
        }
    }

    /// Switch to `pretty` mode.
    pub fn set_pretty_mode(&mut self)
        ensures
            final(self)@ == spec_set_mode(old(self)@, Mode::Pretty),
    {
        self.mode = Mode::Pretty;
        proof {
            assert(final(self)@ =~= spec_set_mode(old(self)@, Mode::Pretty));
        }
    }

    /// Switch to `very pretty` mode.
    pub fn set_very_pretty_mode(&mut self)
        ensures
            final(self)@ == spec_set_mode(old(self)@, Mode::FullyPretty),
    {
        self.mode = Mode::FullyPretty;
        proof {
            assert(final(self)@ =~= spec_set_mode(old(self)@, Mode::FullyPretty));
        }
    }

    /// Set the namespace prefix applied to every subsequently opened
    /// construct (`None` for no prefix).  Elements already open keep the
    /// prefix captured when they were opened.
    pub fn set_namespace(&mut self, namespace: Option<String>)
        ensures
            final(self)@ == (WriterModel {
                namespace: opt_string_view(namespace),
                ..old(self)@
            }),
    {
        self.namespace = namespace;
        proof {
            assert(self@ =~= WriterModel {
                namespace: opt_string_view(self.namespace),
                ..old(self)@
            });
        }
    }

    /// Write the XML declaration line.  The encoding is written
    /// unescaped; well-formedness is the caller's responsibility.
    pub fn dtd(&mut self, encoding: &str)
        ensures
            final(self)@ == spec_dtd(old(self)@, encoding@),
    {
        self.out.append("<?xml version=\"1.0\" encoding=\"");
        self.out.append(encoding);
        self.out.append("\" ?>\n");
        proof {
            assert(final(self)@ =~= spec_dtd(old(self)@, encoding@));
        }
    }

    /// Open an element: any pending start tag is terminated (as the
    /// parent of a child, so it never self-closes), the parent is marked
    /// as having children, and `<`, the current namespace prefix and the
    /// name are written at the current depth's indentation.  The new
    /// start tag is left open for attributes.  Make sure `name` contains
    /// only allowed characters.
    pub fn begin_elem(&mut self, name: &str)
        requires
            wf(old(self)@),
        ensures
            final(self)@ == spec_begin_elem(old(self)@, name@),
            wf(final(self)@),
            final(self)@.stack.len() == old(self)@.stack.len() + 1,
    {
        self.children = true;
        self.close_elem();
        if let Some(previous) = self.stack.pop() {
            self.stack.push((previous.0, true));
        }
        proof {
            assert(self@.stack =~= mark_top_has_children(
                spec_close_elem(WriterModel { children: true, ..old(self)@ }).stack,
            ));
        }
        self.indent();
        self.stack.push((name.to_owned(), false));
        let owned_ns = Self::clone_ns(&self.namespace);
        self.ns_stack.push(owned_ns);
        self.out.append("<");
        self.opened = true;
        self.children = false;
        let ns = Self::clone_ns(&self.namespace);
        self.ns_prefix(Self::prefix_ref(&ns));
        self.out.append(name);
        proof {
            assert(self@ =~= spec_begin_elem(old(self)@, name@));
        }
    }

    /// Close the innermost open element.  A pending start tag is
    /// terminated first; the closing tag reuses the namespace prefix
    /// captured when the element was opened, not the current setting.
    /// In fully pretty mode a childless element was already self-closed,
    /// so nothing more is written; otherwise the closing tag goes on its
    /// own indented line in that mode.
    pub fn end_elem(&mut self)
        requires
            wf(old(self)@),
            old(self)@.stack.len() > 0,
        ensures
            final(self)@ == spec_end_elem(old(self)@),
            wf(final(self)@),
            final(self)@.stack.len() == old(self)@.stack.len() - 1,
    {
        self.close_elem();
        let ns = self.ns_stack.pop().unwrap();
        let frame = self.stack.pop().unwrap();
        let name = frame.0;
        let had_children = frame.1;
        if self.mode == Mode::FullyPretty {
            if had_children {
                self.indent();
                self.out.append("</");
                self.ns_prefix(Self::prefix_ref(&ns));
                self.out.append(name.as_str());
                self.out.append(">");
            }
        } else {
            self.out.append("</");
            self.ns_prefix(Self::prefix_ref(&ns));
            self.out.append(name.as_str());
            self.out.append(">");
        }
        proof {
            assert(self@ =~= spec_end_elem(old(self)@));
        }
    }

    /// Write a self-closing element like `<br/>`, marking the enclosing
    /// element as having children.  No frame is pushed or popped.
    /// Semantically identical to `empty_elem`; the two calls are
    /// distinct only for API symmetry.
    pub fn elem(&mut self, name: &str)
        ensures
            final(self)@ == spec_elem(old(self)@, name@),
    {
        self.children = true;
        self.close_elem();
        if let Some(previous) = self.stack.pop() {
            self.stack.push((previous.0, true));
        }
        self.children = false;
        proof {
            assert(self@.stack =~= mark_top_has_children(
                spec_close_elem(WriterModel { children: true, ..old(self)@ }).stack,
            ));
        }
        self.indent();
        self.out.append("<");
        let ns = Self::clone_ns(&self.namespace);
        self.ns_prefix(Self::prefix_ref(&ns));
        self.out.append(name);
        self.out.append("/>");
        proof {
            assert(self@ =~= spec_elem(old(self)@, name@));
        }
    }

    /// Write an element with inlined, escaped text:
    /// `<ns:name>text</name>`, marking the enclosing element as having
    /// children.  No frame is pushed or popped.
    pub fn elem_text(&mut self, name: &str, text: &str)
        ensures
            final(self)@ == spec_elem_text(old(self)@, name@, text@),
    {
        self.children = true;
        self.close_elem();
        if let Some(previous) = self.stack.pop() {
            self.stack.push((previous.0, true));
        }
        self.children = false;
        proof {
            assert(self@.stack =~= mark_top_has_children(
                spec_close_elem(WriterModel { children: true, ..old(self)@ }).stack,
            ));
        }
        self.indent();
        self.out.append("<");
        let ns = Self::clone_ns(&self.namespace);
        self.ns_prefix(Self::prefix_ref(&ns));
        self.out.append(name);
        self.out.append(">");
        self.escape(text, false);
        self.out.append("</");
        self.out.append(name);
        self.out.append(">");
        proof {
            assert(self@ =~= spec_elem_text(old(self)@, name@, text@));
        }
    }

    /// Write an empty element `<name/>`, marking the enclosing element
    /// as having children.
    pub fn empty_elem(&mut self, name: &str)
        ensures
            final(self)@ == spec_empty_elem(old(self)@, name@),
    {
        self.children = true;
        self.close_elem();
        if let Some(previous) = self.stack.pop() {
            self.stack.push((previous.0, true));
        }
        self.children = false;
        proof {
            assert(self@.stack =~= mark_top_has_children(
                spec_close_elem(WriterModel { children: true, ..old(self)@ }).stack,
            ));
        }
        self.indent();
        self.out.append("<");
        let ns = Self::clone_ns(&self.namespace);
        self.ns_prefix(Self::prefix_ref(&ns));
        self.out.append(name);
        self.out.append("/>");
        proof {
            assert(self@ =~= spec_empty_elem(old(self)@, name@));
        }
    }

    /// Write a raw attribute ` name="value"` into the pending start
    /// tag.  Neither part is escaped: make sure they contain only
    /// allowed characters, or use `attr_esc`.
    pub fn attr(&mut self, name: &str, value: &str)
        requires
            old(self)@.opened,
        ensures
            final(self)@ == spec_attr(old(self)@, name@, value@),
    {
        self.out.append(" ");
        self.out.append(name);
        self.out.append("=\"");
        self.out.append(value);
        self.out.append("\"");
        proof {
            assert(self@ =~= spec_attr(old(self)@, name@, value@));
        }
    }

    /// Write an attribute into the pending start tag, escaping both the
    /// name (as an identifier) and the value.
    pub fn attr_esc(&mut self, name: &str, value: &str)
        requires
            old(self)@.opened,
        ensures
            final(self)@ == spec_attr_esc(old(self)@, name@, value@),
    {
        self.out.append(" ");
        self.escape(name, true);
        self.out.append("=\"");
        self.escape(value, false);
        self.out.append("\"");
        proof {
            assert(self@ =~= spec_attr_esc(old(self)@, name@, value@));
        }
    }

    /// Write escaped character data under the current element, marking
    /// it as having children.
    pub fn text(&mut self, text: &str)
        ensures
            final(self)@ == spec_text(old(self)@, text@),
    {
        self.children = true;
        self.close_elem();
        if let Some(previous) = self.stack.pop() {
            self.stack.push((previous.0, true));
        }
        self.children = false;
        proof {
            assert(self@.stack =~= mark_top_has_children(
                spec_close_elem(WriterModel { children: true, ..old(self)@ }).stack,
            ));
        }
        if self.mode == Mode::FullyPretty {
            self.indent();
        }
        self.escape(text, false);
        proof {
            assert(self@ =~= spec_text(old(self)@, text@));
        }
    }

    /// Write a CDATA section with raw, unescaped content, marking the
    /// current element as having children.
    pub fn cdata(&mut self, cdata: &str)
        ensures
            final(self)@ == spec_cdata(old(self)@, cdata@),
    {
        self.children = true;
        self.close_elem();
        if let Some(previous) = self.stack.pop() {
            self.stack.push((previous.0, true));
        }
        self.children = false;
        proof {
            assert(self@.stack =~= mark_top_has_children(
                spec_close_elem(WriterModel { children: true, ..old(self)@ }).stack,
            ));
        }
        if self.mode == Mode::FullyPretty {
            self.indent();
        }
        self.out.append("<![CDATA[");
        self.out.append(cdata);
        self.out.append("]]>");
        proof {
            assert(self@ =~= spec_cdata(old(self)@, cdata@));
        }
    }

    /// Write a comment `<!-- text -->` with escaped content, marking
    /// the current element as having children.  Comments get positional
    /// indentation in every non-compact mode.
    pub fn comment(&mut self, comment: &str)
        ensures
            final(self)@ == spec_comment(old(self)@, comment@),
    {
        self.children = true;
        self.close_elem();
        if let Some(previous) = self.stack.pop() {
            self.stack.push((previous.0, true));
        }
        self.children = false;
        proof {
            assert(self@.stack =~= mark_top_has_children(
                spec_close_elem(WriterModel { children: true, ..old(self)@ }).stack,
            ));
        }
        self.indent();
        self.out.append("<!-- ");
        self.escape(comment, false);
        self.out.append(" -->");
        proof {
            assert(self@ =~= spec_comment(old(self)@, comment@));
        }
    }

    /// Write namespace declarations (`xmlns` / `xmlns:prefix`
    /// attributes) into the pending start tag, through the raw
    /// attribute path.
    pub fn ns_decl(&mut self, ns_map: &Vec<(Option<&str>, &str)>)
        requires
            old(self)@.opened,
        ensures
            final(self)@ == spec_ns_decl(old(self)@, ns_pairs_view(ns_map@)),
    {
        let mut idx: usize = 0;
        while idx < ns_map.len()
            invariant
                idx <= ns_map@.len(),
                self@ =~= spec_ns_decl(old(self)@, ns_pairs_view(ns_map@.take(idx as int))),
                self@.opened,
            decreases ns_map@.len() - idx,
        {
            let name: String = match ns_map[idx].0 {
                Some(pre) => "xmlns:".to_owned().concat(pre),
                None => "xmlns".to_owned(),
            };
            self.attr(name.as_str(), ns_map[idx].1);
            proof {
                assert(ns_pairs_view(ns_map@.take(idx as int + 1)).drop_last() =~= ns_pairs_view(
                    ns_map@.take(idx as int),
                ));
                assert(self@ =~= spec_ns_decl(
                    old(self)@,
                    ns_pairs_view(ns_map@.take(idx as int + 1)),
                ));
            }
            idx += 1;
        }
        proof {
            assert(ns_map@.take(ns_map@.len() as int) =~= ns_map@);
        }
    }

    /// Close every element still open, innermost first, so that a
    /// forgotten `end_elem` does not leave the document malformed.  On
    /// an already-empty stack this writes nothing and changes nothing.
    pub fn close(&mut self)
        requires
            wf(old(self)@),
        ensures
            final(self)@ == spec_close(old(self)@),
            wf(final(self)@),
            final(self)@.stack.len() == 0,
            old(self)@.stack.len() == 0 ==> *final(self) == *old(self),
    {
        while self.stack.len() > 0
            invariant
                wf(self@),
                spec_close(self@) == spec_close(old(self)@),
                old(self)@.stack.len() == 0 ==> *self == *old(self),
            decreases self@.stack.len(),
        {
            let ghost pre = self@;
            self.end_elem();
            proof {
                assert(spec_close(pre) == spec_close(self@));
            }
        }
    }

    /// Raw write: the text goes to the output verbatim, with no
    /// escaping and no state change.  Misuse can produce invalid
    /// markup by design.
    pub fn write(&mut self, text: &str)
        ensures
            final(self)@ == spec_write(old(self)@, text@),
    {
        self.out.append(text);
        proof {
            assert(final(self)@ =~= spec_write(old(self)@, text@));
        }
    }

    /// Flush the sink.  The in-memory sink holds nothing back, so this
    /// changes nothing.
    pub fn flush(&mut self)
        ensures
            *final(self) == *old(self),
    {
    }

    /// Consume the writer and return the sink.
    pub fn into_inner(self) -> (r: String)
        ensures
            r@ == self@.out,
    {
        self.out
    }
}

} // verus!
