//! The mathematical model of the writer.
//!
//! [`WriterModel`] is the abstract state of an [`crate::XmlWriter`]: the
//! characters emitted so far, the stack of open elements, the parallel
//! stack of captured namespace prefixes, and the formatting flags.  Every
//! executable operation of the writer is specified by one of the
//! `spec_*` transition functions below, which say exactly which
//! characters the operation appends and how it changes the state.

use vstd::prelude::*;

verus! {

/// The three output-formatting modes.
///
/// `Compact` emits no whitespace of its own.  `Pretty` puts each nested
/// element (and comment) on a fresh line indented two spaces per level.
/// `FullyPretty` additionally indents text and CDATA, puts closing tags
/// of elements with children on their own line, and renders childless
/// elements as a single self-closed tag.
#[derive(Clone, Copy, Debug, PartialEq, Eq, Structural)]
pub enum Mode {
    Compact,
    Pretty,
    FullyPretty,
}

/// The abstract state of a writer.
#[verifier::ext_equal]
pub struct WriterModel {
    /// Characters emitted so far.
    pub out: Seq<char>,
    /// Open elements, innermost last: name and whether any child
    /// (element, text, comment, CDATA) was appended under it.
    pub stack: Seq<(Seq<char>, bool)>,
    /// The namespace prefix that was current when each open element was
    /// opened, in lockstep with `stack`.
    pub ns_stack: Seq<Option<Seq<char>>>,
    /// Whether an element's start tag is still unterminated (attributes
    /// may still be appended).
    pub opened: bool,
    /// The output-formatting mode.
    pub mode: Mode,
    /// The namespace prefix applied to subsequently opened constructs.
    pub namespace: Option<Seq<char>>,
    /// Whether the element whose start tag is pending already has a
    /// child about to be appended (read only while `opened`).
    pub children: bool,
    /// Whether a newline should precede the next indented line
    /// (`FullyPretty` only; suppressed for the very first line).
    pub newline: bool,
}

/// The two stacks move in lockstep: one namespace entry per open element.
pub open spec fn wf(s: WriterModel) -> bool {
    s.ns_stack.len() == s.stack.len()
}

/// The state of a fresh writer around a sink already holding `out`.
pub open spec fn init_state(out: Seq<char>, mode: Mode) -> WriterModel {
    WriterModel {
        out: out,
        stack: Seq::empty(),
        ns_stack: Seq::empty(),
        opened: false,
        mode: mode,
        namespace: None,
        children: false,
        newline: false,
    }
}

/// Two spaces per indentation level.
pub open spec fn spaces(n: nat) -> Seq<char>
    decreases n,
{
    if n == 0 {
        Seq::empty()
    } else {
        spaces((n - 1) as nat) + "  "@
    }
}

/// What one character becomes on an escaped path: the five XML-special
/// characters become their named entities; in an identifier (attribute
/// name) a backslash is doubled; everything else passes through.
pub open spec fn escape_char(c: char, ident: bool) -> Seq<char> {
    if c == '"' {
        "&quot;"@
    } else if c == '\'' {
        "&apos;"@
    } else if c == '&' {
        "&amp;"@
    } else if c == '<' {
        "&lt;"@
    } else if c == '>' {
        "&gt;"@
    } else if c == '\\' && ident {
        "\\\\"@
    } else {
        seq![c]
    }
}

/// Character-by-character escaping of a whole text.
pub open spec fn escaped(t: Seq<char>, ident: bool) -> Seq<char>
    decreases t.len(),
{
    if t.len() == 0 {
        Seq::empty()
    } else {
        escaped(t.drop_last(), ident) + escape_char(t.last(), ident)
    }
}

/// The view of an optional borrowed prefix.
pub open spec fn opt_str_view(o: Option<&str>) -> Option<Seq<char>> {
    match o {
        Some(p) => Some(p@),
        None => None,
    }
}

/// The view of an optional owned prefix.
pub open spec fn opt_string_view(o: Option<String>) -> Option<Seq<char>> {
    match o {
        Some(p) => Some(p@),
        None => None,
    }
}

/// The view of borrowed namespace-declaration pairs.
pub open spec fn ns_pairs_view(m: Seq<(Option<&str>, &str)>) -> Seq<(Option<Seq<char>>, Seq<char>)> {
    m.map_values(|p: (Option<&str>, &str)| (opt_str_view(p.0), p.1@))
}

/// The prefix written before a name: `prefix:` if one is set.
pub open spec fn ns_prefix_text(ns: Option<Seq<char>>) -> Seq<char> {
    match ns {
        Some(p) => p + ":"@,
        None => Seq::empty(),
    }
}

/// What terminating a pending start tag emits: `/>` if the mode is
/// `FullyPretty` and no child has arrived (retroactive self-close),
/// `>` otherwise; nothing if no tag is pending.
pub open spec fn close_tag_text(s: WriterModel) -> Seq<char> {
    if s.opened {
        if s.mode is FullyPretty && !s.children {
            "/>"@
        } else {
            ">"@
        }
    } else {
        Seq::empty()
    }
}

/// Terminating a pending start tag.
pub open spec fn spec_close_elem(s: WriterModel) -> WriterModel {
    WriterModel { out: s.out + close_tag_text(s), opened: false, ..s }
}

/// What positional indentation emits at the current depth.
///
/// `Compact`: nothing.  `Pretty`: a newline and two spaces per level,
/// but nothing at depth zero.  `FullyPretty`: two spaces per level,
/// preceded by a newline except on the very first line.
pub open spec fn indent_text(s: WriterModel) -> Seq<char> {
    if s.mode is FullyPretty {
        (if s.newline {
            "\n"@
        } else {
            Seq::empty()
        }) + spaces(s.stack.len())
    } else if s.mode is Pretty && s.stack.len() > 0 {
        "\n"@ + spaces(s.stack.len())
    } else {
        Seq::empty()
    }
}

/// Emitting positional indentation.  In `FullyPretty` mode the first
/// line has now been started, so later lines get their newline.
pub open spec fn spec_indent(s: WriterModel) -> WriterModel {
    WriterModel {
        out: s.out + indent_text(s),
        newline: if s.mode is FullyPretty {
            true
        } else {
            s.newline
        },
        ..s
    }
}

/// Marking the innermost open element as having children.
pub open spec fn mark_top_has_children(st: Seq<(Seq<char>, bool)>) -> Seq<(Seq<char>, bool)> {
    if st.len() == 0 {
        st
    } else {
        st.update(st.len() - 1, (st.last().0, true))
    }
}

/// Opening an element: terminate any pending tag (a child is arriving,
/// so it never self-closes), mark the parent as having children, indent
/// at the depth before the push, write `<`, the current prefix and the
/// name, and push the frame and the captured namespace.  The new tag is
/// left pending.
pub open spec fn spec_begin_elem(s: WriterModel, name: Seq<char>) -> WriterModel {
    let s1 = spec_close_elem(WriterModel { children: true, ..s });
    let s2 = WriterModel { stack: mark_top_has_children(s1.stack), ..s1 };
    let s3 = spec_indent(s2);
    WriterModel {
        out: s3.out + "<"@ + ns_prefix_text(s.namespace) + name,
        stack: s3.stack.push((name, false)),
        ns_stack: s3.ns_stack.push(s.namespace),
        opened: true,
        children: false,
        ..s3
    }
}

/// Closing the innermost element: terminate any pending tag, pop both
/// stacks, and emit the closing tag with the namespace prefix captured
/// when the element was opened.  In `FullyPretty` mode a childless
/// element was already self-closed, so nothing more is written; an
/// element with children gets its closing tag on its own indented line.
///
/// Meaningful only when the stack is nonempty (the writer requires it).
pub open spec fn spec_end_elem(s: WriterModel) -> WriterModel {
    let s1 = spec_close_elem(s);
    if s1.stack.len() == 0 {
        s1
    } else {
        let name = s1.stack.last().0;
        let had_children = s1.stack.last().1;
        let ns = s1.ns_stack.last();
        let popped = WriterModel {
            stack: s1.stack.drop_last(),
            ns_stack: s1.ns_stack.drop_last(),
            ..s1
        };
        if s.mode is FullyPretty {
            if had_children {
                let s2 = spec_indent(popped);
                WriterModel { out: s2.out + "</"@ + ns_prefix_text(ns) + name + ">"@, ..s2 }
            } else {
                popped
            }
        } else {
            WriterModel { out: popped.out + "</"@ + ns_prefix_text(ns) + name + ">"@, ..popped }
        }
    }
}

/// A self-closing element `<name/>`: an appended child like any other,
/// so the pending parent tag is terminated with `>` and the parent
/// frame is marked as having children; then the tag is written at the
/// current indentation.  No frame is pushed or popped.  Semantically
/// identical to [`spec_empty_elem`]; the two calls are distinct only
/// for API symmetry.
pub open spec fn spec_elem(s: WriterModel, name: Seq<char>) -> WriterModel {
    spec_empty_elem(s, name)
}

/// A self-closing element: the pending parent tag is terminated with
/// `>` (a child is arriving) and the parent frame is marked as having
/// children.
pub open spec fn spec_empty_elem(s: WriterModel, name: Seq<char>) -> WriterModel {
    let s1 = spec_close_elem(WriterModel { children: true, ..s });
    let s2 = WriterModel { stack: mark_top_has_children(s1.stack), children: false, ..s1 };
    let s3 = spec_indent(s2);
    WriterModel { out: s3.out + "<"@ + ns_prefix_text(s.namespace) + name + "/>"@, ..s3 }
}

/// An element with inline escaped text, `<ns:name>text</name>`.  An
/// appended child like any other: the pending parent tag is terminated
/// with `>` and the parent frame is marked as having children.  No
/// frame is pushed or popped, and the closing tag carries no namespace
/// prefix.
pub open spec fn spec_elem_text(s: WriterModel, name: Seq<char>, text: Seq<char>) -> WriterModel {
    let s1 = spec_close_elem(WriterModel { children: true, ..s });
    let s2 = WriterModel { stack: mark_top_has_children(s1.stack), children: false, ..s1 };
    let s3 = spec_indent(s2);
    WriterModel {
        out: s3.out + "<"@ + ns_prefix_text(s.namespace) + name + ">"@ + escaped(text, false)
            + "</"@ + name + ">"@,
        ..s3
    }
}

/// Escaped character data: terminates the pending tag (as a child, so
/// the parent never self-closes), marks the parent, indents only in
/// `FullyPretty` mode, and writes the escaped text.
pub open spec fn spec_text(s: WriterModel, text: Seq<char>) -> WriterModel {
    let s1 = spec_close_elem(WriterModel { children: true, ..s });
    let s2 = WriterModel { stack: mark_top_has_children(s1.stack), children: false, ..s1 };
    let s3 = if s.mode is FullyPretty {
        spec_indent(s2)
    } else {
        s2
    };
    WriterModel { out: s3.out + escaped(text, false), ..s3 }
}

/// A CDATA section with raw, unescaped content.
pub open spec fn spec_cdata(s: WriterModel, text: Seq<char>) -> WriterModel {
    let s1 = spec_close_elem(WriterModel { children: true, ..s });
    let s2 = WriterModel { stack: mark_top_has_children(s1.stack), children: false, ..s1 };
    let s3 = if s.mode is FullyPretty {
        spec_indent(s2)
    } else {
        s2
    };
    WriterModel { out: s3.out + "<![CDATA["@ + text + "]]>"@, ..s3 }
}

/// A comment with escaped content; comments get positional indentation
/// in every non-compact mode.
pub open spec fn spec_comment(s: WriterModel, text: Seq<char>) -> WriterModel {
    let s1 = spec_close_elem(WriterModel { children: true, ..s });
    let s2 = WriterModel { stack: mark_top_has_children(s1.stack), children: false, ..s1 };
    let s3 = spec_indent(s2);
    WriterModel { out: s3.out + "<!-- "@ + escaped(text, false) + " -->"@, ..s3 }
}

/// One raw attribute ` name="value"` inside a pending start tag.
pub open spec fn attr_text(name: Seq<char>, value: Seq<char>) -> Seq<char> {
    " "@ + name + "=\""@ + value + "\""@
}

/// A raw attribute: appended verbatim, no state change.
pub open spec fn spec_attr(s: WriterModel, name: Seq<char>, value: Seq<char>) -> WriterModel {
    WriterModel { out: s.out + attr_text(name, value), ..s }
}

/// An escaped attribute: the name is escaped as an identifier (backslash
/// doubled), the value as text.
pub open spec fn spec_attr_esc(s: WriterModel, name: Seq<char>, value: Seq<char>) -> WriterModel {
    WriterModel { out: s.out + attr_text(escaped(name, true), escaped(value, false)), ..s }
}

/// The attribute name a namespace declaration uses: `xmlns:prefix`, or
/// plain `xmlns` for the default namespace.
pub open spec fn xmlns_attr_name(prefix: Option<Seq<char>>) -> Seq<char> {
    match prefix {
        Some(p) => "xmlns:"@ + p,
        None => "xmlns"@,
    }
}

/// The raw attributes a sequence of namespace declarations emits.
pub open spec fn ns_decl_text(pairs: Seq<(Option<Seq<char>>, Seq<char>)>) -> Seq<char>
    decreases pairs.len(),
{
    if pairs.len() == 0 {
        Seq::empty()
    } else {
        ns_decl_text(pairs.drop_last()) + attr_text(
            xmlns_attr_name(pairs.last().0),
            pairs.last().1,
        )
    }
}

/// Namespace declarations: one raw attribute per pair, no state change.
pub open spec fn spec_ns_decl(s: WriterModel, pairs: Seq<(Option<Seq<char>>, Seq<char>)>) -> WriterModel {
    WriterModel { out: s.out + ns_decl_text(pairs), ..s }
}

/// The literal XML declaration line for `encoding`, unescaped.
pub open spec fn dtd_text(encoding: Seq<char>) -> Seq<char> {
    "<?xml version=\"1.0\" encoding=\""@ + encoding + "\" ?>\n"@
}

/// The declaration: a literal line, no state interaction.
pub open spec fn spec_dtd(s: WriterModel, encoding: Seq<char>) -> WriterModel {
    WriterModel { out: s.out + dtd_text(encoding), ..s }
}

/// A raw write: the text appended verbatim, no state change.
pub open spec fn spec_write(s: WriterModel, text: Seq<char>) -> WriterModel {
    WriterModel { out: s.out + text, ..s }
}

/// Switching the output mode; already-written output is untouched.
pub open spec fn spec_set_mode(s: WriterModel, mode: Mode) -> WriterModel {
    WriterModel { mode: mode, ..s }
}

/// Closing every element still open, innermost first.
pub open spec fn spec_close(s: WriterModel) -> WriterModel
    decreases s.stack.len(),
{
    if s.stack.len() == 0 {
        s
    } else {
        spec_close(spec_end_elem(s))
    }
}

} // verus!
