//! Laws the writer obeys, proved against the model's transitions.
//!
//! [`XOp`] is one writer operation with its arguments, [`apply_op`] is
//! the step the corresponding method takes (as its `ensures` states),
//! and [`run`] folds a whole call sequence.  The proof functions below
//! state the global guarantees: balanced call sequences leave the
//! element stack empty, compact output gains no newlines, pretty
//! indentation is two spaces per level, childless elements self-close
//! in fully pretty mode, escaping substitutes exactly the named
//! entities, and closing tags reuse the namespace captured at open
//! time.

use vstd::prelude::*;

use crate::model::{
    attr_text, close_tag_text, escape_char, escaped, indent_text, mark_top_has_children,
    ns_decl_text, ns_prefix_text, spaces, xmlns_attr_name, spec_attr, spec_attr_esc, spec_begin_elem, spec_cdata,
    spec_close_elem, spec_comment, spec_dtd, spec_elem, spec_elem_text, spec_empty_elem,
    spec_end_elem, spec_ns_decl, spec_set_mode, spec_text, spec_write, wf, Mode, WriterModel,
};

verus! {

/// One operation of the writer, with its arguments.  Setting the
/// namespace (the `set_namespace` call, or an assignment to the public
/// field) is an operation of its own.
pub enum XOp {
    Dtd(Seq<char>),
    BeginElem(Seq<char>),
    EndElem,
    Elem(Seq<char>),
    EmptyElem(Seq<char>),
    ElemText(Seq<char>, Seq<char>),
    Attr(Seq<char>, Seq<char>),
    AttrEsc(Seq<char>, Seq<char>),
    Text(Seq<char>),
    Cdata(Seq<char>),
    Comment(Seq<char>),
    NsDecl(Seq<(Option<Seq<char>>, Seq<char>)>),
    Raw(Seq<char>),
    SetMode(Mode),
    SetNamespace(Option<Seq<char>>),
}

/// The step one operation takes: exactly the transition that the
/// corresponding writer method's `ensures` states.
pub open spec fn apply_op(s: WriterModel, op: XOp) -> WriterModel {
    match op {
        XOp::Dtd(e) => spec_dtd(s, e),
        XOp::BeginElem(n) => spec_begin_elem(s, n),
        XOp::EndElem => spec_end_elem(s),
        XOp::Elem(n) => spec_elem(s, n),
        XOp::EmptyElem(n) => spec_empty_elem(s, n),
        XOp::ElemText(n, t) => spec_elem_text(s, n, t),
        XOp::Attr(n, v) => spec_attr(s, n, v),
        XOp::AttrEsc(n, v) => spec_attr_esc(s, n, v),
        XOp::Text(t) => spec_text(s, t),
        XOp::Cdata(t) => spec_cdata(s, t),
        XOp::Comment(t) => spec_comment(s, t),
        XOp::NsDecl(ps) => spec_ns_decl(s, ps),
        XOp::Raw(t) => spec_write(s, t),
        XOp::SetMode(m) => spec_set_mode(s, m),
        XOp::SetNamespace(ns) => WriterModel { namespace: ns, ..s },
    }
}

/// Folding a whole call sequence over a starting state.
pub open spec fn run(s: WriterModel, ops: Seq<XOp>) -> WriterModel
    decreases ops.len(),
{
    if ops.len() == 0 {
        s
    } else {
        run(apply_op(s, ops.first()), ops.drop_first())
    }
}

/// How one operation changes the nesting depth: `begin_elem` pushes
/// one frame, `end_elem` pops one, nothing else touches the stack.
pub open spec fn stack_effect(op: XOp) -> int {
    match op {
        XOp::BeginElem(_) => 1,
        XOp::EndElem => -1,
        _ => 0,
    }
}

/// The net depth change of a call sequence.
pub open spec fn net_effect(ops: Seq<XOp>) -> int
    decreases ops.len(),
{
    if ops.len() == 0 {
        0
    } else {
        stack_effect(ops.first()) + net_effect(ops.drop_first())
    }
}

/// A call sequence is well balanced when every `begin_elem` is matched
/// by exactly one later `end_elem`: no prefix closes more elements than
/// it opened, and over the whole sequence the counts agree.
pub open spec fn balanced(ops: Seq<XOp>) -> bool {
    net_effect(ops) == 0 && forall|i: int|
        0 <= i <= ops.len() ==> net_effect(#[trigger] ops.take(i)) >= 0
}

proof fn lemma_net_effect_push(ops: Seq<XOp>, op: XOp)
    ensures
        net_effect(ops.push(op)) == net_effect(ops) + stack_effect(op),
    decreases ops.len(),
{
    assert(ops.push(op).first() == if ops.len() == 0 { op } else { ops.first() });
    assert(net_effect(ops.push(op)) == stack_effect(ops.push(op).first()) + net_effect(
        ops.push(op).drop_first(),
    ));
    if ops.len() == 0 {
        assert(ops.push(op).drop_first() =~= Seq::<XOp>::empty());
        assert(net_effect(Seq::<XOp>::empty()) == 0);
    } else {
        assert(ops.push(op).drop_first() =~= ops.drop_first().push(op));
        lemma_net_effect_push(ops.drop_first(), op);
        assert(net_effect(ops) == stack_effect(ops.first()) + net_effect(ops.drop_first()));
    }
}

/// One operation moves the depth by its stack effect, provided
/// `end_elem`'s precondition (a nonempty stack) holds.
proof fn lemma_apply_op_stack_len(s: WriterModel, op: XOp)
    requires
        op is EndElem ==> s.stack.len() > 0,
    ensures
        apply_op(s, op).stack.len() == s.stack.len() + stack_effect(op),
{
}

/// Running a sequence whose `end_elem`s never meet an empty stack moves
/// the depth by the sequence's net effect.
proof fn lemma_run_stack_len(s: WriterModel, ops: Seq<XOp>)
    requires
        forall|i: int|
            0 <= i < ops.len() && ops[i] is EndElem ==> s.stack.len() + net_effect(
                #[trigger] ops.take(i),
            ) > 0,
    ensures
        run(s, ops).stack.len() == s.stack.len() + net_effect(ops),
    decreases ops.len(),
{
    if ops.len() > 0 {
        let op = ops.first();
        let tail = ops.drop_first();
        let s1 = apply_op(s, op);
        assert(ops.take(0) =~= Seq::<XOp>::empty());
        if op is EndElem {
            assert(s.stack.len() + net_effect(ops.take(0)) > 0);
        }
        lemma_apply_op_stack_len(s, op);
        assert forall|i: int|
            0 <= i < tail.len() && tail[i] is EndElem implies s1.stack.len() + net_effect(
            #[trigger] tail.take(i),
        ) > 0 by {
            assert(ops.take(i + 1).first() == op);
            assert(ops.take(i + 1).drop_first() =~= tail.take(i));
            assert(net_effect(ops.take(i + 1)) == stack_effect(op) + net_effect(tail.take(i)));
            assert(ops[i + 1] == tail[i]);
            assert(s.stack.len() + net_effect(ops.take(i + 1)) > 0);
        }
        lemma_run_stack_len(s1, tail);
    }
}

/// Law: a well-balanced call sequence leaves the element stack exactly
/// as deep as it found it; started on an empty stack, it ends on an
/// empty stack (and `end_elem`'s precondition held throughout).
/// That `close` on an already-empty stack is a no-op is part of the
/// contract of [`crate::XmlWriter::close`].
pub proof fn lemma_balanced_sequence_leaves_stack_empty(s: WriterModel, ops: Seq<XOp>)
    requires
        s.stack.len() == 0,
        balanced(ops),
    ensures
        run(s, ops).stack.len() == 0,
{
    assert forall|i: int|
        0 <= i < ops.len() && ops[i] is EndElem implies s.stack.len() + net_effect(
        #[trigger] ops.take(i),
    ) > 0 by {
        assert(ops.take(i + 1) =~= ops.take(i).push(ops[i]));
        lemma_net_effect_push(ops.take(i), ops[i]);
        assert(net_effect(ops.take(i + 1)) >= 0);
    }
    lemma_run_stack_len(s, ops);
}

/// No character of `t` is a newline.
pub open spec fn newline_free(t: Seq<char>) -> bool {
    forall|i: int| 0 <= i < t.len() ==> t[i] != '\n'
}

/// An optional prefix contains no newline.
pub open spec fn opt_newline_free(o: Option<Seq<char>>) -> bool {
    match o {
        Some(p) => newline_free(p),
        None => true,
    }
}

/// No namespace-declaration pair contains a newline.
pub open spec fn pairs_newline_free(ps: Seq<(Option<Seq<char>>, Seq<char>)>) -> bool {
    forall|i: int|
        0 <= i < ps.len() ==> opt_newline_free(#[trigger] ps[i].0) && newline_free(ps[i].1)
}

/// Every string a state may still write is newline-free: the output so
/// far, the open element names, the captured prefixes, and the current
/// namespace.
pub open spec fn state_newline_free(s: WriterModel) -> bool {
    &&& newline_free(s.out)
    &&& forall|i: int| 0 <= i < s.stack.len() ==> newline_free((#[trigger] s.stack[i]).0)
    &&& forall|i: int| 0 <= i < s.ns_stack.len() ==> opt_newline_free(#[trigger] s.ns_stack[i])
    &&& opt_newline_free(s.namespace)
}

/// An operation that keeps compact output free of newlines: its
/// arguments contain none, it is not the declaration (whose line ends
/// with a literal newline in every mode), and it does not leave compact
/// mode.
pub open spec fn compact_op(op: XOp) -> bool {
    match op {
        XOp::Dtd(_) => false,
        XOp::BeginElem(n) => newline_free(n),
        XOp::EndElem => true,
        XOp::Elem(n) => newline_free(n),
        XOp::EmptyElem(n) => newline_free(n),
        XOp::ElemText(n, t) => newline_free(n) && newline_free(t),
        XOp::Attr(n, v) => newline_free(n) && newline_free(v),
        XOp::AttrEsc(n, v) => newline_free(n) && newline_free(v),
        XOp::Text(t) => newline_free(t),
        XOp::Cdata(t) => newline_free(t),
        XOp::Comment(t) => newline_free(t),
        XOp::NsDecl(ps) => pairs_newline_free(ps),
        XOp::Raw(t) => newline_free(t),
        XOp::SetMode(m) => m is Compact,
        XOp::SetNamespace(ns) => opt_newline_free(ns),
    }
}

proof fn lemma_nf_concat(a: Seq<char>, b: Seq<char>)
    requires
        newline_free(a),
        newline_free(b),
    ensures
        newline_free(a + b),
{
    assert forall|i: int| 0 <= i < (a + b).len() implies (a + b)[i] != '\n' by {
        if i < a.len() {
            assert((a + b)[i] == a[i]);
        } else {
            assert((a + b)[i] == b[i - a.len()]);
        }
    }
}

proof fn lemma_token_literals_newline_free()
    ensures
        newline_free("<"@),
        newline_free(">"@),
        newline_free("/>"@),
        newline_free("</"@),
        newline_free(" "@),
        newline_free("=\""@),
        newline_free("\""@),
        newline_free(":"@),
        newline_free("<![CDATA["@),
        newline_free("]]>"@),
        newline_free("<!-- "@),
        newline_free(" -->"@),
        newline_free("xmlns"@),
        newline_free("xmlns:"@),
        newline_free("&quot;"@),
        newline_free("&apos;"@),
        newline_free("&amp;"@),
        newline_free("&lt;"@),
        newline_free("&gt;"@),
        newline_free("\\\\"@),
{
    reveal_strlit("<");
    reveal_strlit(">");
    reveal_strlit("/>");
    reveal_strlit("</");
    reveal_strlit(" ");
    reveal_strlit("=\"");
    reveal_strlit("\"");
    reveal_strlit(":");
    reveal_strlit("<![CDATA[");
    reveal_strlit("]]>");
    reveal_strlit("<!-- ");
    reveal_strlit(" -->");
    reveal_strlit("xmlns");
    reveal_strlit("xmlns:");
    reveal_strlit("&quot;");
    reveal_strlit("&apos;");
    reveal_strlit("&amp;");
    reveal_strlit("&lt;");
    reveal_strlit("&gt;");
    reveal_strlit("\\\\");
}

/// Escaping never introduces a newline.
proof fn lemma_escaped_newline_free(t: Seq<char>, ident: bool)
    requires
        newline_free(t),
    ensures
        newline_free(escaped(t, ident)),
    decreases t.len(),
{
    lemma_token_literals_newline_free();
    if t.len() > 0 {
        assert(newline_free(t.drop_last()));
        lemma_escaped_newline_free(t.drop_last(), ident);
        assert(t.last() != '\n');
        assert(newline_free(escape_char(t.last(), ident)));
        lemma_nf_concat(escaped(t.drop_last(), ident), escape_char(t.last(), ident));
    }
}

proof fn lemma_ns_prefix_text_nf(ns: Option<Seq<char>>)
    requires
        opt_newline_free(ns),
    ensures
        newline_free(ns_prefix_text(ns)),
{
    lemma_token_literals_newline_free();
    match ns {
        Some(p) => lemma_nf_concat(p, ":"@),
        None => (),
    }
}

proof fn lemma_attr_text_nf(n: Seq<char>, v: Seq<char>)
    requires
        newline_free(n),
        newline_free(v),
    ensures
        newline_free(attr_text(n, v)),
{
    lemma_token_literals_newline_free();
    lemma_nf_concat(" "@, n);
    lemma_nf_concat(" "@ + n, "=\""@);
    lemma_nf_concat(" "@ + n + "=\""@, v);
    lemma_nf_concat(" "@ + n + "=\""@ + v, "\""@);
}

proof fn lemma_ns_decl_text_nf(ps: Seq<(Option<Seq<char>>, Seq<char>)>)
    requires
        pairs_newline_free(ps),
    ensures
        newline_free(ns_decl_text(ps)),
    decreases ps.len(),
{
    lemma_token_literals_newline_free();
    if ps.len() > 0 {
        assert(pairs_newline_free(ps.drop_last()));
        lemma_ns_decl_text_nf(ps.drop_last());
        let name = xmlns_attr_name(ps.last().0);
        assert(newline_free(name)) by {
            match ps.last().0 {
                Some(p) => lemma_nf_concat("xmlns:"@, p),
                None => (),
            }
        }
        lemma_attr_text_nf(name, ps.last().1);
        lemma_nf_concat(ns_decl_text(ps.drop_last()), attr_text(name, ps.last().1));
    }
}

/// Law: in compact mode positional indentation emits nothing at all.
pub proof fn lemma_compact_indent_empty(s: WriterModel)
    requires
        s.mode is Compact,
    ensures
        indent_text(s) == Seq::<char>::empty(),
{
}

/// Law: in compact mode one operation with newline-free arguments adds
/// no newline to the output, at any nesting depth, and leaves the state
/// fit for the next operation.
pub proof fn lemma_compact_step_newline_free(s: WriterModel, op: XOp)
    requires
        wf(s),
        s.mode is Compact,
        state_newline_free(s),
        compact_op(op),
    ensures
        wf(apply_op(s, op)),
        state_newline_free(apply_op(s, op)),
        apply_op(s, op).mode is Compact,
{
    lemma_token_literals_newline_free();
    let r = apply_op(s, op);
    assert(newline_free(close_tag_text(s)));
    assert(newline_free(close_tag_text(WriterModel { children: true, ..s })));
    match op {
        XOp::Dtd(_) => {
            assert(false);
        },
        XOp::BeginElem(n) => {
            lemma_ns_prefix_text_nf(s.namespace);
            lemma_nf_concat(s.out, close_tag_text(WriterModel { children: true, ..s }));
            let o1 = s.out + close_tag_text(WriterModel { children: true, ..s });
            lemma_nf_concat(o1, Seq::<char>::empty());
            lemma_nf_concat(o1 + Seq::<char>::empty(), "<"@);
            lemma_nf_concat(o1 + Seq::<char>::empty() + "<"@, ns_prefix_text(s.namespace));
            lemma_nf_concat(o1 + Seq::<char>::empty() + "<"@ + ns_prefix_text(s.namespace), n);
            assert(r.out =~= o1 + Seq::<char>::empty() + "<"@ + ns_prefix_text(s.namespace) + n);
            assert forall|i: int| 0 <= i < r.stack.len() implies newline_free(
                (#[trigger] r.stack[i]).0,
            ) by {
                if i < s.stack.len() {
                    assert(r.stack[i].0 == s.stack[i].0);
                }
            }
        },
        XOp::EndElem => {
            if s.stack.len() > 0 {
                let s1 = spec_close_elem(s);
                lemma_nf_concat(s.out, close_tag_text(s));
                let name = s1.stack.last().0;
                let ns = s1.ns_stack.last();
                assert(newline_free(s.stack[s.stack.len() - 1].0));
                assert(opt_newline_free(s.ns_stack[s.ns_stack.len() - 1]));
                lemma_ns_prefix_text_nf(ns);
                lemma_nf_concat(s1.out, "</"@);
                lemma_nf_concat(s1.out + "</"@, ns_prefix_text(ns));
                lemma_nf_concat(s1.out + "</"@ + ns_prefix_text(ns), name);
                lemma_nf_concat(s1.out + "</"@ + ns_prefix_text(ns) + name, ">"@);
            } else {
                lemma_nf_concat(s.out, close_tag_text(s));
            }
        },
        XOp::Elem(n) => {
            lemma_ns_prefix_text_nf(s.namespace);
            lemma_nf_concat(s.out, close_tag_text(WriterModel { children: true, ..s }));
            let o1 = s.out + close_tag_text(WriterModel { children: true, ..s })
                + Seq::<char>::empty();
            lemma_nf_concat(
                s.out + close_tag_text(WriterModel { children: true, ..s }),
                Seq::<char>::empty(),
            );
            lemma_nf_concat(o1, "<"@);
            lemma_nf_concat(o1 + "<"@, ns_prefix_text(s.namespace));
            lemma_nf_concat(o1 + "<"@ + ns_prefix_text(s.namespace), n);
            lemma_nf_concat(o1 + "<"@ + ns_prefix_text(s.namespace) + n, "/>"@);
            assert forall|i: int| 0 <= i < r.stack.len() implies newline_free(
                (#[trigger] r.stack[i]).0,
            ) by {
                assert(r.stack[i].0 == s.stack[i].0);
            }
        },
        XOp::EmptyElem(n) => {
            lemma_ns_prefix_text_nf(s.namespace);
            lemma_nf_concat(s.out, close_tag_text(WriterModel { children: true, ..s }));
            let o1 = s.out + close_tag_text(WriterModel { children: true, ..s })
                + Seq::<char>::empty();
            lemma_nf_concat(
                s.out + close_tag_text(WriterModel { children: true, ..s }),
                Seq::<char>::empty(),
            );
            lemma_nf_concat(o1, "<"@);
            lemma_nf_concat(o1 + "<"@, ns_prefix_text(s.namespace));
            lemma_nf_concat(o1 + "<"@ + ns_prefix_text(s.namespace), n);
            lemma_nf_concat(o1 + "<"@ + ns_prefix_text(s.namespace) + n, "/>"@);
            assert forall|i: int| 0 <= i < r.stack.len() implies newline_free(
                (#[trigger] r.stack[i]).0,
            ) by {
                assert(r.stack[i].0 == s.stack[i].0);
            }
        },
        XOp::ElemText(n, t) => {
            lemma_ns_prefix_text_nf(s.namespace);
            lemma_escaped_newline_free(t, false);
            lemma_nf_concat(s.out, close_tag_text(WriterModel { children: true, ..s }));
            let o1 = s.out + close_tag_text(WriterModel { children: true, ..s })
                + Seq::<char>::empty();
            lemma_nf_concat(
                s.out + close_tag_text(WriterModel { children: true, ..s }),
                Seq::<char>::empty(),
            );
            lemma_nf_concat(o1, "<"@);
            lemma_nf_concat(o1 + "<"@, ns_prefix_text(s.namespace));
            lemma_nf_concat(o1 + "<"@ + ns_prefix_text(s.namespace), n);
            lemma_nf_concat(o1 + "<"@ + ns_prefix_text(s.namespace) + n, ">"@);
            let o2 = o1 + "<"@ + ns_prefix_text(s.namespace) + n + ">"@;
            lemma_nf_concat(o2, escaped(t, false));
            lemma_nf_concat(o2 + escaped(t, false), "</"@);
            lemma_nf_concat(o2 + escaped(t, false) + "</"@, n);
            lemma_nf_concat(o2 + escaped(t, false) + "</"@ + n, ">"@);
            assert forall|i: int| 0 <= i < r.stack.len() implies newline_free(
                (#[trigger] r.stack[i]).0,
            ) by {
                assert(r.stack[i].0 == s.stack[i].0);
            }
        },
        XOp::Attr(n, v) => {
            lemma_attr_text_nf(n, v);
            lemma_nf_concat(s.out, attr_text(n, v));
        },
        XOp::AttrEsc(n, v) => {
            lemma_escaped_newline_free(n, true);
            lemma_escaped_newline_free(v, false);
            lemma_attr_text_nf(escaped(n, true), escaped(v, false));
            lemma_nf_concat(s.out, attr_text(escaped(n, true), escaped(v, false)));
        },
        XOp::Text(t) => {
            lemma_escaped_newline_free(t, false);
            lemma_nf_concat(s.out, close_tag_text(WriterModel { children: true, ..s }));
            lemma_nf_concat(
                s.out + close_tag_text(WriterModel { children: true, ..s }),
                escaped(t, false),
            );
            assert forall|i: int| 0 <= i < r.stack.len() implies newline_free(
                (#[trigger] r.stack[i]).0,
            ) by {
                assert(r.stack[i].0 == s.stack[i].0);
            }
        },
        XOp::Cdata(t) => {
            lemma_nf_concat(s.out, close_tag_text(WriterModel { children: true, ..s }));
            let o1 = s.out + close_tag_text(WriterModel { children: true, ..s });
            lemma_nf_concat(o1, "<![CDATA["@);
            lemma_nf_concat(o1 + "<![CDATA["@, t);
            lemma_nf_concat(o1 + "<![CDATA["@ + t, "]]>"@);
            assert forall|i: int| 0 <= i < r.stack.len() implies newline_free(
                (#[trigger] r.stack[i]).0,
            ) by {
                assert(r.stack[i].0 == s.stack[i].0);
            }
        },
        XOp::Comment(t) => {
            lemma_escaped_newline_free(t, false);
            lemma_nf_concat(s.out, close_tag_text(WriterModel { children: true, ..s }));
            let o1 = s.out + close_tag_text(WriterModel { children: true, ..s })
                + Seq::<char>::empty();
            lemma_nf_concat(
                s.out + close_tag_text(WriterModel { children: true, ..s }),
                Seq::<char>::empty(),
            );
            lemma_nf_concat(o1, "<!-- "@);
            lemma_nf_concat(o1 + "<!-- "@, escaped(t, false));
            lemma_nf_concat(o1 + "<!-- "@ + escaped(t, false), " -->"@);
            assert forall|i: int| 0 <= i < r.stack.len() implies newline_free(
                (#[trigger] r.stack[i]).0,
            ) by {
                assert(r.stack[i].0 == s.stack[i].0);
            }
        },
        XOp::NsDecl(ps) => {
            lemma_ns_decl_text_nf(ps);
            lemma_nf_concat(s.out, ns_decl_text(ps));
        },
        XOp::Raw(t) => {
            lemma_nf_concat(s.out, t);
        },
        XOp::SetMode(_) => (),
        XOp::SetNamespace(_) => (),
    }
}

/// Law: compact-mode output contains no newline (and, by
/// [`lemma_compact_indent_empty`], no indentation), regardless of
/// nesting depth, over any whole call sequence whose arguments are
/// newline-free.
pub proof fn lemma_compact_run_newline_free(s: WriterModel, ops: Seq<XOp>)
    requires
        wf(s),
        s.mode is Compact,
        state_newline_free(s),
        forall|i: int| 0 <= i < ops.len() ==> compact_op(#[trigger] ops[i]),
    ensures
        newline_free(run(s, ops).out),
    decreases ops.len(),
{
    if ops.len() > 0 {
        lemma_compact_step_newline_free(s, ops.first());
        lemma_compact_run_newline_free(apply_op(s, ops.first()), ops.drop_first());
    }
}

/// Indentation is two spaces per level: `spaces(n)` has length `2 * n`
/// and every character is a space.
pub proof fn lemma_spaces(n: nat)
    ensures
        spaces(n).len() == 2 * n,
        forall|i: int| 0 <= i < spaces(n).len() ==> spaces(n)[i] == ' ',
    decreases n,
{
    reveal_strlit("  ");
    if n > 0 {
        lemma_spaces((n - 1) as nat);
    }
}

/// Law: in pretty mode an element opened at depth `n > 0` is preceded
/// by a newline and then exactly `2 * n` spaces; at the root there is
/// no leading newline at all.
pub proof fn lemma_pretty_open_tag_indentation(s: WriterModel, name: Seq<char>)
    requires
        s.mode is Pretty,
    ensures
        spec_begin_elem(s, name).out =~= s.out + close_tag_text(
            WriterModel { children: true, ..s },
        ) + (if s.stack.len() > 0 {
            seq!['\n'] + spaces(s.stack.len())
        } else {
            Seq::<char>::empty()
        }) + "<"@ + ns_prefix_text(s.namespace) + name,
        spaces(s.stack.len()).len() == 2 * s.stack.len(),
        forall|i: int| 0 <= i < 2 * s.stack.len() ==> spaces(s.stack.len())[i] == ' ',
{
    reveal_strlit("\n");
    lemma_spaces(s.stack.len());
    assert("\n"@ =~= seq!['\n']);
}

/// The shape every state has between calls: the stacks move in
/// lockstep, the transient arriving-child flag is clear, and a pending
/// start tag's own frame is still unmarked (its element cannot have
/// children before its tag is terminated).  A fresh writer is settled,
/// and by [`lemma_step_preserves_settled`] every operation keeps it so.
pub open spec fn settled(s: WriterModel) -> bool {
    &&& wf(s)
    &&& !s.children
    &&& (s.opened ==> s.stack.len() > 0 && s.stack.last().1 == false)
}

/// Law: every operation carries one settled state to another, provided
/// `end_elem`'s precondition (a nonempty stack) holds.
pub proof fn lemma_step_preserves_settled(s: WriterModel, op: XOp)
    requires
        settled(s),
        op is EndElem ==> s.stack.len() > 0,
    ensures
        settled(apply_op(s, op)),
{
}

/// Law: in fully pretty mode, ending an element whose frame is marked
/// as having children never self-closes it: from any settled state the
/// closing tag is written on its own line, indented to the element's
/// depth, with the namespace prefix captured when the element was
/// opened.  (In a settled state a marked frame's tag cannot still be
/// pending, so no tag-closing bytes precede it.)
pub proof fn lemma_fully_pretty_end_elem_of_marked_frame(s: WriterModel)
    requires
        settled(s),
        s.mode is FullyPretty,
        s.stack.len() > 0,
        s.stack.last().1 == true,
    ensures
        spec_end_elem(s).out =~= s.out + (if s.newline {
            "\n"@
        } else {
            Seq::<char>::empty()
        }) + spaces((s.stack.len() - 1) as nat) + "</"@ + ns_prefix_text(s.ns_stack.last())
            + s.stack.last().0 + ">"@,
        spec_end_elem(s).stack =~= s.stack.drop_last(),
{
    assert(!s.opened);
    assert(close_tag_text(s) =~= Seq::<char>::empty());
    assert(s.out + close_tag_text(s) =~= s.out);
}

/// Law: in fully pretty mode an element that gets no children renders
/// as a single self-closed tag — ending it adds only `/>` and emits no
/// separate closing tag.
pub proof fn lemma_fully_pretty_childless_self_closes(s: WriterModel, name: Seq<char>)
    requires
        s.mode is FullyPretty,
        wf(s),
    ensures
        ({
            let opened_st = spec_begin_elem(s, name);
            let closed_st = spec_end_elem(opened_st);
            closed_st.out =~= opened_st.out + "/>"@ && closed_st.stack =~= mark_top_has_children(
                s.stack,
            )
        }),
{
    let opened_st = spec_begin_elem(s, name);
    let closed_st = spec_end_elem(opened_st);
    assert(opened_st.stack.last() == (name, false));
    assert(closed_st.stack =~= mark_top_has_children(s.stack));
}

/// Law: in fully pretty mode an element with a child never self-closes:
/// its closing tag is written on its own line, indented to the
/// element's depth, and carries the namespace prefix that was current
/// when the element was opened — regardless of `mid_ns`, the namespace
/// set in the meantime.
pub proof fn lemma_fully_pretty_child_forces_closing_tag(
    s: WriterModel,
    name: Seq<char>,
    t: Seq<char>,
    mid_ns: Option<Seq<char>>,
)
    requires
        s.mode is FullyPretty,
        wf(s),
    ensures
        ({
            let s1 = spec_begin_elem(s, name);
            let s2 = WriterModel { namespace: mid_ns, ..spec_text(s1, t) };
            let s3 = spec_end_elem(s2);
            s3.out =~= s2.out + "\n"@ + spaces(s.stack.len()) + "</"@ + ns_prefix_text(s.namespace)
                + name + ">"@ && s3.stack =~= mark_top_has_children(s.stack)
        }),
{
    let s1 = spec_begin_elem(s, name);
    let s2 = WriterModel { namespace: mid_ns, ..spec_text(s1, t) };
    let s3 = spec_end_elem(s2);
    assert(s2.stack.last() == (name, true));
    assert(s2.ns_stack.last() == s.namespace);
    assert(s3.stack =~= mark_top_has_children(s.stack));
}

/// Law: in every mode other than fully pretty, the closing tag written
/// by `end_elem` uses the namespace prefix captured when the element
/// was opened, even if the writer's namespace was changed in between.
pub proof fn lemma_namespace_asymmetry(s: WriterModel, name: Seq<char>, mid_ns: Option<Seq<char>>)
    requires
        !(s.mode is FullyPretty),
        wf(s),
    ensures
        ({
            let s1 = spec_begin_elem(s, name);
            let s2 = WriterModel { namespace: mid_ns, ..s1 };
            let s3 = spec_end_elem(s2);
            s3.out =~= s1.out + ">"@ + "</"@ + ns_prefix_text(s.namespace) + name + ">"@
                && s3.stack =~= mark_top_has_children(s.stack)
        }),
{
    let s1 = spec_begin_elem(s, name);
    let s2 = WriterModel { namespace: mid_ns, ..s1 };
    let s3 = spec_end_elem(s2);
    assert(s2.stack.last() == (name, false));
    assert(s2.ns_stack.last() == s.namespace);
    assert(s3.stack =~= mark_top_has_children(s.stack));
}

/// Law: each special character escapes to its named entity, a
/// backslash doubles in identifier position only, and every other
/// character passes through unchanged.
pub proof fn lemma_escape_entities()
    ensures
        forall|ident: bool| escape_char('"', ident) == "&quot;"@,
        forall|ident: bool| escape_char('\'', ident) == "&apos;"@,
        forall|ident: bool| escape_char('&', ident) == "&amp;"@,
        forall|ident: bool| escape_char('<', ident) == "&lt;"@,
        forall|ident: bool| escape_char('>', ident) == "&gt;"@,
        escape_char('\\', true) == "\\\\"@,
        escape_char('\\', false) == seq!['\\'],
        forall|c: char, ident: bool|
            !(c == '"' || c == '\'' || c == '&' || c == '<' || c == '>' || (c == '\\' && ident))
                ==> #[trigger] escape_char(c, ident) == seq![c],
{
}

/// Escaping a single character yields exactly its substitution.
pub proof fn lemma_escaped_singleton(c: char, ident: bool)
    ensures
        escaped(seq![c], ident) == escape_char(c, ident),
{
    assert(seq![c].drop_last() =~= Seq::<char>::empty());
    assert(escaped(Seq::<char>::empty(), ident) =~= Seq::<char>::empty());
    assert(seq![c].last() == c);
    assert(Seq::<char>::empty() + escape_char(c, ident) =~= escape_char(c, ident));
}

/// Law: escaping distributes over concatenation, so a text is escaped
/// exactly character by character.
pub proof fn lemma_escaped_concat(a: Seq<char>, b: Seq<char>, ident: bool)
    ensures
        escaped(a + b, ident) == escaped(a, ident) + escaped(b, ident),
    decreases b.len(),
{
    if b.len() == 0 {
        assert(a + b =~= a);
        assert(escaped(a, ident) + escaped(b, ident) =~= escaped(a, ident));
    } else {
        assert((a + b).drop_last() =~= a + b.drop_last());
        assert((a + b).last() == b.last());
        lemma_escaped_concat(a, b.drop_last(), ident);
        assert(escaped(a, ident) + escaped(b.drop_last(), ident) + escape_char(b.last(), ident)
            =~= escaped(a, ident) + (escaped(b.drop_last(), ident) + escape_char(
            b.last(),
            ident,
        )));
        assert(escaped(b.drop_last(), ident) + escape_char(b.last(), ident) == escaped(b, ident));
    }
}

} // verus!
