//! Escaping of text for element content and attribute values.
//!
//! The four reserved characters `&`, `<`, `>` and `"` are replaced by their
//! entities; every other character stands for itself. The same replacements
//! are made in element content and in attribute values, once, when a node is
//! rendered. The specification is `escape`; `escape_html`, `write_escaped`
//! and `push_escaped` compute it.
use vstd::prelude::*;

verus! {

/// The characters that are replaced when text is escaped.
pub open spec fn is_reserved(c: char) -> bool {
    c == '&' || c == '<' || c == '>' || c == '"'
}

/// The characters that open or close a tag or an attribute value.
pub open spec fn is_markup(c: char) -> bool {
    c == '<' || c == '>' || c == '"'
}

/// What stands in the output for one character of text.
pub open spec fn escape_char(c: char) -> Seq<char> {
    if c == '&' {
        "&amp;"@
    } else if c == '<' {
        "&lt;"@
    } else if c == '>' {
        "&gt;"@
    } else if c == '"' {
        "&quot;"@
    } else {
        seq![c]
    }
}

/// The escaped form of a text: each character replaced by `escape_char`,
/// in order.
pub open spec fn escape(text: Seq<char>) -> Seq<char>
    decreases text.len(),
{
    if text.len() == 0 {
        Seq::empty()
    } else {
        escape_char(text[0]) + escape(text.drop_first())
    }
}

/// One of the four entities begins at position `i` of `s`.
pub open spec fn entity_at(s: Seq<char>, i: int) -> bool {
    ||| (i + 5 <= s.len() && s.subrange(i, i + 5) == "&amp;"@)
    ||| (i + 4 <= s.len() && s.subrange(i, i + 4) == "&lt;"@)
    ||| (i + 4 <= s.len() && s.subrange(i, i + 4) == "&gt;"@)
    ||| (i + 6 <= s.len() && s.subrange(i, i + 6) == "&quot;"@)
}

/// The characters of the four entities.
pub proof fn lemma_entities()
    ensures
        "&amp;"@ == seq!['&', 'a', 'm', 'p', ';'],
        "&lt;"@ == seq!['&', 'l', 't', ';'],
        "&gt;"@ == seq!['&', 'g', 't', ';'],
        "&quot;"@ == seq!['&', 'q', 'u', 'o', 't', ';'],
{
    reveal_strlit("&amp;");
    reveal_strlit("&lt;");
    reveal_strlit("&gt;");
    reveal_strlit("&quot;");
    assert("&amp;"@ =~= seq!['&', 'a', 'm', 'p', ';']);
    assert("&lt;"@ =~= seq!['&', 'l', 't', ';']);
    assert("&gt;"@ =~= seq!['&', 'g', 't', ';']);
    assert("&quot;"@ =~= seq!['&', 'q', 'u', 'o', 't', ';']);
}

/// Escaping a concatenation is the concatenation of the escaped parts.
pub proof fn lemma_escape_concat(a: Seq<char>, b: Seq<char>)
    ensures
        escape(a + b) == escape(a) + escape(b),
    decreases a.len(),
{
    if a.len() == 0 {
        assert(a + b =~= b);
    } else {
        lemma_escape_concat(a.drop_first(), b);
        assert((a + b).drop_first() =~= a.drop_first() + b);
        assert((a + b)[0] == a[0]);
    }
}

/// Escaping a text that ends in `c` appends the replacement of `c`.
pub proof fn lemma_escape_push(text: Seq<char>, c: char)
    ensures
        escape(text.push(c)) == escape(text) + escape_char(c),
{
    assert(escape(seq![c]) =~= escape_char(c)) by {
        reveal_with_fuel(escape, 2);
    }
    lemma_escape_concat(text, seq![c]);
    assert(text.push(c) =~= text + seq![c]);
}

/// Escaped text holds no `<`, no `>` and no `"`, whatever the text was.
pub proof fn lemma_escape_no_markup(text: Seq<char>)
    ensures
        forall|i: int| 0 <= i < escape(text).len() ==> !is_markup(#[trigger] escape(text)[i]),
    decreases text.len(),
{
    if text.len() > 0 {
        lemma_entities();
        lemma_escape_no_markup(text.drop_first());
        let head = escape_char(text[0]);
        let tail = escape(text.drop_first());
        assert forall|i: int| 0 <= i < escape(text).len() implies !is_markup(
            #[trigger] escape(text)[i],
        ) by {
            if i < head.len() {
                assert(escape(text)[i] == head[i]);
            } else {
                assert(escape(text)[i] == tail[i - head.len()]);
            }
        }
    }
}

/// Every `&` of escaped text is the first character of an entity.
pub proof fn lemma_escape_ampersand(text: Seq<char>, i: int)
    requires
        0 <= i < escape(text).len(),
        escape(text)[i] == '&',
    ensures
        entity_at(escape(text), i),
    decreases text.len(),
{
    lemma_entities();
    let head = escape_char(text[0]);
    let tail = escape(text.drop_first());
    let whole = escape(text);
    if i < head.len() {
        assert(i == 0);
        assert(whole.subrange(0, head.len() as int) =~= head);
    } else {
        let k = i - head.len();
        lemma_escape_ampersand(text.drop_first(), k);
        assert forall|n: int| 0 <= n && k + n <= tail.len() implies #[trigger] whole.subrange(
            i,
            i + n,
        ) == tail.subrange(k, k + n) by {
            assert(whole.subrange(i, i + n) =~= tail.subrange(k, k + n));
        }
        assert(whole.subrange(i, i + 4) == tail.subrange(k, k + 4) || k + 4 > tail.len());
        assert(whole.subrange(i, i + 5) == tail.subrange(k, k + 5) || k + 5 > tail.len());
        assert(whole.subrange(i, i + 6) == tail.subrange(k, k + 6) || k + 6 > tail.len());
    }
}

/// Text without reserved characters is its own escaped form.
pub proof fn lemma_escape_plain(text: Seq<char>)
    requires
        forall|i: int| 0 <= i < text.len() ==> !is_reserved(#[trigger] text[i]),
    ensures
        escape(text) == text,
    decreases text.len(),
{
    if text.len() > 0 {
        lemma_escape_plain(text.drop_first());
        assert(seq![text[0]] + text.drop_first() =~= text);
    }
}

/// Different texts have different escaped forms.
pub proof fn lemma_escape_injective(a: Seq<char>, b: Seq<char>)
    requires
        escape(a) == escape(b),
    ensures
        a == b,
    decreases a.len(),
{
    lemma_entities();
    if a.len() == 0 {
        if b.len() > 0 {
            assert(escape(b).len() >= escape_char(b[0]).len());
        }
    } else if b.len() == 0 {
        assert(escape(a).len() >= escape_char(a[0]).len());
    } else {
        let ha = escape_char(a[0]);
        let hb = escape_char(b[0]);
        let ta = escape(a.drop_first());
        let tb = escape(b.drop_first());
        assert(escape(a)[0] == ha[0]);
        assert(escape(b)[0] == hb[0]);
        assert(is_reserved(a[0]) == is_reserved(b[0]));
        if is_reserved(a[0]) {
            assert(escape(a)[1] == ha[1]);
            assert(escape(b)[1] == hb[1]);
        }
        assert(a[0] == b[0]);
        assert(ta =~= tb) by {
            assert(ta =~= escape(a).subrange(ha.len() as int, escape(a).len() as int));
            assert(tb =~= escape(b).subrange(hb.len() as int, escape(b).len() as int));
        }
        lemma_escape_injective(a.drop_first(), b.drop_first());
        assert(a =~= seq![a[0]] + a.drop_first());
        assert(b =~= seq![b[0]] + b.drop_first());
    }
}

/// `String::push` of the standard library: afterwards the string holds the
/// characters it held before, followed by `c`.
pub assume_specification[ String::push ](s: &mut String, c: char)
    ensures
        final(s)@ == old(s)@.push(c),
;

/// Appends the escaped form of `c` to `out`.
pub fn push_escaped(out: &mut String, c: char)
    ensures
        final(out)@ == old(out)@ + escape_char(c),
{
    if c == '&' {
        out.append("&amp;");
    } else if c == '<' {
        out.append("&lt;");
    } else if c == '>' {
        out.append("&gt;");
    } else if c == '"' {
        out.append("&quot;");
    } else {
        out.push(c);
    }
}

/// Appends the escaped form of `text` to `out`.
pub fn write_escaped(out: &mut String, text: &str)
    ensures
        final(out)@ == old(out)@ + escape(text@),
{
    broadcast use vstd::string::axiom_spec_iter;

    let ghost before = out@;
    assert(text@.take(0) =~= Seq::<char>::empty());
    for c in it: text.chars()
        invariant
            it.seq() == text@,
            out@ == before + escape(text@.take(it.index())),
    {
        proof {
            let i = it.index();
            lemma_escape_push(text@.take(i), c);
            assert(text@.take(i + 1) =~= text@.take(i).push(c));
        }
        push_escaped(out, c);
    }
    assert(text@.take(text@.len() as int) =~= text@);
}

/// The escaped form of `text`, as a new string.
pub fn escape_html(text: &str) -> (escaped: String)
    ensures
        escaped@ == escape(text@),
{
    let mut escaped = String::new();
    write_escaped(&mut escaped, text);
    escaped
}

} // verus!
