//! The XML wire shape of the response records, as this library reads and
//! writes it: a root element holding either text or child elements, each
//! child holding either text or one further level of leaf elements.
//!
//! No attributes, no entities, no markup inside text: text runs to the
//! next `<`. An element with empty content reads as empty text.

use vstd::prelude::*;
use vstd::string::StrSliceExecFns;
use vstd::string::StringExecFns;

verus! {

/// The content of a child element: its text, or its own leaf children,
/// each a name with text.
pub ghost enum ItemBodyView {
    Text(Seq<char>),
    Pairs(Seq<(Seq<char>, Seq<char>)>),
}

/// One child element of a record.
pub ghost struct XmlItemView {
    pub name: Seq<char>,
    pub body: ItemBodyView,
}

/// The content of a root element: its text, or its child elements.
pub ghost enum DocBodyView {
    Text(Seq<char>),
    Items(Seq<XmlItemView>),
}

/// A whole response document: the root element's name and content.
pub ghost struct XmlDocView {
    pub name: Seq<char>,
    pub body: DocBodyView,
}

/// True for characters a tag name may hold.
pub open spec fn name_char(c: char) -> bool {
    c != '<' && c != '>' && c != '/'
}

/// A printable tag name: nonempty, of name characters.
pub open spec fn wf_name(n: Seq<char>) -> bool {
    n.len() >= 1 && forall|i: int| 0 <= i < n.len() ==> name_char(#[trigger] n[i])
}

/// True for characters element text may hold.
pub open spec fn text_char(c: char) -> bool {
    c != '<'
}

/// Printable element text: free of markup.
pub open spec fn wf_text(t: Seq<char>) -> bool {
    forall|i: int| 0 <= i < t.len() ==> text_char(#[trigger] t[i])
}

/// A printable leaf element.
pub open spec fn wf_pair(p: (Seq<char>, Seq<char>)) -> bool {
    wf_name(p.0) && wf_text(p.1)
}

/// A printable child element.
pub open spec fn wf_item(it: XmlItemView) -> bool {
    wf_name(it.name) && match it.body {
        ItemBodyView::Text(t) => wf_text(t),
        ItemBodyView::Pairs(ps) => ps.len() >= 1 && forall|i: int|
            0 <= i < ps.len() ==> wf_pair(#[trigger] ps[i]),
    }
}

/// A printable document.
pub open spec fn wf_doc(d: XmlDocView) -> bool {
    wf_name(d.name) && match d.body {
        DocBodyView::Text(t) => wf_text(t),
        DocBodyView::Items(items) => items.len() >= 1 && forall|i: int|
            0 <= i < items.len() ==> wf_item(#[trigger] items[i]),
    }
}

/// `inner` wrapped in an open and a close tag for `name`.
pub open spec fn print_tagged(name: Seq<char>, inner: Seq<char>) -> Seq<char> {
    seq!['<'] + name + seq!['>'] + inner + seq!['<', '/'] + name + seq!['>']
}

/// A printed leaf element.
pub open spec fn print_pair(p: (Seq<char>, Seq<char>)) -> Seq<char> {
    print_tagged(p.0, p.1)
}

/// Printed leaf elements, in order.
pub open spec fn print_pairs(ps: Seq<(Seq<char>, Seq<char>)>) -> Seq<char>
    decreases ps.len(),
{
    if ps.len() == 0 {
        Seq::empty()
    } else {
        print_pair(ps[0]) + print_pairs(ps.drop_first())
    }
}

/// A printed child element.
pub open spec fn print_item(it: XmlItemView) -> Seq<char> {
    match it.body {
        ItemBodyView::Text(t) => print_tagged(it.name, t),
        ItemBodyView::Pairs(ps) => print_tagged(it.name, print_pairs(ps)),
    }
}

/// Printed child elements, in order.
pub open spec fn print_items(items: Seq<XmlItemView>) -> Seq<char>
    decreases items.len(),
{
    if items.len() == 0 {
        Seq::empty()
    } else {
        print_item(items[0]) + print_items(items.drop_first())
    }
}

/// A printed document.
pub open spec fn print_doc(d: XmlDocView) -> Seq<char> {
    match d.body {
        DocBodyView::Text(t) => print_tagged(d.name, t),
        DocBodyView::Items(items) => print_tagged(d.name, print_items(items)),
    }
}

/// Where the run of name characters from `i` stops.
pub open spec fn name_end(s: Seq<char>, i: int) -> int
    decreases s.len() - i when 0 <= i <= s.len()
{
    if i < s.len() && name_char(s[i]) {
        name_end(s, i + 1)
    } else {
        i
    }
}

/// Where the run of text characters from `i` stops.
pub open spec fn text_end(s: Seq<char>, i: int) -> int
    decreases s.len() - i when 0 <= i <= s.len()
{
    if i < s.len() && text_char(s[i]) {
        text_end(s, i + 1)
    } else {
        i
    }
}

/// Reads one leaf element at `i`: its name and text, and where it ends.
pub open spec fn parse_pair(s: Seq<char>, i: int) -> Option<((Seq<char>, Seq<char>), int)> {
    if !(0 <= i && i < s.len() && s[i] == '<') {
        None
    } else {
        let ne = name_end(s, i + 1);
        let name = s.subrange(i + 1, ne);
        if !(name.len() >= 1 && ne < s.len() && s[ne] == '>') {
            None
        } else {
            let te = text_end(s, ne + 1);
            let text = s.subrange(ne + 1, te);
            if !(te + 1 < s.len() && s[te] == '<' && s[te + 1] == '/') {
                None
            } else {
                let ce = name_end(s, te + 2);
                let cname = s.subrange(te + 2, ce);
                if cname == name && ce < s.len() && s[ce] == '>' {
                    Some(((name, text), ce + 1))
                } else {
                    None
                }
            }
        }
    }
}

/// True where another element opens at `i`: a `<` not beginning a close
/// tag.
pub open spec fn opens_element(s: Seq<char>, i: int) -> bool {
    i < s.len() && s[i] == '<' && !(i + 1 < s.len() && s[i + 1] == '/')
}

/// Reads one or more leaf elements from `i`, as long as elements open.
pub open spec fn parse_pairs(s: Seq<char>, i: int) -> Option<
    (Seq<(Seq<char>, Seq<char>)>, int),
>
    decreases s.len() - i when 0 <= i <= s.len()
{
    match parse_pair(s, i) {
        None => None,
        Some((p, j)) => if !(i < j <= s.len()) {
            None
        } else if opens_element(s, j) {
            match parse_pairs(s, j) {
                None => None,
                Some((ps, k)) => Some((seq![p] + ps, k)),
            }
        } else {
            Some((seq![p], j))
        },
    }
}

/// Reads one child element at `i`: leaf children where an element opens
/// inside it, its text otherwise.
pub open spec fn parse_item(s: Seq<char>, i: int) -> Option<(XmlItemView, int)> {
    if !(0 <= i && i < s.len() && s[i] == '<') {
        None
    } else {
        let ne = name_end(s, i + 1);
        let name = s.subrange(i + 1, ne);
        if !(name.len() >= 1 && ne < s.len() && s[ne] == '>') {
            None
        } else {
            if opens_element(s, ne + 1) {
                match parse_pairs(s, ne + 1) {
                    None => None,
                    Some((ps, j)) => if !(j + 1 < s.len() && s[j] == '<' && s[j + 1] == '/') {
                        None
                    } else {
                        let ce = name_end(s, j + 2);
                        let cname = s.subrange(j + 2, ce);
                        if cname == name && ce < s.len() && s[ce] == '>' {
                            Some((XmlItemView { name, body: ItemBodyView::Pairs(ps) }, ce + 1))
                        } else {
                            None
                        }
                    },
                }
            } else {
                let te = text_end(s, ne + 1);
                let text = s.subrange(ne + 1, te);
                if !(te + 1 < s.len() && s[te] == '<' && s[te + 1] == '/') {
                    None
                } else {
                    let ce = name_end(s, te + 2);
                    let cname = s.subrange(te + 2, ce);
                    if cname == name && ce < s.len() && s[ce] == '>' {
                        Some((XmlItemView { name, body: ItemBodyView::Text(text) }, ce + 1))
                    } else {
                        None
                    }
                }
            }
        }
    }
}

/// Reads one or more child elements from `i`, as long as elements open.
pub open spec fn parse_items(s: Seq<char>, i: int) -> Option<(Seq<XmlItemView>, int)>
    decreases s.len() - i when 0 <= i <= s.len()
{
    match parse_item(s, i) {
        None => None,
        Some((it, j)) => if !(i < j <= s.len()) {
            None
        } else if opens_element(s, j) {
            match parse_items(s, j) {
                None => None,
                Some((items, k)) => Some((seq![it] + items, k)),
            }
        } else {
            Some((seq![it], j))
        },
    }
}

/// Reads a whole document: one root element spanning the entire input.
pub open spec fn parse_doc(s: Seq<char>) -> Option<XmlDocView> {
    if !(0 < s.len() && s[0] == '<') {
        None
    } else {
        let ne = name_end(s, 1);
        let name = s.subrange(1, ne);
        if !(name.len() >= 1 && ne < s.len() && s[ne] == '>') {
            None
        } else {
            if opens_element(s, ne + 1) {
                match parse_items(s, ne + 1) {
                    None => None,
                    Some((items, j)) => if !(j + 1 < s.len() && s[j] == '<' && s[j + 1] == '/') {
                        None
                    } else {
                        let ce = name_end(s, j + 2);
                        let cname = s.subrange(j + 2, ce);
                        if cname == name && ce + 1 == s.len() && s[ce] == '>' {
                            Some(XmlDocView { name, body: DocBodyView::Items(items) })
                        } else {
                            None
                        }
                    },
                }
            } else {
                let te = text_end(s, ne + 1);
                let text = s.subrange(ne + 1, te);
                if !(te + 1 < s.len() && s[te] == '<' && s[te + 1] == '/') {
                    None
                } else {
                    let ce = name_end(s, te + 2);
                    let cname = s.subrange(te + 2, ce);
                    if cname == name && ce + 1 == s.len() && s[ce] == '>' {
                        Some(XmlDocView { name, body: DocBodyView::Text(text) })
                    } else {
                        None
                    }
                }
            }
        }
    }
}

/// The scan of name characters stops exactly after a printed name: where
/// `n` of name characters sits at `i` and what follows is no name
/// character, the scan from `i` ends at `i + n.len()`.
pub proof fn lemma_name_end_at(s: Seq<char>, i: int, n: Seq<char>)
    requires
        0 <= i,
        i + n.len() <= s.len(),
        forall|k: int| 0 <= k < n.len() ==> name_char(#[trigger] n[k]),
        s.subrange(i, i + n.len()) == n,
        i + n.len() == s.len() || !name_char(s[i + n.len()]),
    ensures
        name_end(s, i) == i + n.len(),
    decreases n.len(),
{
    if n.len() == 0 {
    } else {
        assert(s[i] == n[0]);
        assert(s.subrange(i + 1, i + 1 + (n.len() - 1)) =~= n.drop_first());
        lemma_name_end_at(s, i + 1, n.drop_first());
    }
}

/// The scan of text characters stops exactly after printed text, in the
/// same way.
pub proof fn lemma_text_end_at(s: Seq<char>, i: int, t: Seq<char>)
    requires
        0 <= i,
        i + t.len() <= s.len(),
        forall|k: int| 0 <= k < t.len() ==> text_char(#[trigger] t[k]),
        s.subrange(i, i + t.len()) == t,
        i + t.len() == s.len() || !text_char(s[i + t.len()]),
    ensures
        text_end(s, i) == i + t.len(),
    decreases t.len(),
{
    if t.len() == 0 {
    } else {
        assert(s[i] == t[0]);
        assert(s.subrange(i + 1, i + 1 + (t.len() - 1)) =~= t.drop_first());
        lemma_text_end_at(s, i + 1, t.drop_first());
    }
}


/// One character of a region of `s` is the region content's character.
proof fn lemma_region_char(s: Seq<char>, i: int, w: Seq<char>, x: int)
    requires
        0 <= i,
        i + w.len() <= s.len(),
        s.subrange(i, i + w.len()) == w,
        0 <= x < w.len(),
    ensures
        s[i + x] == w[x],
{
    assert(w[x] == s.subrange(i, i + w.len())[x]);
}

/// A sub-piece of a region of `s` is the same sub-piece of the region's
/// content.
proof fn lemma_region(s: Seq<char>, i: int, w: Seq<char>, a: int, b: int)
    requires
        0 <= i,
        i + w.len() <= s.len(),
        s.subrange(i, i + w.len()) == w,
        0 <= a <= b <= w.len(),
    ensures
        s.subrange(i + a, i + b) == w.subrange(a, b),
{
    assert forall|q: int| 0 <= q < b - a implies s.subrange(i + a, i + b)[q] == w.subrange(
        a,
        b,
    )[q] by {
        assert(w[a + q] == s.subrange(i, i + w.len())[a + q]);
    }
    assert(s.subrange(i + a, i + b) =~= w.subrange(a, b));
}

/// Reading at a printed leaf element yields exactly that element and
/// stops right after it, whatever surrounds it.
pub proof fn lemma_parse_pair_at(s: Seq<char>, i: int, p: (Seq<char>, Seq<char>))
    requires
        wf_pair(p),
        0 <= i,
        i + print_pair(p).len() <= s.len(),
        s.subrange(i, i + print_pair(p).len()) == print_pair(p),
    ensures
        parse_pair(s, i) == Some((p, i + print_pair(p).len())),
{
    let k = p.0;
    let v = p.1;
    let w = print_pair(p);
    let kl = k.len() as int;
    let vl = v.len() as int;
    assert(w.len() == kl + vl + kl + 5);
    assert(w.subrange(1, 1 + kl) =~= k);
    assert(w.subrange(2 + kl, 2 + kl + vl) =~= v);
    assert(w.subrange(kl + vl + 4, kl + vl + 4 + kl) =~= k);

    lemma_region_char(s, i, w, 0);
    assert(s[i] == '<');
    lemma_region(s, i, w, 1, 1 + kl);
    lemma_region_char(s, i, w, 1 + kl);
    assert(w[1 + kl] == '>');
    lemma_name_end_at(s, i + 1, k);
    let ne = name_end(s, i + 1);
    assert(ne == i + 1 + kl);
    assert(s[ne] == '>');
    lemma_region(s, i, w, 2 + kl, 2 + kl + vl);
    lemma_region_char(s, i, w, kl + vl + 2);
    assert(w[kl + vl + 2] == '<');
    lemma_text_end_at(s, ne + 1, v);
    let te = text_end(s, ne + 1);
    assert(te == i + kl + vl + 2);
    assert(s[te] == '<');
    lemma_region_char(s, i, w, kl + vl + 3);
    assert(w[kl + vl + 3] == '/');
    assert(s[te + 1] == '/');
    lemma_region(s, i, w, kl + vl + 4, kl + vl + 4 + kl);
    lemma_region_char(s, i, w, kl + vl + kl + 4);
    assert(w[kl + vl + kl + 4] == '>');
    assert(!name_char(s[te + 2 + kl]));
    lemma_name_end_at(s, te + 2, k);
    let ce = name_end(s, te + 2);
    assert(ce == i + kl + vl + kl + 4);
    assert(s[ce] == '>');
    assert(parse_pair(s, i) == Some(((k, v), ce + 1)));
}

/// Reading at printed leaf elements yields exactly those elements, where
/// nothing right after them opens another element.
pub proof fn lemma_parse_pairs_at(s: Seq<char>, i: int, ps: Seq<(Seq<char>, Seq<char>)>)
    requires
        ps.len() >= 1,
        forall|x: int| 0 <= x < ps.len() ==> wf_pair(#[trigger] ps[x]),
        0 <= i,
        i + print_pairs(ps).len() <= s.len(),
        s.subrange(i, i + print_pairs(ps).len()) == print_pairs(ps),
        !opens_element(s, i + print_pairs(ps).len()),
    ensures
        parse_pairs(s, i) == Some((ps, i + print_pairs(ps).len())),
    decreases ps.len(),
{
    let w = print_pairs(ps);
    let e = i + w.len();
    let p0 = ps[0];
    let w0 = print_pair(p0);
    let rest = ps.drop_first();
    assert(w == w0 + print_pairs(rest));
    assert(w0.len() == 2 * p0.0.len() + p0.1.len() + 5);
    lemma_region(s, i, w, 0, w0.len() as int);
    assert(w.subrange(0, w0.len() as int) =~= w0);
    lemma_parse_pair_at(s, i, p0);
    let j = i + w0.len();
    if rest.len() == 0 {
        assert(w.len() == w0.len());
        assert(!opens_element(s, j));
        assert(seq![p0] =~= ps);
    } else {
        let wr = print_pairs(rest);
        let w1 = print_pair(rest[0]);
        assert(wr == w1 + print_pairs(rest.drop_first()));
        assert(w1.len() == 2 * rest[0].0.len() + rest[0].1.len() + 5);
        assert(w1[0] == '<');
        assert(rest[0] == ps[1]);
        assert(wf_pair(rest[0]));
        assert(name_char(rest[0].0[0]));
        assert(w1[1] == rest[0].0[0]);
        assert(wr[0] == w1[0]);
        assert(wr[1] == w1[1]);
        lemma_region_char(s, i, w, j - i);
        assert(w[j - i] == wr[0]);
        assert(s[j] == '<');
        lemma_region_char(s, i, w, j - i + 1);
        assert(w[j - i + 1] == wr[1]);
        assert(s[j + 1] != '/');
        assert(opens_element(s, j));
        lemma_region(s, i, w, w0.len() as int, w.len() as int);
        assert(w.subrange(w0.len() as int, w.len() as int) =~= wr);
        assert forall|x: int| 0 <= x < rest.len() implies wf_pair(#[trigger] rest[x]) by {
            assert(rest[x] == ps[x + 1]);
        }
        assert(e == j + wr.len());
        lemma_parse_pairs_at(s, j, rest);
        assert(seq![p0] + rest =~= ps);
    }
}

/// Reading at a printed child element yields exactly that element and
/// stops right after it.
pub proof fn lemma_parse_item_at(s: Seq<char>, i: int, it: XmlItemView)
    requires
        wf_item(it),
        0 <= i,
        i + print_item(it).len() <= s.len(),
        s.subrange(i, i + print_item(it).len()) == print_item(it),
    ensures
        parse_item(s, i) == Some((it, i + print_item(it).len())),
{
    let k = it.name;
    let kl = k.len() as int;
    let w = print_item(it);
    match it.body {
        ItemBodyView::Text(v) => {
            let vl = v.len() as int;
            assert(w.len() == kl + vl + kl + 5);
            assert(w.subrange(1, 1 + kl) =~= k);
            assert(w.subrange(2 + kl, 2 + kl + vl) =~= v);
            assert(w.subrange(kl + vl + 4, kl + vl + 4 + kl) =~= k);

            lemma_region_char(s, i, w, 0);
            assert(s[i] == '<');
            lemma_region(s, i, w, 1, 1 + kl);
            lemma_region_char(s, i, w, 1 + kl);
            assert(w[1 + kl] == '>');
            lemma_name_end_at(s, i + 1, k);
            let ne = name_end(s, i + 1);
            assert(ne == i + 1 + kl);
            assert(s[ne] == '>');
            // The content is text: either it is empty and the close tag
            // follows at once, or its first character is no `<`.
            lemma_region_char(s, i, w, kl + vl + 2);
            assert(w[kl + vl + 2] == '<');
            lemma_region_char(s, i, w, kl + vl + 3);
            assert(w[kl + vl + 3] == '/');
            if vl == 0 {
                assert(s[ne + 1] == '<');
                assert(s[ne + 2] == '/');
                assert(!opens_element(s, ne + 1));
            } else {
                lemma_region_char(s, i, w, 2 + kl);
                assert(w[2 + kl] == v[0]);
                assert(text_char(v[0]));
                assert(!opens_element(s, ne + 1));
            }
            lemma_region(s, i, w, 2 + kl, 2 + kl + vl);
            lemma_text_end_at(s, ne + 1, v);
            let te = text_end(s, ne + 1);
            assert(te == i + kl + vl + 2);
            assert(s[te] == '<');
            assert(s[te + 1] == '/');
            lemma_region(s, i, w, kl + vl + 4, kl + vl + 4 + kl);
            lemma_region_char(s, i, w, kl + vl + kl + 4);
            assert(w[kl + vl + kl + 4] == '>');
            assert(!name_char(s[te + 2 + kl]));
            lemma_name_end_at(s, te + 2, k);
            let ce = name_end(s, te + 2);
            assert(ce == i + kl + vl + kl + 4);
            assert(s[ce] == '>');
        },
        ItemBodyView::Pairs(ps) => {
            let inner = print_pairs(ps);
            let il = inner.len() as int;
            assert(w.len() == kl + il + kl + 5);
            assert(w.subrange(1, 1 + kl) =~= k);
            assert(w.subrange(2 + kl, 2 + kl + il) =~= inner);
            assert(w.subrange(kl + il + 4, kl + il + 4 + kl) =~= k);

            lemma_region_char(s, i, w, 0);
            assert(s[i] == '<');
            lemma_region(s, i, w, 1, 1 + kl);
            lemma_region_char(s, i, w, 1 + kl);
            assert(w[1 + kl] == '>');
            lemma_name_end_at(s, i + 1, k);
            let ne = name_end(s, i + 1);
            assert(ne == i + 1 + kl);
            assert(s[ne] == '>');
            // The content opens with the first leaf child's tag.
            let w1 = print_pair(ps[0]);
            assert(inner == w1 + print_pairs(ps.drop_first()));
            assert(w1.len() == 2 * ps[0].0.len() + ps[0].1.len() + 5);
            assert(w1[0] == '<');
            assert(wf_pair(ps[0]));
            assert(name_char(ps[0].0[0]));
            assert(w1[1] == ps[0].0[0]);
            assert(inner[0] == w1[0]);
            assert(inner[1] == w1[1]);
            lemma_region_char(s, i, w, 2 + kl);
            assert(w[2 + kl] == inner[0]);
            assert(s[ne + 1] == '<');
            lemma_region_char(s, i, w, 3 + kl);
            assert(w[3 + kl] == inner[1]);
            assert(s[ne + 2] != '/');
            assert(opens_element(s, ne + 1));
            lemma_region(s, i, w, 2 + kl, 2 + kl + il);
            lemma_region_char(s, i, w, kl + il + 2);
            assert(w[kl + il + 2] == '<');
            assert(s[ne + 1 + il] == '<');
            lemma_region_char(s, i, w, kl + il + 3);
            assert(w[kl + il + 3] == '/');
            assert(s[ne + 2 + il] == '/');
            assert(!opens_element(s, ne + 1 + il));
            lemma_parse_pairs_at(s, ne + 1, ps);
            let j = ne + 1 + il;
            assert(s[j] == '<');
            assert(s[j + 1] == '/');
            lemma_region(s, i, w, kl + il + 4, kl + il + 4 + kl);
            lemma_region_char(s, i, w, kl + il + kl + 4);
            assert(w[kl + il + kl + 4] == '>');
            assert(!name_char(s[j + 2 + kl]));
            lemma_name_end_at(s, j + 2, k);
            let ce = name_end(s, j + 2);
            assert(ce == i + kl + il + kl + 4);
            assert(s[ce] == '>');
        },
    }
}

/// Reading at printed child elements yields exactly those elements, where
/// nothing right after them opens another element.
pub proof fn lemma_parse_items_at(s: Seq<char>, i: int, items: Seq<XmlItemView>)
    requires
        items.len() >= 1,
        forall|x: int| 0 <= x < items.len() ==> wf_item(#[trigger] items[x]),
        0 <= i,
        i + print_items(items).len() <= s.len(),
        s.subrange(i, i + print_items(items).len()) == print_items(items),
        !opens_element(s, i + print_items(items).len()),
    ensures
        parse_items(s, i) == Some((items, i + print_items(items).len())),
    decreases items.len(),
{
    let w = print_items(items);
    let e = i + w.len();
    let it0 = items[0];
    let w0 = print_item(it0);
    let rest = items.drop_first();
    assert(w == w0 + print_items(rest));
    assert(w0.len() >= 5) by {
        match it0.body {
            ItemBodyView::Text(t) => {
                assert(w0.len() == 2 * it0.name.len() + t.len() + 5);
            },
            ItemBodyView::Pairs(ps) => {
                assert(w0.len() == 2 * it0.name.len() + print_pairs(ps).len() + 5);
            },
        }
    }
    lemma_region(s, i, w, 0, w0.len() as int);
    assert(w.subrange(0, w0.len() as int) =~= w0);
    lemma_parse_item_at(s, i, it0);
    let j = i + w0.len();
    if rest.len() == 0 {
        assert(w.len() == w0.len());
        assert(!opens_element(s, j));
        assert(seq![it0] =~= items);
    } else {
        let wr = print_items(rest);
        let w1 = print_item(rest[0]);
        assert(wr == w1 + print_items(rest.drop_first()));
        assert(rest[0] == items[1]);
        assert(wf_item(rest[0]));
        let head = match rest[0].body {
            ItemBodyView::Text(t) => t,
            ItemBodyView::Pairs(ps) => print_pairs(ps),
        };
        assert(w1 == print_tagged(rest[0].name, head));
        assert(w1.len() == 2 * rest[0].name.len() + head.len() + 5);
        assert(w1[0] == '<');
        assert(name_char(rest[0].name[0]));
        assert(w1[1] == rest[0].name[0]);
        assert(wr[0] == w1[0]);
        assert(wr[1] == w1[1]);
        lemma_region_char(s, i, w, j - i);
        assert(w[j - i] == wr[0]);
        assert(s[j] == '<');
        lemma_region_char(s, i, w, j - i + 1);
        assert(w[j - i + 1] == wr[1]);
        assert(s[j + 1] != '/');
        assert(opens_element(s, j));
        lemma_region(s, i, w, w0.len() as int, w.len() as int);
        assert(w.subrange(w0.len() as int, w.len() as int) =~= wr);
        assert forall|x: int| 0 <= x < rest.len() implies wf_item(#[trigger] rest[x]) by {
            assert(rest[x] == items[x + 1]);
        }
        assert(e == j + wr.len());
        lemma_parse_items_at(s, j, rest);
        assert(seq![it0] + rest =~= items);
    }
}

/// Reading a printed document gives the document back: the printer and
/// the reader are inverse on every well-formed document.
pub proof fn lemma_parse_print_doc(d: XmlDocView)
    requires
        wf_doc(d),
    ensures
        parse_doc(print_doc(d)) == Some(d),
{
    let s = print_doc(d);
    let k = d.name;
    let kl = k.len() as int;
    match d.body {
        DocBodyView::Text(v) => {
            let vl = v.len() as int;
            assert(s.len() == kl + vl + kl + 5);
            assert(s[0] == '<');
            assert forall|x: int| 0 <= x < kl implies #[trigger] s[1 + x] == k[x] by {}
            assert(s[1 + kl] == '>');
            assert forall|x: int| 0 <= x < vl implies #[trigger] s[2 + kl + x] == v[x] by {}
            assert(s[kl + vl + 2] == '<');
            assert(s[kl + vl + 3] == '/');
            assert forall|x: int| 0 <= x < kl implies #[trigger] s[kl + vl + 4 + x] == k[x] by {}
            assert(s[kl + vl + kl + 4] == '>');

            assert(s.subrange(1, 1 + kl) =~= k);
            assert(!name_char(s[1 + kl]));
            lemma_name_end_at(s, 1, k);
            let ne = name_end(s, 1);
            assert(ne == 1 + kl);
            if vl == 0 {
                assert(s[ne + 1] == '<');
                assert(s[ne + 2] == '/');
                assert(!opens_element(s, ne + 1));
            } else {
                assert(s[ne + 1] == v[0]);
                assert(!opens_element(s, ne + 1));
            }
            assert(s.subrange(ne + 1, ne + 1 + vl) =~= v);
            assert(!text_char(s[ne + 1 + vl]));
            lemma_text_end_at(s, ne + 1, v);
            let te = text_end(s, ne + 1);
            assert(te == kl + vl + 2);
            assert(s.subrange(te + 2, te + 2 + kl) =~= k);
            assert(te + 2 + kl == s.len() - 1);
            assert(!name_char(s[te + 2 + kl]));
            lemma_name_end_at(s, te + 2, k);
            let ce = name_end(s, te + 2);
            assert(ce + 1 == s.len());
            assert(s[ce] == '>');
        },
        DocBodyView::Items(items) => {
            let inner = print_items(items);
            let il = inner.len() as int;
            assert(s.len() == kl + il + kl + 5);
            assert(s[0] == '<');
            assert forall|x: int| 0 <= x < kl implies #[trigger] s[1 + x] == k[x] by {}
            assert(s[1 + kl] == '>');
            assert forall|x: int| 0 <= x < il implies #[trigger] s[2 + kl + x] == inner[x] by {}
            assert(s[kl + il + 2] == '<');
            assert(s[kl + il + 3] == '/');
            assert forall|x: int| 0 <= x < kl implies #[trigger] s[kl + il + 4 + x] == k[x] by {}
            assert(s[kl + il + kl + 4] == '>');

            assert(s.subrange(1, 1 + kl) =~= k);
            assert(!name_char(s[1 + kl]));
            lemma_name_end_at(s, 1, k);
            let ne = name_end(s, 1);
            assert(ne == 1 + kl);
            let w1 = print_item(items[0]);
            assert(inner == w1 + print_items(items.drop_first()));
            assert(wf_item(items[0]));
            assert(w1.len() >= 5) by {
                match items[0].body {
                    ItemBodyView::Text(_) => {},
                    ItemBodyView::Pairs(_) => {},
                }
            }
            assert(w1[0] == '<');
            assert(w1[1] == items[0].name[0]);
            assert(name_char(items[0].name[0]));
            assert(inner[0] == w1[0]);
            assert(inner[1] == w1[1]);
            assert(s[ne + 1] == '<');
            assert(s[ne + 2] == w1[1]);
            assert(s[ne + 2] != '/');
            assert(opens_element(s, ne + 1));
            assert(s.subrange(ne + 1, ne + 1 + il) =~= inner);
            assert(s[ne + 1 + il] == '<');
            assert(s[ne + 2 + il] == '/');
            assert(!opens_element(s, ne + 1 + il));
            lemma_parse_items_at(s, ne + 1, items);
            let j = ne + 1 + il;
            assert(s[j] == '<');
            assert(s[j + 1] == '/');
            assert(s.subrange(j + 2, j + 2 + kl) =~= k);
            assert(j + 2 + kl == s.len() - 1);
            assert(!name_char(s[j + 2 + kl]));
            lemma_name_end_at(s, j + 2, k);
            let ce = name_end(s, j + 2);
            assert(ce + 1 == s.len());
            assert(s[ce] == '>');
        },
    }
}

/// The exec content of a child element.
pub enum XmlItemBody {
    Text(String),
    Pairs(Vec<(String, String)>),
}

/// One exec child element of a record.
pub struct XmlItem {
    pub name: String,
    pub body: XmlItemBody,
}

/// The exec content of a root element.
pub enum XmlDocBody {
    Text(String),
    Items(Vec<XmlItem>),
}

/// A whole exec response document.
pub struct XmlDoc {
    pub name: String,
    pub body: XmlDocBody,
}

/// The model of an exec leaf list.
pub open spec fn pairs_vec_view(v: Seq<(String, String)>) -> Seq<(Seq<char>, Seq<char>)> {
    Seq::new(v.len(), |i: int| (v[i].0@, v[i].1@))
}

impl View for XmlItemBody {
    type V = ItemBodyView;

    open spec fn view(&self) -> ItemBodyView {
        match self {
            XmlItemBody::Text(t) => ItemBodyView::Text(t@),
            XmlItemBody::Pairs(ps) => ItemBodyView::Pairs(pairs_vec_view(ps@)),
        }
    }
}

impl View for XmlItem {
    type V = XmlItemView;

    open spec fn view(&self) -> XmlItemView {
        XmlItemView { name: self.name@, body: self.body@ }
    }
}

/// The model of an exec child element list.
pub open spec fn items_vec_view(v: Seq<XmlItem>) -> Seq<XmlItemView> {
    Seq::new(v.len(), |i: int| v[i]@)
}

impl View for XmlDocBody {
    type V = DocBodyView;

    open spec fn view(&self) -> DocBodyView {
        match self {
            XmlDocBody::Text(t) => DocBodyView::Text(t@),
            XmlDocBody::Items(items) => DocBodyView::Items(items_vec_view(items@)),
        }
    }
}

impl View for XmlDoc {
    type V = XmlDocView;

    open spec fn view(&self) -> XmlDocView {
        XmlDocView { name: self.name@, body: self.body@ }
    }
}

/// The scans stay within the input.
proof fn lemma_name_end_bounds(s: Seq<char>, i: int)
    requires
        0 <= i <= s.len(),
    ensures
        i <= name_end(s, i) <= s.len(),
    decreases s.len() - i,
{
    if i < s.len() && name_char(s[i]) {
        lemma_name_end_bounds(s, i + 1);
    }
}

/// Where the run of name characters stops, by scanning.
fn find_name_end(s: &str, start: usize) -> (r: usize)
    requires
        start <= s@.len(),
    ensures
        r == name_end(s@, start as int),
        start <= r <= s@.len(),
{
    let len = s.unicode_len();
    let mut i = start;
    while i < len
        invariant
            start <= i <= len,
            len == s@.len(),
            name_end(s@, start as int) == name_end(s@, i as int),
        decreases len - i,
    {
        let c = s.get_char(i);
        if c == '<' || c == '>' || c == '/' {
            return i;
        }
        i = i + 1;
    }
    i
}

/// Where the run of text characters stops, by scanning.
fn find_text_end(s: &str, start: usize) -> (r: usize)
    requires
        start <= s@.len(),
    ensures
        r == text_end(s@, start as int),
        start <= r <= s@.len(),
{
    let len = s.unicode_len();
    let mut i = start;
    while i < len
        invariant
            start <= i <= len,
            len == s@.len(),
            text_end(s@, start as int) == text_end(s@, i as int),
        decreases len - i,
    {
        let c = s.get_char(i);
        if c == '<' {
            return i;
        }
        i = i + 1;
    }
    i
}

/// True where another element opens at `i`.
fn opens_at(s: &str, i: usize) -> (r: bool)
    ensures
        r == opens_element(s@, i as int),
{
    let len = s.unicode_len();
    if !(i < len) {
        return false;
    }
    if s.get_char(i) != '<' {
        return false;
    }
    if i + 1 < len && s.get_char(i + 1) == '/' {
        return false;
    }
    true
}

/// How an exec leaf read relates to the spec read.
pub open spec fn pair_read_ok(
    r: Option<((String, String), usize)>,
    sr: Option<((Seq<char>, Seq<char>), int)>,
) -> bool {
    match r {
        Some(rp) => sr is Some && {
            let sp = sr->Some_0;
            rp.0.0@ == sp.0.0 && rp.0.1@ == sp.0.1 && rp.1 == sp.1
        },
        None => sr is None,
    }
}

/// Reads one leaf element, as the spec read does.
fn read_pair_at(s: &str, i: usize) -> (r: Option<((String, String), usize)>)
    requires
        i <= s@.len(),
    ensures
        pair_read_ok(r, parse_pair(s@, i as int)),
{
    let len = s.unicode_len();
    if !(i < len) {
        return None;
    }
    if s.get_char(i) != '<' {
        return None;
    }
    let ne = find_name_end(s, i + 1);
    if !(ne > i + 1 && ne < len) {
        return None;
    }
    if s.get_char(ne) != '>' {
        return None;
    }
    let name: String = s.substring_char(i + 1, ne).to_owned();
    let te = find_text_end(s, ne + 1);
    let text: String = s.substring_char(ne + 1, te).to_owned();
    if !(te < len) {
        return None;
    }
    if !(te + 1 < len) {
        return None;
    }
    if s.get_char(te) != '<' {
        return None;
    }
    if s.get_char(te + 1) != '/' {
        return None;
    }
    let ce = find_name_end(s, te + 2);
    if !(ce < len) {
        return None;
    }
    if s.get_char(ce) != '>' {
        return None;
    }
    let cname: String = s.substring_char(te + 2, ce).to_owned();
    if !(cname == name) {
        return None;
    }
    Some(((name, text), ce + 1))
}

/// How an exec leaf-list read relates to the spec read.
pub open spec fn pairs_read_ok(
    r: Option<(Vec<(String, String)>, usize)>,
    sr: Option<(Seq<(Seq<char>, Seq<char>)>, int)>,
) -> bool {
    match r {
        Some(rp) => sr is Some && {
            let sp = sr->Some_0;
            pairs_vec_view(rp.0@) == sp.0 && rp.1 == sp.1
        },
        None => sr is None,
    }
}

/// Reads leaf elements while they open, as the spec read does.
fn read_pairs_at(s: &str, i: usize) -> (r: Option<(Vec<(String, String)>, usize)>)
    requires
        i <= s@.len(),
    ensures
        pairs_read_ok(r, parse_pairs(s@, i as int)),
    decreases s@.len() - i,
{
    let len = s.unicode_len();
    match read_pair_at(s, i) {
        None => None,
        Some((p, j)) => {
            if !(i < j && j <= len) {
                return None;
            }
            if opens_at(s, j) {
                match read_pairs_at(s, j) {
                    None => None,
                    Some((mut ps, k)) => {
                        ps.insert(0, p);
                        proof {
                            let sr = parse_pairs(s@, i as int);
                            assert(pairs_vec_view(ps@) =~= sr->Some_0.0);
                        }
                        Some((ps, k))
                    },
                }
            } else {
                let mut one: Vec<(String, String)> = Vec::new();
                one.push(p);
                proof {
                    let sr = parse_pairs(s@, i as int);
                    assert(pairs_vec_view(one@) =~= sr->Some_0.0);
                }
                Some((one, j))
            }
        },
    }
}

/// How an exec child read relates to the spec read.
pub open spec fn item_read_ok(
    r: Option<(XmlItem, usize)>,
    sr: Option<(XmlItemView, int)>,
) -> bool {
    match r {
        Some(rp) => sr is Some && {
            let sp = sr->Some_0;
            rp.0@ == sp.0 && rp.1 == sp.1
        },
        None => sr is None,
    }
}

/// Reads one child element, as the spec read does.
fn read_item_at(s: &str, i: usize) -> (r: Option<(XmlItem, usize)>)
    requires
        i <= s@.len(),
    ensures
        item_read_ok(r, parse_item(s@, i as int)),
{
    let len = s.unicode_len();
    if !(i < len) {
        return None;
    }
    if s.get_char(i) != '<' {
        return None;
    }
    let ne = find_name_end(s, i + 1);
    if !(ne > i + 1 && ne < len) {
        return None;
    }
    if s.get_char(ne) != '>' {
        return None;
    }
    let name: String = s.substring_char(i + 1, ne).to_owned();
    if opens_at(s, ne + 1) {
        match read_pairs_at(s, ne + 1) {
            None => None,
            Some((ps, j)) => {
                if !(j < len) {
                    return None;
                }
                if !(j + 1 < len) {
                    return None;
                }
                if s.get_char(j) != '<' {
                    return None;
                }
                if s.get_char(j + 1) != '/' {
                    return None;
                }
                let ce = find_name_end(s, j + 2);
                if !(ce < len) {
                    return None;
                }
                if s.get_char(ce) != '>' {
                    return None;
                }
                let cname: String = s.substring_char(j + 2, ce).to_owned();
                if !(cname == name) {
                    return None;
                }
                Some((XmlItem { name, body: XmlItemBody::Pairs(ps) }, ce + 1))
            },
        }
    } else {
        let te = find_text_end(s, ne + 1);
        let text: String = s.substring_char(ne + 1, te).to_owned();
        if !(te < len) {
            return None;
        }
        if !(te + 1 < len) {
            return None;
        }
        if s.get_char(te) != '<' {
            return None;
        }
        if s.get_char(te + 1) != '/' {
            return None;
        }
        let ce = find_name_end(s, te + 2);
        if !(ce < len) {
            return None;
        }
        if s.get_char(ce) != '>' {
            return None;
        }
        let cname: String = s.substring_char(te + 2, ce).to_owned();
        if !(cname == name) {
            return None;
        }
        Some((XmlItem { name, body: XmlItemBody::Text(text) }, ce + 1))
    }
}

/// How an exec child-list read relates to the spec read.
pub open spec fn items_read_ok(
    r: Option<(Vec<XmlItem>, usize)>,
    sr: Option<(Seq<XmlItemView>, int)>,
) -> bool {
    match r {
        Some(rp) => sr is Some && {
            let sp = sr->Some_0;
            items_vec_view(rp.0@) == sp.0 && rp.1 == sp.1
        },
        None => sr is None,
    }
}

/// Reads child elements while they open, as the spec read does.
fn read_items_at(s: &str, i: usize) -> (r: Option<(Vec<XmlItem>, usize)>)
    requires
        i <= s@.len(),
    ensures
        items_read_ok(r, parse_items(s@, i as int)),
    decreases s@.len() - i,
{
    let len = s.unicode_len();
    match read_item_at(s, i) {
        None => None,
        Some((it, j)) => {
            if !(i < j && j <= len) {
                return None;
            }
            if opens_at(s, j) {
                match read_items_at(s, j) {
                    None => None,
                    Some((mut items, k)) => {
                        items.insert(0, it);
                        proof {
                            let sr = parse_items(s@, i as int);
                            assert(items_vec_view(items@) =~= sr->Some_0.0);
                        }
                        Some((items, k))
                    },
                }
            } else {
                let mut one: Vec<XmlItem> = Vec::new();
                one.push(it);
                proof {
                    let sr = parse_items(s@, i as int);
                    assert(items_vec_view(one@) =~= sr->Some_0.0);
                }
                Some((one, j))
            }
        },
    }
}

/// How an exec document read relates to the spec read.
pub open spec fn doc_read_ok(r: Option<XmlDoc>, sr: Option<XmlDocView>) -> bool {
    match r {
        Some(d) => sr is Some && d@ == sr->Some_0,
        None => sr is None,
    }
}

/// Reads a whole document spanning the entire input, as the spec read
/// does.
pub fn read_doc(s: &str) -> (r: Option<XmlDoc>)
    ensures
        doc_read_ok(r, parse_doc(s@)),
{
    let len = s.unicode_len();
    if !(0 < len) {
        return None;
    }
    if s.get_char(0) != '<' {
        return None;
    }
    let ne = find_name_end(s, 1);
    if !(ne > 1 && ne < len) {
        return None;
    }
    if s.get_char(ne) != '>' {
        return None;
    }
    let name: String = s.substring_char(1, ne).to_owned();
    if opens_at(s, ne + 1) {
        match read_items_at(s, ne + 1) {
            None => None,
            Some((items, j)) => {
                if !(j < len) {
                    return None;
                }
                if !(j + 1 < len) {
                    return None;
                }
                if s.get_char(j) != '<' {
                    return None;
                }
                if s.get_char(j + 1) != '/' {
                    return None;
                }
                let ce = find_name_end(s, j + 2);
                if !(ce < len) {
                    return None;
                }
                if !(ce + 1 == len) {
                    return None;
                }
                if s.get_char(ce) != '>' {
                    return None;
                }
                let cname: String = s.substring_char(j + 2, ce).to_owned();
                if !(cname == name) {
                    return None;
                }
                Some(XmlDoc { name, body: XmlDocBody::Items(items) })
            },
        }
    } else {
        let te = find_text_end(s, ne + 1);
        let text: String = s.substring_char(ne + 1, te).to_owned();
        if !(te < len) {
            return None;
        }
        if !(te + 1 < len) {
            return None;
        }
        if s.get_char(te) != '<' {
            return None;
        }
        if s.get_char(te + 1) != '/' {
            return None;
        }
        let ce = find_name_end(s, te + 2);
        if !(ce < len) {
            return None;
        }
        if !(ce + 1 == len) {
            return None;
        }
        if s.get_char(ce) != '>' {
            return None;
        }
        let cname: String = s.substring_char(te + 2, ce).to_owned();
        if !(cname == name) {
            return None;
        }
        Some(XmlDoc { name, body: XmlDocBody::Text(text) })
    }
}

/// Wraps `inner` in the open and close tags for `name`.
fn write_tagged(name: &str, inner: &str) -> (r: String)
    ensures
        r@ == print_tagged(name@, inner@),
{
    let mut out = String::from_str("<");
    out.append(name);
    out.append(">");
    out.append(inner);
    out.append("</");
    out.append(name);
    out.append(">");
    proof {
        reveal_strlit("<");
        reveal_strlit(">");
        reveal_strlit("</");
        assert("<"@ =~= seq!['<']);
        assert(">"@ =~= seq!['>']);
        assert("</"@ =~= seq!['<', '/']);
    }
    out
}

/// Prints leaf elements in order.
fn write_pairs(ps: &Vec<(String, String)>) -> (r: String)
    ensures
        r@ == print_pairs(pairs_vec_view(ps@)),
{
    let ghost full = pairs_vec_view(ps@);
    let mut out = String::new();
    proof {
        assert(full.skip(0) =~= full);
        assert(out@ + print_pairs(full) =~= print_pairs(full));
    }
    let mut i: usize = 0;
    while i < ps.len()
        invariant
            i <= ps.len(),
            full == pairs_vec_view(ps@),
            out@ + print_pairs(full.skip(i as int)) == print_pairs(full),
        decreases ps.len() - i,
    {
        let piece = write_tagged(ps[i].0.as_str(), ps[i].1.as_str());
        out.append(piece.as_str());
        proof {
            let rest = full.skip(i as int);
            assert(rest[0] == full[i as int]);
            assert(rest.drop_first() =~= full.skip(i as int + 1));
            assert(print_pairs(rest) == print_pair(rest[0]) + print_pairs(rest.drop_first()));
        }
        i = i + 1;
    }
    proof {
        assert(full.skip(ps@.len() as int).len() == 0);
        assert(out@ =~= print_pairs(full));
    }
    out
}

/// Prints one child element.
fn write_item(it: &XmlItem) -> (r: String)
    ensures
        r@ == print_item(it@),
{
    match &it.body {
        XmlItemBody::Text(t) => write_tagged(it.name.as_str(), t.as_str()),
        XmlItemBody::Pairs(ps) => {
            let inner = write_pairs(ps);
            write_tagged(it.name.as_str(), inner.as_str())
        },
    }
}

/// Prints child elements in order.
fn write_items(items: &Vec<XmlItem>) -> (r: String)
    ensures
        r@ == print_items(items_vec_view(items@)),
{
    let ghost full = items_vec_view(items@);
    let mut out = String::new();
    proof {
        assert(full.skip(0) =~= full);
        assert(out@ + print_items(full) =~= print_items(full));
    }
    let mut i: usize = 0;
    while i < items.len()
        invariant
            i <= items.len(),
            full == items_vec_view(items@),
            out@ + print_items(full.skip(i as int)) == print_items(full),
        decreases items.len() - i,
    {
        let piece = write_item(&items[i]);
        out.append(piece.as_str());
        proof {
            let rest = full.skip(i as int);
            assert(rest[0] == full[i as int]);
            assert(rest.drop_first() =~= full.skip(i as int + 1));
            assert(print_items(rest) == print_item(rest[0]) + print_items(rest.drop_first()));
        }
        i = i + 1;
    }
    proof {
        assert(full.skip(items@.len() as int).len() == 0);
        assert(out@ =~= print_items(full));
    }
    out
}

/// Prints a whole document.
pub fn write_doc(d: &XmlDoc) -> (r: String)
    ensures
        r@ == print_doc(d@),
{
    match &d.body {
        XmlDocBody::Text(t) => write_tagged(d.name.as_str(), t.as_str()),
        XmlDocBody::Items(items) => {
            let inner = write_items(items);
            write_tagged(d.name.as_str(), inner.as_str())
        },
    }
}

} // verus!
