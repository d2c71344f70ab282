//! Where the pieces of a text stand.
use crate::spirv_type::texts;
use crate::text::{
    atom, decimal, entries, join, lines, list, named, padding, render, tree, trees, truth, tuple,
    DebugNode, Form, Tree,
};
use vstd::prelude::*;

verus! {

/// The number that a text of digits stands for.
pub open spec fn number(text: Seq<char>) -> int
    decreases text.len(),
{
    if text.len() == 0 {
        0
    } else {
        number(text.drop_last()) * 10 + (text.last() as int - '0' as int)
    }
}

/// The decimal text of a number is made of digits, stands for the number, and has no zero in
/// front unless it is 0.
pub proof fn law_decimal(n: nat)
    ensures
        decimal(n).len() > 0,
        forall|i: int|
            0 <= i < decimal(n).len() ==> '0' as int <= (#[trigger] decimal(n)[i]) as int
                <= '9' as int,
        number(decimal(n)) == n,
        n > 0 ==> decimal(n)[0] != '0',
        n == 0 ==> decimal(n).len() == 1,
    decreases n,
{
    if n < 10 {
        let text = decimal(n);
        assert(text.drop_last() =~= Seq::<char>::empty());
        assert(number(Seq::<char>::empty()) == 0);
        assert(text.last() as int == 48 + n);
    } else {
        let rest = decimal(n / 10);
        law_decimal(n / 10);
        assert(decimal(n).drop_last() =~= rest);
        assert(decimal(n).last() as int == 48 + n % 10);
        assert(decimal(n)[0] == rest[0]);
    }
}

/// Where a part of a text begins if each part before it has as many characters more.
pub open spec fn begin(parts: Seq<Seq<char>>, more: nat, i: int) -> nat
    decreases i,
{
    if i <= 0 {
        0
    } else {
        begin(parts, more, i - 1) + parts[i - 1].len() + more
    }
}

proof fn lemma_begin_same(a: Seq<Seq<char>>, b: Seq<Seq<char>>, more: nat, i: int)
    requires
        i <= a.len(),
        i <= b.len(),
        forall|j: int| 0 <= j < i ==> a[j] == b[j],
    ensures
        begin(a, more, i) == begin(b, more, i),
    decreases i,
{
    if i > 0 {
        lemma_begin_same(a, b, more, i - 1);
    }
}

/// Parts that are joined stand one after the other, each behind a comma and a space but the
/// first one. There is nothing else.
pub proof fn law_joined(parts: Seq<Seq<char>>, i: int)
    ensures
        parts.len() == 0 ==> join(parts).len() == 0,
        parts.len() > 0 ==> join(parts).len() + 2 == begin(parts, 2, parts.len() as int),
        0 <= i < parts.len() ==> {
            let at = begin(parts, 2, i) as int;
            let end = at + parts[i].len();
            &&& end <= join(parts).len()
            &&& join(parts).subrange(at, end) == parts[i]
            &&& i + 1 < parts.len() ==> end + 2 <= join(parts).len() && join(parts)[end] == ','
                && join(parts)[end + 1] == ' '
        },
    decreases parts.len(),
{
    reveal_strlit(", ");
    if parts.len() == 1 {
        assert(begin(parts, 2, 1) == begin(parts, 2, 0) + parts[0].len() + 2);
        assert(join(parts).subrange(0, parts[0].len() as int) =~= parts[0]);
    } else if parts.len() > 1 {
        let rest = parts.drop_last();
        let n = rest.len() as int;
        law_joined(rest, i);
        lemma_begin_same(parts, rest, 2, n);
        assert(begin(parts, 2, n + 1) == begin(parts, 2, n) + parts[n].len() + 2);
        let whole = join(parts);
        assert(whole =~= join(rest) + ", "@ + parts.last());
        if 0 <= i < n {
            lemma_begin_same(parts, rest, 2, i);
            let at = begin(parts, 2, i) as int;
            let end = at + parts[i].len();
            assert(rest[i] == parts[i]);
            assert(whole.subrange(at, end) =~= join(rest).subrange(at, end));
            if i + 1 == n {
                assert(begin(rest, 2, n) == begin(rest, 2, i) + rest[i].len() + 2);
                assert(end == join(rest).len());
                assert(whole[end] == ", "@[0]);
                assert(whole[end + 1] == ", "@[1]);
            } else {
                assert(whole[end] == join(rest)[end]);
                assert(whole[end + 1] == join(rest)[end + 1]);
            }
        } else if i == n {
            let at = begin(parts, 2, n) as int;
            assert(at == join(rest).len() + 2);
            assert(whole.subrange(at, at + parts[n].len()) =~= parts[n]);
        }
    }
}

/// Parts on lines of their own stand one after the other, each behind as many spaces as it is
/// indented by, and before a comma and the end of the line. There is nothing else.
pub proof fn law_lines(parts: Seq<Seq<char>>, indent: nat, i: int)
    ensures
        lines(parts, indent).len() == begin(parts, indent + 2, parts.len() as int),
        0 <= i < parts.len() ==> {
            let start = begin(parts, indent + 2, i) as int;
            let at = start + indent;
            let end = at + parts[i].len();
            &&& end + 2 <= lines(parts, indent).len()
            &&& forall|j: int|
                start <= j < at ==> #[trigger] lines(parts, indent)[j] == ' '
            &&& lines(parts, indent).subrange(at, end) == parts[i]
            &&& lines(parts, indent)[end] == ','
            &&& lines(parts, indent)[end + 1] == '\n'
        },
    decreases parts.len(),
{
    reveal_strlit(",\n");
    if parts.len() > 0 {
        let rest = parts.drop_last();
        let n = rest.len() as int;
        law_lines(rest, indent, i);
        lemma_begin_same(parts, rest, indent + 2, n);
        assert(begin(parts, indent + 2, n + 1) == begin(parts, indent + 2, n) + parts[n].len()
            + (indent + 2));
        let whole = lines(parts, indent);
        let before = lines(rest, indent);
        assert(whole =~= before + padding(indent) + parts.last() + ",\n"@);
        if 0 <= i < n {
            lemma_begin_same(parts, rest, indent + 2, i);
            assert(rest[i] == parts[i]);
            let start = begin(parts, indent + 2, i) as int;
            let at = start + indent;
            let end = at + parts[i].len();
            assert(whole.subrange(at, end) =~= before.subrange(at, end));
            assert forall|j: int| start <= j < at implies #[trigger] whole[j] == ' ' by {
                assert(before[j] == ' ');
            }
            assert(whole[end] == before[end]);
            assert(whole[end + 1] == before[end + 1]);
        } else if i == n {
            let start = begin(parts, indent + 2, n) as int;
            let at = start + indent;
            let end = at + parts[n].len();
            assert(start == before.len());
            assert forall|j: int| start <= j < at implies #[trigger] whole[j] == ' ' by {
                assert(whole[j] == padding(indent)[j - start]);
            }
            assert(whole.subrange(at, end) =~= parts[n]);
            assert(whole[end] == ",\n"@[0]);
            assert(whole[end + 1] == ",\n"@[1]);
        }
    }
}

/// Some parts of debug output, each with what stands before it: in a struct, its own label, a
/// colon, and a space.
pub open spec fn items_rendered(t: Tree, pretty: bool, indent: nat) -> Seq<Seq<char>> {
    Seq::new(
        t.items.len(),
        |i: int|
            if t.form is Struct && i < t.labels.len() {
                t.labels[i] + ": "@ + render(t.items[i], pretty, indent)
            } else {
                render(t.items[i], pretty, indent)
            },
    )
}

proof fn lemma_entries(t: Tree, pretty: bool, indent: nat, n: int)
    requires
        0 <= n <= t.items.len(),
    ensures
        entries(t.form, t.labels, t.items.take(n), pretty, indent) == items_rendered(
            t,
            pretty,
            indent,
        ).take(n),
    decreases n,
{
    reveal_strlit("");
    let all = items_rendered(t, pretty, indent);
    if n > 0 {
        lemma_entries(t, pretty, indent, n - 1);
        let items = t.items.take(n);
        assert(items.drop_last() =~= t.items.take(n - 1));
        assert(items.last() == t.items[n - 1]);
        let now = entries(t.form, t.labels, items, pretty, indent);
        assert(now.last() =~= all[n - 1]);
        assert(now =~= all.take(n));
    } else {
        assert(t.items.take(0) =~= Seq::<Tree>::empty());
        assert(all.take(0) =~= Seq::<Seq<char>>::empty());
    }
}

/// Debug output that has nothing inside: an atom, or a struct without fields, is its text. A
/// tuple or list without items has its brackets, in one line.
pub proof fn law_render_empty(t: Tree, pretty: bool, indent: nat)
    ensures
        t.form is Atom ==> render(t, pretty, indent) == t.text,
        t.form is Struct && t.items.len() == 0 ==> render(t, pretty, indent) == t.text,
        t.form is Tuple && t.items.len() == 0 ==> render(t, pretty, indent) == t.text + "()"@,
        t.form is List && t.items.len() == 0 ==> render(t, pretty, indent) == t.text + "[]"@,
{
    reveal_strlit("()");
    reveal_strlit("[]");
    reveal_strlit("(");
    reveal_strlit(")");
    reveal_strlit("[");
    reveal_strlit("]");
    if t.items.len() == 0 {
        lemma_entries(t, false, indent, 0);
        assert(t.items.take(0) =~= t.items);
        assert(items_rendered(t, false, indent).take(0) =~= Seq::<Seq<char>>::empty());
        let whole = render(t, pretty, indent);
        if t.form is Tuple {
            assert(whole =~= t.text + "()"@);
        } else if t.form is List {
            assert(whole =~= t.text + "[]"@);
        }
    }
}

/// Debug output in one line: the text, the brackets of its form, and between them the items,
/// joined.
pub proof fn law_render_line(t: Tree, indent: nat)
    requires
        t.items.len() > 0,
        !(t.form is Atom),
    ensures
        ({
            let inside = join(items_rendered(t, false, indent));
            match t.form {
                Form::Struct => render(t, false, indent) == t.text + " { "@ + inside + " }"@,
                Form::Tuple => render(t, false, indent) == t.text + "("@ + inside + ")"@,
                Form::List => render(t, false, indent) == t.text + "["@ + inside + "]"@,
                Form::Atom => true,
            }
        }),
{
    lemma_entries(t, false, indent, t.items.len() as int);
    assert(t.items.take(t.items.len() as int) =~= t.items);
    let all = items_rendered(t, false, indent);
    assert(all.take(t.items.len() as int) =~= all);
}

/// Debug output over several lines: the text and the opening bracket of its form end a line,
/// then each item has a line of its own, four spaces further in, and the closing bracket stands
/// on a line of its own, as far in as the whole.
pub proof fn law_render_lines(t: Tree, indent: nat)
    requires
        t.items.len() > 0,
        !(t.form is Atom),
    ensures
        ({
            let inside = lines(items_rendered(t, true, indent + 4), indent + 4);
            let spaces = Seq::new(indent, |i: int| ' ');
            match t.form {
                Form::Struct => render(t, true, indent) == t.text + " {\n"@ + inside + spaces
                    + "}"@,
                Form::Tuple => render(t, true, indent) == t.text + "(\n"@ + inside + spaces
                    + ")"@,
                Form::List => render(t, true, indent) == t.text + "[\n"@ + inside + spaces
                    + "]"@,
                Form::Atom => true,
            }
        }),
{
    lemma_entries(t, true, indent + 4, t.items.len() as int);
    assert(t.items.take(t.items.len() as int) =~= t.items);
    let all = items_rendered(t, true, indent + 4);
    assert(all.take(t.items.len() as int) =~= all);
    assert(padding(indent) =~= Seq::new(indent, |i: int| ' '));
}

/// The pieces that debug output is put together from.
pub proof fn law_pieces(t: Tree, text: Seq<char>, items: Seq<Tree>, label: Seq<char>, item: Tree)
    ensures
        atom(text).form is Atom && atom(text).text == text && atom(text).items.len() == 0,
        named(text).form is Struct && named(text).text == text && named(text).labels.len() == 0
            && named(text).items.len() == 0,
        tuple(text, items).form is Tuple && tuple(text, items).text == text && tuple(
            text,
            items,
        ).items == items,
        list(items).form is List && list(items).text.len() == 0 && list(items).items == items,
        truth(true) == atom("true"@),
        truth(false) == atom("false"@),
        t.field(label, item).form == t.form,
        t.field(label, item).text == t.text,
        t.field(label, item).labels == t.labels.push(label),
        t.field(label, item).items == t.items.push(item),
{
}

/// Debug output as a mathematical value has the same parts.
pub proof fn law_node_view(node: DebugNode)
    ensures
        node@.form == node.form,
        node@.text == node.text@,
        node@.labels.len() == node.labels@.len(),
        forall|i: int|
            0 <= i < node.labels@.len() ==> node@.labels[i] == (#[trigger] node.labels@[i])@,
        node@.items.len() == node.items@.len(),
        forall|i: int|
            0 <= i < node.items@.len() ==> node@.items[i] == (#[trigger] node.items@[i])@,
{
    lemma_nodes_view(node.items@);
    assert(node@.items == trees(node.items@));
    assert(node@.labels == texts(node.labels@));
}

proof fn lemma_nodes_view(nodes: Seq<DebugNode>)
    ensures
        trees(nodes).len() == nodes.len(),
        forall|i: int| 0 <= i < nodes.len() ==> trees(nodes)[i] == tree(#[trigger] nodes[i]),
    decreases nodes.len(),
{
    if nodes.len() > 0 {
        let rest = nodes.drop_last();
        lemma_nodes_view(rest);
        assert forall|i: int| 0 <= i < nodes.len() implies trees(nodes)[i] == tree(
            #[trigger] nodes[i],
        ) by {
            if i < rest.len() {
                assert(rest[i] == nodes[i]);
            }
        }
    }
}

} // verus!
