//! Pieces of text: numbers, lists, and the layout of debug output.
use crate::spirv_type::texts;
use vstd::prelude::*;

verus! {

/// A decimal digit.
pub open spec fn digit(d: nat) -> char {
    (48 + d) as char
}

/// A number in decimal.
pub open spec fn decimal(n: nat) -> Seq<char>
    decreases n,
{
    if n < 10 {
        seq![digit(n)]
    } else {
        decimal(n / 10).push(digit(n % 10))
    }
}

/// The parts, one after the other, with a comma and a space between them.
pub open spec fn join(parts: Seq<Seq<char>>) -> Seq<char>
    decreases parts.len(),
{
    if parts.len() == 0 {
        seq![]
    } else if parts.len() == 1 {
        parts[0]
    } else {
        join(parts.drop_last()) + ", "@ + parts.last()
    }
}

/// One more part at the end of a joined list.
pub proof fn lemma_join_push(parts: Seq<Seq<char>>, part: Seq<char>)
    ensures
        join(parts.push(part)) == join(parts) + (if parts.len() == 0 {
            seq![]
        } else {
            ", "@
        }) + part,
{
    assert(parts.push(part).drop_last() =~= parts);
    assert(join(parts.push(part)) =~= join(parts) + (if parts.len() == 0 {
        seq![]
    } else {
        ", "@
    }) + part);
}

/// The text of one digit.
fn digit_str(d: u64) -> (r: &'static str)
    requires
        d < 10,
    ensures
        r@ == seq![digit(d as nat)],
{
    proof {
        reveal_strlit("0");
        reveal_strlit("1");
        reveal_strlit("2");
        reveal_strlit("3");
        reveal_strlit("4");
        reveal_strlit("5");
        reveal_strlit("6");
        reveal_strlit("7");
        reveal_strlit("8");
        reveal_strlit("9");
    }
    let r = match d {
        0 => "0",
        1 => "1",
        2 => "2",
        3 => "3",
        4 => "4",
        5 => "5",
        6 => "6",
        7 => "7",
        8 => "8",
        _ => "9",
    };
    assert(r@ =~= seq![digit(d as nat)]);
    r
}

/// Appends a number in decimal.
pub fn push_decimal(out: &mut String, n: u64)
    ensures
        final(out)@ == old(out)@ + decimal(n as nat),
    decreases n,
{
    if n >= 10 {
        push_decimal(out, n / 10);
    }
    out.append(digit_str(n % 10));
    assert(out@ =~= old(out)@ + decimal(n as nat));
}

/// A number in decimal.
pub fn decimal_string(n: u64) -> (r: String)
    ensures
        r@ == decimal(n as nat),
{
    let mut r: String = String::new();
    push_decimal(&mut r, n);
    assert(r@ =~= decimal(n as nat));
    r
}

/// A text in quotation marks, with escapes.
pub uninterp spec fn quoted_text(s: Seq<char>) -> Seq<char>;

/// `<str as std::fmt::Debug>::fmt`: the text in quotation marks, with the escapes that the
/// standard library puts in. Which characters are escaped is not stated.
#[verifier::external_body]
pub(crate) fn quoted(s: &str) -> (r: String)
    ensures
        r@ == quoted_text(s@),
{
    format!("{:?}", s)
}

/// How debug output is put together.
#[derive(Clone, Copy, Debug, PartialEq, Eq, Structural)]
pub enum Form {
    /// Only a text.
    Atom,
    /// A name and named fields in braces.
    Struct,
    /// A name and values in parentheses.
    Tuple,
    /// Values in brackets.
    List,
}

/// Debug output before it is laid out.
#[verifier::ext_equal]
pub struct Tree {
    pub form: Form,
    /// The text of an atom, the name of a struct or tuple.
    pub text: Seq<char>,
    /// The names of the fields of a struct.
    pub labels: Seq<Seq<char>>,
    pub items: Seq<Tree>,
}

/// Debug output before it is laid out.
pub struct DebugNode {
    pub form: Form,
    /// The text of an atom, the name of a struct or tuple.
    pub text: String,
    /// The names of the fields of a struct.
    pub labels: Vec<String>,
    pub items: Vec<DebugNode>,
}

/// A [`DebugNode`] as a mathematical value.
pub open spec fn tree(node: DebugNode) -> Tree
    decreases node,
{
    Tree {
        form: node.form,
        text: node.text@,
        labels: texts(node.labels@),
        items: trees(node.items@),
    }
}

/// Several [`DebugNode`]s as mathematical values.
pub open spec fn trees(nodes: Seq<DebugNode>) -> Seq<Tree>
    decreases nodes,
{
    if nodes.len() == 0 {
        seq![]
    } else {
        trees(nodes.drop_last()).push(tree(nodes.last()))
    }
}

impl View for DebugNode {
    type V = Tree;

    open spec fn view(&self) -> Tree {
        tree(*self)
    }
}

/// An atom.
pub open spec fn atom(text: Seq<char>) -> Tree {
    Tree { form: Form::Atom, text, labels: seq![], items: seq![] }
}

/// A struct without fields.
pub open spec fn named(text: Seq<char>) -> Tree {
    Tree { form: Form::Struct, text, labels: seq![], items: seq![] }
}

/// A truth value.
pub open spec fn truth(b: bool) -> Tree {
    atom(
        if b {
            "true"@
        } else {
            "false"@
        },
    )
}

/// A tuple.
pub open spec fn tuple(text: Seq<char>, items: Seq<Tree>) -> Tree {
    Tree { form: Form::Tuple, text, labels: seq![], items }
}

/// A list.
pub open spec fn list(items: Seq<Tree>) -> Tree {
    Tree { form: Form::List, text: seq![], labels: seq![], items }
}

impl Tree {
    /// One more field.
    pub open spec fn field(self, label: Seq<char>, item: Tree) -> Tree {
        Tree { labels: self.labels.push(label), items: self.items.push(item), ..self }
    }
}

/// What stands before the items: in one line, and over several lines.
pub open spec fn opening(form: Form, pretty: bool) -> Seq<char> {
    match form {
        Form::Atom => ""@,
        Form::Struct => if pretty {
            " {\n"@
        } else {
            " { "@
        },
        Form::Tuple => if pretty {
            "(\n"@
        } else {
            "("@
        },
        Form::List => if pretty {
            "[\n"@
        } else {
            "["@
        },
    }
}

/// What stands behind the items: in one line, and over several lines.
pub open spec fn closing(form: Form, pretty: bool) -> Seq<char> {
    match form {
        Form::Atom => ""@,
        Form::Struct => if pretty {
            "}"@
        } else {
            " }"@
        },
        Form::Tuple => ")"@,
        Form::List => "]"@,
    }
}

/// Spaces at the beginning of a line.
pub open spec fn padding(indent: nat) -> Seq<char> {
    Seq::new(indent, |i: int| ' ')
}

/// Debug output, in one line or over several lines. Lines that follow the first one are
/// indented by `indent`, and by four more for each level.
pub open spec fn render(t: Tree, pretty: bool, indent: nat) -> Seq<char>
    decreases t,
{
    if t.form == Form::Atom || (t.form == Form::Struct && t.items.len() == 0) {
        t.text
    } else if pretty && t.items.len() > 0 {
        t.text + opening(t.form, true) + lines(
            entries(t.form, t.labels, t.items, true, indent + 4),
            indent + 4,
        ) + padding(indent) + closing(t.form, true)
    } else {
        t.text + opening(t.form, false) + join(
            entries(t.form, t.labels, t.items, false, indent),
        ) + closing(t.form, false)
    }
}

/// The items, each behind its label if it has one.
pub open spec fn entries(
    form: Form,
    labels: Seq<Seq<char>>,
    items: Seq<Tree>,
    pretty: bool,
    indent: nat,
) -> Seq<Seq<char>>
    decreases items,
{
    if items.len() == 0 {
        seq![]
    } else {
        entries(form, labels, items.drop_last(), pretty, indent).push(
            label(form, labels, items.len() - 1) + render(items.last(), pretty, indent),
        )
    }
}

/// What stands before an item: the label of a field.
pub open spec fn label(form: Form, labels: Seq<Seq<char>>, i: int) -> Seq<char> {
    if form == Form::Struct && i < labels.len() {
        labels[i] + ": "@
    } else {
        ""@
    }
}

/// The parts on lines of their own, each with a comma behind it.
pub open spec fn lines(parts: Seq<Seq<char>>, indent: nat) -> Seq<char>
    decreases parts.len(),
{
    if parts.len() == 0 {
        seq![]
    } else {
        lines(parts.drop_last(), indent) + padding(indent) + parts.last() + ",\n"@
    }
}

proof fn lemma_trees(nodes: Seq<DebugNode>)
    ensures
        trees(nodes).len() == nodes.len(),
        forall|i: int| 0 <= i < nodes.len() ==> #[trigger] trees(nodes)[i] == tree(nodes[i]),
    decreases nodes.len(),
{
    if nodes.len() > 0 {
        let rest = nodes.drop_last();
        lemma_trees(rest);
        assert forall|i: int| 0 <= i < nodes.len() implies #[trigger] trees(nodes)[i] == tree(
            nodes[i],
        ) by {
            if i < rest.len() {
                assert(trees(nodes)[i] == trees(rest)[i]);
                assert(rest[i] == nodes[i]);
            }
        }
    }
}

/// One more node at the end.
pub proof fn lemma_trees_push(nodes: Seq<DebugNode>, node: DebugNode)
    ensures
        trees(nodes.push(node)) == trees(nodes).push(tree(node)),
{
    assert(nodes.push(node).drop_last() =~= nodes);
}

/// The entries for the first items are the first entries.
proof fn lemma_entries_take(
    form: Form,
    labels: Seq<Seq<char>>,
    items: Seq<Tree>,
    pretty: bool,
    indent: nat,
    n: int,
)
    requires
        0 <= n < items.len(),
    ensures
        entries(form, labels, items.take(n + 1), pretty, indent) == entries(
            form,
            labels,
            items.take(n),
            pretty,
            indent,
        ).push(label(form, labels, n) + render(items[n], pretty, indent)),
        entries(form, labels, items.take(n), pretty, indent).len() == n,
    decreases n,
{
    assert(items.take(n + 1).drop_last() =~= items.take(n));
    if n > 0 {
        lemma_entries_take(form, labels, items, pretty, indent, n - 1);
    }
}

impl DebugNode {
    /// An atom.
    pub fn atom(text: &str) -> (r: DebugNode)
        ensures
            r@ == atom(text@),
    {
        let r = DebugNode {
            form: Form::Atom,
            text: text.to_string(),
            labels: Vec::new(),
            items: Vec::new(),
        };
        assert(r@ =~= atom(text@));
        r
    }

    /// A number.
    pub fn number(n: u64) -> (r: DebugNode)
        ensures
            r@ == atom(decimal(n as nat)),
    {
        DebugNode::atom(&decimal_string(n))
    }

    /// A truth value.
    pub fn truth(b: bool) -> (r: DebugNode)
        ensures
            r@ == truth(b),
    {
        if b {
            DebugNode::atom("true")
        } else {
            DebugNode::atom("false")
        }
    }

    /// A struct without fields.
    pub fn named(text: &str) -> (r: DebugNode)
        ensures
            r@ == named(text@),
    {
        let r = DebugNode {
            form: Form::Struct,
            text: text.to_string(),
            labels: Vec::new(),
            items: Vec::new(),
        };
        assert(r@ =~= named(text@));
        r
    }

    /// A tuple.
    pub fn tuple(text: &str, items: Vec<DebugNode>) -> (r: DebugNode)
        ensures
            r@ == tuple(text@, trees(items@)),
    {
        let r = DebugNode {
            form: Form::Tuple,
            text: text.to_string(),
            labels: Vec::new(),
            items,
        };
        assert(r@ =~= tuple(text@, trees(items@)));
        r
    }

    /// A list.
    pub fn list(items: Vec<DebugNode>) -> (r: DebugNode)
        ensures
            r@ == list(trees(items@)),
    {
        let r = DebugNode {
            form: Form::List,
            text: String::new(),
            labels: Vec::new(),
            items,
        };
        assert(r@ =~= list(trees(items@)));
        r
    }

    /// The same with one more field.
    pub fn field(self, label: &str, item: DebugNode) -> (r: DebugNode)
        ensures
            r@ == self@.field(label@, item@),
    {
        let mut node = self;
        let ghost labels = node.labels@;
        let ghost items = node.items@;
        node.labels.push(label.to_string());
        node.items.push(item);
        proof {
            lemma_trees_push(items, item);
            assert(texts(node.labels@) =~= texts(labels).push(label@));
        }
        assert(node@ =~= self@.field(label@, item@));
        node
    }

    /// Lays out debug output, in one line or over several lines.
    pub fn render(&self, pretty: bool) -> (r: String)
        ensures
            r@ == render(self@, pretty, 0),
    {
        let mut out: String = String::new();
        let pad: String = String::new();
        assert(pad@ =~= padding(0));
        self.write(pretty, &pad, &mut out, Ghost(0));
        assert(out@ =~= render(self@, pretty, 0));
        out
    }

    /// Appends the label of an item.
    fn write_label(&self, i: usize, out: &mut String)
        ensures
            final(out)@ == old(out)@ + label(self.form, texts(self.labels@), i as int),
    {
        if self.form == Form::Struct && i < self.labels.len() {
            out.append(&self.labels[i]);
            out.append(": ");
        }
        proof {
            reveal_strlit("");
        }
        assert(out@ =~= old(out)@ + label(self.form, texts(self.labels@), i as int));
    }

    /// Appends debug output. `pad` stands at the beginning of the lines after the first one.
    fn write(&self, pretty: bool, pad: &String, out: &mut String, Ghost(indent): Ghost<nat>)
        requires
            pad@ == padding(indent),
        ensures
            final(out)@ == old(out)@ + render(self@, pretty, indent),
        decreases self,
    {
        let ghost t = self@;
        let ghost before = out@;
        proof {
            lemma_trees(self.items@);
        }
        out.append(&self.text);
        if self.form == Form::Atom || (self.form == Form::Struct && self.items.len() == 0) {
            return;
        }
        if pretty && self.items.len() > 0 {
            out.append(
                match self.form {
                    Form::Atom => "",
                    Form::Struct => " {\n",
                    Form::Tuple => "(\n",
                    Form::List => "[\n",
                },
            );
            let mut inner: String = pad.clone();
            inner.append("    ");
            proof {
                reveal_strlit("    ");
            }
            assert(inner@ =~= padding(indent + 4));
            let ghost parts = |n: int|
                entries(t.form, t.labels, t.items.take(n), true, indent + 4);
            let ghost head = before + t.text + opening(t.form, true);
            assert(t.items.take(0) =~= seq![]);
            assert(out@ =~= head + lines(parts(0), indent + 4));
            for i in 0..self.items.len()
                invariant
                    pretty,
                    t == self@,
                    trees(self.items@).len() == self.items@.len(),
                    forall|j: int|
                        0 <= j < self.items@.len() ==> #[trigger] trees(self.items@)[j] == tree(
                            self.items@[j],
                        ),
                    inner@ == padding(indent + 4),
                    parts == (|n: int|
                        entries(t.form, t.labels, t.items.take(n), true, indent + 4)),
                    out@ == head + lines(parts(i as int), indent + 4),
            {
                let ghost at = out@;
                out.append(&inner);
                self.write_label(i, out);
                self.items[i].write(pretty, &inner, out, Ghost(indent + 4));
                out.append(",\n");
                proof {
                    lemma_entries_take(t.form, t.labels, t.items, true, indent + 4, i as int);
                    let entry = label(t.form, t.labels, i as int) + render(
                        t.items[i as int],
                        true,
                        indent + 4,
                    );
                    assert(t.items[i as int] == self.items@[i as int]@);
                    assert(parts(i + 1) == parts(i as int).push(entry));
                    assert(parts(i + 1).drop_last() =~= parts(i as int));
                    assert(out@ =~= head + lines(parts(i + 1), indent + 4));
                }
            }
            assert(t.items.take(t.items.len() as int) =~= t.items);
            out.append(pad);
            out.append(
                match self.form {
                    Form::Atom => "",
                    Form::Struct => "}",
                    Form::Tuple => ")",
                    Form::List => "]",
                },
            );
            assert(out@ =~= before + render(t, pretty, indent));
        } else {
            out.append(
                match self.form {
                    Form::Atom => "",
                    Form::Struct => " { ",
                    Form::Tuple => "(",
                    Form::List => "[",
                },
            );
            let ghost parts = |n: int|
                entries(t.form, t.labels, t.items.take(n), false, indent);
            let ghost head = before + t.text + opening(t.form, false);
            assert(t.items.take(0) =~= seq![]);
            assert(out@ =~= head + join(parts(0)));
            for i in 0..self.items.len()
                invariant
                    !(pretty && self.items@.len() > 0),
                    t == self@,
                    pad@ == padding(indent),
                    trees(self.items@).len() == self.items@.len(),
                    forall|j: int|
                        0 <= j < self.items@.len() ==> #[trigger] trees(self.items@)[j] == tree(
                            self.items@[j],
                        ),
                    parts == (|n: int|
                        entries(t.form, t.labels, t.items.take(n), false, indent)),
                    out@ == head + join(parts(i as int)),
            {
                if i > 0 {
                    out.append(", ");
                }
                self.write_label(i, out);
                self.items[i].write(pretty, pad, out, Ghost(indent));
                proof {
                    lemma_entries_take(t.form, t.labels, t.items, false, indent, i as int);
                    let entry = label(t.form, t.labels, i as int) + render(
                        t.items[i as int],
                        false,
                        indent,
                    );
                    assert(t.items[i as int] == self.items@[i as int]@);
                    assert(parts(i + 1) == parts(i as int).push(entry));
                    lemma_join_push(parts(i as int), entry);
                    assert(out@ =~= head + join(parts(i + 1)));
                }
            }
            assert(t.items.take(t.items.len() as int) =~= t.items);
            out.append(
                match self.form {
                    Form::Atom => "",
                    Form::Struct => " }",
                    Form::Tuple => ")",
                    Form::List => "]",
                },
            );
            assert(out@ =~= before + render(t, pretty, indent));
        }
    }
}

} // verus!
