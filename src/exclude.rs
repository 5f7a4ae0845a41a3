//! The lines of a Git exclude file: blank lines, comments, patterns that
//! re-include, and patterns that exclude.

use std::convert::Infallible;
use std::str::FromStr;
use vstd::prelude::*;
use vstd::string::*;

use crate::text::{split_at_sep, split_first};

verus! {

/// One line of an exclude file.
#[derive(Debug)]
pub enum Node {
    Empty,
    Comment(String),
    Include(String),
    Exclude(String),
}

/// The model of a [`Node`].
pub enum NodeView {
    Empty,
    Comment(Seq<char>),
    Include(Seq<char>),
    Exclude(Seq<char>),
}

impl View for Node {
    type V = NodeView;

    open spec fn view(&self) -> NodeView {
        match self {
            Node::Empty => NodeView::Empty,
            Node::Comment(s) => NodeView::Comment(s@),
            Node::Include(s) => NodeView::Include(s@),
            Node::Exclude(s) => NodeView::Exclude(s@),
        }
    }
}

/// The node that line `s` holds: a comment after `#`, an inclusion after `!`,
/// nothing when it is empty, an exclusion otherwise.
pub open spec fn parse_node(s: Seq<char>) -> NodeView {
    if s.len() == 0 {
        NodeView::Empty
    } else if s[0] == '#' {
        NodeView::Comment(s.drop_first())
    } else if s[0] == '!' {
        NodeView::Include(s.drop_first())
    } else {
        NodeView::Exclude(s)
    }
}

/// The line that node `n` is written as.
pub open spec fn render_node(n: NodeView) -> Seq<char> {
    match n {
        NodeView::Empty => Seq::empty(),
        NodeView::Comment(c) => seq!['#'] + c,
        NodeView::Include(i) => seq!['!'] + i,
        NodeView::Exclude(e) => e,
    }
}

impl Node {
    /// The node that line `s` holds.
    pub fn parse(s: &str) -> (r: Node)
        ensures
            r@ == parse_node(s@),
    {
        let n = s.unicode_len();
        if n == 0 {
            return Node::Empty;
        }
        let first = s.get_char(0);
        let rest = s.substring_char(1, n).to_owned();
        if first == '#' {
            Node::Comment(rest)
        } else if first == '!' {
            Node::Include(rest)
        } else {
            Node::Exclude(s.to_owned())
        }
    }

    /// The line this node is written as.
    pub fn to_string(&self) -> (r: String)
        ensures
            r@ == render_node(self@),
    {
        proof {
            reveal_strlit("#");
            reveal_strlit("!");
        }
        match self {
            Node::Empty => String::new(),
            Node::Comment(c) => {
                let mut r = "#".to_owned();
                r.append(c.as_str());
                r
            },
            Node::Include(i) => {
                let mut r = "!".to_owned();
                r.append(i.as_str());
                r
            },
            Node::Exclude(e) => e.clone(),
        }
    }
}

impl FromStr for Node {
    type Err = Infallible;

    fn from_str(s: &str) -> Result<Node, Infallible> {
        Ok(Node::parse(s))
    }
}

impl PartialEq for Node {
    fn eq(&self, other: &Node) -> (r: bool) {
        match (self, other) {
            (Node::Empty, Node::Empty) => true,
            (Node::Comment(a), Node::Comment(b)) => a.eq(b),
            (Node::Include(a), Node::Include(b)) => a.eq(b),
            (Node::Exclude(a), Node::Exclude(b)) => a.eq(b),
            _ => false,
        }
    }
}

impl vstd::std_specs::cmp::PartialEqSpecImpl for Node {
    open spec fn obeys_eq_spec() -> bool {
        true
    }

    open spec fn eq_spec(&self, other: &Node) -> bool {
        self@ == other@
    }
}

impl Eq for Node {
}

/// The nodes of an exclude file, in order.
#[derive(Debug, Default)]
pub struct File {
    nodes: Vec<Node>,
}

impl View for File {
    type V = Seq<NodeView>;

    closed spec fn view(&self) -> Seq<NodeView> {
        self.nodes@.map_values(|n: Node| n@)
    }
}

impl File {
    /// A file of the nodes `nodes`.
    pub fn new(nodes: Vec<Node>) -> (r: File)
        ensures
            r@ == nodes@.map_values(|n: Node| n@),
    {
        File { nodes }
    }

    /// The nodes, in order.
    pub fn nodes(&self) -> (r: &Vec<Node>)
        ensures
            r@.map_values(|n: Node| n@) == self@,
    {
        &self.nodes
    }

    /// The number of nodes.
    pub fn len(&self) -> (r: usize)
        ensures
            r == self@.len(),
    {
        self.nodes.len()
    }

    /// Whether the file holds a node equal to `node`.
    pub fn contains(&self, node: &Node) -> (r: bool)
        ensures
            r == self@.contains(node@),
    {
        let n = self.nodes.len();
        let mut i: usize = 0;
        while i < n
            invariant
                n == self.nodes@.len(),
                n == self@.len(),
                i <= n,
                forall|j: int| 0 <= j < i ==> self@[j] != node@,
            decreases n - i,
        {
            if self.nodes[i].eq(node) {
                assert(self@[i as int] == node@);
                return true;
            }
            i = i + 1;
        }
        false
    }

    /// Appends `node`.
    pub fn push(&mut self, node: Node)
        ensures
            final(self)@ == old(self)@.push(node@),
    {
        self.nodes.push(node);
        assert(self@ =~= old(self)@.push(node@));
    }

    /// Appends `node` unless the file already holds an equal one.
    pub fn add_or_noop(&mut self, node: Node)
        ensures
            final(self)@ == if old(self)@.contains(node@) {
                old(self)@
            } else {
                old(self)@.push(node@)
            },
    {
        if !self.contains(&node) {
            self.push(node);
        }
    }

    /// The file's text: each node's line followed by a newline.
    pub fn render(&self) -> (r: String)
        ensures
            r@ == render_lines(self@),
    {
        let n = self.nodes.len();
        let mut out = String::new();
        let mut i: usize = 0;
        while i < n
            invariant
                n == self.nodes@.len(),
                n == self@.len(),
                i <= n,
                out@ == render_lines(self@.take(i as int)),
            decreases n - i,
        {
            proof {
                reveal_strlit("\n");
            }
            assert(self@.take(i + 1).drop_last() =~= self@.take(i as int));
            assert(self@.take(i + 1).last() == self.nodes@[i as int]@);
            out.append(self.nodes[i].to_string().as_str());
            out.append("\n");
            i = i + 1;
        }
        assert(self@.take(n as int) =~= self@);
        out
    }
}

/// `line` without one trailing carriage return.
pub open spec fn chomp_cr(line: Seq<char>) -> Seq<char> {
    if line.len() > 0 && line.last() == '\r' {
        line.drop_last()
    } else {
        line
    }
}

/// The lines of `s`: split at each newline, a carriage return before a newline
/// dropped, and no empty line after a final newline.
pub open spec fn text_lines(s: Seq<char>) -> Seq<Seq<char>>
    decreases s.len(),
{
    if s.len() == 0 {
        Seq::empty()
    } else {
        match split_at_sep(s, '\n', '\n') {
            Some((line, rest)) => seq![chomp_cr(line)] + text_lines(rest),
            None => seq![s],
        }
    }
}

/// The nodes that text `s` holds, one for each line.
pub open spec fn parse_lines(s: Seq<char>) -> Seq<NodeView> {
    text_lines(s).map_values(|l: Seq<char>| parse_node(l))
}

fn chomp(line: &str) -> (r: String)
    ensures
        r@ == chomp_cr(line@),
{
    let n = line.unicode_len();
    if n > 0 && line.get_char(n - 1) == '\r' {
        line.substring_char(0, n - 1).to_owned()
    } else {
        line.to_owned()
    }
}

impl File {
    /// The nodes that `content` holds, one for each line.
    pub fn parse(content: &str) -> (r: File)
        ensures
            r@ == parse_lines(content@),
    {
        let mut file = File { nodes: Vec::new() };
        let mut remaining = content.to_owned();
        assert(file@ =~= Seq::<NodeView>::empty());
        assert(file@ + parse_lines(remaining@) =~= parse_lines(content@));
        while remaining.as_str().unicode_len() > 0
            invariant
                file@ + parse_lines(remaining@) == parse_lines(content@),
            decreases remaining@.len(),
        {
            let ghost before = remaining@;
            match split_first(remaining.as_str(), '\n', '\n') {
                Some((line, rest)) => {
                    let node = Node::parse(chomp(line.as_str()).as_str());
                    file.push(node);
                    assert(parse_lines(before) =~= seq![node@] + parse_lines(rest@));
                    assert(file@ + parse_lines(rest@) =~= parse_lines(content@));
                    remaining = rest;
                },
                None => {
                    let node = Node::parse(remaining.as_str());
                    file.push(node);
                    assert(parse_lines(before) =~= seq![node@]);
                    assert(parse_lines(Seq::<char>::empty()) =~= Seq::<NodeView>::empty());
                    assert(file@ + parse_lines(Seq::<char>::empty()) =~= parse_lines(content@));
                    remaining = String::new();
                },
            }
        }
        assert(parse_lines(remaining@) =~= Seq::<NodeView>::empty());
        assert(file@ =~= parse_lines(content@));
        file
    }
}

/// Each node's line followed by a newline, in order.
pub open spec fn render_lines(nodes: Seq<NodeView>) -> Seq<char>
    decreases nodes.len(),
{
    if nodes.len() == 0 {
        Seq::empty()
    } else {
        render_lines(nodes.drop_last()) + render_node(nodes.last()) + seq!['\n']
    }
}

} // verus!
