//! Questions that structural rules ask of the syntax tree: what encloses a node,
//! what a function's body holds, which attributes an item carries.

use vstd::prelude::*;
use crate::numerals::{char_width, utf8_width};
use crate::syntax::{FunctionInfo, NodeKind, SyntaxNode, well_formed};
use crate::text::{chars_of, has_prefix, same_text, starts_with};
use crate::textlines::{string_texts, texts, trim, trimmed};

verus! {

/// What a structural rule found at one place.
#[derive(Debug, Clone)]
pub struct Finding {
    /// The name of the construct found.
    pub subject: String,
    /// A measured value, for rules that measure.
    pub value: u32,
    /// A short description of the place.
    pub context: String,
}

/// What a [`Finding`] says.
pub struct FindingView {
    pub subject: Seq<char>,
    pub value: u32,
    pub context: Seq<char>,
}

impl View for Finding {
    type V = FindingView;

    open spec fn view(&self) -> FindingView {
        FindingView { subject: self.subject@, value: self.value, context: self.context@ }
    }
}

/// What each finding of a list says.
pub open spec fn finding_views(fs: Seq<Finding>) -> Seq<FindingView> {
    fs.map_values(|f: Finding| f@)
}

/// A finding without a measured value.
pub open spec fn plain_finding(subject: Seq<char>, context: Seq<char>) -> FindingView {
    FindingView { subject, value: 0, context }
}

/// A number as a `u32`, or the largest `u32` when it does not fit.
pub open spec fn clamped(n: int) -> u32 {
    if n < 0 {
        0
    } else if n > u32::MAX {
        u32::MAX
    } else {
        n as u32
    }
}

/// A number as a `u32`, or the largest `u32` when it does not fit.
pub fn clamp(n: usize) -> (r: u32)
    ensures
        r == clamped(n as int),
{
    if n > u32::MAX as usize {
        u32::MAX
    } else {
        n as u32
    }
}

/// Whether one of the texts of `list` is `name`.
pub open spec fn lists(list: Seq<Seq<char>>, name: Seq<char>) -> bool {
    exists|k: int| 0 <= k < list.len() && #[trigger] list[k] == name
}

/// Whether one of the strings of `list` says `name`.
pub fn is_listed(list: &Vec<String>, name: &str) -> (b: bool)
    ensures
        b == lists(string_texts(list@), name@),
{
    let mut k: usize = 0;
    while k < list.len()
        invariant
            k <= list.len(),
            forall|j: int| 0 <= j < k ==> string_texts(list@)[j] != name@,
        decreases list.len() - k,
    {
        if same_text(list[k].as_str(), name) {
            assert(string_texts(list@)[k as int] == name@);
            return true;
        }
        k += 1;
    }
    false
}

/// The number of bytes that a text takes in UTF-8.
pub open spec fn utf8_len(s: Seq<char>) -> nat
    decreases s.len(),
{
    if s.len() == 0 {
        0
    } else {
        utf8_len(s.drop_last()) + utf8_width(s.last())
    }
}

/// Whether the UTF-8 form of `s` is shorter than `limit` bytes.
pub fn shorter_than(s: &[char], limit: usize) -> (b: bool)
    ensures
        b == (utf8_len(s@) < limit),
{
    if limit == 0 {
        return false;
    }
    let mut total: usize = 0;
    let mut i: usize = 0;
    assert(s@.take(0) =~= Seq::<char>::empty());
    while i < s.len()
        invariant
            i <= s.len(),
            total == utf8_len(s@.take(i as int)),
            total < limit,
        decreases s.len() - i,
    {
        let w = char_width(s[i]);
        proof {
            assert(s@.take(i + 1).drop_last() =~= s@.take(i as int));
            lemma_utf8_len_grows(s@, i + 1);
        }
        if w >= limit - total {
            return false;
        }
        total = total + w;
        i += 1;
    }
    assert(s@.take(s@.len() as int) =~= s@);
    true
}

proof fn lemma_utf8_len_grows(s: Seq<char>, k: int)
    requires
        0 <= k <= s.len(),
    ensures
        utf8_len(s.take(k)) <= utf8_len(s),
    decreases s.len() - k,
{
    if k == s.len() {
        assert(s.take(k) =~= s);
    } else {
        lemma_utf8_len_grows(s.drop_last(), k);
        assert(s.drop_last().take(k) =~= s.take(k));
    }
}

/// Whether the node kind opens a level of nesting: a block, an `if`, a `match`.
pub open spec fn opens_level(kind: NodeKind) -> bool {
    kind is Block || kind is If || kind is Match
}

/// How deeply node `j` is nested: the number of blocks, `if`s and `match`es
/// among the node and the nodes that enclose it.
pub open spec fn depth(nodes: Seq<SyntaxNode>, j: int) -> nat
    decreases j,
{
    if j < 0 || j >= nodes.len() {
        0
    } else {
        (if opens_level(nodes[j].kind) {
            1nat
        } else {
            0nat
        }) + (match nodes[j].parent {
            Some(p) => if p < j {
                depth(nodes, p as int)
            } else {
                0
            },
            None => 0,
        })
    }
}

fn level_opener(kind: &NodeKind) -> (b: bool)
    ensures
        b == opens_level(*kind),
{
    match kind {
        NodeKind::Block => true,
        NodeKind::If => true,
        NodeKind::Match { .. } => true,
        _ => false,
    }
}

proof fn lemma_depth_bounded(nodes: Seq<SyntaxNode>, j: int)
    requires
        0 <= j < nodes.len(),
    ensures
        depth(nodes, j) <= j + 1,
    decreases j,
{
    match nodes[j].parent {
        Some(p) => {
            if p < j {
                lemma_depth_bounded(nodes, p as int);
            }
        },
        None => {},
    }
}

/// The depth of node `j`.
pub fn depth_of(nodes: &Vec<SyntaxNode>, j: usize) -> (d: usize)
    requires
        well_formed(nodes@),
        j < nodes@.len(),
    ensures
        d == depth(nodes@, j as int),
{
    let mut d: usize = 0;
    let mut at: usize = j;
    loop
        invariant
            well_formed(nodes@),
            at <= j < nodes@.len(),
            d + depth(nodes@, at as int) == depth(nodes@, j as int),
        decreases at,
    {
        proof {
            lemma_depth_bounded(nodes@, j as int);
        }
        if level_opener(&nodes[at].kind) {
            d += 1;
        }
        match nodes[at].parent {
            Some(p) => {
                at = p;
            },
            None => {
                return d;
            },
        }
    }
}

/// Whether the nearest function that encloses node `j` is `async`.
pub open spec fn in_async_fn(nodes: Seq<SyntaxNode>, j: int) -> bool
    decreases j,
{
    if j < 0 || j >= nodes.len() {
        false
    } else {
        match nodes[j].parent {
            Some(p) => if p < j {
                match nodes[p as int].kind {
                    NodeKind::Function(f) => f.is_async,
                    _ => in_async_fn(nodes, p as int),
                }
            } else {
                false
            },
            None => false,
        }
    }
}

/// Whether the nearest function that encloses node `j` is `async`.
pub fn within_async_fn(nodes: &Vec<SyntaxNode>, j: usize) -> (b: bool)
    requires
        well_formed(nodes@),
        j < nodes@.len(),
    ensures
        b == in_async_fn(nodes@, j as int),
{
    let mut at: usize = j;
    loop
        invariant
            well_formed(nodes@),
            at < nodes@.len(),
            in_async_fn(nodes@, at as int) == in_async_fn(nodes@, j as int),
        decreases at,
    {
        match nodes[at].parent {
            Some(p) => {
                match &nodes[p].kind {
                    NodeKind::Function(f) => {
                        return f.is_async;
                    },
                    _ => {
                        at = p;
                    },
                }
            },
            None => {
                return false;
            },
        }
    }
}

/// The nodes of the body of the function at position `i`, as a range of
/// positions; empty when the function names no block as its body.
pub open spec fn body_range(nodes: Seq<SyntaxNode>, i: int) -> (int, int) {
    match nodes[i].kind {
        NodeKind::Function(f) => if i < f.body < nodes.len() && nodes[f.body as int].kind is Block
            && f.body < nodes[f.body as int].end <= nodes.len() {
            (f.body as int, nodes[f.body as int].end as int)
        } else {
            (0, 0)
        },
        _ => (0, 0),
    }
}

/// The range of positions of the nodes of a function's body.
pub fn body_range_of(nodes: &Vec<SyntaxNode>, i: usize, f: &FunctionInfo) -> (r: (usize, usize))
    requires
        i < nodes@.len(),
        nodes@[i as int].kind == NodeKind::Function(*f),
    ensures
        (r.0 as int, r.1 as int) == body_range(nodes@, i as int),
        r.0 <= r.1 <= nodes@.len(),
{
    if i < f.body && f.body < nodes.len() {
        let block = &nodes[f.body];
        if matches!(block.kind, NodeKind::Block) && f.body < block.end && block.end <= nodes.len() {
            return (f.body, block.end);
        }
    }
    (0, 0)
}

/// A line that holds code: not blank and not a line comment.
pub open spec fn is_code_line(line: Seq<char>) -> bool {
    trimmed(line).len() > 0 && !has_prefix(trimmed(line), "//"@)
}

/// The number of code lines among the first `n` lines.
pub open spec fn code_lines(lines: Seq<Seq<char>>, n: int) -> nat
    decreases n,
{
    if n <= 0 {
        0
    } else {
        code_lines(lines, n - 1) + (if is_code_line(lines[n - 1]) {
            1nat
        } else {
            0nat
        })
    }
}

/// The number of lines that hold code.
pub fn count_code_lines(lines: &Vec<Vec<char>>) -> (n: usize)
    ensures
        n == code_lines(texts(lines@), lines@.len() as int),
{
    let marker = chars_of("//");
    let mut n: usize = 0;
    let mut i: usize = 0;
    while i < lines.len()
        invariant
            i <= lines.len(),
            marker@ == "//"@,
            n == code_lines(texts(lines@), i as int),
            n <= i,
        decreases lines.len() - i,
    {
        let t = trim(lines[i].as_slice());
        assert(texts(lines@)[i as int] == lines@[i as int]@);
        if t.len() > 0 && !starts_with(t.as_slice(), marker.as_slice()) {
            n += 1;
        }
        i += 1;
    }
    n
}

/// Whether two optional strings say the same.
pub fn option_says(o: &Option<String>, text: &str) -> (b: bool)
    ensures
        b == (crate::domain::violations::opt_text(*o) == Some(text@)),
{
    match o {
        Some(s) => same_text(s.as_str(), text),
        None => false,
    }
}

} // verus!
