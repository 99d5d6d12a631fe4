//! Structural rules: the kinds of check, what each finds at a node, and the scan
//! of a whole tree.

use vstd::prelude::*;
use crate::bindings::regex_spans;
use crate::patterns::expression::Expression;
use crate::numerals::decimal;
use crate::patterns::checks::{
    concat2, concat3, concat5, empty_body, empty_body_at, empty_ok, empty_ok_at, future_at,
    future_call, has_attribute, ignored_test, ignored_test_at, inherent_impl, inherent_impl_at,
    macro_call, macro_call_at, many_args, many_args_at, number_text, option_view, select_at,
    select_macro, unbounded_at, unbounded_generics, undocumented, undocumented_at, unsafe_at,
    unsafe_code, unwrap_at, unwrap_call,
};
use crate::patterns::outline::{
    body_range, body_range_of, clamp, clamped, code_lines, count_code_lines, depth, depth_of,
    finding_views, in_async_fn, is_listed, opens_level, plain_finding, within_async_fn, Finding,
    FindingView,
};
use crate::syntax::{MacroPosition, NodeKind, SyntaxNode, SyntaxTree, well_formed};
use crate::text::{chars_of, has_prefix, same_text, slice_of, starts_with, string_of};
use crate::textlines::{lines, lines_of, string_texts};

verus! {

/// The kinds of structural check.
#[derive(Debug)]
pub enum AstPatternType {
    /// Invocations of the named macros.
    MacroCall(Vec<String>),
    /// Functions that return `Ok(())` and do nothing else.
    EmptyOkReturn,
    /// Files without an architectural header.
    MissingArchitecturalHeader,
    /// Functions with empty bodies.
    EmptyFunctionBody,
    /// Calls of `unwrap`, or of `expect` without a message that helps.
    UnwrapOrExpectWithoutMessage,
    /// Imports whose text matches the expression.
    AbstractionLayerViolation(Expression),
    /// Functions whose cyclomatic complexity exceeds the threshold.
    CyclomaticComplexity(u32),
    /// Public items without documentation.
    PublicWithoutDocs,
    /// Functions with more code lines than the threshold.
    FunctionLinesGt(u32),
    /// Code nested more deeply than the threshold.
    NestingDepthGt(u32),
    /// Functions with more arguments than the threshold.
    FunctionArgsGt(u32),
    /// Blocking calls inside `async` functions.
    BlockingCallInAsync,
    /// Calls that return a future.
    FutureNotAwaited,
    /// `select!` without `biased`.
    SelectWithoutBiased,
    /// Type parameters without bounds.
    GenericWithoutBounds,
    /// Test functions without an assertion.
    TestFnWithoutAssertion,
    /// Inherent `impl` blocks.
    ImplWithoutTrait,
    /// `unsafe` blocks and functions.
    UnsafeBlock,
    /// Test functions that are ignored.
    IgnoredTestAttribute,
}

/// What an [`AstPatternType`] says.
pub enum CheckView {
    MacroCall(Seq<Seq<char>>),
    EmptyOkReturn,
    MissingArchitecturalHeader,
    EmptyFunctionBody,
    UnwrapOrExpectWithoutMessage,
    /// The expression's pattern text, and whether it ignores letter case.
    AbstractionLayerViolation { source: Seq<char>, fold_case: bool },
    CyclomaticComplexity(u32),
    PublicWithoutDocs,
    FunctionLinesGt(u32),
    NestingDepthGt(u32),
    FunctionArgsGt(u32),
    BlockingCallInAsync,
    FutureNotAwaited,
    SelectWithoutBiased,
    GenericWithoutBounds,
    TestFnWithoutAssertion,
    ImplWithoutTrait,
    UnsafeBlock,
    IgnoredTestAttribute,
}

impl View for AstPatternType {
    type V = CheckView;

    open spec fn view(&self) -> CheckView {
        match self {
            AstPatternType::MacroCall(names) => CheckView::MacroCall(string_texts(names@)),
            AstPatternType::EmptyOkReturn => CheckView::EmptyOkReturn,
            AstPatternType::MissingArchitecturalHeader => CheckView::MissingArchitecturalHeader,
            AstPatternType::EmptyFunctionBody => CheckView::EmptyFunctionBody,
            AstPatternType::UnwrapOrExpectWithoutMessage => CheckView::UnwrapOrExpectWithoutMessage,
            AstPatternType::AbstractionLayerViolation(re) => CheckView::AbstractionLayerViolation {
                source: re.source(),
                fold_case: re.folds_case(),
            },
            AstPatternType::CyclomaticComplexity(t) => CheckView::CyclomaticComplexity(*t),
            AstPatternType::PublicWithoutDocs => CheckView::PublicWithoutDocs,
            AstPatternType::FunctionLinesGt(t) => CheckView::FunctionLinesGt(*t),
            AstPatternType::NestingDepthGt(t) => CheckView::NestingDepthGt(*t),
            AstPatternType::FunctionArgsGt(t) => CheckView::FunctionArgsGt(*t),
            AstPatternType::BlockingCallInAsync => CheckView::BlockingCallInAsync,
            AstPatternType::FutureNotAwaited => CheckView::FutureNotAwaited,
            AstPatternType::SelectWithoutBiased => CheckView::SelectWithoutBiased,
            AstPatternType::GenericWithoutBounds => CheckView::GenericWithoutBounds,
            AstPatternType::TestFnWithoutAssertion => CheckView::TestFnWithoutAssertion,
            AstPatternType::ImplWithoutTrait => CheckView::ImplWithoutTrait,
            AstPatternType::UnsafeBlock => CheckView::UnsafeBlock,
            AstPatternType::IgnoredTestAttribute => CheckView::IgnoredTestAttribute,
        }
    }
}

// ---------------------------------------------------------------------------
// Checks that look at a node in its surroundings
// ---------------------------------------------------------------------------

/// What a node adds to the cyclomatic complexity of the function around it.
pub open spec fn branch_weight(kind: NodeKind) -> int {
    match kind {
        NodeKind::If => 1,
        NodeKind::While => 1,
        NodeKind::ForLoop => 1,
        NodeKind::Loop => 1,
        NodeKind::Match { arms } => arms as int,
        NodeKind::MethodCall(c) => if c.receiver_is_try {
            1
        } else {
            0
        },
        _ => 0,
    }
}

/// The weights of the nodes at positions `lo` up to `hi`, added up.
pub open spec fn branch_weights(nodes: Seq<SyntaxNode>, lo: int, hi: int) -> int
    decreases hi - lo,
{
    if hi <= lo {
        0
    } else {
        branch_weights(nodes, lo, hi - 1) + branch_weight(nodes[hi - 1].kind)
    }
}

/// The cyclomatic complexity of the function at position `i`: one, plus one for
/// every `if` and loop of its body, plus the arms of every `match`, plus one for
/// every method call on a `?` expression. Complexities beyond the largest
/// `u32` count as that.
pub open spec fn complexity(nodes: Seq<SyntaxNode>, i: int) -> u32 {
    let (lo, hi) = body_range(nodes, i);
    clamped(1 + branch_weights(nodes, lo, hi))
}

fn complexity_of(nodes: &Vec<SyntaxNode>, lo: usize, hi: usize) -> (c: u32)
    requires
        lo <= hi <= nodes@.len(),
    ensures
        c == clamped(1 + branch_weights(nodes@, lo as int, hi as int)),
{
    let mut total: u64 = 1;
    let mut k: usize = lo;
    while k < hi
        invariant
            lo <= k <= hi <= nodes@.len(),
            total <= u32::MAX as u64 + 1,
            total == (if 1 + branch_weights(nodes@, lo as int, k as int) > u32::MAX {
                u32::MAX as int + 1
            } else {
                1 + branch_weights(nodes@, lo as int, k as int)
            }),
        decreases hi - k,
    {
        let w: usize = match &nodes[k].kind {
            NodeKind::If => 1,
            NodeKind::While => 1,
            NodeKind::ForLoop => 1,
            NodeKind::Loop => 1,
            NodeKind::Match { arms } => *arms,
            NodeKind::MethodCall(c) => if c.receiver_is_try {
                1
            } else {
                0
            },
            _ => 0,
        };
        assert(w == branch_weight(nodes@[k as int].kind));
        let limit: u64 = u32::MAX as u64 + 1;
        if w as u64 >= limit - total {
            total = limit;
        } else {
            total = total + w as u64;
        }
        k += 1;
    }
    if total > u32::MAX as u64 {
        u32::MAX
    } else {
        total as u32
    }
}

/// A function whose complexity exceeds the threshold.
pub open spec fn complex_at(nodes: Seq<SyntaxNode>, threshold: u32, i: int) -> Option<FindingView> {
    match nodes[i].kind {
        NodeKind::Function(f) => if complexity(nodes, i) > threshold {
            let c = complexity(nodes, i);
            Some(
                FindingView {
                    subject: f.name@,
                    value: c,
                    context: "fn "@ + f.name@ + " (complexity: "@ + decimal(c as nat) + ")"@,
                },
            )
        } else {
            None
        },
        _ => None,
    }
}

fn complex_function(nodes: &Vec<SyntaxNode>, threshold: u32, i: usize) -> (r: Option<Finding>)
    requires
        i < nodes@.len(),
    ensures
        option_view(r) == complex_at(nodes@, threshold, i as int),
{
    match &nodes[i].kind {
        NodeKind::Function(f) => {
            let (lo, hi) = body_range_of(nodes, i, f);
            let c = complexity_of(nodes, lo, hi);
            if c > threshold {
                let n = number_text(c);
                Some(
                    Finding {
                        subject: f.name.clone(),
                        value: c,
                        context: concat5("fn ", f.name.as_str(), " (complexity: ", n.as_str(), ")"),
                    },
                )
            } else {
                None
            }
        },
        _ => None,
    }
}

/// The number of code lines of a function's body text, as a `u32`.
pub open spec fn body_lines(body_text: Seq<char>) -> u32 {
    clamped(code_lines(lines_of(body_text), lines_of(body_text).len() as int) as int)
}

/// A function whose body has more code lines than the threshold.
pub open spec fn long_at(threshold: u32, kind: NodeKind) -> Option<FindingView> {
    match kind {
        NodeKind::Function(f) => if body_lines(f.body_text@) > threshold {
            let n = body_lines(f.body_text@);
            Some(
                FindingView {
                    subject: f.name@,
                    value: n,
                    context: "fn "@ + f.name@ + " ("@ + decimal(n as nat) + " lines)"@,
                },
            )
        } else {
            None
        },
        _ => None,
    }
}

fn long_function(threshold: u32, kind: &NodeKind) -> (r: Option<Finding>)
    ensures
        option_view(r) == long_at(threshold, *kind),
{
    match kind {
        NodeKind::Function(f) => {
            let text = chars_of(f.body_text.as_str());
            let all = lines(text.as_slice());
            let n = clamp(count_code_lines(&all));
            if n > threshold {
                let count = number_text(n);
                Some(
                    Finding {
                        subject: f.name.clone(),
                        value: n,
                        context: concat5("fn ", f.name.as_str(), " (", count.as_str(), " lines)"),
                    },
                )
            } else {
                None
            }
        },
        _ => None,
    }
}

/// How a kind of nesting is called in a finding.
pub open spec fn level_name(kind: NodeKind) -> Seq<char> {
    match kind {
        NodeKind::If => "if statement at depth "@,
        NodeKind::Match { .. } => "match statement at depth "@,
        _ => "nested block at depth "@,
    }
}

/// A block, `if` or `match` that is nested more deeply than the threshold.
pub open spec fn deep_at(nodes: Seq<SyntaxNode>, threshold: u32, i: int) -> Option<FindingView> {
    if opens_level(nodes[i].kind) && clamped(depth(nodes, i) as int) > threshold {
        let d = clamped(depth(nodes, i) as int);
        Some(
            FindingView {
                subject: ""@,
                value: d,
                context: level_name(nodes[i].kind) + decimal(d as nat),
            },
        )
    } else {
        None
    }
}

fn deep_nesting(nodes: &Vec<SyntaxNode>, threshold: u32, i: usize) -> (r: Option<Finding>)
    requires
        well_formed(nodes@),
        i < nodes@.len(),
    ensures
        option_view(r) == deep_at(nodes@, threshold, i as int),
{
    let lead = match &nodes[i].kind {
        NodeKind::Block => "nested block at depth ",
        NodeKind::If => "if statement at depth ",
        NodeKind::Match { .. } => "match statement at depth ",
        _ => {
            return None;
        },
    };
    let d = clamp(depth_of(nodes, i));
    if d > threshold {
        let n = number_text(d);
        Some(Finding { subject: "".to_owned(), value: d, context: concat2(lead, n.as_str()) })
    } else {
        None
    }
}

/// A method that blocks the calling thread.
pub open spec fn is_blocking_method(name: Seq<char>) -> bool {
    name == "read_to_string"@ || name == "write_all"@ || name == "flush"@ || name == "recv"@
        || name == "send"@ || name == "lock"@ || name == "read"@ || name == "write"@
}

/// A function that blocks the calling thread.
pub open spec fn is_blocking_function(name: Seq<char>) -> bool {
    name == "thread::sleep"@ || name == "std::thread::sleep"@ || name == "sleep"@
}

/// A blocking call inside an `async` function.
pub open spec fn blocking_at(nodes: Seq<SyntaxNode>, i: int) -> Option<FindingView> {
    if !in_async_fn(nodes, i) {
        None
    } else {
        match nodes[i].kind {
            NodeKind::MethodCall(c) => if is_blocking_method(c.method@) {
                Some(plain_finding(c.method@, "."@ + c.method@ + "()"@))
            } else {
                None
            },
            NodeKind::Call { callee: Some(n) } => if is_blocking_function(n@) {
                Some(plain_finding(n@, n@ + "()"@))
            } else {
                None
            },
            _ => None,
        }
    }
}

fn blocking_method(name: &str) -> (b: bool)
    ensures
        b == is_blocking_method(name@),
{
    same_text(name, "read_to_string") || same_text(name, "write_all") || same_text(name, "flush")
        || same_text(name, "recv") || same_text(name, "send") || same_text(name, "lock")
        || same_text(name, "read") || same_text(name, "write")
}

fn blocking_function(name: &str) -> (b: bool)
    ensures
        b == is_blocking_function(name@),
{
    same_text(name, "thread::sleep") || same_text(name, "std::thread::sleep") || same_text(
        name,
        "sleep",
    )
}

fn blocking_call(nodes: &Vec<SyntaxNode>, i: usize) -> (r: Option<Finding>)
    requires
        well_formed(nodes@),
        i < nodes@.len(),
    ensures
        option_view(r) == blocking_at(nodes@, i as int),
{
    match &nodes[i].kind {
        NodeKind::MethodCall(c) => {
            if within_async_fn(nodes, i) && blocking_method(c.method.as_str()) {
                Some(
                    Finding {
                        subject: c.method.clone(),
                        value: 0,
                        context: concat3(".", c.method.as_str(), "()"),
                    },
                )
            } else {
                None
            }
        },
        NodeKind::Call { callee: Some(n) } => {
            if within_async_fn(nodes, i) && blocking_function(n.as_str()) {
                Some(Finding { subject: n.clone(), value: 0, context: concat2(n.as_str(), "()") })
            } else {
                None
            }
        },
        _ => None,
    }
}

/// A node that asserts: an `assert…!` macro in expression position, or a call of
/// a function called `assert…` or `panic`.
pub open spec fn asserts(kind: NodeKind) -> bool {
    match kind {
        NodeKind::Macro(m) => m.position == MacroPosition::Expression && (match m.name {
            Some(n) => has_prefix(n@, "assert"@),
            None => false,
        }),
        NodeKind::Call { callee: Some(n) } => has_prefix(n@, "assert"@) || n@ == "panic"@,
        _ => false,
    }
}

/// Whether a node at one of the positions `lo` up to `hi` asserts.
pub open spec fn asserts_within(nodes: Seq<SyntaxNode>, lo: int, hi: int) -> bool {
    exists|k: int| lo <= k < hi && asserts(#[trigger] nodes[k].kind)
}

fn is_assertion(kind: &NodeKind) -> (b: bool)
    ensures
        b == asserts(*kind),
{
    match kind {
        NodeKind::Macro(m) => {
            if !matches!(m.position, MacroPosition::Expression) {
                return false;
            }
            match &m.name {
                Some(n) => {
                    let name = chars_of(n.as_str());
                    let lead = chars_of("assert");
                    starts_with(name.as_slice(), lead.as_slice())
                },
                None => false,
            }
        },
        NodeKind::Call { callee: Some(n) } => {
            let name = chars_of(n.as_str());
            let lead = chars_of("assert");
            starts_with(name.as_slice(), lead.as_slice()) || same_text(n.as_str(), "panic")
        },
        _ => false,
    }
}

fn has_assertion(nodes: &Vec<SyntaxNode>, lo: usize, hi: usize) -> (b: bool)
    requires
        lo <= hi <= nodes@.len(),
    ensures
        b == asserts_within(nodes@, lo as int, hi as int),
{
    let mut k: usize = lo;
    while k < hi
        invariant
            lo <= k <= hi <= nodes@.len(),
            forall|j: int| lo <= j < k ==> !asserts(#[trigger] nodes@[j].kind),
        decreases hi - k,
    {
        if is_assertion(&nodes[k].kind) {
            return true;
        }
        k += 1;
    }
    false
}

/// A test function whose body asserts nothing.
pub open spec fn unasserted_at(nodes: Seq<SyntaxNode>, i: int) -> Option<FindingView> {
    match nodes[i].kind {
        NodeKind::Function(f) => if has_attribute(f.attributes@, "test"@) && !asserts_within(
            nodes,
            body_range(nodes, i).0,
            body_range(nodes, i).1,
        ) {
            Some(plain_finding(f.name@, "#[test] fn "@ + f.name@))
        } else {
            None
        },
        _ => None,
    }
}

fn unasserted_test(nodes: &Vec<SyntaxNode>, i: usize) -> (r: Option<Finding>)
    requires
        i < nodes@.len(),
    ensures
        option_view(r) == unasserted_at(nodes@, i as int),
{
    match &nodes[i].kind {
        NodeKind::Function(f) => {
            if !is_listed(&f.attributes, "test") {
                return None;
            }
            let (lo, hi) = body_range_of(nodes, i, f);
            if has_assertion(nodes, lo, hi) {
                None
            } else {
                Some(
                    Finding {
                        subject: f.name.clone(),
                        value: 0,
                        context: concat2("#[test] fn ", f.name.as_str()),
                    },
                )
            }
        },
        _ => None,
    }
}

/// `s` without every leading repetition of `p`.
pub open spec fn without_leading(s: Seq<char>, p: Seq<char>) -> Seq<char>
    decreases s.len(),
{
    if p.len() > 0 && has_prefix(s, p) {
        without_leading(s.skip(p.len() as int), p)
    } else {
        s
    }
}

fn strip_leading(s: &[char], p: &[char]) -> (out: Vec<char>)
    ensures
        out@ == without_leading(s@, p@),
{
    let mut from: usize = 0;
    assert(s@.skip(0) =~= s@);
    if p.len() > 0 {
        while crate::text::matches_at(s, p, from)
            invariant
                from <= s.len(),
                p.len() > 0,
                without_leading(s@, p@) == without_leading(s@.skip(from as int), p@),
            decreases s.len() - from,
        {
            proof {
                let rest = s@.skip(from as int);
                assert(rest.subrange(0, p@.len() as int) =~= s@.subrange(
                    from as int,
                    from + p@.len(),
                ));
                assert(rest.skip(p@.len() as int) =~= s@.skip(from + p@.len()));
            }
            from += p.len();
        }
        proof {
            let rest = s@.skip(from as int);
            if from + p@.len() <= s@.len() {
                assert(rest.subrange(0, p@.len() as int) =~= s@.subrange(
                    from as int,
                    from + p@.len(),
                ));
            }
        }
    }
    let out = slice_of(s, from, s.len());
    assert(out@ =~= s@.skip(from as int));
    out
}

/// The text of an import in the form that layering rules are matched on:
/// `use `, the import without any leading `use `, and `;`.
pub open spec fn import_text(text: Seq<char>) -> Seq<char> {
    "use "@ + without_leading(text, "use "@) + ";"@
}

fn import_line(text: &str) -> (s: String)
    ensures
        s@ == import_text(text@),
{
    let chars = chars_of(text);
    let lead = chars_of("use ");
    let rest = strip_leading(chars.as_slice(), lead.as_slice());
    let rest_text = string_of(rest.as_slice());
    concat3("use ", rest_text.as_str(), ";")
}

/// An import whose text the expression matches.
pub open spec fn import_at(source: Seq<char>, fold_case: bool, kind: NodeKind) -> Option<
    FindingView,
> {
    match kind {
        NodeKind::Use { text } => if regex_spans(source, fold_case, import_text(text@)).len() > 0 {
            Some(plain_finding(import_text(text@), import_text(text@)))
        } else {
            None
        },
        _ => None,
    }
}

fn layering_import(re: &Expression, kind: &NodeKind) -> (r: Option<Finding>)
    ensures
        option_view(r) == import_at(re.source(), re.folds_case(), *kind),
{
    match kind {
        NodeKind::Use { text } => {
            let line = import_line(text.as_str());
            if re.is_match(line.as_str()) {
                Some(Finding { subject: line.clone(), value: 0, context: line })
            } else {
                None
            }
        },
        _ => None,
    }
}

// ---------------------------------------------------------------------------
// The scan
// ---------------------------------------------------------------------------

/// One finding, or none, as a list.
pub open spec fn listed(o: Option<FindingView>) -> Seq<FindingView> {
    match o {
        Some(f) => seq![f],
        None => Seq::<FindingView>::empty(),
    }
}

/// What a check finds at the node at position `i`.
pub open spec fn findings_at(nodes: Seq<SyntaxNode>, check: CheckView, i: int) -> Seq<FindingView> {
    let kind = nodes[i].kind;
    match check {
        CheckView::MacroCall(names) => listed(macro_call_at(names, kind)),
        CheckView::EmptyOkReturn => listed(empty_ok_at(kind)),
        CheckView::MissingArchitecturalHeader => Seq::<FindingView>::empty(),
        CheckView::EmptyFunctionBody => listed(empty_body_at(kind)),
        CheckView::UnwrapOrExpectWithoutMessage => listed(unwrap_at(kind)),
        CheckView::AbstractionLayerViolation { source, fold_case } => listed(
            import_at(source, fold_case, kind),
        ),
        CheckView::CyclomaticComplexity(t) => listed(complex_at(nodes, t, i)),
        CheckView::PublicWithoutDocs => listed(undocumented_at(kind)),
        CheckView::FunctionLinesGt(t) => listed(long_at(t, kind)),
        CheckView::NestingDepthGt(t) => listed(deep_at(nodes, t, i)),
        CheckView::FunctionArgsGt(t) => listed(many_args_at(t, kind)),
        CheckView::BlockingCallInAsync => listed(blocking_at(nodes, i)),
        CheckView::FutureNotAwaited => listed(future_at(kind)),
        CheckView::SelectWithoutBiased => listed(select_at(kind)),
        CheckView::GenericWithoutBounds => unbounded_at(kind),
        CheckView::TestFnWithoutAssertion => listed(unasserted_at(nodes, i)),
        CheckView::ImplWithoutTrait => listed(inherent_impl_at(kind)),
        CheckView::UnsafeBlock => listed(unsafe_at(kind)),
        CheckView::IgnoredTestAttribute => listed(ignored_test_at(kind)),
    }
}

/// The name that an attribute marker stands for: `#[test]` stands for `test`.
pub open spec fn marker_name(marker: Seq<char>) -> Seq<char> {
    if marker.len() >= 3 && has_prefix(marker, seq!['#', '[']) && marker.last() == ']' {
        marker.subrange(2, marker.len() - 1)
    } else {
        marker
    }
}

/// The attributes of a node that can carry attributes.
pub open spec fn attributes_of(kind: NodeKind) -> Seq<String> {
    match kind {
        NodeKind::Function(f) => f.attributes@,
        NodeKind::Struct(s) => s.attributes@,
        NodeKind::Enum(s) => s.attributes@,
        NodeKind::Trait(s) => s.attributes@,
        _ => Seq::<String>::empty(),
    }
}

/// Whether the node at position `j`, or a node that encloses it, carries the
/// attribute called `name`.
pub open spec fn is_marked(nodes: Seq<SyntaxNode>, name: Seq<char>, j: int) -> bool
    decreases j,
{
    if j < 0 || j >= nodes.len() {
        false
    } else {
        has_attribute(attributes_of(nodes[j].kind), name) || (match nodes[j].parent {
            Some(p) => p < j && is_marked(nodes, name, p as int),
            None => false,
        })
    }
}

/// Whether the structural context of node `j` confirms an optional marker.
pub open spec fn confirms(nodes: Seq<SyntaxNode>, marker: Option<Seq<char>>, j: int) -> bool {
    match marker {
        Some(m) => is_marked(nodes, marker_name(m), j),
        None => false,
    }
}

/// What a check finds at the first `n` nodes, in source order, leaving out the
/// nodes whose context confirms the marker.
pub open spec fn findings(
    nodes: Seq<SyntaxNode>,
    check: CheckView,
    marker: Option<Seq<char>>,
    n: int,
) -> Seq<FindingView>
    decreases n,
{
    if n <= 0 {
        Seq::<FindingView>::empty()
    } else if confirms(nodes, marker, n - 1) {
        findings(nodes, check, marker, n - 1)
    } else {
        findings(nodes, check, marker, n - 1) + findings_at(nodes, check, n - 1)
    }
}

fn as_list(o: Option<Finding>) -> (out: Vec<Finding>)
    ensures
        finding_views(out@) == listed(option_view(o)),
{
    let mut out: Vec<Finding> = Vec::new();
    match o {
        Some(f) => {
            out.push(f);
            assert(finding_views(out@) =~= seq![f@]);
        },
        None => {
            assert(finding_views(out@) =~= Seq::<FindingView>::empty());
        },
    }
    out
}

fn node_findings(nodes: &Vec<SyntaxNode>, check: &AstPatternType, i: usize) -> (out: Vec<Finding>)
    requires
        well_formed(nodes@),
        i < nodes@.len(),
    ensures
        finding_views(out@) == findings_at(nodes@, check@, i as int),
{
    let kind = &nodes[i].kind;
    match check {
        AstPatternType::MacroCall(names) => as_list(macro_call(names, kind)),
        AstPatternType::EmptyOkReturn => as_list(empty_ok(kind)),
        AstPatternType::MissingArchitecturalHeader => as_list(None),
        AstPatternType::EmptyFunctionBody => as_list(empty_body(kind)),
        AstPatternType::UnwrapOrExpectWithoutMessage => as_list(unwrap_call(kind)),
        AstPatternType::AbstractionLayerViolation(re) => as_list(layering_import(re, kind)),
        AstPatternType::CyclomaticComplexity(t) => as_list(complex_function(nodes, *t, i)),
        AstPatternType::PublicWithoutDocs => as_list(undocumented(kind)),
        AstPatternType::FunctionLinesGt(t) => as_list(long_function(*t, kind)),
        AstPatternType::NestingDepthGt(t) => as_list(deep_nesting(nodes, *t, i)),
        AstPatternType::FunctionArgsGt(t) => as_list(many_args(*t, kind)),
        AstPatternType::BlockingCallInAsync => as_list(blocking_call(nodes, i)),
        AstPatternType::FutureNotAwaited => as_list(future_call(kind)),
        AstPatternType::SelectWithoutBiased => as_list(select_macro(kind)),
        AstPatternType::GenericWithoutBounds => unbounded_generics(kind),
        AstPatternType::TestFnWithoutAssertion => as_list(unasserted_test(nodes, i)),
        AstPatternType::ImplWithoutTrait => as_list(inherent_impl(kind)),
        AstPatternType::UnsafeBlock => as_list(unsafe_code(kind)),
        AstPatternType::IgnoredTestAttribute => as_list(ignored_test(kind)),
    }
}

fn name_of_marker(marker: &str) -> (name: String)
    ensures
        name@ == marker_name(marker@),
{
    let m = chars_of(marker);
    let n = m.len();
    if n >= 3 && m[0] == '#' && m[1] == '[' && m[n - 1] == ']' {
        assert(m@.subrange(0, 2) =~= seq!['#', '[']);
        let inner = slice_of(m.as_slice(), 2, n - 1);
        string_of(inner.as_slice())
    } else {
        proof {
            if n >= 3 && has_prefix(m@, seq!['#', '[']) {
                assert(m@.subrange(0, 2)[0] == m@[0]);
                assert(m@.subrange(0, 2)[1] == m@[1]);
            }
        }
        string_of(m.as_slice())
    }
}

fn carries(kind: &NodeKind, name: &str) -> (b: bool)
    ensures
        b == has_attribute(attributes_of(*kind), name@),
{
    match kind {
        NodeKind::Function(f) => is_listed(&f.attributes, name),
        NodeKind::Struct(s) => is_listed(&s.attributes, name),
        NodeKind::Enum(s) => is_listed(&s.attributes, name),
        NodeKind::Trait(s) => is_listed(&s.attributes, name),
        _ => {
            assert(string_texts(Seq::<String>::empty()) =~= Seq::<Seq<char>>::empty());
            false
        },
    }
}

fn marked(nodes: &Vec<SyntaxNode>, name: &str, j: usize) -> (b: bool)
    requires
        well_formed(nodes@),
        j < nodes@.len(),
    ensures
        b == is_marked(nodes@, name@, j as int),
{
    let mut at: usize = j;
    loop
        invariant
            well_formed(nodes@),
            at < nodes@.len(),
            is_marked(nodes@, name@, at as int) == is_marked(nodes@, name@, j as int),
        decreases at,
    {
        if carries(&nodes[at].kind, name) {
            return true;
        }
        match nodes[at].parent {
            Some(p) => {
                at = p;
            },
            None => {
                return false;
            },
        }
    }
}

/// Everything that a check finds in a tree, in source order, outside the code
/// that carries the attribute which `marker` names.
pub fn structural_findings(tree: &SyntaxTree, check: &AstPatternType, marker: &Option<String>) -> (out:
    Vec<Finding>)
    ensures
        finding_views(out@) == findings(
            tree@,
            check@,
            crate::domain::violations::opt_text(*marker),
            tree@.len() as int,
        ),
{
    let nodes = tree.nodes();
    let ghost m = crate::domain::violations::opt_text(*marker);
    let name: Option<String> = match marker {
        Some(text) => Some(name_of_marker(text.as_str())),
        None => None,
    };
    let mut out: Vec<Finding> = Vec::new();
    let mut i: usize = 0;
    assert(finding_views(out@) =~= findings(nodes@, check@, m, 0));
    while i < nodes.len()
        invariant
            i <= nodes.len(),
            well_formed(nodes@),
            m == crate::domain::violations::opt_text(*marker),
            match name {
                Some(n) => m is Some && n@ == marker_name(m->0),
                None => m is None,
            },
            finding_views(out@) == findings(nodes@, check@, m, i as int),
        decreases nodes.len() - i,
    {
        let skip = match &name {
            Some(n) => marked(nodes, n.as_str(), i),
            None => false,
        };
        if !skip {
            let mut here = node_findings(nodes, check, i);
            let ghost before = out@;
            let ghost added = here@;
            out.append(&mut here);
            assert(finding_views(before + added) =~= finding_views(before) + finding_views(added));
        }
        i += 1;
    }
    out
}

} // verus!
